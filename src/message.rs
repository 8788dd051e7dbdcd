//! Message-typed fields: resolving their annotations into a descriptor.
use vstd::prelude::*;
use crate::attr::{Annotation, AttrClass, Label, class_of, classify, annotation_name};
use crate::error::{AttrKind, FieldError, FieldErrorView, names_view};
use crate::text::{decimal, push_decimal};
use vstd::string::*;

verus! {

/// A validated message field: its cardinality and its wire tag.
#[derive(Clone, Copy, Debug, PartialEq, Eq, Structural)]
pub struct Field {
    pub label: Label,
    pub tag: u32,
}

/// What the scan of a field's annotations has gathered so far.
pub struct ScanState {
    pub message: bool,
    pub boxed: bool,
    pub tag: Option<u32>,
    pub label: Option<Label>,
    pub unknown: Seq<Seq<char>>,
}

pub open spec fn scan_start() -> ScanState {
    ScanState { message: false, boxed: false, tag: None, label: None, unknown: Seq::empty() }
}

/// Takes one annotation into the scan; a second occurrence of a kind fails.
pub open spec fn scan_step(s: ScanState, a: Annotation) -> Result<ScanState, FieldErrorView> {
    match class_of(a) {
        AttrClass::Message => if s.message {
            Err(FieldErrorView::DuplicateAttribute(AttrKind::Message))
        } else {
            Ok(ScanState { message: true, ..s })
        },
        AttrClass::Boxed => if s.boxed {
            Err(FieldErrorView::DuplicateAttribute(AttrKind::Boxed))
        } else {
            Ok(ScanState { boxed: true, ..s })
        },
        AttrClass::Tag(t) => if s.tag is Some {
            Err(FieldErrorView::DuplicateAttribute(AttrKind::Tag))
        } else {
            Ok(ScanState { tag: Some(t), ..s })
        },
        AttrClass::BadTag => Err(FieldErrorView::InvalidTag),
        AttrClass::Label(l) => if s.label is Some {
            Err(FieldErrorView::DuplicateAttribute(AttrKind::Label))
        } else {
            Ok(ScanState { label: Some(l), ..s })
        },
        AttrClass::Unknown => Ok(ScanState { unknown: s.unknown.push(a.name_view()), ..s }),
    }
}

/// The scan of the first `n` annotations, stopping at the first failure.
pub open spec fn scan(attrs: Seq<Annotation>, n: nat) -> Result<ScanState, FieldErrorView>
    decreases n,
{
    if n == 0 {
        Ok(scan_start())
    } else {
        match scan(attrs, (n - 1) as nat) {
            Err(e) => Err(e),
            Ok(s) => scan_step(s, attrs[n - 1]),
        }
    }
}

/// Standard resolution of a field's annotations, with the tag implied by the
/// field's position as `default_tag`.
pub open spec fn resolve(attrs: Seq<Annotation>, default_tag: Option<u32>) -> Result<
    Option<Field>,
    FieldErrorView,
> {
    match scan(attrs, attrs.len()) {
        Err(e) => Err(e),
        Ok(s) => if !s.message {
            Ok(None)
        } else if s.unknown.len() > 0 {
            Err(FieldErrorView::UnrecognizedAttribute(s.unknown))
        } else {
            let tag = if s.tag is Some {
                s.tag
            } else {
                default_tag
            };
            match tag {
                None => Err(FieldErrorView::MissingTag),
                Some(t) => Ok(
                    Some(
                        Field {
                            label: match s.label {
                                Some(l) => l,
                                None => Label::Optional,
                            },
                            tag: t,
                        },
                    ),
                ),
            }
        },
    }
}

/// The name of the first cardinality annotation at or after index `i`.
pub open spec fn first_label_from(attrs: Seq<Annotation>, i: int) -> Option<Seq<char>>
    decreases attrs.len() - i,
{
    if i < 0 || i >= attrs.len() {
        None
    } else if class_of(attrs[i]) is Label {
        Some(attrs[i].name_view())
    } else {
        first_label_from(attrs, i + 1)
    }
}

/// Resolution of a oneof variant: no default tag, no cardinality annotation,
/// and the cardinality is always `Required`.
pub open spec fn resolve_oneof(attrs: Seq<Annotation>) -> Result<Option<Field>, FieldErrorView> {
    match resolve(attrs, None) {
        Ok(Some(f)) => match first_label_from(attrs, 0) {
            Some(name) => Err(FieldErrorView::InvalidAttribute(name)),
            None => Ok(Some(Field { label: Label::Required, tag: f.tag })),
        },
        r => r,
    }
}

/// Once the scan has failed, it stays failed with the same error.
pub proof fn lemma_scan_err_stays(attrs: Seq<Annotation>, m: nat, n: nat)
    requires
        m <= n,
        scan(attrs, m) is Err,
    ensures
        scan(attrs, n) == scan(attrs, m),
    decreases n - m,
{
    if m < n {
        lemma_scan_err_stays(attrs, m, (n - 1) as nat);
    }
}

/// The tag as a `u32` literal in generated code.
pub open spec fn tag_literal(tag: u32) -> Seq<char> {
    decimal(tag as nat) + "u32"@
}

/// Code that writes the field at `place` to `buf`: once if present, always,
/// or once per element.
pub open spec fn encode_text(f: Field, place: Seq<char>) -> Seq<char> {
    match f.label {
        Label::Optional => "if let ::std::option::Option::Some(ref msg) = "@ + place
            + " { _prost::encoding::message::encode("@ + tag_literal(f.tag) + ", msg, buf); }"@,
        Label::Required => "_prost::encoding::message::encode("@ + tag_literal(f.tag) + ", &"@
            + place + ", buf);"@,
        Label::Repeated => "for msg in &"@ + place + " { _prost::encoding::message::encode("@
            + tag_literal(f.tag) + ", msg, buf); }"@,
    }
}

/// Code that merges one occurrence read from `buf` into the field at `place`.
pub open spec fn merge_text(f: Field, place: Seq<char>) -> Seq<char> {
    match f.label {
        Label::Optional => "_prost::encoding::message::merge(wire_type, "@ + place
            + ".get_or_insert_with(::std::default::Default::default), buf)"@,
        Label::Required => "_prost::encoding::message::merge(wire_type, &mut "@ + place
            + ", buf)"@,
        Label::Repeated => "_prost::encoding::message::merge_repeated(wire_type, &mut "@ + place
            + ", buf)"@,
    }
}

/// An expression for the number of bytes that `encode_text` writes.
pub open spec fn encoded_len_text(f: Field, place: Seq<char>) -> Seq<char> {
    match f.label {
        Label::Optional => place + ".as_ref().map_or(0, |msg| _prost::encoding::message::encoded_len("@
            + tag_literal(f.tag) + ", msg))"@,
        Label::Required => "_prost::encoding::message::encoded_len("@ + tag_literal(f.tag)
            + ", &"@ + place + ")"@,
        Label::Repeated => "_prost::encoding::message::encoded_len_repeated("@ + tag_literal(
            f.tag,
        ) + ", &"@ + place + ")"@,
    }
}

/// Code that resets the field at `place` to its empty state.
pub open spec fn clear_text(f: Field, place: Seq<char>) -> Seq<char> {
    match f.label {
        Label::Optional => place + " = ::std::option::Option::None"@,
        Label::Required => place + ".clear()"@,
        Label::Repeated => place + ".clear()"@,
    }
}

fn push_tag_literal(out: &mut String, tag: u32)
    ensures
        final(out)@ == old(out)@ + tag_literal(tag),
{
    push_decimal(out, tag);
    out.append("u32");
    assert(out@ =~= old(out)@ + tag_literal(tag));
}

pub open spec fn result_view(r: Result<Option<Field>, FieldError>) -> Result<
    Option<Field>,
    FieldErrorView,
> {
    match r {
        Ok(f) => Ok(f),
        Err(e) => Err(e@),
    }
}

impl Field {
    /// Resolves the annotations of a field. `Ok(None)` means that the field is
    /// not a message field.
    pub fn new(attrs: &[Annotation], default_tag: Option<u32>) -> (r: Result<
        Option<Field>,
        FieldError,
    >)
        ensures
            result_view(r) == resolve(attrs@, default_tag),
    {
        let mut message = false;
        let mut boxed = false;
        let mut tag: Option<u32> = None;
        let mut label: Option<Label> = None;
        let mut unknown: Vec<String> = Vec::new();
        let mut i: usize = 0;
        assert(names_view(unknown@) =~= Seq::<Seq<char>>::empty());
        while i < attrs.len()
            invariant
                0 <= i <= attrs@.len(),
                scan(attrs@, i as nat) == Ok::<ScanState, FieldErrorView>(
                    ScanState { message, boxed, tag, label, unknown: names_view(unknown@) },
                ),
            decreases attrs@.len() - i,
        {
            let a = &attrs[i];
            let ghost before = ScanState { message, boxed, tag, label, unknown: names_view(unknown@) };
            match classify(a) {
                AttrClass::Message => {
                    if message {
                        proof {
                            lemma_scan_err_stays(attrs@, (i + 1) as nat, attrs@.len());
                        }
                        return Err(FieldError::DuplicateAttribute(AttrKind::Message));
                    }
                    message = true;
                },
                AttrClass::Boxed => {
                    if boxed {
                        proof {
                            lemma_scan_err_stays(attrs@, (i + 1) as nat, attrs@.len());
                        }
                        return Err(FieldError::DuplicateAttribute(AttrKind::Boxed));
                    }
                    boxed = true;
                },
                AttrClass::Tag(t) => {
                    if tag.is_some() {
                        proof {
                            lemma_scan_err_stays(attrs@, (i + 1) as nat, attrs@.len());
                        }
                        return Err(FieldError::DuplicateAttribute(AttrKind::Tag));
                    }
                    tag = Some(t);
                },
                AttrClass::BadTag => {
                    proof {
                        lemma_scan_err_stays(attrs@, (i + 1) as nat, attrs@.len());
                    }
                    return Err(FieldError::InvalidTag);
                },
                AttrClass::Label(l) => {
                    if label.is_some() {
                        proof {
                            lemma_scan_err_stays(attrs@, (i + 1) as nat, attrs@.len());
                        }
                        return Err(FieldError::DuplicateAttribute(AttrKind::Label));
                    }
                    label = Some(l);
                },
                AttrClass::Unknown => {
                    let name = annotation_name(a);
                    unknown.push(name);
                    proof {
                        assert(names_view(unknown@) =~= before.unknown.push(a.name_view()));
                    }
                },
            }
            i = i + 1;
        }
        assert(attrs@.len() == i);
        if !message {
            return Ok(None);
        }
        if unknown.len() > 0 {
            return Err(FieldError::UnrecognizedAttribute(unknown));
        }
        if tag.is_none() {
            tag = default_tag;
        }
        match tag {
            None => Err(FieldError::MissingTag),
            Some(t) => {
                let l = match label {
                    Some(l) => l,
                    None => Label::Optional,
                };
                Ok(Some(Field { label: l, tag: t }))
            },
        }
    }

    /// Resolves the annotations of a oneof variant. `Ok(None)` means that the
    /// variant is not a message field.
    pub fn new_oneof(attrs: &[Annotation]) -> (r: Result<Option<Field>, FieldError>)
        ensures
            result_view(r) == resolve_oneof(attrs@),
    {
        let resolved = Field::new(attrs, None);
        let field = match resolved {
            Err(e) => return Err(e),
            Ok(None) => return Ok(None),
            Ok(Some(f)) => f,
        };
        let mut i: usize = 0;
        while i < attrs.len()
            invariant
                0 <= i <= attrs@.len(),
                first_label_from(attrs@, 0) == first_label_from(attrs@, i as int),
                resolve(attrs@, None) == Ok::<Option<Field>, FieldErrorView>(Some(field)),
            decreases attrs@.len() - i,
        {
            if let AttrClass::Label(_) = classify(&attrs[i]) {
                assert(first_label_from(attrs@, i as int) == Some(attrs@[i as int].name_view()));
                let name = annotation_name(&attrs[i]);
                return Err(FieldError::InvalidAttribute(name));
            }
            i = i + 1;
        }
        Ok(Some(Field { label: Label::Required, tag: field.tag }))
    }

    /// The code that encodes this field, stored at `ident`.
    pub fn encode(&self, ident: &str) -> (r: String)
        ensures
            r@ == encode_text(*self, ident@),
    {
        match self.label {
            Label::Optional => {
                let mut s = String::from_str("if let ::std::option::Option::Some(ref msg) = ");
                s.append(ident);
                s.append(" { _prost::encoding::message::encode(");
                push_tag_literal(&mut s, self.tag);
                s.append(", msg, buf); }");
                s
            },
            Label::Required => {
                let mut s = String::from_str("_prost::encoding::message::encode(");
                push_tag_literal(&mut s, self.tag);
                s.append(", &");
                s.append(ident);
                s.append(", buf);");
                s
            },
            Label::Repeated => {
                let mut s = String::from_str("for msg in &");
                s.append(ident);
                s.append(" { _prost::encoding::message::encode(");
                push_tag_literal(&mut s, self.tag);
                s.append(", msg, buf); }");
                s
            },
        }
    }

    /// The code that merges one occurrence into this field, stored at `ident`.
    pub fn merge(&self, ident: &str) -> (r: String)
        ensures
            r@ == merge_text(*self, ident@),
    {
        match self.label {
            Label::Optional => {
                let mut s = String::from_str("_prost::encoding::message::merge(wire_type, ");
                s.append(ident);
                s.append(".get_or_insert_with(::std::default::Default::default), buf)");
                s
            },
            Label::Required => {
                let mut s = String::from_str("_prost::encoding::message::merge(wire_type, &mut ");
                s.append(ident);
                s.append(", buf)");
                s
            },
            Label::Repeated => {
                let mut s = String::from_str(
                    "_prost::encoding::message::merge_repeated(wire_type, &mut ",
                );
                s.append(ident);
                s.append(", buf)");
                s
            },
        }
    }

    /// The expression for the encoded length of this field, stored at `ident`.
    pub fn encoded_len(&self, ident: &str) -> (r: String)
        ensures
            r@ == encoded_len_text(*self, ident@),
    {
        match self.label {
            Label::Optional => {
                let mut s = String::from_str(ident);
                s.append(".as_ref().map_or(0, |msg| _prost::encoding::message::encoded_len(");
                push_tag_literal(&mut s, self.tag);
                s.append(", msg))");
                s
            },
            Label::Required => {
                let mut s = String::from_str("_prost::encoding::message::encoded_len(");
                push_tag_literal(&mut s, self.tag);
                s.append(", &");
                s.append(ident);
                s.append(")");
                s
            },
            Label::Repeated => {
                let mut s = String::from_str("_prost::encoding::message::encoded_len_repeated(");
                push_tag_literal(&mut s, self.tag);
                s.append(", &");
                s.append(ident);
                s.append(")");
                s
            },
        }
    }

    /// The code that clears this field, stored at `ident`.
    pub fn clear(&self, ident: &str) -> (r: String)
        ensures
            r@ == clear_text(*self, ident@),
    {
        let mut s = String::from_str(ident);
        match self.label {
            Label::Optional => s.append(" = ::std::option::Option::None"),
            Label::Required => s.append(".clear()"),
            Label::Repeated => s.append(".clear()"),
        }
        s
    }
}

} // verus!
