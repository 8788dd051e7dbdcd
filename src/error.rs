//! Configuration errors found while resolving a field's annotations.
use vstd::prelude::*;
use vstd::string::*;

verus! {

/// Which kind of annotation was given twice.
#[derive(Clone, Copy, Debug, PartialEq, Eq, Structural)]
pub enum AttrKind {
    Message,
    Boxed,
    Tag,
    Label,
}

/// Why a field's annotations cannot be resolved.
#[derive(Clone, Debug)]
pub enum FieldError {
    /// The same marker or key appeared more than once.
    DuplicateAttribute(AttrKind),
    /// An annotation named `tag` whose value is not a positive `u32`.
    InvalidTag,
    /// Annotations that a message field does not understand, by name.
    UnrecognizedAttribute(Vec<String>),
    /// The field is a message field but has no tag and no default applies.
    MissingTag,
    /// A cardinality annotation on a oneof variant, by name.
    InvalidAttribute(String),
}

/// `FieldError` with its strings seen as character sequences.
pub enum FieldErrorView {
    DuplicateAttribute(AttrKind),
    InvalidTag,
    UnrecognizedAttribute(Seq<Seq<char>>),
    MissingTag,
    InvalidAttribute(Seq<char>),
}

pub open spec fn names_view(v: Seq<String>) -> Seq<Seq<char>> {
    v.map_values(|s: String| s@)
}

impl View for FieldError {
    type V = FieldErrorView;

    open spec fn view(&self) -> FieldErrorView {
        match self {
            FieldError::DuplicateAttribute(k) => FieldErrorView::DuplicateAttribute(*k),
            FieldError::InvalidTag => FieldErrorView::InvalidTag,
            FieldError::UnrecognizedAttribute(v) => FieldErrorView::UnrecognizedAttribute(
                names_view(v@),
            ),
            FieldError::MissingTag => FieldErrorView::MissingTag,
            FieldError::InvalidAttribute(n) => FieldErrorView::InvalidAttribute(n@),
        }
    }
}

/// Names separated by a comma and a space.
pub open spec fn join_names(names: Seq<Seq<char>>) -> Seq<char>
    decreases names.len(),
{
    if names.len() == 0 {
        Seq::empty()
    } else if names.len() == 1 {
        names[0]
    } else {
        join_names(names.drop_last()) + ", "@ + names.last()
    }
}

/// The text that describes an error.
pub open spec fn error_text(e: FieldErrorView) -> Seq<char> {
    match e {
        FieldErrorView::DuplicateAttribute(AttrKind::Message) => "duplicate message attribute"@,
        FieldErrorView::DuplicateAttribute(AttrKind::Boxed) => "duplicate boxed attribute"@,
        FieldErrorView::DuplicateAttribute(AttrKind::Tag) => "duplicate tag attributes"@,
        FieldErrorView::DuplicateAttribute(AttrKind::Label) => "duplicate label attributes"@,
        FieldErrorView::InvalidTag => "invalid tag attribute"@,
        FieldErrorView::UnrecognizedAttribute(names) => if names.len() == 1 {
            "unknown attribute for message field: "@ + names[0]
        } else {
            "unknown attributes for message field: "@ + join_names(names)
        },
        FieldErrorView::MissingTag => "message field is missing a tag attribute"@,
        FieldErrorView::InvalidAttribute(name) => "invalid attribute for oneof field: "@ + name,
    }
}

fn push_joined(out: &mut String, names: &Vec<String>)
    ensures
        final(out)@ == old(out)@ + join_names(names_view(names@)),
{
    let ghost start = out@;
    let mut i: usize = 0;
    while i < names.len()
        invariant
            0 <= i <= names@.len(),
            out@ == start + join_names(names_view(names@).take(i as int)),
        decreases names@.len() - i,
    {
        let ghost done = names_view(names@).take(i as int);
        if i > 0 {
            out.append(", ");
        }
        out.append(names[i].as_str());
        proof {
            let next = names_view(names@).take(i + 1);
            assert(next.drop_last() =~= done);
            if i == 0 {
                assert(done =~= Seq::<Seq<char>>::empty());
            }
            assert(out@ =~= start + join_names(next));
        }
        i = i + 1;
    }
    assert(names_view(names@).take(i as int) =~= names_view(names@));
}

impl FieldError {
    /// A description of the error for the author of the annotations.
    pub fn message(&self) -> (r: String)
        ensures
            r@ == error_text(self@),
    {
        match self {
            FieldError::DuplicateAttribute(AttrKind::Message) => String::from_str(
                "duplicate message attribute",
            ),
            FieldError::DuplicateAttribute(AttrKind::Boxed) => String::from_str(
                "duplicate boxed attribute",
            ),
            FieldError::DuplicateAttribute(AttrKind::Tag) => String::from_str(
                "duplicate tag attributes",
            ),
            FieldError::DuplicateAttribute(AttrKind::Label) => String::from_str(
                "duplicate label attributes",
            ),
            FieldError::InvalidTag => String::from_str("invalid tag attribute"),
            FieldError::UnrecognizedAttribute(names) => {
                if names.len() == 1 {
                    let mut s = String::from_str("unknown attribute for message field: ");
                    s.append(names[0].as_str());
                    s
                } else {
                    let mut s = String::from_str("unknown attributes for message field: ");
                    push_joined(&mut s, names);
                    s
                }
            },
            FieldError::MissingTag => String::from_str("message field is missing a tag attribute"),
            FieldError::InvalidAttribute(name) => {
                let mut s = String::from_str("invalid attribute for oneof field: ");
                s.append(name.as_str());
                s
            },
        }
    }
}

} // verus!
