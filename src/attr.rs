//! Field annotations as plain values, and their classification.
use vstd::prelude::*;
use vstd::string::*;

verus! {

/// Cardinality of a field: how many values its storage holds.
#[derive(Clone, Copy, Debug, PartialEq, Eq, Structural)]
pub enum Label {
    Optional,
    Required,
    Repeated,
}

/// The literal carried by a key/value or list annotation.
#[derive(Clone, Debug)]
pub enum AttrValue {
    /// An integer literal, `tag = 5` or `tag(5)`.
    Int(u64),
    /// A string literal, `tag = "5"`.
    Str(String),
    /// Any other literal or nested item.
    Other,
}

/// One annotation on a field: a bare word, a list `name(..)`, or a key/value
/// pair `name = value`.
#[derive(Clone, Debug)]
pub enum Annotation {
    Word(String),
    List(String, Vec<AttrValue>),
    NameValue(String, AttrValue),
}

/// What an annotation means to a message field.
#[derive(Clone, Copy, Debug, PartialEq, Eq, Structural)]
pub enum AttrClass {
    /// The bare marker `message`.
    Message,
    /// The bare marker `boxed`.
    Boxed,
    /// A well-formed `tag` annotation with its value.
    Tag(u32),
    /// An annotation named `tag` whose value is not a positive `u32`.
    BadTag,
    /// A bare cardinality word.
    Label(Label),
    /// Anything else.
    Unknown,
}

impl Annotation {
    pub open spec fn name_view(self) -> Seq<char> {
        match self {
            Annotation::Word(n) => n@,
            Annotation::List(n, _) => n@,
            Annotation::NameValue(n, _) => n@,
        }
    }
}

pub open spec fn is_digit(c: char) -> bool {
    '0' <= c && c <= '9'
}

/// The number written by a sequence of decimal digits.
pub open spec fn digits_value(s: Seq<char>) -> nat
    decreases s.len(),
{
    if s.len() == 0 {
        0
    } else {
        digits_value(s.drop_last()) * 10 + ((s.last() as u32 - '0' as u32) as nat)
    }
}

/// A tag number read from an integer: tags are positive and fit in `u32`.
pub open spec fn tag_from_int(v: int) -> AttrClass {
    if 1 <= v <= u32::MAX {
        AttrClass::Tag(v as u32)
    } else {
        AttrClass::BadTag
    }
}

/// A tag number read from a string of decimal digits.
pub open spec fn tag_from_text(s: Seq<char>) -> AttrClass {
    if s.len() > 0 && (forall|i: int| 0 <= i < s.len() ==> is_digit(#[trigger] s[i])) {
        tag_from_int(digits_value(s) as int)
    } else {
        AttrClass::BadTag
    }
}

pub open spec fn tag_from_value(v: AttrValue) -> AttrClass {
    match v {
        AttrValue::Int(n) => tag_from_int(n as int),
        AttrValue::Str(s) => tag_from_text(s@),
        AttrValue::Other => AttrClass::BadTag,
    }
}

pub open spec fn label_of_word(w: Seq<char>) -> Option<Label> {
    if w == "optional"@ {
        Some(Label::Optional)
    } else if w == "required"@ {
        Some(Label::Required)
    } else if w == "repeated"@ {
        Some(Label::Repeated)
    } else {
        None
    }
}

/// The meaning of one annotation. The markers are tried first, then the tag,
/// then the cardinality words.
pub open spec fn class_of(a: Annotation) -> AttrClass {
    match a {
        Annotation::Word(w) => {
            if w@ == "message"@ {
                AttrClass::Message
            } else if w@ == "boxed"@ {
                AttrClass::Boxed
            } else if w@ == "tag"@ {
                AttrClass::BadTag
            } else {
                match label_of_word(w@) {
                    Some(l) => AttrClass::Label(l),
                    None => AttrClass::Unknown,
                }
            }
        },
        Annotation::List(n, vs) => {
            if n@ == "tag"@ {
                if vs@.len() == 1 {
                    match vs@[0] {
                        AttrValue::Int(v) => tag_from_int(v as int),
                        _ => AttrClass::BadTag,
                    }
                } else {
                    AttrClass::BadTag
                }
            } else {
                AttrClass::Unknown
            }
        },
        Annotation::NameValue(n, v) => {
            if n@ == "tag"@ {
                tag_from_value(v)
            } else {
                AttrClass::Unknown
            }
        },
    }
}

/// Whether `s` holds exactly the characters of `lit`.
pub fn text_is(s: &String, lit: &str) -> (r: bool)
    ensures
        r == (s@ == lit@),
{
    let l = String::from_str(lit);
    s.eq(&l)
}

pub fn tag_from_u64(v: u64) -> (r: AttrClass)
    ensures
        r == tag_from_int(v as int),
{
    if 1 <= v && v <= 0xffff_ffff {
        AttrClass::Tag(v as u32)
    } else {
        AttrClass::BadTag
    }
}

proof fn lemma_digits_grow(s: Seq<char>)
    requires
        s.len() > 0,
    ensures
        digits_value(s) >= digits_value(s.drop_last()),
{
}

/// Reads a tag number from decimal text.
pub fn parse_tag(s: &String) -> (r: AttrClass)
    ensures
        r == tag_from_text(s@),
{
    let t = s.as_str();
    let n = t.unicode_len();
    if n == 0 {
        return AttrClass::BadTag;
    }
    let mut value: u64 = 0;
    let mut too_big = false;
    let mut i: usize = 0;
    while i < n
        invariant
            n == s@.len(),
            t@ == s@,
            0 <= i <= n,
            forall|k: int| 0 <= k < i ==> is_digit(#[trigger] s@[k]),
            !too_big ==> value == digits_value(s@.take(i as int)) && value <= u32::MAX,
            too_big ==> digits_value(s@.take(i as int)) > u32::MAX,
        decreases n - i,
    {
        let c = t.get_char(i);
        if !('0' <= c && c <= '9') {
            return AttrClass::BadTag;
        }
        proof {
            assert(s@.take(i + 1).drop_last() == s@.take(i as int));
            lemma_digits_grow(s@.take(i + 1));
        }
        if !too_big {
            value = value * 10 + (c as u64 - '0' as u64);
            if value > 0xffff_ffff {
                too_big = true;
            }
        }
        i = i + 1;
    }
    assert(s@.take(n as int) == s@);
    if too_big {
        AttrClass::BadTag
    } else {
        tag_from_u64(value)
    }
}

/// Classifies one annotation; see `class_of`.
pub fn classify(a: &Annotation) -> (r: AttrClass)
    ensures
        r == class_of(*a),
{
    match a {
        Annotation::Word(w) => {
            if text_is(w, "message") {
                AttrClass::Message
            } else if text_is(w, "boxed") {
                AttrClass::Boxed
            } else if text_is(w, "tag") {
                AttrClass::BadTag
            } else if text_is(w, "optional") {
                AttrClass::Label(Label::Optional)
            } else if text_is(w, "required") {
                AttrClass::Label(Label::Required)
            } else if text_is(w, "repeated") {
                AttrClass::Label(Label::Repeated)
            } else {
                AttrClass::Unknown
            }
        },
        Annotation::List(n, vs) => {
            if text_is(n, "tag") {
                if vs.len() == 1 {
                    match &vs[0] {
                        AttrValue::Int(v) => tag_from_u64(*v),
                        _ => AttrClass::BadTag,
                    }
                } else {
                    AttrClass::BadTag
                }
            } else {
                AttrClass::Unknown
            }
        },
        Annotation::NameValue(n, v) => {
            if text_is(n, "tag") {
                match v {
                    AttrValue::Int(x) => tag_from_u64(*x),
                    AttrValue::Str(t) => parse_tag(t),
                    AttrValue::Other => AttrClass::BadTag,
                }
            } else {
                AttrClass::Unknown
            }
        },
    }
}

/// The name of an annotation, as written before any value.
pub fn annotation_name(a: &Annotation) -> (r: String)
    ensures
        r@ == a.name_view(),
{
    match a {
        Annotation::Word(n) => n.clone(),
        Annotation::List(n, _) => n.clone(),
        Annotation::NameValue(n, _) => n.clone(),
    }
}

} // verus!
