use prost_derive::attr::{Annotation, AttrValue, Label};
use prost_derive::error::{AttrKind, FieldError};
use prost_derive::message::Field;

fn word(w: &str) -> Annotation {
    Annotation::Word(w.to_string())
}

fn tag(n: u64) -> Annotation {
    Annotation::NameValue("tag".to_string(), AttrValue::Int(n))
}

fn tag_str(s: &str) -> Annotation {
    Annotation::NameValue("tag".to_string(), AttrValue::Str(s.to_string()))
}

fn ok_field(r: Result<Option<Field>, FieldError>) -> Option<Field> {
    match r {
        Ok(f) => f,
        Err(e) => panic!("unexpected error: {}", e.message()),
    }
}

#[test]
fn optional_field_with_tag() {
    let f = ok_field(Field::new(&[word("message"), tag(5)], None)).unwrap();
    assert_eq!(f, Field { label: Label::Optional, tag: 5 });
    assert_eq!(f.clear("self.a"), "self.a = ::std::option::Option::None");
    assert_eq!(
        f.encode("self.a"),
        "if let ::std::option::Option::Some(ref msg) = self.a { _prost::encoding::message::encode(5u32, msg, buf); }"
    );
    assert_eq!(
        f.encoded_len("self.a"),
        "self.a.as_ref().map_or(0, |msg| _prost::encoding::message::encoded_len(5u32, msg))"
    );
    assert_eq!(
        f.merge("self.a"),
        "_prost::encoding::message::merge(wire_type, self.a.get_or_insert_with(::std::default::Default::default), buf)"
    );
}

#[test]
fn repeated_field_with_tag() {
    let f = ok_field(Field::new(&[word("message"), tag(3), word("repeated")], None)).unwrap();
    assert_eq!(f, Field { label: Label::Repeated, tag: 3 });
    assert_eq!(
        f.encoded_len("self.items"),
        "_prost::encoding::message::encoded_len_repeated(3u32, &self.items)"
    );
    assert_eq!(
        f.encode("self.items"),
        "for msg in &self.items { _prost::encoding::message::encode(3u32, msg, buf); }"
    );
    assert_eq!(
        f.merge("self.items"),
        "_prost::encoding::message::merge_repeated(wire_type, &mut self.items, buf)"
    );
    assert_eq!(f.clear("self.items"), "self.items.clear()");
}

#[test]
fn required_field_fragments() {
    let f = ok_field(Field::new(&[word("required"), word("message"), tag(1234567)], None)).unwrap();
    assert_eq!(f, Field { label: Label::Required, tag: 1234567 });
    assert_eq!(
        f.encode("self.m"),
        "_prost::encoding::message::encode(1234567u32, &self.m, buf);"
    );
    assert_eq!(
        f.encoded_len("self.m"),
        "_prost::encoding::message::encoded_len(1234567u32, &self.m)"
    );
    assert_eq!(
        f.merge("self.m"),
        "_prost::encoding::message::merge(wire_type, &mut self.m, buf)"
    );
    assert_eq!(f.clear("self.m"), "self.m.clear()");
}

#[test]
fn oneof_with_cardinality_is_invalid() {
    let r = Field::new_oneof(&[word("message"), tag(1), word("repeated")]);
    match r {
        Err(FieldError::InvalidAttribute(name)) => assert_eq!(name, "repeated"),
        _ => panic!("expected an invalid attribute error"),
    }
}

#[test]
fn oneof_variant_is_required() {
    let f = ok_field(Field::new_oneof(&[tag(8), word("message")])).unwrap();
    assert_eq!(f, Field { label: Label::Required, tag: 8 });
}

#[test]
fn oneof_gets_no_default_tag() {
    assert!(matches!(Field::new_oneof(&[word("message")]), Err(FieldError::MissingTag)));
}

#[test]
fn missing_tag() {
    let r = Field::new(&[word("message")], None);
    assert!(matches!(r, Err(FieldError::MissingTag)));
    assert_eq!(r.unwrap_err().message(), "message field is missing a tag attribute");
}

#[test]
fn default_tag_applies() {
    let f = ok_field(Field::new(&[word("message")], Some(7))).unwrap();
    assert_eq!(f, Field { label: Label::Optional, tag: 7 });
}

#[test]
fn annotated_tag_beats_default() {
    let f = ok_field(Field::new(&[word("message"), tag(2)], Some(7))).unwrap();
    assert_eq!(f.tag, 2);
}

#[test]
fn without_marker_not_applicable() {
    let attrs = [tag(1), word("repeated"), word("int32"), word("boxed")];
    assert_eq!(ok_field(Field::new(&attrs, Some(4))), None);
    assert_eq!(ok_field(Field::new_oneof(&attrs)), None);
    assert_eq!(ok_field(Field::new(&[], None)), None);
}

#[test]
fn boxed_marker_accepted() {
    let f = ok_field(Field::new(&[word("message"), word("boxed"), tag(6)], None)).unwrap();
    assert_eq!(f, Field { label: Label::Optional, tag: 6 });
}

#[test]
fn duplicate_markers() {
    let r = Field::new(&[word("message"), tag(1), word("message")], None);
    assert!(matches!(r, Err(FieldError::DuplicateAttribute(AttrKind::Message))));
    let r = Field::new(&[word("boxed"), word("boxed")], None);
    assert!(matches!(r, Err(FieldError::DuplicateAttribute(AttrKind::Boxed))));
    assert_eq!(r.unwrap_err().message(), "duplicate boxed attribute");
}

#[test]
fn duplicate_tags_and_labels() {
    let r = Field::new(&[word("message"), tag(1), tag(1)], None);
    assert!(matches!(r, Err(FieldError::DuplicateAttribute(AttrKind::Tag))));
    let r = Field::new(&[word("message"), word("optional"), tag(1), word("repeated")], None);
    assert!(matches!(r, Err(FieldError::DuplicateAttribute(AttrKind::Label))));
    assert_eq!(r.unwrap_err().message(), "duplicate label attributes");
    let r = Field::new_oneof(&[word("message"), tag(1), tag(2)]);
    assert!(matches!(r, Err(FieldError::DuplicateAttribute(AttrKind::Tag))));
}

#[test]
fn unknown_annotations() {
    let r = Field::new(&[word("message"), tag(1), word("packed")], None);
    match &r {
        Err(FieldError::UnrecognizedAttribute(names)) => assert_eq!(names, &vec!["packed".to_string()]),
        _ => panic!("expected an unrecognized attribute error"),
    }
    assert_eq!(r.unwrap_err().message(), "unknown attribute for message field: packed");
    let other = Annotation::NameValue("default".to_string(), AttrValue::Int(3));
    let r = Field::new(&[word("packed"), word("message"), other, tag(1)], None);
    assert_eq!(
        r.unwrap_err().message(),
        "unknown attributes for message field: packed, default"
    );
}

#[test]
fn tag_forms() {
    let list = Annotation::List("tag".to_string(), vec![AttrValue::Int(9)]);
    assert_eq!(ok_field(Field::new(&[word("message"), list], None)).unwrap().tag, 9);
    assert_eq!(ok_field(Field::new(&[word("message"), tag_str("42")], None)).unwrap().tag, 42);
    assert_eq!(
        ok_field(Field::new(&[word("message"), tag_str("4294967295")], None)).unwrap().tag,
        4294967295
    );
    assert_eq!(ok_field(Field::new(&[word("message"), tag(4294967295)], None)).unwrap().tag, 4294967295);
}

#[test]
fn malformed_tags() {
    let bad = vec![
        tag(0),
        tag(4294967296),
        tag_str(""),
        tag_str("0"),
        tag_str("12a"),
        tag_str("99999999999"),
        word("tag"),
        Annotation::NameValue("tag".to_string(), AttrValue::Other),
        Annotation::List("tag".to_string(), vec![AttrValue::Int(1), AttrValue::Int(2)]),
        Annotation::List("tag".to_string(), vec![AttrValue::Str("1".to_string())]),
    ];
    for b in bad {
        let r = Field::new(&[word("message"), b], None);
        assert!(matches!(r, Err(FieldError::InvalidTag)));
    }
    // The scan stops at a malformed tag, even on a field without the marker.
    assert!(matches!(Field::new(&[tag_str("x")], None), Err(FieldError::InvalidTag)));
}

#[test]
fn error_wording() {
    assert_eq!(FieldError::DuplicateAttribute(AttrKind::Message).message(), "duplicate message attribute");
    assert_eq!(FieldError::DuplicateAttribute(AttrKind::Tag).message(), "duplicate tag attributes");
    assert_eq!(FieldError::InvalidTag.message(), "invalid tag attribute");
    assert_eq!(
        FieldError::InvalidAttribute("optional".to_string()).message(),
        "invalid attribute for oneof field: optional"
    );
    assert_eq!(
        FieldError::UnrecognizedAttribute(vec!["a".to_string(), "b".to_string(), "c".to_string()]).message(),
        "unknown attributes for message field: a, b, c"
    );
}

#[test]
fn encode_and_length_use_one_tag() {
    for label in [Label::Optional, Label::Required, Label::Repeated] {
        let f = Field { label, tag: 150 };
        let enc = f.encode("self.x");
        let len = f.encoded_len("self.x");
        assert!(enc.contains("_prost::encoding::message::encode(150u32, "));
        assert!(len.contains("(150u32, "));
        assert!(!enc.contains("15u32") && !len.contains("15u32"));
    }
}
