//! Laws of annotation resolution, proved over `resolve` and `resolve_oneof`.
use vstd::prelude::*;
use crate::attr::{Annotation, AttrClass, Label, class_of};
use crate::error::FieldErrorView;
use crate::message::{Field, ScanState, scan, scan_step, resolve, resolve_oneof, first_label_from};

verus! {

/// Whether two annotation meanings are of the same kind, so that they cannot
/// both be given for one field.
pub open spec fn same_kind(a: AttrClass, b: AttrClass) -> bool {
    ||| (a is Message && b is Message)
    ||| (a is Boxed && b is Boxed)
    ||| (a is Tag && b is Tag)
    ||| (a is Label && b is Label)
}

/// Every annotation named `tag` carries a valid tag number.
pub open spec fn no_bad_tag(attrs: Seq<Annotation>) -> bool {
    forall|i: int| 0 <= i < attrs.len() ==> !(class_of(#[trigger] attrs[i]) is BadTag)
}

/// No kind of annotation is given twice.
pub open spec fn no_repeated_kind(attrs: Seq<Annotation>) -> bool {
    forall|i: int, j: int|
        0 <= i < j < attrs.len() ==> !same_kind(class_of(#[trigger] attrs[i]), class_of(#[trigger] attrs[j]))
}

pub open spec fn has_message(attrs: Seq<Annotation>) -> bool {
    exists|i: int| 0 <= i < attrs.len() && class_of(#[trigger] attrs[i]) is Message
}

pub open spec fn has_tag(attrs: Seq<Annotation>) -> bool {
    exists|i: int| 0 <= i < attrs.len() && class_of(#[trigger] attrs[i]) is Tag
}

pub open spec fn has_label(attrs: Seq<Annotation>) -> bool {
    exists|i: int| 0 <= i < attrs.len() && class_of(#[trigger] attrs[i]) is Label
}

/// What a scan that has not failed holds, and that it can only fail on a
/// repeated kind.
proof fn lemma_scan_facts(attrs: Seq<Annotation>, n: nat)
    requires
        n <= attrs.len(),
        forall|i: int| 0 <= i < n ==> !(class_of(#[trigger] attrs[i]) is BadTag),
    ensures
        scan(attrs, n) is Err ==> scan(attrs, n)->Err_0 is DuplicateAttribute,
        scan(attrs, n) is Ok ==> {
            let s = scan(attrs, n)->Ok_0;
            &&& s.message == (exists|i: int| 0 <= i < n && class_of(#[trigger] attrs[i]) is Message)
            &&& s.boxed == (exists|i: int| 0 <= i < n && class_of(#[trigger] attrs[i]) is Boxed)
            &&& (s.tag is None) == (forall|i: int| 0 <= i < n ==> !(class_of(#[trigger] attrs[i]) is Tag))
            &&& (s.label is None) == (forall|i: int| 0 <= i < n ==> !(class_of(#[trigger] attrs[i]) is Label))
            &&& (s.unknown.len() == 0) == (forall|i: int| 0 <= i < n ==> !(class_of(#[trigger] attrs[i]) is Unknown))
            &&& forall|i: int| 0 <= i < n && class_of(#[trigger] attrs[i]) is Tag ==>
                s.tag == Some(class_of(attrs[i])->Tag_0)
            &&& forall|i: int| 0 <= i < n && class_of(#[trigger] attrs[i]) is Label ==>
                s.label == Some(class_of(attrs[i])->Label_0)
        },
    decreases n,
{
    if n > 0 {
        let m = (n - 1) as nat;
        lemma_scan_facts(attrs, m);
        if scan(attrs, m) is Ok {
            let s = scan(attrs, m)->Ok_0;
            let c = class_of(attrs[m as int]);
            if scan(attrs, n) is Ok {
                let t = scan(attrs, n)->Ok_0;
                assert(t == scan_step(s, attrs[m as int])->Ok_0);
                assert forall|i: int| 0 <= i < n && class_of(#[trigger] attrs[i]) is Tag implies
                    t.tag == Some(class_of(attrs[i])->Tag_0) by {
                    if i < m {
                        assert(!(c is Tag));
                    }
                }
                assert forall|i: int| 0 <= i < n && class_of(#[trigger] attrs[i]) is Label implies
                    t.label == Some(class_of(attrs[i])->Label_0) by {
                    if i < m {
                        assert(!(c is Label));
                    }
                }
                if c is Unknown {
                    assert(t.unknown.len() > 0);
                }
            }
        }
    }
}

/// Without a bad tag or a repeated kind, the scan does not fail.
proof fn lemma_scan_ok(attrs: Seq<Annotation>, n: nat)
    requires
        n <= attrs.len(),
        no_bad_tag(attrs),
        no_repeated_kind(attrs),
    ensures
        scan(attrs, n) is Ok,
    decreases n,
{
    if n > 0 {
        let m = (n - 1) as nat;
        lemma_scan_ok(attrs, m);
        lemma_scan_facts(attrs, m);
        let c = class_of(attrs[m as int]);
        let s = scan(attrs, m)->Ok_0;
        if c is Message && s.message {
            let i = choose|i: int| 0 <= i < m && class_of(#[trigger] attrs[i]) is Message;
            assert(!same_kind(class_of(attrs[i]), class_of(attrs[m as int])));
        }
        if c is Boxed && s.boxed {
            let i = choose|i: int| 0 <= i < m && class_of(#[trigger] attrs[i]) is Boxed;
            assert(!same_kind(class_of(attrs[i]), class_of(attrs[m as int])));
        }
        if c is Tag && s.tag is Some {
            let i = choose|i: int| 0 <= i < m && class_of(#[trigger] attrs[i]) is Tag;
            assert(!same_kind(class_of(attrs[i]), class_of(attrs[m as int])));
        }
        if c is Label && s.label is Some {
            let i = choose|i: int| 0 <= i < m && class_of(#[trigger] attrs[i]) is Label;
            assert(!same_kind(class_of(attrs[i]), class_of(attrs[m as int])));
        }
    }
}

/// Without the `message` marker, both resolvers answer "not a message
/// field", provided the scan itself meets no bad tag and no repeated kind.
pub proof fn law_no_marker_not_applicable(attrs: Seq<Annotation>, default_tag: Option<u32>)
    requires
        forall|i: int| 0 <= i < attrs.len() ==> !(class_of(#[trigger] attrs[i]) is Message),
        no_bad_tag(attrs),
        no_repeated_kind(attrs),
    ensures
        resolve(attrs, default_tag) == Ok::<Option<Field>, FieldErrorView>(None),
        resolve_oneof(attrs) == Ok::<Option<Field>, FieldErrorView>(None),
{
    lemma_scan_ok(attrs, attrs.len());
    lemma_scan_facts(attrs, attrs.len());
}

/// A field with one `message` marker, at most one tag and at most one
/// cardinality, and nothing else, resolves; its tag is the annotated one, else
/// the default, and its cardinality the annotated one, else `Optional`.
pub proof fn law_marker_and_tag_resolve(attrs: Seq<Annotation>, default_tag: Option<u32>)
    requires
        forall|i: int|
            0 <= i < attrs.len() ==> {
                let c = class_of(#[trigger] attrs[i]);
                c is Message || c is Tag || c is Label
            },
        no_repeated_kind(attrs),
        has_message(attrs),
        has_tag(attrs) || default_tag is Some,
    ensures
        resolve(attrs, default_tag) is Ok,
        resolve(attrs, default_tag)->Ok_0 is Some,
        forall|i: int| 0 <= i < attrs.len() && class_of(#[trigger] attrs[i]) is Tag ==>
            resolve(attrs, default_tag)->Ok_0->Some_0.tag == class_of(attrs[i])->Tag_0,
        !has_tag(attrs) ==> Some(resolve(attrs, default_tag)->Ok_0->Some_0.tag) == default_tag,
        forall|i: int| 0 <= i < attrs.len() && class_of(#[trigger] attrs[i]) is Label ==>
            resolve(attrs, default_tag)->Ok_0->Some_0.label == class_of(attrs[i])->Label_0,
        !has_label(attrs) ==> resolve(attrs, default_tag)->Ok_0->Some_0.label == Label::Optional,
{
    assert(no_bad_tag(attrs));
    lemma_scan_ok(attrs, attrs.len());
    lemma_scan_facts(attrs, attrs.len());
}

/// Any kind of annotation given twice (two markers alike, two tags, or two
/// cardinalities) fails both resolvers with a duplicate error, provided no
/// tag is malformed.
pub proof fn law_repeated_kind_fails(attrs: Seq<Annotation>, default_tag: Option<u32>)
    requires
        no_bad_tag(attrs),
        !no_repeated_kind(attrs),
    ensures
        resolve(attrs, default_tag) is Err,
        resolve(attrs, default_tag)->Err_0 is DuplicateAttribute,
        resolve_oneof(attrs) is Err,
        resolve_oneof(attrs)->Err_0 is DuplicateAttribute,
{
    let (i, j) = choose|i: int, j: int|
        0 <= i < j < attrs.len() && same_kind(class_of(#[trigger] attrs[i]), class_of(#[trigger] attrs[j]));
    lemma_scan_facts(attrs, j as nat);
    if scan(attrs, j as nat) is Ok {
        assert(scan(attrs, (j + 1) as nat) is Err);
        crate::message::lemma_scan_err_stays(attrs, (j + 1) as nat, attrs.len());
    } else {
        crate::message::lemma_scan_err_stays(attrs, j as nat, attrs.len());
    }
    lemma_scan_facts(attrs, attrs.len());
}

proof fn lemma_first_label(attrs: Seq<Annotation>, i: int)
    requires
        0 <= i <= attrs.len(),
    ensures
        (first_label_from(attrs, i) is Some) == (exists|k: int|
            i <= k < attrs.len() && class_of(#[trigger] attrs[k]) is Label),
    decreases attrs.len() - i,
{
    if i < attrs.len() {
        lemma_first_label(attrs, i + 1);
        if !(class_of(attrs[i]) is Label) {
            assert forall|k: int| i <= k < attrs.len() && class_of(#[trigger] attrs[k]) is Label implies
                i + 1 <= k by {}
        }
    }
}

/// On a oneof variant with the `message` marker and a tag, and no malformed,
/// repeated or unknown annotation: a cardinality annotation fails with an
/// invalid-attribute error, and without one the variant resolves as
/// `Required` with the annotated tag.
pub proof fn law_oneof_cardinality(attrs: Seq<Annotation>)
    requires
        no_bad_tag(attrs),
        no_repeated_kind(attrs),
        forall|i: int| 0 <= i < attrs.len() ==> !(class_of(#[trigger] attrs[i]) is Unknown),
        has_message(attrs),
        has_tag(attrs),
    ensures
        has_label(attrs) ==> resolve_oneof(attrs) is Err && resolve_oneof(attrs)->Err_0 is InvalidAttribute,
        !has_label(attrs) ==> {
            &&& resolve_oneof(attrs) is Ok
            &&& resolve_oneof(attrs)->Ok_0 is Some
            &&& resolve_oneof(attrs)->Ok_0->Some_0.label == Label::Required
            &&& forall|i: int| 0 <= i < attrs.len() && class_of(#[trigger] attrs[i]) is Tag ==>
                resolve_oneof(attrs)->Ok_0->Some_0.tag == class_of(attrs[i])->Tag_0
        },
{
    lemma_scan_ok(attrs, attrs.len());
    lemma_scan_facts(attrs, attrs.len());
    lemma_first_label(attrs, 0);
}

} // verus!
