//! What the generated fragments do when they run, stated over a model of the
//! field's storage. Each fragment text in `message` is the code for one of
//! these effects; the runtime encoding library is described by the costs and
//! the message merge that the functions here take as parameters.
use vstd::prelude::*;
use crate::attr::Label;
use crate::message::Field;

verus! {

/// The storage of a message field holding messages of type `M`.
pub enum Slot<M> {
    /// An optional field: absent or one message.
    Optional(Option<M>),
    /// A required field: always one message.
    Required(M),
    /// A repeated field: messages in order.
    Repeated(Seq<M>),
}

/// The storage shape that goes with a cardinality.
pub open spec fn slot_fits<M>(label: Label, s: Slot<M>) -> bool {
    match label {
        Label::Optional => s is Optional,
        Label::Required => s is Required,
        Label::Repeated => s is Repeated,
    }
}

/// Each message of `ms` paired with `tag`.
pub open spec fn tagged<M>(tag: u32, ms: Seq<M>) -> Seq<(u32, M)> {
    Seq::new(ms.len(), |i: int| (tag, ms[i]))
}

/// The occurrences, as (tag, message), that the encode fragment writes.
pub open spec fn encode_effect<M>(f: Field, s: Slot<M>) -> Seq<(u32, M)> {
    match s {
        Slot::Optional(None) => Seq::empty(),
        Slot::Optional(Some(m)) => seq![(f.tag, m)],
        Slot::Required(m) => seq![(f.tag, m)],
        Slot::Repeated(ms) => tagged(f.tag, ms),
    }
}

/// The number of bytes written for a run of occurrences, where one occurrence
/// of `m` under `tag` takes `len(tag, m)` bytes.
pub open spec fn written_len<M>(occ: Seq<(u32, M)>, len: spec_fn(u32, M) -> nat) -> nat
    decreases occ.len(),
{
    if occ.len() == 0 {
        0
    } else {
        written_len(occ.drop_last(), len) + len(occ.last().0, occ.last().1)
    }
}

/// The tagged length of each element of `ms`, summed.
pub open spec fn repeated_len<M>(tag: u32, ms: Seq<M>, len: spec_fn(u32, M) -> nat) -> nat
    decreases ms.len(),
{
    if ms.len() == 0 {
        0
    } else {
        repeated_len(tag, ms.drop_last(), len) + len(tag, ms.last())
    }
}

/// The value of the encoded-length fragment.
pub open spec fn encoded_len_effect<M>(f: Field, s: Slot<M>, len: spec_fn(u32, M) -> nat) -> nat {
    match s {
        Slot::Optional(None) => 0,
        Slot::Optional(Some(m)) => len(f.tag, m),
        Slot::Required(m) => len(f.tag, m),
        Slot::Repeated(ms) => repeated_len(f.tag, ms, len),
    }
}

/// The storage after the merge fragment reads one occurrence that decodes to
/// `m`; `merge_msg(x, m)` is `x` with `m` merged into it.
pub open spec fn merge_effect<M>(s: Slot<M>, m: M, merge_msg: spec_fn(M, M) -> M) -> Slot<M> {
    match s {
        Slot::Optional(None) => Slot::Optional(Some(m)),
        Slot::Optional(Some(x)) => Slot::Optional(Some(merge_msg(x, m))),
        Slot::Required(x) => Slot::Required(merge_msg(x, m)),
        Slot::Repeated(ms) => Slot::Repeated(ms.push(m)),
    }
}

/// The storage after merging each occurrence in turn, starting from `s`.
pub open spec fn merge_all<M>(s: Slot<M>, occ: Seq<(u32, M)>, merge_msg: spec_fn(M, M) -> M) -> Slot<M>
    decreases occ.len(),
{
    if occ.len() == 0 {
        s
    } else {
        merge_effect(merge_all(s, occ.drop_last(), merge_msg), occ.last().1, merge_msg)
    }
}

/// The storage after the clear fragment; `empty` is a message's default.
pub open spec fn clear_effect<M>(s: Slot<M>, empty: M) -> Slot<M> {
    match s {
        Slot::Optional(_) => Slot::Optional(None),
        Slot::Required(_) => Slot::Required(empty),
        Slot::Repeated(_) => Slot::Repeated(Seq::empty()),
    }
}

proof fn lemma_tagged_drop_last<M>(tag: u32, ms: Seq<M>)
    requires
        ms.len() > 0,
    ensures
        tagged(tag, ms).drop_last() == tagged(tag, ms.drop_last()),
{
    assert(tagged(tag, ms).drop_last() =~= tagged(tag, ms.drop_last()));
}

/// The bytes that the encode fragment writes for a repeated field are counted
/// by the repeated encoded length.
proof fn lemma_repeated_written_len<M>(tag: u32, ms: Seq<M>, len: spec_fn(u32, M) -> nat)
    ensures
        written_len(tagged(tag, ms), len) == repeated_len(tag, ms, len),
    decreases ms.len(),
{
    if ms.len() > 0 {
        lemma_tagged_drop_last(tag, ms);
        lemma_repeated_written_len(tag, ms.drop_last(), len);
    }
}

/// For every cardinality and storage state, the encoded-length fragment gives
/// the number of bytes that the encode fragment writes.
pub proof fn law_encoded_len_agrees<M>(f: Field, s: Slot<M>, len: spec_fn(u32, M) -> nat)
    requires
        slot_fits(f.label, s),
    ensures
        written_len(encode_effect(f, s), len) == encoded_len_effect(f, s, len),
{
    let occ = encode_effect(f, s);
    if !(s is Repeated) && occ.len() == 1 {
        assert(occ.drop_last().len() == 0);
        assert(written_len(occ.drop_last(), len) == 0);
    }
    if s is Repeated {
        lemma_repeated_written_len(f.tag, s->Repeated_0, len);
    }
}

proof fn lemma_repeated_round_trip<M>(tag: u32, ms: Seq<M>, merge_msg: spec_fn(M, M) -> M)
    ensures
        merge_all(Slot::Repeated(Seq::empty()), tagged(tag, ms), merge_msg)
            == Slot::Repeated(ms),
    decreases ms.len(),
{
    if ms.len() > 0 {
        lemma_tagged_drop_last(tag, ms);
        lemma_repeated_round_trip(tag, ms.drop_last(), merge_msg);
        let occ = tagged(tag, ms);
        assert(occ.last() == (tag, ms.last()));
        let prev = merge_all(Slot::Repeated(Seq::empty()), occ.drop_last(), merge_msg);
        assert(prev == Slot::<M>::Repeated(ms.drop_last()));
        assert(ms.drop_last().push(ms.last()) =~= ms);
    } else {
        assert(tagged(tag, ms) =~= Seq::<(u32, M)>::empty());
        assert(ms =~= Seq::<M>::empty());
    }
}

/// For a repeated field, merging back one by one the occurrences that the
/// encode fragment wrote for `ms`, into an empty sequence, gives `ms` again,
/// in order.
pub proof fn law_repeated_round_trip<M>(f: Field, ms: Seq<M>, merge_msg: spec_fn(M, M) -> M)
    requires
        f.label == Label::Repeated,
    ensures
        encode_effect(f, Slot::Repeated(ms)).len() == ms.len(),
        merge_all(Slot::Repeated(Seq::empty()), encode_effect(f, Slot::Repeated(ms)), merge_msg)
            == Slot::Repeated(ms),
{
    lemma_repeated_round_trip(f.tag, ms, merge_msg);
}

/// After the clear fragment, an optional or repeated field encodes nothing and
/// its encoded length is zero.
pub proof fn law_cleared_encodes_nothing<M>(f: Field, s: Slot<M>, empty: M, len: spec_fn(u32, M) -> nat)
    requires
        slot_fits(f.label, s),
        f.label != Label::Required,
    ensures
        encode_effect(f, clear_effect(s, empty)).len() == 0,
        encoded_len_effect(f, clear_effect(s, empty), len) == 0,
{
    assert(tagged(f.tag, Seq::<M>::empty()) =~= Seq::<(u32, M)>::empty());
}

} // verus!
