//! What the dispatch loop does with each payload taken off the channel: decode
//! it, render it, and frame it for the callback; or skip it when it does not
//! decode.

use crate::record::{
    decode, decode_change, empty_change, encode_change, lemma_decode_encode, parse_change,
    valid_change, ChangeModel, DecodeError,
};
use crate::render::{callback_bytes, change_json, frame, to_json};
use vstd::prelude::*;

verus! {

/// The bytes the callback receives for `payload`, or `None` when the payload
/// is skipped because it does not decode.
pub open spec fn delivery(payload: Seq<u8>) -> Option<Seq<u8>> {
    match decode_change(payload) {
        Some(c) => Some(callback_bytes(change_json(c))),
        None => None,
    }
}

/// What the callback receives, in order, for payloads taken off the channel
/// in the order `ps`.
pub open spec fn deliveries(ps: Seq<Seq<u8>>) -> Seq<Seq<u8>>
    decreases ps.len(),
{
    if ps.len() == 0 {
        Seq::empty()
    } else {
        deliveries(ps.drop_last()) + match delivery(ps.last()) {
            Some(b) => seq![b],
            None => Seq::empty(),
        }
    }
}

/// Decodes one payload and frames its JSON text for the callback.
pub fn handle_payload(payload: &[u8]) -> (r: Result<Vec<u8>, DecodeError>)
    ensures
        match delivery(payload@) {
            Some(b) => r matches Ok(v) && v@ == b,
            None => r is Err,
        },
        r == Err::<Vec<u8>, DecodeError>(DecodeError::Malformed) <==> parse_change(
            payload@,
            0,
            payload@.len() as int,
            empty_change(),
        ) is None,
{
    match decode(payload) {
        Ok(c) => {
            let text = to_json(&c);
            Ok(frame(text.as_str()))
        },
        Err(e) => Err(e),
    }
}

pub open spec fn views_of(vs: Seq<Vec<u8>>) -> Seq<Seq<u8>> {
    vs.map_values(|v: Vec<u8>| v@)
}

/// Handles payloads in the order they were received and gives, in that order,
/// the buffers to hand to the callback; payloads that do not decode are left
/// out.
pub fn dispatch_all(payloads: &Vec<Vec<u8>>) -> (r: Vec<Vec<u8>>)
    ensures
        views_of(r@) == deliveries(views_of(payloads@)),
{
    let mut out: Vec<Vec<u8>> = Vec::new();
    let mut i: usize = 0;
    while i < payloads.len()
        invariant
            i <= payloads@.len(),
            views_of(out@) == deliveries(views_of(payloads@.subrange(0, i as int))),
        decreases payloads@.len() - i,
    {
        let ghost before = out@;
        let res = handle_payload(payloads[i].as_slice());
        proof {
            let ps = views_of(payloads@.subrange(0, i as int + 1));
            assert(ps.drop_last() =~= views_of(payloads@.subrange(0, i as int)));
            assert(ps.last() == payloads@[i as int]@);
        }
        match res {
            Ok(b) => {
                out.push(b);
                assert(views_of(out@) =~= views_of(before) + seq![b@]);
            },
            Err(_) => {},
        }
        i = i + 1;
    }
    assert(payloads@.subrange(0, payloads@.len() as int) =~= payloads@);
    out
}

/// How many callback buffers come from the first `k` payloads of `ps`.
pub open spec fn delivered_before(ps: Seq<Seq<u8>>, k: int) -> int {
    deliveries(ps.subrange(0, k)).len() as int
}

proof fn lemma_deliveries_step(ps: Seq<Seq<u8>>, k: int)
    requires
        0 <= k < ps.len(),
    ensures
        deliveries(ps.subrange(0, k + 1)) == deliveries(ps.subrange(0, k)) + match delivery(
            ps[k],
        ) {
            Some(b) => seq![b],
            None => Seq::empty(),
        },
{
    assert(ps.subrange(0, k + 1).drop_last() =~= ps.subrange(0, k));
}

proof fn lemma_deliveries_prefix(ps: Seq<Seq<u8>>, k: int, n: int)
    requires
        0 <= k <= n <= ps.len(),
    ensures
        delivered_before(ps, k) <= delivered_before(ps, n),
        deliveries(ps.subrange(0, n)).subrange(0, delivered_before(ps, k)) == deliveries(
            ps.subrange(0, k),
        ),
    decreases n - k,
{
    if k == n {
        assert(deliveries(ps.subrange(0, n)).subrange(0, delivered_before(ps, k)) =~= deliveries(
            ps.subrange(0, k),
        ));
    } else {
        lemma_deliveries_prefix(ps, k, n - 1);
        lemma_deliveries_step(ps, n - 1);
        let a = deliveries(ps.subrange(0, n - 1));
        let d = deliveries(ps.subrange(0, n));
        assert(d.subrange(0, delivered_before(ps, k)) =~= a.subrange(0, delivered_before(ps, k)));
    }
}

/// Order is kept: when payloads `i` and `j > i` are both delivered, the
/// callback receives `i`'s buffer strictly before `j`'s.
pub proof fn lemma_dispatch_keeps_order(ps: Seq<Seq<u8>>, i: int, j: int)
    requires
        0 <= i < j < ps.len(),
        delivery(ps[i]) is Some,
        delivery(ps[j]) is Some,
    ensures
        delivered_before(ps, i) < delivered_before(ps, j),
        delivered_before(ps, j) < deliveries(ps).len(),
        deliveries(ps)[delivered_before(ps, i)] == delivery(ps[i])->Some_0,
        deliveries(ps)[delivered_before(ps, j)] == delivery(ps[j])->Some_0,
{
    assert(ps.subrange(0, ps.len() as int) =~= ps);
    lemma_deliveries_step(ps, i);
    lemma_deliveries_step(ps, j);
    lemma_deliveries_prefix(ps, i + 1, j);
    lemma_deliveries_prefix(ps, i + 1, ps.len() as int);
    lemma_deliveries_prefix(ps, j + 1, ps.len() as int);
    let all = deliveries(ps);
    let bi = deliveries(ps.subrange(0, i + 1));
    let bj = deliveries(ps.subrange(0, j + 1));
    assert(all.subrange(0, bi.len() as int)[delivered_before(ps, i)] == all[delivered_before(ps, i)]);
    assert(all.subrange(0, bj.len() as int)[delivered_before(ps, j)] == all[delivered_before(ps, j)]);
}

/// A payload that is the wire form of a valid change record reaches the
/// callback as that record's JSON text, cut to the buffer's capacity.
pub proof fn lemma_encoded_change_delivered(c: ChangeModel)
    requires
        valid_change(c),
    ensures
        delivery(encode_change(c)) == Some(callback_bytes(change_json(c))),
{
    lemma_decode_encode(c);
}

} // verus!
