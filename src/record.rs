//! Change records and their binary wire form.
//!
//! A change record carries two optional snapshots of one entity, the state
//! before the change (`previous`) and after it (`current`). On the wire a
//! record is a protocol-buffer message: field 1 holds `previous` and field 2
//! holds `current`, each an embedded snapshot message. A snapshot has the
//! device identifier in field 1, the network identifier in field 2 (both
//! UTF-8 strings) and the authorization flag in field 3 (a varint).

use crate::varint::{
    decode_varint, lemma_pow128_9, lemma_varint_at_bounds, lemma_varint_round_trip, pow128,
    push_varint, read_varint, varint_bytes, MAX_VARINT_LEN,
};
use vstd::prelude::*;
use vstd::utf8::{decode_utf8, encode_utf8, valid_utf8};

verus! {

/// Snapshot of one entity as the library holds it.
pub struct Snapshot {
    pub device_id: String,
    pub network_id: String,
    pub authorized: bool,
}

/// Mathematical value of a [`Snapshot`].
pub struct SnapshotModel {
    pub device_id: Seq<char>,
    pub network_id: Seq<char>,
    pub authorized: bool,
}

impl View for Snapshot {
    type V = SnapshotModel;

    open spec fn view(&self) -> SnapshotModel {
        SnapshotModel {
            device_id: self.device_id@,
            network_id: self.network_id@,
            authorized: self.authorized,
        }
    }
}

/// A decoded change: the entity before and after the change.
pub struct ChangeRecord {
    pub previous: Option<Snapshot>,
    pub current: Option<Snapshot>,
}

/// Mathematical value of a [`ChangeRecord`].
pub struct ChangeModel {
    pub previous: Option<SnapshotModel>,
    pub current: Option<SnapshotModel>,
}

pub open spec fn snapshot_opt_view(o: Option<Snapshot>) -> Option<SnapshotModel> {
    match o {
        Some(s) => Some(s@),
        None => None,
    }
}

impl View for ChangeRecord {
    type V = ChangeModel;

    open spec fn view(&self) -> ChangeModel {
        ChangeModel {
            previous: snapshot_opt_view(self.previous),
            current: snapshot_opt_view(self.current),
        }
    }
}

/// The snapshot whose fields all hold their default values.
pub open spec fn empty_snapshot() -> SnapshotModel {
    SnapshotModel { device_id: Seq::empty(), network_id: Seq::empty(), authorized: false }
}

pub open spec fn empty_change() -> ChangeModel {
    ChangeModel { previous: None, current: None }
}

/// Wire type of a varint field.
pub const WIRE_VARINT: u64 = 0;

/// Wire type of a little-endian 64-bit field.
pub const WIRE_FIXED64: u64 = 1;

/// Wire type of a length-delimited field.
pub const WIRE_LEN: u64 = 2;

/// Wire type of a little-endian 32-bit field.
pub const WIRE_FIXED32: u64 = 5;

// ---------------------------------------------------------------------------
// Encoding
// ---------------------------------------------------------------------------

pub open spec fn key_of(field: nat, wire_type: nat) -> nat {
    field * 8 + wire_type
}

/// A length-delimited field holding `body`.
pub open spec fn len_field(field: nat, body: Seq<u8>) -> Seq<u8> {
    varint_bytes(key_of(field, 2)) + varint_bytes(body.len()) + body
}

/// A string field; an empty string is left out, as proto3 does.
pub open spec fn string_field(field: nat, text: Seq<char>) -> Seq<u8> {
    if text.len() == 0 {
        Seq::empty()
    } else {
        len_field(field, encode_utf8(text))
    }
}

/// A boolean field; `false` is left out, as proto3 does.
pub open spec fn bool_field(field: nat, b: bool) -> Seq<u8> {
    if b {
        varint_bytes(key_of(field, 0)) + seq![1u8]
    } else {
        Seq::empty()
    }
}

pub open spec fn encode_snapshot(m: SnapshotModel) -> Seq<u8> {
    string_field(1, m.device_id) + string_field(2, m.network_id) + bool_field(3, m.authorized)
}

pub open spec fn snapshot_field(field: nat, o: Option<SnapshotModel>) -> Seq<u8> {
    match o {
        Some(m) => len_field(field, encode_snapshot(m)),
        None => Seq::empty(),
    }
}

/// The canonical wire form of a change record.
pub open spec fn encode_change(c: ChangeModel) -> Seq<u8> {
    snapshot_field(1, c.previous) + snapshot_field(2, c.current)
}

/// Largest wire form this codec handles: its lengths are varints of at most
/// nine bytes.
pub const MAX_WIRE_LEN: u64 = 0x7fff_ffff_ffff_ffff;

/// A change record that may be sent: at least one snapshot is present, and
/// its wire form fits the codec.
pub open spec fn valid_change(c: ChangeModel) -> bool {
    &&& (c.previous is Some || c.current is Some)
    &&& encode_change(c).len() <= MAX_WIRE_LEN
}

fn push_bytes(out: &mut Vec<u8>, b: &[u8])
    ensures
        final(out)@ == old(out)@ + b@,
{
    let mut i: usize = 0;
    while i < b.len()
        invariant
            i <= b@.len(),
            out@ == old(out)@ + b@.subrange(0, i as int),
        decreases b@.len() - i,
    {
        out.push(b[i]);
        i = i + 1;
        assert(out@ =~= old(out)@ + b@.subrange(0, i as int));
    }
    assert(b@.subrange(0, i as int) =~= b@);
}

fn push_len_field(out: &mut Vec<u8>, field: u64, body: &[u8])
    requires
        field < 16,
    ensures
        final(out)@ == old(out)@ + len_field(field as nat, body@),
{
    push_varint(out, field * 8 + 2);
    push_varint(out, body.len() as u64);
    push_bytes(out, body);
    assert(final(out)@ =~= old(out)@ + len_field(field as nat, body@));
}

fn push_string_field(out: &mut Vec<u8>, field: u64, text: &String)
    requires
        field < 16,
    ensures
        final(out)@ == old(out)@ + string_field(field as nat, text@),
{
    let b = text.as_str().as_bytes();
    if b.len() == 0 {
        proof {
            vstd::utf8::encode_utf8_decode_utf8(text@);
        }
        assert(text@.len() == 0);
        assert(final(out)@ =~= old(out)@ + string_field(field as nat, text@));
    } else {
        assert(text@.len() != 0) by {
            if text@.len() == 0 {
                assert(encode_utf8(text@) =~= Seq::<u8>::empty());
            }
        }
        push_len_field(out, field, b);
    }
}

fn encode_snapshot_into(out: &mut Vec<u8>, s: &Snapshot)
    ensures
        final(out)@ == old(out)@ + encode_snapshot(s@),
{
    push_string_field(out, 1, &s.device_id);
    push_string_field(out, 2, &s.network_id);
    if s.authorized {
        push_varint(out, 3 * 8);
        out.push(1);
    }
    assert(final(out)@ =~= old(out)@ + encode_snapshot(s@));
}

fn push_snapshot_field(out: &mut Vec<u8>, field: u64, o: &Option<Snapshot>)
    requires
        field < 16,
    ensures
        final(out)@ == old(out)@ + snapshot_field(field as nat, snapshot_opt_view(*o)),
{
    match o {
        Some(s) => {
            let mut body: Vec<u8> = Vec::new();
            encode_snapshot_into(&mut body, s);
            assert(body@ =~= encode_snapshot(s@));
            push_len_field(out, field, body.as_slice());
        },
        None => {
            assert(final(out)@ =~= old(out)@);
        },
    }
}

/// Encodes a change record in its canonical wire form.
pub fn encode(r: &ChangeRecord) -> (out: Vec<u8>)
    ensures
        out@ == encode_change(r@),
{
    let mut out: Vec<u8> = Vec::new();
    push_snapshot_field(&mut out, 1, &r.previous);
    push_snapshot_field(&mut out, 2, &r.current);
    assert(out@ =~= encode_change(r@));
    out
}

// ---------------------------------------------------------------------------
// Decoding
// ---------------------------------------------------------------------------

/// Where one field of a message stands: its number and wire type, the value
/// of a varint field (the length of a length-delimited one), the bytes of its
/// payload `[start, stop)` and the position of the next field.
pub struct FieldSpan {
    pub number: nat,
    pub wire_type: nat,
    pub value: nat,
    pub start: int,
    pub stop: int,
    pub next: int,
}

/// Reads the field that starts at `i` of a message that ends at `end`.
pub open spec fn read_field(s: Seq<u8>, i: int, end: int) -> Option<FieldSpan> {
    match read_varint(s, i) {
        None => None,
        Some((key, j)) => {
            let number = key / 8;
            let wt = key % 8;
            if j > end || number == 0 {
                None
            } else if wt == 0 {
                match read_varint(s, j) {
                    Some((v, k)) => if k <= end {
                        Some(FieldSpan { number, wire_type: wt, value: v, start: j, stop: k, next: k })
                    } else {
                        None
                    },
                    None => None,
                }
            } else if wt == 1 {
                if j + 8 <= end {
                    Some(FieldSpan { number, wire_type: wt, value: 0, start: j, stop: j + 8, next: j + 8 })
                } else {
                    None
                }
            } else if wt == 2 {
                match read_varint(s, j) {
                    Some((len, k)) => if k + len <= end {
                        Some(
                            FieldSpan {
                                number,
                                wire_type: wt,
                                value: len,
                                start: k,
                                stop: k + len,
                                next: k + len,
                            },
                        )
                    } else {
                        None
                    },
                    None => None,
                }
            } else if wt == 5 {
                if j + 4 <= end {
                    Some(FieldSpan { number, wire_type: wt, value: 0, start: j, stop: j + 4, next: j + 4 })
                } else {
                    None
                }
            } else {
                None
            }
        },
    }
}

/// The effect of one field on a snapshot being decoded. A known field with
/// the wrong wire type, or a string that is not UTF-8, is an error; unknown
/// fields are skipped; a repeated field keeps its last value.
pub open spec fn apply_snapshot_field(acc: SnapshotModel, s: Seq<u8>, f: FieldSpan) -> Option<
    SnapshotModel,
> {
    if f.number == 1 || f.number == 2 {
        let data = s.subrange(f.start, f.stop);
        if f.wire_type != 2 || !valid_utf8(data) {
            None
        } else if f.number == 1 {
            Some(SnapshotModel { device_id: decode_utf8(data), ..acc })
        } else {
            Some(SnapshotModel { network_id: decode_utf8(data), ..acc })
        }
    } else if f.number == 3 {
        if f.wire_type != 0 {
            None
        } else {
            Some(SnapshotModel { authorized: f.value != 0, ..acc })
        }
    } else {
        Some(acc)
    }
}

/// Decodes the snapshot fields in `[i, end)` of `s` on top of `acc`.
pub open spec fn parse_snapshot(s: Seq<u8>, i: int, end: int, acc: SnapshotModel) -> Option<
    SnapshotModel,
>
    decreases end - i,
{
    if i >= end {
        Some(acc)
    } else {
        match read_field(s, i, end) {
            None => None,
            Some(f) => if f.next <= i {
                None
            } else {
                match apply_snapshot_field(acc, s, f) {
                    None => None,
                    Some(a) => parse_snapshot(s, f.next, end, a),
                }
            },
        }
    }
}

/// The effect of one field on a change record being decoded.
pub open spec fn apply_change_field(acc: ChangeModel, s: Seq<u8>, f: FieldSpan) -> Option<
    ChangeModel,
> {
    if f.number == 1 || f.number == 2 {
        if f.wire_type != 2 {
            None
        } else {
            match parse_snapshot(s, f.start, f.stop, empty_snapshot()) {
                None => None,
                Some(m) => if f.number == 1 {
                    Some(ChangeModel { previous: Some(m), ..acc })
                } else {
                    Some(ChangeModel { current: Some(m), ..acc })
                },
            }
        }
    } else {
        Some(acc)
    }
}

/// Decodes the change-record fields in `[i, end)` of `s` on top of `acc`.
pub open spec fn parse_change(s: Seq<u8>, i: int, end: int, acc: ChangeModel) -> Option<
    ChangeModel,
>
    decreases end - i,
{
    if i >= end {
        Some(acc)
    } else {
        match read_field(s, i, end) {
            None => None,
            Some(f) => if f.next <= i {
                None
            } else {
                match apply_change_field(acc, s, f) {
                    None => None,
                    Some(a) => parse_change(s, f.next, end, a),
                }
            },
        }
    }
}

/// The change record that `s` holds, if it is well formed and carries at
/// least one snapshot.
pub open spec fn decode_change(s: Seq<u8>) -> Option<ChangeModel> {
    match parse_change(s, 0, s.len() as int, empty_change()) {
        Some(c) => if c.previous is None && c.current is None {
            None
        } else {
            Some(c)
        },
        None => None,
    }
}

/// Why a payload could not be decoded.
#[derive(Debug, Clone, Copy, PartialEq, Eq)]
pub enum DecodeError {
    /// The bytes are not a well-formed change record.
    Malformed,
    /// The record is well formed but carries neither snapshot.
    NoSnapshot,
}

/// Position of one field, as [`FieldSpan`] in executable form.
pub struct Field {
    pub number: u64,
    pub wire_type: u64,
    pub value: u64,
    pub start: usize,
    pub stop: usize,
    pub next: usize,
}

impl View for Field {
    type V = FieldSpan;

    open spec fn view(&self) -> FieldSpan {
        FieldSpan {
            number: self.number as nat,
            wire_type: self.wire_type as nat,
            value: self.value as nat,
            start: self.start as int,
            stop: self.stop as int,
            next: self.next as int,
        }
    }
}

/// Reads the field at `i` of a message that ends at `end`.
pub fn next_field(s: &[u8], i: usize, end: usize) -> (r: Option<Field>)
    requires
        i <= end <= s@.len(),
    ensures
        r matches Some(f) ==> read_field(s@, i as int, end as int) == Some(f@) && i < f.next <= end
            && f.start <= f.stop <= end,
        r is None ==> read_field(s@, i as int, end as int) is None,
{
    let (key, j) = match decode_varint(s, i) {
        Some(p) => p,
        None => return None,
    };
    proof {
        lemma_varint_at_bounds(s@, i as int, MAX_VARINT_LEN as nat);
    }
    let number = key / 8;
    let wt = key % 8;
    if j > end || number == 0 {
        return None;
    }
    if wt == 0 {
        match decode_varint(s, j) {
            Some((v, k)) => {
                proof {
                    lemma_varint_at_bounds(s@, j as int, MAX_VARINT_LEN as nat);
                }
                if k <= end {
                    Some(Field { number, wire_type: wt, value: v, start: j, stop: k, next: k })
                } else {
                    None
                }
            },
            None => None,
        }
    } else if wt == 1 {
        if end - j >= 8 {
            Some(Field { number, wire_type: wt, value: 0, start: j, stop: j + 8, next: j + 8 })
        } else {
            None
        }
    } else if wt == 2 {
        match decode_varint(s, j) {
            Some((len, k)) => {
                proof {
                    lemma_varint_at_bounds(s@, j as int, MAX_VARINT_LEN as nat);
                }
                if k <= end && len <= (end - k) as u64 {
                    let stop = k + len as usize;
                    Some(Field { number, wire_type: wt, value: len, start: k, stop, next: stop })
                } else {
                    None
                }
            },
            None => None,
        }
    } else if wt == 5 {
        if end - j >= 4 {
            Some(Field { number, wire_type: wt, value: 0, start: j, stop: j + 4, next: j + 4 })
        } else {
            None
        }
    } else {
        None
    }
}

/// Relies on `String::from_utf8`: it accepts exactly the well-formed UTF-8
/// byte sequences, and the string it returns holds the characters they encode.
#[verifier::external_body]
fn string_from_utf8(b: &[u8]) -> (r: Option<String>)
    ensures
        r is Some <==> valid_utf8(b@),
        r matches Some(t) ==> t@ == decode_utf8(b@),
{
    String::from_utf8(b.to_vec()).ok()
}

/// Decodes the snapshot message in `[start, end)` of `s`.
pub fn decode_snapshot(s: &[u8], start: usize, end: usize) -> (r: Option<Snapshot>)
    requires
        start <= end <= s@.len(),
    ensures
        r matches Some(m) ==> parse_snapshot(s@, start as int, end as int, empty_snapshot())
            == Some(m@),
        r is None ==> parse_snapshot(s@, start as int, end as int, empty_snapshot()) is None,
{
    let mut acc = Snapshot { device_id: String::new(), network_id: String::new(), authorized: false };
    let mut i = start;
    assert(acc@ == empty_snapshot());
    while i < end
        invariant
            start <= i <= end <= s@.len(),
            parse_snapshot(s@, i as int, end as int, acc@) == parse_snapshot(
                s@,
                start as int,
                end as int,
                empty_snapshot(),
            ),
        decreases end - i,
    {
        let f = match next_field(s, i, end) {
            Some(f) => f,
            None => return None,
        };
        if f.number == 1 || f.number == 2 {
            if f.wire_type != 2 {
                return None;
            }
            let data = vstd::slice::slice_subrange(s, f.start, f.stop);
            let text = match string_from_utf8(data) {
                Some(t) => t,
                None => return None,
            };
            if f.number == 1 {
                acc.device_id = text;
            } else {
                acc.network_id = text;
            }
        } else if f.number == 3 {
            if f.wire_type != 0 {
                return None;
            }
            acc.authorized = f.value != 0;
        }
        i = f.next;
    }
    Some(acc)
}

/// Decodes a change record from its wire form.
pub fn decode(s: &[u8]) -> (r: Result<ChangeRecord, DecodeError>)
    ensures
        r matches Ok(c) ==> decode_change(s@) == Some(c@),
        r is Err ==> decode_change(s@) is None,
        r == Err::<ChangeRecord, DecodeError>(DecodeError::Malformed) <==> parse_change(
            s@,
            0,
            s@.len() as int,
            empty_change(),
        ) is None,
{
    let mut acc = ChangeRecord { previous: None, current: None };
    let mut i: usize = 0;
    let end = s.len();
    while i < end
        invariant
            i <= end == s@.len(),
            parse_change(s@, i as int, end as int, acc@) == parse_change(
                s@,
                0,
                end as int,
                empty_change(),
            ),
        decreases end - i,
    {
        let f = match next_field(s, i, end) {
            Some(f) => f,
            None => return Err(DecodeError::Malformed),
        };
        if f.number == 1 || f.number == 2 {
            if f.wire_type != 2 {
                return Err(DecodeError::Malformed);
            }
            let m = match decode_snapshot(s, f.start, f.stop) {
                Some(m) => m,
                None => return Err(DecodeError::Malformed),
            };
            if f.number == 1 {
                acc.previous = Some(m);
            } else {
                acc.current = Some(m);
            }
        }
        i = f.next;
    }
    if acc.previous.is_none() && acc.current.is_none() {
        Err(DecodeError::NoSnapshot)
    } else {
        Ok(acc)
    }
}

// ---------------------------------------------------------------------------
// Round trip
// ---------------------------------------------------------------------------

proof fn lemma_split_at(s: Seq<u8>, p: int, field: Seq<u8>)
    requires
        0 <= p,
        p + field.len() <= s.len(),
        s.subrange(p, p + field.len()) == field,
    ensures
        s == s.subrange(0, p) + field + s.subrange(p + field.len(), s.len() as int),
{
    assert(s =~= s.subrange(0, p) + field + s.subrange(p + field.len(), s.len() as int));
}

/// A length-delimited field written at `p` reads back as itself.
proof fn lemma_len_field_at(s: Seq<u8>, p: int, end: int, field: nat, body: Seq<u8>)
    requires
        0 <= p,
        p + len_field(field, body).len() <= end <= s.len(),
        s.subrange(p, p + len_field(field, body).len()) == len_field(field, body),
        1 <= field < 16,
        body.len() <= MAX_WIRE_LEN,
    ensures
        read_field(s, p, end) matches Some(f) && f.number == field && f.wire_type == 2 && f.stop
            == f.next && f.next == p + len_field(field, body).len() && f.start + body.len()
            == f.stop && s.subrange(f.start, f.stop) == body,
{
    let lf = len_field(field, body);
    let key = key_of(field, 2);
    let kb = varint_bytes(key);
    let lb = varint_bytes(body.len());
    lemma_split_at(s, p, lf);
    let pre = s.subrange(0, p);
    let post = s.subrange(p + lf.len(), s.len() as int);
    lemma_pow128_9();
    assert(key < pow128(9));
    assert(body.len() < pow128(9));
    assert(s =~= pre + kb + (lb + body + post));
    lemma_varint_round_trip(key, pre, lb + body + post, 9);
    assert(s =~= (pre + kb) + lb + (body + post));
    lemma_varint_round_trip(body.len(), pre + kb, body + post, 9);
    assert(key / 8 == field);
    assert(key % 8 == 2);
    let start = p + kb.len() + lb.len();
    assert(s.subrange(start, start + body.len()) =~= body);
}

/// A `true` boolean field written at `p` reads back as itself.
proof fn lemma_bool_field_at(s: Seq<u8>, p: int, end: int, field: nat)
    requires
        0 <= p,
        p + bool_field(field, true).len() <= end <= s.len(),
        s.subrange(p, p + bool_field(field, true).len()) == bool_field(field, true),
        1 <= field < 16,
    ensures
        read_field(s, p, end) matches Some(f) && f.number == field && f.wire_type == 0 && f.value
            == 1 && f.next == p + bool_field(field, true).len(),
{
    let bf = bool_field(field, true);
    let key = key_of(field, 0);
    let kb = varint_bytes(key);
    lemma_split_at(s, p, bf);
    let pre = s.subrange(0, p);
    let post = s.subrange(p + bf.len(), s.len() as int);
    lemma_pow128_9();
    assert(key < pow128(9));
    assert(s =~= pre + kb + (seq![1u8] + post));
    lemma_varint_round_trip(key, pre, seq![1u8] + post, 9);
    assert(key / 8 == field);
    assert(key % 8 == 0);
    assert(s[p + kb.len()] == 1u8);
}

proof fn lemma_len_field_len(field: nat, body: Seq<u8>)
    ensures
        len_field(field, body).len() >= body.len() + 2,
{
    lemma_pow128_9();
    lemma_varint_nonempty(key_of(field, 2));
    lemma_varint_nonempty(body.len());
}

proof fn lemma_varint_nonempty(v: nat)
    ensures
        varint_bytes(v).len() >= 1,
    decreases v,
{
    if v >= 128 {
        lemma_varint_nonempty(v / 128);
    }
}

proof fn lemma_three_parts(s: Seq<u8>, p: int, end: int, a: Seq<u8>, b: Seq<u8>, c: Seq<u8>)
    requires
        0 <= p <= end <= s.len(),
        s.subrange(p, end) == a + b + c,
    ensures
        s.subrange(p, p + a.len()) == a,
        s.subrange(p + a.len(), p + a.len() + b.len()) == b,
        s.subrange(p + a.len() + b.len(), end) == c,
{
    let t = s.subrange(p, end);
    assert(t.len() == a.len() + b.len() + c.len());
    assert(s.subrange(p, p + a.len()) =~= t.subrange(0, a.len() as int));
    assert(t.subrange(0, a.len() as int) =~= a);
    assert(s.subrange(p + a.len(), p + a.len() + b.len()) =~= t.subrange(
        a.len() as int,
        (a.len() + b.len()) as int,
    ));
    assert(t.subrange(a.len() as int, (a.len() + b.len()) as int) =~= b);
    assert(s.subrange(p + a.len() + b.len(), end) =~= t.subrange(
        (a.len() + b.len()) as int,
        t.len() as int,
    ));
    assert(t.subrange((a.len() + b.len()) as int, t.len() as int) =~= c);
}

/// The encoding of a snapshot, wherever it stands, decodes to that snapshot.
proof fn lemma_snapshot_round_trip(s: Seq<u8>, p: int, end: int, m: SnapshotModel)
    requires
        0 <= p <= end <= s.len(),
        s.subrange(p, end) == encode_snapshot(m),
        encode_snapshot(m).len() <= MAX_WIRE_LEN,
    ensures
        parse_snapshot(s, p, end, empty_snapshot()) == Some(m),
{
    broadcast use vstd::utf8::encode_utf8_valid_utf8, vstd::utf8::encode_utf8_decode_utf8;

    let f1 = string_field(1, m.device_id);
    let f2 = string_field(2, m.network_id);
    let f3 = bool_field(3, m.authorized);
    let pos1 = p + f1.len();
    let pos2 = pos1 + f2.len();
    assert(encode_snapshot(m) == f1 + f2 + f3);
    lemma_three_parts(s, p, end, f1, f2, f3);
    assert(pos2 + f3.len() == end);
    let a0 = empty_snapshot();
    let a1 = SnapshotModel { device_id: m.device_id, ..a0 };
    let a2 = SnapshotModel { network_id: m.network_id, ..a1 };
    assert(a2 == SnapshotModel { authorized: false, ..m });
    // third field
    if m.authorized {
        lemma_bool_field_at(s, pos2, end, 3);
        assert(parse_snapshot(s, end, end, m) == Some(m));
        assert(parse_snapshot(s, pos2, end, a2) == Some(m));
    } else {
        assert(a2 =~= m);
        assert(parse_snapshot(s, pos2, end, a2) == Some(m));
    }
    // second field
    if m.network_id.len() == 0 {
        assert(a1.network_id =~= m.network_id);
        assert(a2 == a1);
        assert(parse_snapshot(s, pos1, end, a1) == Some(m));
    } else {
        lemma_len_field_len(2, encode_utf8(m.network_id));
        lemma_len_field_at(s, pos1, end, 2, encode_utf8(m.network_id));
        assert(parse_snapshot(s, pos1, end, a1) == Some(m));
    }
    // first field
    if m.device_id.len() == 0 {
        assert(a0.device_id =~= m.device_id);
        assert(a1 == a0);
    } else {
        lemma_len_field_len(1, encode_utf8(m.device_id));
        lemma_len_field_at(s, p, end, 1, encode_utf8(m.device_id));
    }
}

/// A snapshot field written at `p` reads back as the snapshot.
proof fn lemma_snapshot_field_at(s: Seq<u8>, p: int, end: int, field: nat, m: SnapshotModel)
    requires
        0 <= p,
        p + len_field(field, encode_snapshot(m)).len() <= end <= s.len(),
        s.subrange(p, p + len_field(field, encode_snapshot(m)).len()) == len_field(
            field,
            encode_snapshot(m),
        ),
        1 <= field < 16,
        len_field(field, encode_snapshot(m)).len() <= MAX_WIRE_LEN,
    ensures
        read_field(s, p, end) matches Some(f) && f.number == field && f.wire_type == 2 && f.next
            == p + len_field(field, encode_snapshot(m)).len() && parse_snapshot(
            s,
            f.start,
            f.stop,
            empty_snapshot(),
        ) == Some(m),
{
    let body = encode_snapshot(m);
    lemma_len_field_len(field, body);
    lemma_len_field_at(s, p, end, field, body);
    let f = read_field(s, p, end)->Some_0;
    lemma_snapshot_round_trip(s, f.start, f.stop, m);
}

pub open spec fn with_snapshot(acc: ChangeModel, field: nat, m: SnapshotModel) -> ChangeModel {
    if field == 1 {
        ChangeModel { previous: Some(m), ..acc }
    } else {
        ChangeModel { current: Some(m), ..acc }
    }
}

/// One snapshot field of a change record, decoded.
proof fn lemma_change_step(s: Seq<u8>, p: int, end: int, field: nat, m: SnapshotModel, acc: ChangeModel)
    requires
        0 <= p,
        p + len_field(field, encode_snapshot(m)).len() <= end <= s.len(),
        s.subrange(p, p + len_field(field, encode_snapshot(m)).len()) == len_field(
            field,
            encode_snapshot(m),
        ),
        field == 1 || field == 2,
        len_field(field, encode_snapshot(m)).len() <= MAX_WIRE_LEN,
    ensures
        parse_change(s, p, end, acc) == parse_change(
            s,
            p + len_field(field, encode_snapshot(m)).len(),
            end,
            with_snapshot(acc, field, m),
        ),
{
    lemma_snapshot_field_at(s, p, end, field, m);
    lemma_len_field_len(field, encode_snapshot(m));
    let f = read_field(s, p, end)->Some_0;
    assert(apply_change_field(acc, s, f) == Some(with_snapshot(acc, field, m)));
}

/// Round trip: decoding the wire form of a valid change record gives the
/// record back.
pub proof fn lemma_decode_encode(c: ChangeModel)
    requires
        valid_change(c),
    ensures
        decode_change(encode_change(c)) == Some(c),
{
    let s = encode_change(c);
    let f1 = snapshot_field(1, c.previous);
    let f2 = snapshot_field(2, c.current);
    let end = s.len() as int;
    let pos1 = f1.len() as int;
    assert(s == f1 + f2);
    let a0 = empty_change();
    let a1 = ChangeModel { previous: c.previous, ..a0 };
    assert(parse_change(s, end, end, c) == Some(c));
    if let Some(m) = c.current {
        assert(s.subrange(pos1, end) =~= f2);
        lemma_change_step(s, pos1, end, 2, m, a1);
        assert(with_snapshot(a1, 2, m) == c);
    } else {
        assert(a1 == c);
    }
    assert(parse_change(s, pos1, end, a1) == Some(c));
    if let Some(m) = c.previous {
        assert(s.subrange(0, pos1) =~= f1);
        lemma_change_step(s, 0, end, 1, m, a0);
        assert(with_snapshot(a0, 1, m) == a1);
    } else {
        assert(a1 == a0);
    }
}

} // verus!
