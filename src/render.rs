//! The text form handed to the caller's callback: a JSON object with the
//! snapshot before the change under `"old"` and the one after it under
//! `"new"`, cut to the callback buffer's capacity.

use crate::record::{ChangeModel, ChangeRecord, Snapshot, SnapshotModel};
use vstd::prelude::*;
use vstd::utf8::encode_utf8;

verus! {

/// The JSON string literal that serde_json writes for a string.
pub uninterp spec fn json_string(s: Seq<char>) -> Seq<char>;

/// Relies on `serde_json::to_string` on a `&str`: it yields the JSON string
/// literal for `s`, which depends on the characters of `s` alone. Serializing
/// a string slice does not fail.
#[verifier::external_body]
fn quote_json(s: &str) -> (r: String)
    ensures
        r@ == json_string(s@),
{
    serde_json::to_string(s).unwrap_or_default()
}

pub open spec fn bool_text(b: bool) -> Seq<char> {
    if b {
        "true"@
    } else {
        "false"@
    }
}

/// A snapshot object, given the JSON literals of its two strings.
pub open spec fn snapshot_object(device_json: Seq<char>, network_json: Seq<char>, authorized: bool) -> Seq<
    char,
> {
    "{\"device_id\":"@ + device_json + ",\"network_id\":"@ + network_json + ",\"authorized\":"@
        + bool_text(authorized) + "}"@
}

/// A change object, given the JSON text of each snapshot (`None` for an
/// absent one, written `null`).
pub open spec fn change_object(old_json: Option<Seq<char>>, new_json: Option<Seq<char>>) -> Seq<
    char,
> {
    "{\"old\":"@ + json_or_null(old_json) + ",\"new\":"@ + json_or_null(new_json) + "}"@
}

pub open spec fn json_or_null(o: Option<Seq<char>>) -> Seq<char> {
    match o {
        Some(j) => j,
        None => "null"@,
    }
}

pub open spec fn snapshot_json(m: SnapshotModel) -> Seq<char> {
    snapshot_object(json_string(m.device_id), json_string(m.network_id), m.authorized)
}

pub open spec fn opt_snapshot_json(o: Option<SnapshotModel>) -> Option<Seq<char>> {
    match o {
        Some(m) => Some(snapshot_json(m)),
        None => None,
    }
}

/// The JSON text of a change record.
pub open spec fn change_json(c: ChangeModel) -> Seq<char> {
    change_object(opt_snapshot_json(c.previous), opt_snapshot_json(c.current))
}

/// Writes a snapshot object from the JSON literals of its strings.
pub fn snapshot_object_text(device_json: &str, network_json: &str, authorized: bool) -> (r: String)
    ensures
        r@ == snapshot_object(device_json@, network_json@, authorized),
{
    let flag = if authorized {
        "true"
    } else {
        "false"
    };
    "{\"device_id\":".to_owned().concat(device_json).concat(",\"network_id\":").concat(
        network_json,
    ).concat(",\"authorized\":").concat(flag).concat("}")
}

/// Writes a change object from the JSON text of its snapshots.
pub fn change_object_text(old_json: &Option<String>, new_json: &Option<String>) -> (r: String)
    ensures
        r@ == change_object(
            match old_json {
                Some(j) => Some(j@),
                None => None,
            },
            match new_json {
                Some(j) => Some(j@),
                None => None,
            },
        ),
{
    let old_text: &str = match old_json {
        Some(j) => j.as_str(),
        None => "null",
    };
    let new_text: &str = match new_json {
        Some(j) => j.as_str(),
        None => "null",
    };
    "{\"old\":".to_owned().concat(old_text).concat(",\"new\":").concat(new_text).concat("}")
}

fn snapshot_text(s: &Option<Snapshot>) -> (r: Option<String>)
    ensures
        match r {
            Some(j) => Some(j@),
            None => None,
        } == opt_snapshot_json(crate::record::snapshot_opt_view(*s)),
{
    match s {
        Some(m) => {
            let d = quote_json(m.device_id.as_str());
            let n = quote_json(m.network_id.as_str());
            Some(snapshot_object_text(d.as_str(), n.as_str(), m.authorized))
        },
        None => None,
    }
}

/// The JSON text of a change record.
pub fn to_json(c: &ChangeRecord) -> (r: String)
    ensures
        r@ == change_json(c@),
{
    let old_json = snapshot_text(&c.previous);
    let new_json = snapshot_text(&c.current);
    change_object_text(&old_json, &new_json)
}

/// Capacity in bytes of the buffer handed to the callback.
pub const CALLBACK_BUFFER_CAPACITY: usize = 16384;

/// The first `min(|b|, CALLBACK_BUFFER_CAPACITY)` bytes of `b`.
pub open spec fn fit_to_buffer(b: Seq<u8>) -> Seq<u8> {
    if b.len() <= CALLBACK_BUFFER_CAPACITY {
        b
    } else {
        b.subrange(0, CALLBACK_BUFFER_CAPACITY as int)
    }
}

/// The bytes handed to the callback for a given text: its UTF-8 form, cut to
/// the buffer's capacity. Text beyond the capacity is dropped.
pub open spec fn callback_bytes(text: Seq<char>) -> Seq<u8> {
    fit_to_buffer(encode_utf8(text))
}

/// Copies the UTF-8 form of `text` into a buffer of the callback's capacity.
pub fn frame(text: &str) -> (r: Vec<u8>)
    ensures
        r@ == callback_bytes(text@),
        r@.len() <= CALLBACK_BUFFER_CAPACITY,
{
    let b = text.as_bytes();
    let n: usize = if b.len() <= CALLBACK_BUFFER_CAPACITY {
        b.len()
    } else {
        CALLBACK_BUFFER_CAPACITY
    };
    let mut out: Vec<u8> = Vec::with_capacity(n);
    let mut i: usize = 0;
    while i < n
        invariant
            n <= b@.len(),
            i <= n,
            out@ == b@.subrange(0, i as int),
        decreases n - i,
    {
        out.push(b[i]);
        i = i + 1;
        assert(out@ =~= b@.subrange(0, i as int));
    }
    assert(b@.subrange(0, b@.len() as int) =~= b@);
    out
}

} // verus!
