//! Reading a `Log` request back, as the collector at the other end does.

use crate::call::{
    enc_entries, enc_entry, enc_header, enc_log_args, enc_text_field, entries_fit, entry_fits,
    lemma_read_header_at, lemma_wire_name_fits, read_header, spec_encode_log_call,
    spec_read_header, Method, KIND_CALL,
};
use crate::model::{entries_view, EntryView, LogEntry};
use crate::reply::{
    ends_at, field_at, has_field, is_end, read_text_field, service_call_matches,
    spec_read_text_field,
};
use crate::wire::{
    be32, enc_str, holds_at, lemma_holds_at_split, lemma_read_str_at, lemma_read_u32_at, read_u32,
    spec_read_u32, str_fits, MAX_LEN, TAG_LIST, TAG_STOP, TAG_STRING, TAG_STRUCT,
};
use vstd::prelude::*;

verus! {

/// The entry at `pos`: an optional category as field 1, an optional message
/// as field 2, the stop marker.
pub open spec fn spec_read_entry(s: Seq<u8>, pos: int) -> Option<(EntryView, int)> {
    match spec_read_text_field(s, pos, 1) {
        Some((category, p)) => match spec_read_text_field(s, p, 2) {
            Some((message, q)) => if 0 <= q < s.len() && s[q] == TAG_STOP {
                Some((EntryView { category, message }, q + 1))
            } else {
                None
            },
            None => None,
        },
        None => None,
    }
}

/// `n` entries from `pos` on, appended to `acc`.
pub open spec fn spec_read_entries(s: Seq<u8>, pos: int, n: nat, acc: Seq<EntryView>) -> Option<
    (Seq<EntryView>, int),
>
    decreases n,
{
    if n == 0 {
        Some((acc, pos))
    } else {
        match spec_read_entry(s, pos) {
            Some((e, p)) => spec_read_entries(s, p, (n - 1) as nat, acc.push(e)),
            None => None,
        }
    }
}

/// The sequence id and the entries of a `Log` request, where `s` is one: a
/// call header for `Log`, field 1 as a list of structs, the entries, the stop
/// marker, and nothing after it.
pub open spec fn spec_decode_log_call(s: Seq<u8>) -> Option<(i32, Seq<EntryView>)> {
    match spec_read_header(s) {
        Some((h, p)) => if h.kind == KIND_CALL && h.name == Method::Log.spec_wire_name() && field_at(
            s,
            p,
            TAG_LIST,
            1,
        ) && p + 4 <= s.len() && s[p + 3] == TAG_STRUCT {
            match spec_read_u32(s, p + 4) {
                Some((n, q)) => if n <= MAX_LEN {
                    match spec_read_entries(s, q, n as nat, Seq::empty()) {
                        Some((es, r)) => if ends_at(s, r) {
                            Some((h.seq, es))
                        } else {
                            None
                        },
                        None => None,
                    }
                } else {
                    None
                },
                None => None,
            }
        } else {
            None
        },
        None => None,
    }
}

/// Reads the entry at `pos`.
fn read_entry(buf: &[u8], pos: usize) -> (r: Option<(LogEntry, usize)>)
    ensures
        r.is_some() == spec_read_entry(buf@, pos as int).is_some(),
        r matches Some((e, next)) ==> spec_read_entry(buf@, pos as int) == Some(
            (e@, next as int),
        ),
{
    match read_text_field(buf, pos, 1) {
        Some((category, p)) => match read_text_field(buf, p, 2) {
            Some((message, q)) => {
                if q < buf.len() && buf[q] == TAG_STOP {
                    Some((LogEntry { category, message }, q + 1))
                } else {
                    None
                }
            },
            None => None,
        },
        None => None,
    }
}

/// Reads `n` entries from `pos` on.
fn read_entries(buf: &[u8], pos: usize, n: u32) -> (r: Option<(Vec<LogEntry>, usize)>)
    ensures
        r.is_some() == spec_read_entries(buf@, pos as int, n as nat, Seq::empty()).is_some(),
        r matches Some((v, next)) ==> spec_read_entries(buf@, pos as int, n as nat, Seq::empty())
            == Some((entries_view(v@), next as int)),
{
    let mut acc: Vec<LogEntry> = Vec::new();
    let mut cur: usize = pos;
    let mut i: u32 = 0;
    assert(entries_view(acc@) =~= Seq::empty());
    while i < n
        invariant
            i <= n,
            spec_read_entries(buf@, pos as int, n as nat, Seq::empty()) == spec_read_entries(
                buf@,
                cur as int,
                (n - i) as nat,
                entries_view(acc@),
            ),
        decreases n - i,
    {
        let ghost before = entries_view(acc@);
        match read_entry(buf, cur) {
            Some((e, p)) => {
                let ghost ev = e@;
                acc.push(e);
                assert(entries_view(acc@) =~= before.push(ev));
                cur = p;
            },
            None => {
                return None;
            },
        }
        i += 1;
    }
    Some((acc, cur))
}

/// Decodes a `Log` request into its sequence id and its entries.
pub fn decode_log_call(payload: &[u8]) -> (r: Option<(i32, Vec<LogEntry>)>)
    ensures
        r.is_some() == spec_decode_log_call(payload@).is_some(),
        r matches Some((seq, es)) ==> spec_decode_log_call(payload@) == Some(
            (seq, entries_view(es@)),
        ),
{
    match read_header(payload) {
        Some((h, p)) => {
            if h.kind != KIND_CALL || !service_call_matches(Method::Log.wire_name(), h.name.as_str()) {
                return None;
            }
            if !has_field(payload, p, TAG_LIST, 1) {
                return None;
            }
            if payload.len() - p < 4 || payload[p + 3] != TAG_STRUCT {
                return None;
            }
            match read_u32(payload, p + 4) {
                Some((n, q)) => {
                    if n as usize > MAX_LEN {
                        return None;
                    }
                    match read_entries(payload, q, n) {
                        Some((es, r)) => if is_end(payload, r) {
                            Some((h.seq, es))
                        } else {
                            None
                        },
                        None => None,
                    }
                },
                None => None,
            }
        },
        None => None,
    }
}

/// A text field that stands at `pos` is the field read there.
proof fn lemma_text_field_present(s: Seq<u8>, pos: int, id: u8, c: Seq<char>)
    requires
        str_fits(c),
        holds_at(s, pos, enc_text_field(id, Some(c))),
    ensures
        s[pos] == TAG_STRING,
        s[pos + 2] == id,
        0 <= pos,
        pos + 3 <= s.len(),
        spec_read_text_field(s, pos, id) == Some(
            (Some(c), pos + enc_text_field(id, Some(c)).len()),
        ),
{
    let t = seq![TAG_STRING, 0u8, id];
    lemma_holds_at_split(s, pos, t, enc_str(c));
    assert(s[pos + 0] == t[0]);
    assert(s[pos + 1] == t[1]);
    assert(s[pos + 2] == t[2]);
    lemma_read_str_at(s, pos + 3, c);
}

/// An entry that stands at `pos` is the entry read there.
pub proof fn lemma_read_entry_at(s: Seq<u8>, pos: int, e: EntryView)
    requires
        entry_fits(e),
        holds_at(s, pos, enc_entry(e)),
    ensures
        spec_read_entry(s, pos) == Some((e, pos + enc_entry(e).len())),
{
    let f1 = enc_text_field(1, e.category);
    let f2 = enc_text_field(2, e.message);
    let z = seq![TAG_STOP];
    lemma_holds_at_split(s, pos, f1 + f2, z);
    lemma_holds_at_split(s, pos, f1, f2);
    let p1 = pos + f1.len();
    let p2 = p1 + f2.len();
    assert(s[p2 + 0] == z[0]);
    match e.message {
        Some(m) => {
            lemma_text_field_present(s, p1, 2, m);
        },
        None => {
            assert(s[p1] == 0);
            assert(!field_at(s, p1, TAG_STRING, 2));
        },
    }
    match e.category {
        Some(c) => {
            lemma_text_field_present(s, pos, 1, c);
        },
        None => {
            assert(p1 == pos);
            assert(!field_at(s, pos, TAG_STRING, 1));
        },
    }
}

/// Entries that stand at `pos` are the entries read there, in order.
pub proof fn lemma_read_entries_at(s: Seq<u8>, pos: int, es: Seq<EntryView>, acc: Seq<EntryView>)
    requires
        forall|i: int| 0 <= i < es.len() ==> entry_fits(#[trigger] es[i]),
        holds_at(s, pos, enc_entries(es)),
    ensures
        spec_read_entries(s, pos, es.len(), acc) == Some((acc + es, pos + enc_entries(es).len())),
    decreases es.len(),
{
    if es.len() == 0 {
        assert(acc + es =~= acc);
    } else {
        let rest = es.skip(1);
        lemma_holds_at_split(s, pos, enc_entry(es[0]), enc_entries(rest));
        lemma_read_entry_at(s, pos, es[0]);
        assert forall|i: int| 0 <= i < rest.len() implies entry_fits(#[trigger] rest[i]) by {
            assert(rest[i] == es[i + 1]);
        }
        lemma_read_entries_at(s, pos + enc_entry(es[0]).len(), rest, acc.push(es[0]));
        assert(acc.push(es[0]) + rest =~= acc + es);
    }
}

/// Decoding an encoded `Log` request gives back the sequence id and the same
/// list of categories and messages, for every batch that can be sent.
pub proof fn lemma_log_call_round_trip(seq: i32, es: Seq<EntryView>)
    requires
        entries_fit(es),
    ensures
        spec_decode_log_call(spec_encode_log_call(seq, es)) == Some((seq, es)),
{
    let name = Method::Log.spec_wire_name();
    let h = enc_header(KIND_CALL, name, seq);
    let t = seq![TAG_LIST, 0u8, 1u8, TAG_STRUCT];
    let w = be32(es.len() as u32);
    let b = enc_entries(es);
    let z = seq![TAG_STOP];
    let s = spec_encode_log_call(seq, es);
    lemma_wire_name_fits(Method::Log);
    assert(holds_at(s, 0, h + enc_log_args(es)));
    lemma_holds_at_split(s, 0, h, enc_log_args(es));
    lemma_read_header_at(s, KIND_CALL, name, seq);
    let p = h.len() as int;
    lemma_holds_at_split(s, p, t + w + b, z);
    lemma_holds_at_split(s, p, t + w, b);
    lemma_holds_at_split(s, p, t, w);
    assert(s[p + 0] == t[0]);
    assert(s[p + 1] == t[1]);
    assert(s[p + 2] == t[2]);
    assert(s[p + 3] == t[3]);
    lemma_read_u32_at(s, p + 4, es.len() as u32);
    lemma_read_entries_at(s, p + 8, es, Seq::empty());
    assert(Seq::<EntryView>::empty() + es =~= es);
    let r = p + 8 + b.len();
    assert(s[r + 0] == z[0]);
}

} // verus!
