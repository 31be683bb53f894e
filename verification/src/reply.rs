//! Reply envelopes: what came back for a call, as a value or as an error.

use crate::call::{
    enc_header, lemma_read_header_at, lemma_wire_name_fits, read_header, spec_read_header,
    HeaderView, Method, KIND_EXCEPTION, KIND_REPLY,
};
use crate::counters::{counters_view, lemma_put_ordered, ordered, put, put_counter};
use crate::model::{
    spec_result_code_from_wire, spec_status_from_wire, ClientError, ErrorView, ResultCode,
    ServiceStatus,
};
use crate::wire::{
    be32, holds_at, i32_to_word, lemma_holds_at_split, lemma_i32_word_round_trip,
    lemma_read_u32_at, read_str, read_u32, read_u64, spec_read_str, spec_read_u32, spec_read_u64,
    word_i32, word_i64, word_to_i32, word_to_i64, MAX_LEN, TAG_I32, TAG_I64, TAG_MAP, TAG_STOP,
    TAG_STRING,
};
use vstd::prelude::*;

verus! {

/// The value that a call returned.
#[derive(Debug)]
pub enum Reply {
    /// Of `Log`.
    Code(ResultCode),
    /// Of `getStatus`.
    Status(ServiceStatus),
    /// Of `getName`, `getVersion` and `getStatusDetails`.
    Text(String),
    /// Of `getCounters`: one entry for each key, ordered by key; of several
    /// values sent for one key, the last.
    Counters(Vec<(String, i64)>),
    /// Of `aliveSince`.
    Since(i64),
}

/// A reply as mathematics.
pub ghost enum ReplyView {
    Code(ResultCode),
    Status(ServiceStatus),
    Text(Seq<char>),
    Counters(Seq<(Seq<char>, i64)>),
    Since(i64),
}

impl View for Reply {
    type V = ReplyView;

    open spec fn view(&self) -> ReplyView {
        match self {
            Reply::Code(c) => ReplyView::Code(*c),
            Reply::Status(s) => ReplyView::Status(*s),
            Reply::Text(t) => ReplyView::Text(t@),
            Reply::Counters(v) => ReplyView::Counters(counters_view(v@)),
            Reply::Since(t) => ReplyView::Since(*t),
        }
    }
}

/// True where the field header `tag 0 id` stands at `pos`.
pub open spec fn field_at(s: Seq<u8>, pos: int, tag: u8, id: u8) -> bool {
    0 <= pos && pos + 3 <= s.len() && s[pos] == tag && s[pos + 1] == 0 && s[pos + 2] == id
}

/// True where the stop marker stands at `pos` and ends the message.
pub open spec fn ends_at(s: Seq<u8>, pos: int) -> bool {
    0 <= pos && pos + 1 == s.len() && s[pos] == TAG_STOP
}

/// An optional text field with the given id at `pos`: absent where another
/// field header or the stop marker stands there.
pub open spec fn spec_read_text_field(s: Seq<u8>, pos: int, id: u8) -> Option<
    (Option<Seq<char>>, int),
> {
    if field_at(s, pos, TAG_STRING, id) {
        match spec_read_str(s, pos + 3) {
            Some((t, p)) => Some((Some(t), p)),
            None => None,
        }
    } else {
        Some((None, pos))
    }
}

/// An optional 32-bit field with the given id at `pos`.
pub open spec fn spec_read_i32_field(s: Seq<u8>, pos: int, id: u8) -> Option<(Option<i32>, int)> {
    if field_at(s, pos, TAG_I32, id) {
        match spec_read_u32(s, pos + 3) {
            Some((w, p)) => Some((Some(word_to_i32(w)), p)),
            None => None,
        }
    } else {
        Some((None, pos))
    }
}

/// `n` counter entries from `pos` on, each set in `acc` in the order in which
/// they come.
pub open spec fn spec_read_counters(s: Seq<u8>, pos: int, n: nat, acc: Seq<(Seq<char>, i64)>)
    -> Option<(Seq<(Seq<char>, i64)>, int)>
    decreases n,
{
    if n == 0 {
        Some((acc, pos))
    } else {
        match spec_read_str(s, pos) {
            Some((k, p)) => match spec_read_u64(s, p) {
                Some((w, q)) => spec_read_counters(
                    s,
                    q,
                    (n - 1) as nat,
                    put(acc, k, word_to_i64(w)),
                ),
                None => None,
            },
            None => None,
        }
    }
}

/// The fault that an exception message describes: an optional text as field
/// 1, an optional code as field 2, the stop marker. Anything else is a
/// protocol failure.
pub open spec fn spec_decode_fault(s: Seq<u8>, pos: int) -> ErrorView {
    match spec_read_text_field(s, pos, 1) {
        Some((message, p)) => match spec_read_i32_field(s, p, 2) {
            Some((code, q)) => if ends_at(s, q) {
                ErrorView::RemoteService { message, code }
            } else {
                ErrorView::Protocol
            },
            None => ErrorView::Protocol,
        },
        None => ErrorView::Protocol,
    }
}

/// The value in field 0 of a result struct, of the type that `method`
/// returns, followed by the stop marker. Anything else is a protocol failure.
pub open spec fn spec_decode_result(s: Seq<u8>, pos: int, method: Method) -> Option<ReplyView> {
    match method {
        Method::Log => if field_at(s, pos, TAG_I32, 0) {
            match spec_read_u32(s, pos + 3) {
                Some((w, p)) => match spec_result_code_from_wire(word_to_i32(w)) {
                    Some(c) => if ends_at(s, p) {
                        Some(ReplyView::Code(c))
                    } else {
                        None
                    },
                    None => None,
                },
                None => None,
            }
        } else {
            None
        },
        Method::GetStatus => if field_at(s, pos, TAG_I32, 0) {
            match spec_read_u32(s, pos + 3) {
                Some((w, p)) => if ends_at(s, p) {
                    Some(ReplyView::Status(spec_status_from_wire(word_to_i32(w))))
                } else {
                    None
                },
                None => None,
            }
        } else {
            None
        },
        Method::AliveSince => if field_at(s, pos, TAG_I64, 0) {
            match spec_read_u64(s, pos + 3) {
                Some((w, p)) => if ends_at(s, p) {
                    Some(ReplyView::Since(word_to_i64(w)))
                } else {
                    None
                },
                None => None,
            }
        } else {
            None
        },
        Method::GetCounters => if field_at(s, pos, TAG_MAP, 0) && pos + 5 <= s.len() && s[pos + 3] == TAG_STRING
            && s[pos + 4] == TAG_I64 {
            match spec_read_u32(s, pos + 5) {
                Some((n, p)) => if n <= MAX_LEN {
                    match spec_read_counters(s, p, n as nat, Seq::empty()) {
                        Some((v, q)) => if ends_at(s, q) {
                            Some(ReplyView::Counters(v))
                        } else {
                            None
                        },
                        None => None,
                    }
                } else {
                    None
                },
                None => None,
            }
        } else {
            None
        },
        _ => if field_at(s, pos, TAG_STRING, 0) {
            match spec_read_str(s, pos + 3) {
                Some((t, p)) => if ends_at(s, p) {
                    Some(ReplyView::Text(t))
                } else {
                    None
                },
                None => None,
            }
        } else {
            None
        },
    }
}

/// What the payload of a reply frame means for the call of `method` that went
/// out under `seq`.
///
/// A payload without a well-formed header, of a kind other than reply or
/// exception, for another method, or under another sequence id is a protocol
/// failure. An exception gives the fault it describes. A reply gives the
/// value of the method's type in it.
pub open spec fn spec_decode_reply(s: Seq<u8>, method: Method, seq: i32) -> Result<
    ReplyView,
    ErrorView,
> {
    match spec_read_header(s) {
        None => Err(ErrorView::Protocol),
        Some((h, p)) => if h.kind != KIND_REPLY && h.kind != KIND_EXCEPTION {
            Err(ErrorView::Protocol)
        } else if h.seq != seq || h.name != method.spec_wire_name() {
            Err(ErrorView::Protocol)
        } else if h.kind == KIND_EXCEPTION {
            Err(spec_decode_fault(s, p))
        } else {
            match spec_decode_result(s, p, method) {
                Some(v) => Ok(v),
                None => Err(ErrorView::Protocol),
            }
        },
    }
}

/// The view of a decoded result.
pub open spec fn outcome_view(r: Result<Reply, ClientError>) -> Result<ReplyView, ErrorView> {
    match r {
        Ok(v) => Ok(v@),
        Err(e) => Err(e@),
    }
}

/// Tells whether the field header `tag 0 id` stands at `pos`.
pub(crate) fn has_field(buf: &[u8], pos: usize, tag: u8, id: u8) -> (b: bool)
    ensures
        b == field_at(buf@, pos as int, tag, id),
        b ==> pos + 3 <= buf.len(),
{
    buf.len() >= 3 && pos <= buf.len() - 3 && buf[pos] == tag && buf[pos + 1] == 0 && buf[pos + 2]
        == id
}

/// Tells whether the stop marker at `pos` ends the message.
pub(crate) fn is_end(buf: &[u8], pos: usize) -> (b: bool)
    ensures
        b == ends_at(buf@, pos as int),
{
    pos < buf.len() && pos == buf.len() - 1 && buf[pos] == TAG_STOP
}

/// Reads an optional text field with the given id.
pub(crate) fn read_text_field(buf: &[u8], pos: usize, id: u8) -> (r: Option<(Option<String>, usize)>)
    ensures
        r.is_some() == spec_read_text_field(buf@, pos as int, id).is_some(),
        r matches Some((v, next)) ==> spec_read_text_field(buf@, pos as int, id) == Some(
            (crate::model::opt_text(v), next as int),
        ),
{
    if has_field(buf, pos, TAG_STRING, id) {
        match read_str(buf, pos + 3) {
            Some((t, p)) => Some((Some(t), p)),
            None => None,
        }
    } else {
        Some((None, pos))
    }
}

/// Reads an optional 32-bit field with the given id.
fn read_i32_field(buf: &[u8], pos: usize, id: u8) -> (r: Option<(Option<i32>, usize)>)
    ensures
        r.is_some() == spec_read_i32_field(buf@, pos as int, id).is_some(),
        r matches Some((v, next)) ==> spec_read_i32_field(buf@, pos as int, id) == Some(
            (v, next as int),
        ),
{
    if has_field(buf, pos, TAG_I32, id) {
        match read_u32(buf, pos + 3) {
            Some((w, p)) => Some((Some(word_i32(w)), p)),
            None => None,
        }
    } else {
        Some((None, pos))
    }
}

/// Reads `n` counter entries into an ordered snapshot.
fn read_counters(buf: &[u8], pos: usize, n: u32) -> (r: Option<(Vec<(String, i64)>, usize)>)
    ensures
        r.is_some() == spec_read_counters(buf@, pos as int, n as nat, Seq::empty()).is_some(),
        r matches Some((v, next)) ==> spec_read_counters(buf@, pos as int, n as nat, Seq::empty())
            == Some((counters_view(v@), next as int)),
{
    let mut acc: Vec<(String, i64)> = Vec::new();
    let mut cur: usize = pos;
    let mut i: u32 = 0;
    assert(counters_view(acc@) =~= Seq::empty());
    while i < n
        invariant
            i <= n,
            spec_read_counters(buf@, pos as int, n as nat, Seq::empty()) == spec_read_counters(
                buf@,
                cur as int,
                (n - i) as nat,
                counters_view(acc@),
            ),
        decreases n - i,
    {
        match read_str(buf, cur) {
            Some((k, p)) => match read_u64(buf, p) {
                Some((w, q)) => {
                    put_counter(&mut acc, k, word_i64(w));
                    cur = q;
                },
                None => {
                    return None;
                },
            },
            None => {
                return None;
            },
        }
        i += 1;
    }
    Some((acc, cur))
}

/// Reads the fault of an exception message.
fn decode_fault(buf: &[u8], pos: usize) -> (e: ClientError)
    ensures
        e@ == spec_decode_fault(buf@, pos as int),
{
    match read_text_field(buf, pos, 1) {
        Some((message, p)) => match read_i32_field(buf, p, 2) {
            Some((code, q)) => {
                if is_end(buf, q) {
                    ClientError::RemoteService { message, code }
                } else {
                    ClientError::Protocol
                }
            },
            None => ClientError::Protocol,
        },
        None => ClientError::Protocol,
    }
}

/// Reads the value of a reply message.
fn decode_result(buf: &[u8], pos: usize, method: Method) -> (r: Option<Reply>)
    ensures
        r.is_some() == spec_decode_result(buf@, pos as int, method).is_some(),
        r matches Some(v) ==> spec_decode_result(buf@, pos as int, method) == Some(v@),
{
    match method {
        Method::Log => {
            if !has_field(buf, pos, TAG_I32, 0) {
                return None;
            }
            match read_u32(buf, pos + 3) {
                Some((w, p)) => match ResultCode::from_wire(word_i32(w)) {
                    Some(c) => if is_end(buf, p) {
                        Some(Reply::Code(c))
                    } else {
                        None
                    },
                    None => None,
                },
                None => None,
            }
        },
        Method::GetStatus => {
            if !has_field(buf, pos, TAG_I32, 0) {
                return None;
            }
            match read_u32(buf, pos + 3) {
                Some((w, p)) => if is_end(buf, p) {
                    Some(Reply::Status(ServiceStatus::from_wire(word_i32(w))))
                } else {
                    None
                },
                None => None,
            }
        },
        Method::AliveSince => {
            if !has_field(buf, pos, TAG_I64, 0) {
                return None;
            }
            match read_u64(buf, pos + 3) {
                Some((w, p)) => if is_end(buf, p) {
                    Some(Reply::Since(word_i64(w)))
                } else {
                    None
                },
                None => None,
            }
        },
        Method::GetCounters => {
            if !has_field(buf, pos, TAG_MAP, 0) {
                return None;
            }
            if buf.len() - pos < 5 || buf[pos + 3] != TAG_STRING || buf[pos + 4] != TAG_I64 {
                return None;
            }
            match read_u32(buf, pos + 5) {
                Some((n, p)) => {
                    if n as usize > MAX_LEN {
                        return None;
                    }
                    match read_counters(buf, p, n) {
                        Some((v, q)) => if is_end(buf, q) {
                            Some(Reply::Counters(v))
                        } else {
                            None
                        },
                        None => None,
                    }
                },
                None => None,
            }
        },
        _ => {
            if !has_field(buf, pos, TAG_STRING, 0) {
                return None;
            }
            match read_str(buf, pos + 3) {
                Some((t, p)) => if is_end(buf, p) {
                    Some(Reply::Text(t))
                } else {
                    None
                },
                None => None,
            }
        },
    }
}

/// Decodes the payload of a reply frame for the call of `method` that went
/// out under `seq`.
pub fn decode_reply(payload: &[u8], method: Method, seq: i32) -> (r: Result<Reply, ClientError>)
    ensures
        outcome_view(r) == spec_decode_reply(payload@, method, seq),
{
    match read_header(payload) {
        None => Err(ClientError::Protocol),
        Some((h, p)) => {
            if h.kind != KIND_REPLY && h.kind != KIND_EXCEPTION {
                Err(ClientError::Protocol)
            } else if !sequence_id_matches(seq, h.seq) || !service_call_matches(
                method.wire_name(),
                h.name.as_str(),
            ) {
                Err(ClientError::Protocol)
            } else if h.kind == KIND_EXCEPTION {
                Err(decode_fault(payload, p))
            } else {
                match decode_result(payload, p, method) {
                    Some(v) => Ok(v),
                    None => Err(ClientError::Protocol),
                }
            }
        },
    }
}

/// `thrift::protocol::verify_expected_sequence_number`: it accepts exactly
/// where the two sequence ids are equal.
#[verifier::external_body]
fn sequence_id_matches(expected: i32, actual: i32) -> (r: bool)
    ensures
        r == (expected == actual),
{
    match thrift::protocol::verify_expected_sequence_number(expected, actual) {
        Ok(()) => true,
        Err(_) => false,
    }
}

/// `thrift::protocol::verify_expected_service_call`: it accepts exactly where
/// the two method names hold the same characters.
#[verifier::external_body]
pub(crate) fn service_call_matches(expected: &str, actual: &str) -> (r: bool)
    ensures
        r == (expected@ == actual@),
{
    match thrift::protocol::verify_expected_service_call(expected, actual) {
        Ok(()) => true,
        Err(_) => false,
    }
}

/// A reply under another sequence id than the request's is a protocol
/// failure, whatever else it holds.
pub proof fn lemma_sequence_mismatch_rejected(s: Seq<u8>, method: Method, seq: i32)
    requires
        spec_read_header(s) matches Some((h, _)) && h.seq != seq,
    ensures
        spec_decode_reply(s, method, seq) == Err::<ReplyView, ErrorView>(ErrorView::Protocol),
{
}

/// Counter entries that were read into an ordered snapshot are ordered.
pub proof fn lemma_read_counters_ordered(
    s: Seq<u8>,
    pos: int,
    n: nat,
    acc: Seq<(Seq<char>, i64)>,
)
    requires
        ordered(acc),
    ensures
        spec_read_counters(s, pos, n, acc) matches Some((v, _)) ==> ordered(v),
    decreases n,
{
    if n > 0 {
        match spec_read_str(s, pos) {
            Some((k, p)) => match spec_read_u64(s, p) {
                Some((w, q)) => {
                    lemma_put_ordered(acc, k, word_to_i64(w));
                    lemma_read_counters_ordered(s, q, (n - 1) as nat, put(acc, k, word_to_i64(w)));
                },
                None => {},
            },
            None => {},
        }
    }
}

/// The counters of a `getCounters` reply are ordered by key, whatever the
/// order in which the peer sent them.
pub proof fn lemma_counters_reply_ordered(s: Seq<u8>, seq: i32)
    ensures
        spec_decode_reply(s, Method::GetCounters, seq) matches Ok(ReplyView::Counters(v))
            ==> ordered(v),
{
    match spec_read_header(s) {
        Some((_, pos)) => {
            match spec_read_u32(s, pos + 5) {
                Some((n, p)) => {
                    lemma_read_counters_ordered(s, p, n as nat, Seq::empty());
                },
                None => {},
            }
        },
        None => {},
    }
}

/// A reply that carries a 32-bit value as its result: the header, field 0 as
/// a 32-bit integer, the stop marker.
pub open spec fn spec_i32_reply(method: Method, seq: i32, value: i32) -> Seq<u8> {
    enc_header(KIND_REPLY, method.spec_wire_name(), seq) + seq![TAG_I32, 0u8, 0u8] + be32(
        i32_to_word(value),
    ) + seq![TAG_STOP]
}

/// How a reply with a 32-bit result reads: its header, the field header, the
/// value, the end.
proof fn lemma_i32_reply_shape(method: Method, seq: i32, value: i32)
    ensures
        ({
            let s = spec_i32_reply(method, seq, value);
            let p = enc_header(KIND_REPLY, method.spec_wire_name(), seq).len() as int;
            &&& spec_read_header(s) == Some(
                (HeaderView { kind: KIND_REPLY, name: method.spec_wire_name(), seq }, p),
            )
            &&& field_at(s, p, TAG_I32, 0)
            &&& spec_read_u32(s, p + 3) == Some((i32_to_word(value), p + 7))
            &&& word_to_i32(i32_to_word(value)) == value
            &&& ends_at(s, p + 7)
        }),
{
    let name = method.spec_wire_name();
    let h = enc_header(KIND_REPLY, name, seq);
    let t = seq![TAG_I32, 0u8, 0u8];
    let w = be32(i32_to_word(value));
    let z = seq![TAG_STOP];
    let s = spec_i32_reply(method, seq, value);
    let p = h.len() as int;
    lemma_wire_name_fits(method);
    assert(holds_at(s, 0, h + t + w + z));
    lemma_holds_at_split(s, 0, h + t + w, z);
    lemma_holds_at_split(s, 0, h + t, w);
    lemma_holds_at_split(s, 0, h, t);
    lemma_read_header_at(s, KIND_REPLY, name, seq);
    assert(s[p + 0] == t[0]);
    assert(s[p + 1] == t[1]);
    assert(s[p + 2] == t[2]);
    lemma_read_u32_at(s, p + 3, i32_to_word(value));
    lemma_i32_word_round_trip(value);
    assert(s[p + 7 + 0] == z[0]);
}

/// A `getStatus` reply under the request's sequence id is a value whatever
/// code it carries, never an error: a code outside the six known ones gives
/// the unknown status with that code.
pub proof fn lemma_status_reply_is_a_value(seq: i32, code: i32)
    ensures
        spec_decode_reply(spec_i32_reply(Method::GetStatus, seq, code), Method::GetStatus, seq)
            == Ok::<ReplyView, ErrorView>(ReplyView::Status(spec_status_from_wire(code))),
        !(0 <= code <= 5) ==> spec_status_from_wire(code) == ServiceStatus::UNKNOWN(code),
{
    lemma_i32_reply_shape(Method::GetStatus, seq, code);
}

/// A `Log` reply under the request's sequence id gives the result code it
/// carries; a code that is neither is a protocol failure.
pub proof fn lemma_log_reply_decodes(seq: i32, code: i32)
    ensures
        spec_decode_reply(spec_i32_reply(Method::Log, seq, code), Method::Log, seq) == (
        match spec_result_code_from_wire(code) {
            Some(c) => Ok::<ReplyView, ErrorView>(ReplyView::Code(c)),
            None => Err::<ReplyView, ErrorView>(ErrorView::Protocol),
        }),
{
    lemma_i32_reply_shape(Method::Log, seq, code);
}

} // verus!
