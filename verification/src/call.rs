//! Call envelopes: the message header, and the arguments of each method.

use crate::model::{entries_view, opt_text, EntryView, LogEntry};
use crate::wire::{
    be32, enc_str, holds_at, i32_to_word, i32_word, lemma_holds_at_split, lemma_i32_word_round_trip,
    lemma_read_str_at, lemma_read_u32_at, push_str, push_u32, read_str, read_u32, spec_read_str,
    spec_read_u32, str_fits, word_i32, word_to_i32, MAX_LEN, TAG_LIST, TAG_STOP, TAG_STRING,
    TAG_STRUCT,
};
use vstd::prelude::*;
use vstd::string::*;
use vstd::utf8::*;

verus! {

/// Message kind of a request.
pub const KIND_CALL: u8 = 1;

/// Message kind of an ordinary answer.
pub const KIND_REPLY: u8 = 2;

/// Message kind of an answer that reports a fault.
pub const KIND_EXCEPTION: u8 = 3;

/// The methods of the logging and status services.
#[derive(Clone, Copy, PartialEq, Eq, Debug)]
pub enum Method {
    Log,
    GetStatus,
    GetName,
    GetVersion,
    GetStatusDetails,
    GetCounters,
    AliveSince,
}

/// True where every character is ASCII and there are at most `n` of them.
pub open spec fn short_ascii(c: Seq<char>, n: int) -> bool {
    c.len() <= n && is_ascii_chars(c)
}

impl Method {
    /// The method's name as it travels.
    pub open spec fn spec_wire_name(&self) -> Seq<char> {
        match self {
            Method::Log => "Log"@,
            Method::GetStatus => "getStatus"@,
            Method::GetName => "getName"@,
            Method::GetVersion => "getVersion"@,
            Method::GetStatusDetails => "getStatusDetails"@,
            Method::GetCounters => "getCounters"@,
            Method::AliveSince => "aliveSince"@,
        }
    }

    /// The method's name as it travels.
    pub fn wire_name(&self) -> (n: &'static str)
        ensures
            n@ == self.spec_wire_name(),
            str_fits(n@),
    {
        let n = match self {
            Method::Log => "Log",
            Method::GetStatus => "getStatus",
            Method::GetName => "getName",
            Method::GetVersion => "getVersion",
            Method::GetStatusDetails => "getStatusDetails",
            Method::GetCounters => "getCounters",
            Method::AliveSince => "aliveSince",
        };
        proof {
            lemma_wire_name_fits(*self);
        }
        n
    }
}

/// Every method name is plain ASCII of at most sixteen characters, so it can
/// be sent.
pub proof fn lemma_wire_name_fits(m: Method)
    ensures
        short_ascii(m.spec_wire_name(), 16),
        str_fits(m.spec_wire_name()),
{
    reveal_strlit("Log");
    reveal_strlit("getStatus");
    reveal_strlit("getName");
    reveal_strlit("getVersion");
    reveal_strlit("getStatusDetails");
    reveal_strlit("getCounters");
    reveal_strlit("aliveSince");
    let c = m.spec_wire_name();
    assert(c.len() <= 16);
    assert(is_ascii_chars(c));
    is_ascii_chars_encode_utf8(c);
}

/// The header of a message: the version word with the kind in its last byte,
/// the method name, the sequence id.
pub open spec fn enc_header(kind: u8, name: Seq<char>, seq: i32) -> Seq<u8> {
    seq![0x80u8, 0x01u8, 0x00u8, kind] + enc_str(name) + be32(i32_to_word(seq))
}

/// An optional text field: nothing where it is absent, else the string tag,
/// the field id and the text.
pub open spec fn enc_text_field(id: u8, v: Option<Seq<char>>) -> Seq<u8> {
    match v {
        Some(c) => seq![TAG_STRING, 0u8, id] + enc_str(c),
        None => Seq::<u8>::empty(),
    }
}

/// One entry: its category as field 1, its message as field 2, the stop
/// marker.
pub open spec fn enc_entry(e: EntryView) -> Seq<u8> {
    enc_text_field(1, e.category) + enc_text_field(2, e.message) + seq![TAG_STOP]
}

/// The entries one after the other.
pub open spec fn enc_entries(es: Seq<EntryView>) -> Seq<u8>
    decreases es.len(),
{
    if es.len() == 0 {
        Seq::<u8>::empty()
    } else {
        enc_entry(es[0]) + enc_entries(es.skip(1))
    }
}

/// The arguments of `Log`: field 1, a list of structs, then the stop marker.
pub open spec fn enc_log_args(es: Seq<EntryView>) -> Seq<u8> {
    seq![TAG_LIST, 0u8, 1u8, TAG_STRUCT] + be32(es.len() as u32) + enc_entries(es) + seq![TAG_STOP]
}

/// The whole `Log` request.
pub open spec fn spec_encode_log_call(seq: i32, es: Seq<EntryView>) -> Seq<u8> {
    enc_header(KIND_CALL, Method::Log.spec_wire_name(), seq) + enc_log_args(es)
}

/// The whole request of a method that takes no argument.
pub open spec fn spec_encode_plain_call(method: Method, seq: i32) -> Seq<u8> {
    enc_header(KIND_CALL, method.spec_wire_name(), seq) + seq![TAG_STOP]
}

/// True where an optional text can be sent.
pub open spec fn opt_fits(v: Option<Seq<char>>) -> bool {
    match v {
        Some(c) => str_fits(c),
        None => true,
    }
}

/// True where both texts of an entry can be sent.
pub open spec fn entry_fits(e: EntryView) -> bool {
    opt_fits(e.category) && opt_fits(e.message)
}

/// True where a batch can be sent as one list.
pub open spec fn entries_fit(es: Seq<EntryView>) -> bool {
    es.len() <= MAX_LEN && forall|i: int| 0 <= i < es.len() ==> entry_fits(#[trigger] es[i])
}

/// Appending an entry to a batch appends its bytes.
pub proof fn lemma_enc_entries_push(es: Seq<EntryView>, e: EntryView)
    ensures
        enc_entries(es.push(e)) == enc_entries(es) + enc_entry(e),
    decreases es.len(),
{
    let t = es.push(e);
    if es.len() == 0 {
        assert(t.skip(1) =~= Seq::<EntryView>::empty());
        assert(enc_entries(t.skip(1)) =~= Seq::<u8>::empty());
        assert(enc_entries(t) =~= enc_entry(e));
        assert(enc_entries(es) + enc_entry(e) =~= enc_entry(e));
    } else {
        assert(t.skip(1) =~= es.skip(1).push(e));
        lemma_enc_entries_push(es.skip(1), e);
        assert(enc_entries(t) =~= enc_entries(es) + enc_entry(e));
    }
}

/// Appends a message header.
pub fn push_header(out: &mut Vec<u8>, kind: u8, name: &str, seq: i32)
    requires
        str_fits(name@),
    ensures
        final(out)@ == old(out)@ + enc_header(kind, name@, seq),
{
    out.push(0x80u8);
    out.push(0x01u8);
    out.push(0x00u8);
    out.push(kind);
    push_str(out, name);
    push_u32(out, i32_word(seq));
    assert(out@ =~= old(out)@ + enc_header(kind, name@, seq));
}

/// Appends an optional text field; reports whether the text could be sent.
fn push_text_field(out: &mut Vec<u8>, id: u8, v: &Option<String>) -> (ok: bool)
    ensures
        ok == opt_fits(opt_text(*v)),
        ok ==> final(out)@ == old(out)@ + enc_text_field(id, opt_text(*v)),
{
    match v {
        Some(s) => {
            let t = s.as_str();
            if t.as_bytes().len() > MAX_LEN {
                return false;
            }
            out.push(TAG_STRING);
            out.push(0u8);
            out.push(id);
            push_str(out, t);
            assert(out@ =~= old(out)@ + enc_text_field(id, opt_text(*v)));
            true
        },
        None => {
            assert(out@ =~= old(out)@ + enc_text_field(id, opt_text(*v)));
            true
        },
    }
}

/// Appends one entry; reports whether it could be sent.
fn push_entry(out: &mut Vec<u8>, e: &LogEntry) -> (ok: bool)
    ensures
        ok == entry_fits(e@),
        ok ==> final(out)@ == old(out)@ + enc_entry(e@),
{
    if !push_text_field(out, 1, &e.category) {
        return false;
    }
    if !push_text_field(out, 2, &e.message) {
        return false;
    }
    out.push(TAG_STOP);
    assert(out@ =~= old(out)@ + enc_entry(e@));
    true
}

/// Encodes a `Log` request that carries the whole batch as one list. There is
/// no request for a batch of more than `MAX_LEN` entries or with a text of more
/// than `MAX_LEN` bytes.
pub fn encode_log_call(seq: i32, entries: &[LogEntry]) -> (r: Option<Vec<u8>>)
    ensures
        r.is_some() == entries_fit(entries_view(entries@)),
        r matches Some(b) ==> b@ == spec_encode_log_call(seq, entries_view(entries@)),
{
    let ghost es = entries_view(entries@);
    if entries.len() > MAX_LEN {
        return None;
    }
    let mut out: Vec<u8> = Vec::new();
    push_header(&mut out, KIND_CALL, Method::Log.wire_name(), seq);
    out.push(TAG_LIST);
    out.push(0u8);
    out.push(1u8);
    out.push(TAG_STRUCT);
    push_u32(&mut out, entries.len() as u32);
    let ghost base = out@;
    assert(base =~= enc_header(KIND_CALL, Method::Log.spec_wire_name(), seq) + seq![TAG_LIST, 0u8, 1u8, TAG_STRUCT]
        + be32(es.len() as u32));
    let mut i: usize = 0;
    assert(es.take(0) =~= Seq::<EntryView>::empty());
    while i < entries.len()
        invariant
            i <= entries.len(),
            es == entries_view(entries@),
            out@ == base + enc_entries(es.take(i as int)),
            forall|j: int| 0 <= j < i ==> entry_fits(#[trigger] es[j]),
        decreases entries.len() - i,
    {
        if !push_entry(&mut out, &entries[i]) {
            assert(!entry_fits(es[i as int]));
            return None;
        }
        proof {
            lemma_enc_entries_push(es.take(i as int), es[i as int]);
            assert(es.take(i as int).push(es[i as int]) =~= es.take(i as int + 1));
        }
        i += 1;
    }
    assert(es.take(i as int) =~= es);
    out.push(TAG_STOP);
    assert(out@ =~= spec_encode_log_call(seq, es));
    Some(out)
}

/// Encodes the request of a method that takes no argument.
pub fn encode_plain_call(method: Method, seq: i32) -> (b: Vec<u8>)
    ensures
        b@ == spec_encode_plain_call(method, seq),
{
    let mut out: Vec<u8> = Vec::new();
    push_header(&mut out, KIND_CALL, method.wire_name(), seq);
    out.push(TAG_STOP);
    out
}

/// The header of a message as it was read.
#[derive(Debug)]
pub struct Header {
    pub kind: u8,
    pub name: String,
    pub seq: i32,
}

/// A header as mathematics.
pub ghost struct HeaderView {
    pub kind: u8,
    pub name: Seq<char>,
    pub seq: i32,
}

impl View for Header {
    type V = HeaderView;

    open spec fn view(&self) -> HeaderView {
        HeaderView { kind: self.kind, name: self.name@, seq: self.seq }
    }
}

/// The header with which `s` begins, and where it ends: the two version bytes,
/// a byte that is passed over, the kind, the name, the sequence id.
pub open spec fn spec_read_header(s: Seq<u8>) -> Option<(HeaderView, int)> {
    if s.len() >= 4 && s[0] == 0x80 && s[1] == 0x01 {
        match spec_read_str(s, 4) {
            Some((name, p)) => match spec_read_u32(s, p) {
                Some((w, q)) => Some((HeaderView { kind: s[3], name, seq: word_to_i32(w) }, q)),
                None => None,
            },
            None => None,
        }
    } else {
        None
    }
}

/// Reads the header with which `buf` begins.
pub fn read_header(buf: &[u8]) -> (r: Option<(Header, usize)>)
    ensures
        r.is_some() == spec_read_header(buf@).is_some(),
        r matches Some((h, next)) ==> spec_read_header(buf@) == Some((h@, next as int)),
{
    if buf.len() < 4 || buf[0] != 0x80u8 || buf[1] != 0x01u8 {
        return None;
    }
    let kind: u8 = buf[3];
    match read_str(buf, 4) {
        Some((name, p)) => match read_u32(buf, p) {
            Some((w, q)) => Some((Header { kind, name, seq: word_i32(w) }, q)),
            None => None,
        },
        None => None,
    }
}

/// A header that stands at the start of `s` is the header read there.
pub proof fn lemma_read_header_at(s: Seq<u8>, kind: u8, name: Seq<char>, seq: i32)
    requires
        str_fits(name),
        holds_at(s, 0, enc_header(kind, name, seq)),
    ensures
        spec_read_header(s) == Some(
            (HeaderView { kind, name, seq }, enc_header(kind, name, seq).len() as int),
        ),
{
    let v = seq![0x80u8, 0x01u8, 0x00u8, kind];
    let w = be32(i32_to_word(seq));
    lemma_holds_at_split(s, 0, v + enc_str(name), w);
    lemma_holds_at_split(s, 0, v, enc_str(name));
    assert(s[0int + 0] == v[0]);
    assert(s[0int + 1] == v[1]);
    assert(s[0int + 3] == v[3]);
    lemma_read_str_at(s, 4, name);
    lemma_read_u32_at(s, 4 + enc_str(name).len() as int, i32_to_word(seq));
    lemma_i32_word_round_trip(seq);
}

/// No request of a method without arguments is longer than this many bytes.
pub const PLAIN_CALL_MAX: u32 = 29;

/// A request without arguments is its header and one byte; with a name of at
/// most sixteen ASCII characters that is at most `PLAIN_CALL_MAX` bytes.
pub proof fn lemma_plain_call_len(method: Method, seq: i32)
    ensures
        spec_encode_plain_call(method, seq).len() <= PLAIN_CALL_MAX,
{
    lemma_wire_name_fits(method);
    is_ascii_chars_encode_utf8(method.spec_wire_name());
}

} // verus!
