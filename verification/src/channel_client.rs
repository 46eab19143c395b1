//! The client side of the sealed request channel: the HTTP request it writes, how it
//! reads the response, and what it makes of a pairing or a method reply.

use vstd::prelude::*;
use vstd::string::*;

use crate::tables::Id;
use crate::text::{
    chars_of, decimal, decimal_i64, decimal_u64, digit_char, hex_bytes, hex_text, is_hex,
    is_white, join3, law_unhex_inverts_hex, same_text, signed_decimal, text_of, unhex, white,
};

verus! {

/// The largest response that the client reads, head and body together.
pub const MAX_RESPONSE_BYTES: u64 = 8_388_608;

/// How long one request waits for the station, in seconds.
pub const RESPONSE_TIMEOUT_SECS: u64 = 20;

/// Why a call over the sealed channel failed.
#[derive(Clone, Debug, PartialEq, Eq)]
pub enum ChannelClientError {
    /// The connection could not be made or read.
    Connect {
        /// The `host:port` that was dialled.
        url: String,
        /// The system's error.
        source: String,
    },
    /// The station did not answer in time.
    Timeout {
        /// How long it had, in seconds.
        secs: u64,
    },
    /// The station does not hold the caller for a paired mobile.
    NotPaired,
    /// The station answered with another status than success.
    Http {
        /// The status.
        status: u16,
        /// The response's body as text.
        message: String,
    },
    /// The reply could not be opened or read.
    Malformed,
    /// The station's signature does not hold against the pinned key.
    Verify,
    /// The reply answers another request.
    NonceMismatch {
        /// The nonce that was sent.
        expected: u64,
        /// The nonce that came back.
        got: u64,
    },
    /// Another station than the pinned one answered.
    StationMismatch {
        /// The pinned station's address.
        pinned: String,
        /// The address that came back.
        got: String,
    },
    /// The method itself declined.
    Method {
        /// The method's error code.
        code: i32,
        /// The method's error text.
        message: String,
    },
}

impl ChannelClientError {
    /// The error's text.
    pub open spec fn says(&self) -> Seq<char> {
        match self {
            ChannelClientError::Connect { url, source } => "could not reach the station at "@
                + url@ + ": "@ + source@,
            ChannelClientError::Timeout { secs } => "the station did not respond within "@
                + decimal(*secs as nat) + "s"@,
            ChannelClientError::NotPaired =>
                "the station has not confirmed this device is paired"@,
            ChannelClientError::Http { status, message } => "station returned HTTP "@ + decimal(
                *status as nat,
            ) + ": "@ + message@,
            ChannelClientError::Malformed => "malformed station reply"@,
            ChannelClientError::Verify =>
                "station reply signature did not verify against the pinned station key"@,
            ChannelClientError::NonceMismatch { expected, got } => "station reply nonce "@
                + decimal(*got as nat) + " did not echo the request nonce "@ + decimal(
                *expected as nat,
            ),
            ChannelClientError::StationMismatch { pinned, got } =>
                "the station at this URL identifies as "@ + got@ + ", not the pinned "@ + pinned@,
            ChannelClientError::Method { code, message } => "station refused the request ("@
                + signed_decimal(*code as int) + "): "@ + message@,
        }
    }

    /// Renders the error.
    pub fn message(&self) -> (r: String)
        ensures
            r@ == self.says(),
    {
        match self {
            ChannelClientError::Connect { url, source } => {
                let mut s = join3("could not reach the station at ", url.as_str(), ": ");
                s.append(source.as_str());
                s
            },
            ChannelClientError::Timeout { secs } => {
                let n = decimal_u64(*secs);
                join3("the station did not respond within ", n.as_str(), "s")
            },
            ChannelClientError::NotPaired => {
                "the station has not confirmed this device is paired".to_owned()
            },
            ChannelClientError::Http { status, message } => {
                let n = decimal_u64(*status as u64);
                let mut s = join3("station returned HTTP ", n.as_str(), ": ");
                s.append(message.as_str());
                s
            },
            ChannelClientError::Malformed => "malformed station reply".to_owned(),
            ChannelClientError::Verify => {
                "station reply signature did not verify against the pinned station key".to_owned()
            },
            ChannelClientError::NonceMismatch { expected, got } => {
                let g = decimal_u64(*got);
                let e = decimal_u64(*expected);
                let mut s = join3(
                    "station reply nonce ",
                    g.as_str(),
                    " did not echo the request nonce ",
                );
                s.append(e.as_str());
                s
            },
            ChannelClientError::StationMismatch { pinned, got } => {
                let mut s = join3(
                    "the station at this URL identifies as ",
                    got.as_str(),
                    ", not the pinned ",
                );
                s.append(pinned.as_str());
                s
            },
            ChannelClientError::Method { code, message } => {
                let c = decimal_i64(*code as i64);
                let mut s = join3("station refused the request (", c.as_str(), "): ");
                s.append(message.as_str());
                s
            },
        }
    }
}

/// Bytes as text, with what is not UTF-8 replaced.
pub uninterp spec fn lossy_text(bytes: Seq<u8>) -> Seq<char>;

/// Calls `String::from_utf8_lossy`: the text that the bytes spell, a function of the
/// bytes alone.
#[verifier::external_body]
fn lossy(bytes: &[u8]) -> (r: String)
    ensures
        r@ == lossy_text(bytes@),
{
    String::from_utf8_lossy(bytes).into_owned()
}

/// Whether a text is JSON.
pub uninterp spec fn json_readable(s: Seq<char>) -> bool;

/// Calls `serde_json::from_str` for a `serde_json::Value`; whether it succeeds is a
/// function of the text alone.
#[verifier::external_body]
fn is_json(s: &str) -> (r: bool)
    ensures
        r == json_readable(s@),
{
    serde_json::from_str::<serde_json::Value>(s).is_ok()
}

/// A client of one station's channel, pinned to that station's key.
#[derive(Clone, Debug, PartialEq, Eq)]
pub struct ChannelClient {
    /// `host:port` of the station's mobile listener.
    pub url: String,
    /// The pinned station key.
    pub station: Id,
}

/// The head of a request that posts `len` bytes.
pub open spec fn head_text(
    path: Seq<char>,
    host: Seq<char>,
    content_type: Seq<char>,
    len: nat,
) -> Seq<char> {
    "POST "@ + path + " HTTP/1.1\r\nHost: "@ + host + "\r\nContent-Type: "@ + content_type
        + "\r\nContent-Length: "@ + decimal(len) + "\r\nConnection: close\r\n\r\n"@
}

impl ChannelClient {
    /// A client of the station at `url`, pinned to `station`.
    pub fn new(url: String, station: Id) -> (r: ChannelClient)
        ensures
            r.url == url,
            r.station == station,
    {
        ChannelClient { url, station }
    }

    /// The head of a request that posts `len` bytes to `path`. The connection is closed
    /// behind the response, so that the response runs to the end of the stream.
    pub fn request_head(&self, path: &str, content_type: &str, len: usize) -> (r: String)
        ensures
            r@ == head_text(path@, self.url@, content_type@, len as nat),
    {
        let n = decimal_u64(len as u64);
        let mut s = join3("POST ", path, " HTTP/1.1\r\nHost: ");
        s.append(self.url.as_str());
        s.append("\r\nContent-Type: ");
        s.append(content_type);
        s.append("\r\nContent-Length: ");
        s.append(n.as_str());
        s.append("\r\nConnection: close\r\n\r\n");
        s
    }
}

/// Whether the blank line that ends a head stands at a place.
pub open spec fn ends_head(raw: Seq<u8>, i: int) -> bool {
    0 <= i && i + 4 <= raw.len() && raw[i] == 13 && raw[i + 1] == 10 && raw[i + 2] == 13 && raw[i
        + 3] == 10
}

/// Whether a place is the first that ends the head.
pub open spec fn first_end(raw: Seq<u8>, at: int) -> bool {
    ends_head(raw, at) && forall|j: int| 0 <= j < at ==> !#[trigger] ends_head(raw, j)
}

/// Where the head ends, if it does.
fn head_end(raw: &[u8]) -> (r: Option<usize>)
    ensures
        match r {
            Some(at) => first_end(raw@, at as int),
            None => forall|j: int| !#[trigger] ends_head(raw@, j),
        },
{
    let n: usize = raw.len();
    let mut i: usize = 0;
    while i < n && n - i >= 4
        invariant
            i <= n,
            n == raw@.len(),
            forall|j: int| 0 <= j < i ==> !#[trigger] ends_head(raw@, j),
        decreases n - i,
    {
        if raw[i] == 13 && raw[i + 1] == 10 && raw[i + 2] == 13 && raw[i + 3] == 10 {
            assert(ends_head(raw@, i as int));
            return Some(i);
        }
        assert(!ends_head(raw@, i as int));
        i = i + 1;
    }
    None
}

/// How many characters stand before the first that ends a word.
pub open spec fn word_len(s: Seq<char>) -> nat
    decreases s.len(),
{
    if s.len() == 0 || white(s[0]) {
        0
    } else {
        1 + word_len(s.skip(1))
    }
}

/// A word is no longer than the text it begins.
pub proof fn lemma_word_len(s: Seq<char>)
    ensures
        word_len(s) <= s.len(),
    decreases s.len(),
{
    if s.len() > 0 && !white(s[0]) {
        lemma_word_len(s.skip(1));
    }
}

/// The words of a text: its runs of characters that are no white space.
pub open spec fn words(s: Seq<char>) -> Seq<Seq<char>>
    decreases s.len(),
{
    if s.len() == 0 {
        Seq::empty()
    } else if white(s[0]) {
        words(s.skip(1))
    } else {
        let n = 1 + word_len(s.skip(1));
        proof {
            lemma_word_len(s.skip(1));
        }
        seq![s.take(n as int)] + words(s.skip(n as int))
    }
}

/// Skips white space: the place of the next word, or of the end.
fn next_word(cs: &Vec<char>, from: usize) -> (r: usize)
    requires
        from <= cs@.len(),
    ensures
        from <= r <= cs@.len(),
        words(cs@.skip(r as int)) == words(cs@.skip(from as int)),
        r < cs@.len() ==> !white(cs@[r as int]),
{
    let mut i: usize = from;
    while i < cs.len() && is_white(cs[i])
        invariant
            from <= i <= cs@.len(),
            words(cs@.skip(i as int)) == words(cs@.skip(from as int)),
        decreases cs.len() - i,
    {
        assert(cs@.skip(i as int).skip(1) =~= cs@.skip(i + 1));
        i = i + 1;
    }
    i
}

/// The place behind the word that begins at a place.
fn word_end(cs: &Vec<char>, from: usize) -> (r: usize)
    requires
        from <= cs@.len(),
    ensures
        from <= r <= cs@.len(),
        r == from + word_len(cs@.skip(from as int)),
{
    let mut i: usize = from;
    while i < cs.len() && !is_white(cs[i])
        invariant
            from <= i <= cs@.len(),
            word_len(cs@.skip(from as int)) == (i - from) + word_len(cs@.skip(i as int)),
        decreases cs.len() - i,
    {
        assert(cs@.skip(i as int).skip(1) =~= cs@.skip(i + 1));
        i = i + 1;
    }
    i
}

/// Takes the word that begins at a place.
proof fn lemma_take_word(s: Seq<char>)
    requires
        s.len() > 0,
        !white(s[0]),
    ensures
        words(s) == seq![s.take(word_len(s) as int)] + words(s.skip(word_len(s) as int)),
        0 < word_len(s) <= s.len(),
{
    lemma_word_len(s);
}

/// The second word of a text, if it has one.
fn second_word(cs: &Vec<char>) -> (r: Option<String>)
    ensures
        match r {
            Some(w) => words(cs@).len() > 1 && words(cs@)[1] == w@,
            None => words(cs@).len() <= 1,
        },
{
    assert(cs@.skip(0) =~= cs@);
    let a = next_word(cs, 0);
    if a == cs.len() {
        assert(cs@.skip(a as int) =~= Seq::<char>::empty());
        return None;
    }
    let b = word_end(cs, a);
    let ghost rest = words(cs@.skip(b as int));
    proof {
        lemma_take_word(cs@.skip(a as int));
        assert(cs@.skip(a as int).skip((b - a) as int) =~= cs@.skip(b as int));
    }
    assert(words(cs@) == seq![cs@.skip(a as int).take((b - a) as int)] + rest);
    let c = next_word(cs, b);
    if c == cs.len() {
        assert(cs@.skip(c as int) =~= Seq::<char>::empty());
        return None;
    }
    let d = word_end(cs, c);
    proof {
        lemma_take_word(cs@.skip(c as int));
        assert(cs@.skip(c as int).take((d - c) as int) =~= cs@.subrange(c as int, d as int));
        assert(words(cs@)[1] == rest[0]);
    }
    Some(text_of(cs, c, d))
}

/// The characters before the first line break.
pub open spec fn first_line(s: Seq<char>) -> Seq<char>
    decreases s.len(),
{
    if s.len() == 0 || s[0] == '\n' {
        Seq::empty()
    } else {
        seq![s[0]] + first_line(s.skip(1))
    }
}

fn line_of(s: &str) -> (r: Vec<char>)
    ensures
        r@ == first_line(s@),
{
    let cs = chars_of(s);
    let mut out: Vec<char> = Vec::new();
    let mut i: usize = 0;
    assert(cs@.skip(0) =~= cs@);
    assert(out@ + first_line(cs@.skip(0)) =~= first_line(cs@));
    while i < cs.len() && cs[i] != '\n'
        invariant
            i <= cs@.len(),
            out@ + first_line(cs@.skip(i as int)) == first_line(cs@),
        decreases cs.len() - i,
    {
        assert(cs@.skip(i as int).skip(1) =~= cs@.skip(i + 1));
        assert(out@ + (seq![cs@[i as int]] + first_line(cs@.skip(i + 1))) =~= out@.push(
            cs@[i as int],
        ) + first_line(cs@.skip(i + 1)));
        out.push(cs[i]);
        i = i + 1;
    }
    assert(out@ + first_line(cs@.skip(i as int)) =~= out@);
    out
}

/// Whether a text is nothing but decimal digits.
pub open spec fn all_digits(s: Seq<char>) -> bool {
    forall|i: int| 0 <= i < s.len() ==> '0' <= #[trigger] s[i] <= '9'
}

/// The number that decimal digits spell.
pub open spec fn digits_value(s: Seq<char>) -> nat
    decreases s.len(),
{
    if s.len() == 0 {
        0
    } else {
        10 * digits_value(s.drop_last()) + (s.last() as nat - 48) as nat
    }
}

/// A text without one leading plus sign.
pub open spec fn unsigned(s: Seq<char>) -> Seq<char> {
    if s.len() > 0 && s[0] == '+' {
        s.skip(1)
    } else {
        s
    }
}

/// The status that a word spells: a number of at most 16 bits, in decimal digits, with
/// or without a plus sign.
pub open spec fn status_of(word: Seq<char>) -> Option<u16> {
    let s = unsigned(word);
    if s.len() > 0 && all_digits(s) && digits_value(s) <= u16::MAX {
        Some(digits_value(s) as u16)
    } else {
        None
    }
}

proof fn lemma_digits_grow(s: Seq<char>, i: int)
    requires
        0 <= i <= s.len(),
    ensures
        digits_value(s.take(i)) <= digits_value(s),
    decreases s.len(),
{
    if i == s.len() {
        assert(s.take(i) =~= s);
    } else {
        lemma_digits_grow(s.drop_last(), i);
        assert(s.drop_last().take(i) =~= s.take(i));
    }
}

/// Reads a status.
pub fn parse_status(word: &str) -> (r: Option<u16>)
    ensures
        r == status_of(word@),
{
    let cs = chars_of(word);
    let start: usize = if cs.len() > 0 && cs[0] == '+' {
        1
    } else {
        0
    };
    let ghost s = unsigned(word@);
    assert(cs@.skip(start as int) =~= s);
    let mut i: usize = start;
    let mut value: u32 = 0;
    assert(s.take(0) =~= Seq::<char>::empty());
    while i < cs.len()
        invariant
            start <= i <= cs@.len(),
            s == cs@.skip(start as int),
            s == unsigned(word@),
            value == digits_value(s.take(i - start)),
            value <= u16::MAX,
            forall|j: int| 0 <= j < i - start ==> '0' <= #[trigger] s[j] <= '9',
        decreases cs.len() - i,
    {
        let c = cs[i];
        assert(s[i - start] == c);
        if c < '0' || c > '9' {
            return None;
        }
        let d: u32 = c as u32 - 48;
        proof {
            assert(s.take(i - start + 1).drop_last() =~= s.take(i - start));
            assert(s.take(i - start + 1).last() == c);
            lemma_digits_grow(s, i - start + 1);
        }
        value = 10 * value + d;
        if value > 65535 {
            return None;
        }
        i = i + 1;
    }
    assert(s.take(s.len() as int) =~= s);
    if i == start {
        None
    } else {
        Some(value as u16)
    }
}

/// The status that a response's head states: the second word of its first line.
pub open spec fn head_status(head: Seq<char>) -> Option<u16> {
    let line = words(first_line(head));
    if line.len() > 1 {
        status_of(line[1])
    } else {
        None
    }
}

/// Reads the status from the text of a response's head.
pub fn read_status(head: &str) -> (r: Option<u16>)
    ensures
        r == head_status(head@),
{
    let line = line_of(head);
    match second_word(&line) {
        Some(word) => parse_status(word.as_str()),
        None => None,
    }
}

/// The bytes of a slice between two places.
fn bytes_between(b: &[u8], from: usize, to: usize) -> (r: Vec<u8>)
    requires
        from <= to <= b@.len(),
    ensures
        r@ == b@.subrange(from as int, to as int),
{
    let mut out: Vec<u8> = Vec::new();
    let mut i: usize = from;
    while i < to
        invariant
            from <= i <= to <= b@.len(),
            out@ == b@.subrange(from as int, i as int),
        decreases to - i,
    {
        out.push(b[i]);
        i = i + 1;
        assert(out@ =~= b@.subrange(from as int, i as int));
    }
    out
}

/// Splits a response at the first blank line and reads its status. The body is kept
/// byte for byte: a sealed reply is binary. A response without a blank line or without
/// a status is malformed.
pub fn read_response(raw: &[u8]) -> (r: Result<(u16, Vec<u8>), ChannelClientError>)
    ensures
        match r {
            Ok((status, body)) => exists|at: int| #[trigger]
                first_end(raw@, at) && head_status(lossy_text(raw@.subrange(0, at))) == Some(status)
                    && body@ == raw@.subrange(at + 4, raw@.len() as int),
            Err(e) => e is Malformed && forall|at: int| #[trigger]
                first_end(raw@, at) ==> head_status(lossy_text(raw@.subrange(0, at))) is None,
        },
{
    match head_end(raw) {
        None => Err(ChannelClientError::Malformed),
        Some(at) => {
            let head_bytes = bytes_between(raw, 0, at);
            let head = lossy(head_bytes.as_slice());
            proof {
                assert forall|k: int| #[trigger] first_end(raw@, k) implies k == at by {
                    if k < at {
                        assert(!ends_head(raw@, k));
                    }
                    if at < k {
                        assert(!ends_head(raw@, at as int));
                    }
                }
            }
            match read_status(head.as_str()) {
                None => Err(ChannelClientError::Malformed),
                Some(status) => {
                    let n: usize = raw.len();
                    assert(at + 4 <= n);
                    let body = bytes_between(raw, at + 4, n);
                    Ok((status, body))
                },
            }
        },
    }
}

/// A station's answer to a pairing request.
#[derive(Clone, Debug, PartialEq, Eq)]
pub struct PairResponse {
    /// The address that the station goes by.
    pub station_address: String,
    /// The station's signature over the request's token, in hex.
    pub signature: String,
}

/// Whether a text is 64 bytes in hex.
pub open spec fn is_signature_hex(s: Seq<char>) -> bool {
    is_hex(s) && hex_bytes(s).len() == 64
}

/// What a pairing response amounts to before its signature is checked: the signature's
/// bytes, or the first thing that is wrong. A wrong station is told apart before its
/// signature is looked at.
pub open spec fn pairing(
    r: Result<Vec<u8>, ChannelClientError>,
    status: u16,
    body: Seq<u8>,
    parsed: Option<PairResponse>,
    pinned: Seq<char>,
) -> bool {
    if status != 200 {
        r matches Err(ChannelClientError::Http { status: s, message }) && s == status && message@
            == lossy_text(body)
    } else {
        match parsed {
            None => r matches Err(e) && e is Malformed,
            Some(p) => if p.station_address@ != pinned {
                r matches Err(ChannelClientError::StationMismatch { pinned: want, got }) && want@
                    == pinned && got@ == p.station_address@
            } else if !is_signature_hex(p.signature@) {
                r matches Err(e) && e is Malformed
            } else {
                r matches Ok(sig) && sig@ == hex_bytes(p.signature@)
            },
        }
    }
}

/// Reads the response to a pairing request, whose body reads as `parsed` where it is
/// JSON of that shape, against the pinned station's address.
pub fn read_pairing(status: u16, body: &[u8], parsed: &Option<PairResponse>, pinned: &str) -> (r:
    Result<Vec<u8>, ChannelClientError>)
    ensures
        pairing(r, status, body@, *parsed, pinned@),
{
    if status != 200 {
        return Err(ChannelClientError::Http { status, message: lossy(body) });
    }
    match parsed {
        None => Err(ChannelClientError::Malformed),
        Some(p) => {
            if !same_text(p.station_address.as_str(), pinned) {
                return Err(
                    ChannelClientError::StationMismatch {
                        pinned: pinned.to_owned(),
                        got: p.station_address.clone(),
                    },
                );
            }
            match unhex(p.signature.as_str()) {
                Some(sig) => {
                    if sig.len() == 64 {
                        Ok(sig)
                    } else {
                        Err(ChannelClientError::Malformed)
                    }
                },
                None => Err(ChannelClientError::Malformed),
            }
        },
    }
}

/// A reply whose signature was checked counts only where the signature holds.
pub fn verified<T>(reply: T, holds: bool) -> (r: Result<T, ChannelClientError>)
    ensures
        holds ==> r == Ok::<T, ChannelClientError>(reply),
        !holds ==> r == Err::<T, ChannelClientError>(ChannelClientError::Verify),
{
    if holds {
        Ok(reply)
    } else {
        Err(ChannelClientError::Verify)
    }
}

/// What the status of a method call amounts to: only success carries a reply, and 401
/// says that the device is not paired.
pub fn read_call_status(status: u16, body: &[u8]) -> (r: Result<(), ChannelClientError>)
    ensures
        match r {
            Ok(()) => status == 200,
            Err(ChannelClientError::NotPaired) => status == 401,
            Err(ChannelClientError::Http { status: s, message }) => status != 200 && status != 401
                && s == status && message@ == lossy_text(body@),
            Err(_) => false,
        },
{
    if status == 200 {
        Ok(())
    } else if status == 401 {
        Err(ChannelClientError::NotPaired)
    } else {
        Err(ChannelClientError::Http { status, message: lossy(body) })
    }
}

/// An opened reply: what the station signed, and its signature.
#[derive(Clone, Debug, PartialEq, Eq)]
pub struct ReplyFrame {
    /// The signed bytes.
    pub payload: Vec<u8>,
    /// The 64 bytes of the signature.
    pub signature: Vec<u8>,
}

/// The number in the first four bytes, most significant first.
pub open spec fn frame_len(frame: Seq<u8>) -> int {
    frame[0] * 0x100_0000 + frame[1] * 0x1_0000 + frame[2] * 0x100 + frame[3]
}

/// The four bytes of a number, most significant first.
pub open spec fn be_bytes(n: u32) -> Seq<u8> {
    seq![
        (n / 0x100_0000) as u8,
        (n / 0x1_0000 % 0x100) as u8,
        (n / 0x100 % 0x100) as u8,
        (n % 0x100) as u8,
    ]
}

/// A frame: the payload's length in four bytes, the payload, the signature.
pub open spec fn frame_bytes(payload: Seq<u8>, signature: Seq<u8>) -> Seq<u8> {
    be_bytes(payload.len() as u32) + payload + signature
}

/// Whether bytes are a frame: a length, as many bytes of payload, and a signature.
pub open spec fn is_frame(frame: Seq<u8>) -> bool {
    frame.len() >= 68 && frame.len() == 4 + frame_len(frame) + 64
}

/// The payload and the signature are those of a frame.
pub open spec fn holds_frame(f: ReplyFrame, frame: Seq<u8>) -> bool {
    &&& is_frame(frame)
    &&& f.payload@ == frame.subrange(4, 4 + frame_len(frame))
    &&& f.signature@ == frame.subrange(4 + frame_len(frame), frame.len() as int)
}

/// Takes an opened reply apart; what is not exactly one frame is malformed.
pub fn open_frame(frame: &[u8]) -> (r: Result<ReplyFrame, ChannelClientError>)
    ensures
        match r {
            Ok(f) => holds_frame(f, frame@),
            Err(e) => e is Malformed && !is_frame(frame@),
        },
{
    let n: usize = frame.len();
    if n < 68 {
        return Err(ChannelClientError::Malformed);
    }
    let len: u64 = frame[0] as u64 * 0x100_0000 + frame[1] as u64 * 0x1_0000 + frame[2] as u64
        * 0x100 + frame[3] as u64;
    if (n - 68) as u64 != len {
        return Err(ChannelClientError::Malformed);
    }
    let payload = bytes_between(frame, 4, n - 64);
    let signature = bytes_between(frame, n - 64, n);
    Ok(ReplyFrame { payload, signature })
}

proof fn lemma_be_bytes(n: u32)
    ensures
        frame_len(be_bytes(n)) == n,
{
    let a = n / 0x100_0000;
    let b = n / 0x1_0000;
    let c = n / 0x100;
    assert(a < 0x100 && b / 0x100 == a && c / 0x100 == b) by (bit_vector)
        requires
            a == n / 0x100_0000,
            b == n / 0x1_0000,
            c == n / 0x100,
    ;
}

proof fn lemma_frame_starts_with_its_length(head: Seq<u8>, rest: Seq<u8>)
    requires
        head.len() == 4,
    ensures
        frame_len(head + rest) == frame_len(head),
{
    assert forall|i: int| 0 <= i < 4 implies (head + rest)[i] == head[i] by {}
}

/// Opening a frame gives back its payload and its signature.
#[verifier::spinoff_prover]
pub proof fn law_opening_inverts_framing(payload: Seq<u8>, signature: Seq<u8>)
    requires
        payload.len() <= u32::MAX,
        signature.len() == 64,
    ensures
        is_frame(frame_bytes(payload, signature)),
        frame_bytes(payload, signature).subrange(
            4,
            4 + frame_len(frame_bytes(payload, signature)),
        ) == payload,
        frame_bytes(payload, signature).subrange(
            4 + frame_len(frame_bytes(payload, signature)),
            frame_bytes(payload, signature).len() as int,
        ) == signature,
{
    let n = payload.len() as u32;
    let f = frame_bytes(payload, signature);
    lemma_frame_starts_with_its_length(be_bytes(n), payload + signature);
    assert(f =~= be_bytes(n) + (payload + signature));
    lemma_be_bytes(n);
    assert(f.subrange(4, 4 + n as int) =~= payload);
    assert(f.subrange(4 + n as int, f.len() as int) =~= signature);
}

/// A station's reply to a method call.
#[derive(Clone, Debug, PartialEq, Eq)]
pub struct MethodReply {
    /// The nonce of the request that it answers.
    pub nonce: u64,
    /// The method's result, as JSON text.
    pub result: Option<String>,
    /// The method's error: a code and a text.
    pub error: Option<(i32, String)>,
}

/// What a reply amounts to for the call that sent a nonce: it must answer that call, a
/// method's error comes before its result, and a result must be there and be JSON.
pub open spec fn answers(
    r: Result<String, ChannelClientError>,
    sent: u64,
    reply: MethodReply,
) -> bool {
    if reply.nonce != sent {
        r == Err::<String, ChannelClientError>(
            ChannelClientError::NonceMismatch { expected: sent, got: reply.nonce },
        )
    } else {
        match reply.error {
            Some(e) => r == Err::<String, ChannelClientError>(
                ChannelClientError::Method { code: e.0, message: e.1 },
            ),
            None => match reply.result {
                Some(text) => if json_readable(text@) {
                    r == Ok::<String, ChannelClientError>(text)
                } else {
                    r == Err::<String, ChannelClientError>(ChannelClientError::Malformed)
                },
                None => r == Err::<String, ChannelClientError>(ChannelClientError::Malformed),
            },
        }
    }
}

/// Reads a verified reply to the call that sent a nonce: the result's JSON text.
pub fn read_reply(sent: u64, reply: MethodReply) -> (r: Result<String, ChannelClientError>)
    ensures
        answers(r, sent, reply),
{
    if reply.nonce != sent {
        return Err(ChannelClientError::NonceMismatch { expected: sent, got: reply.nonce });
    }
    match reply.error {
        Some(e) => Err(ChannelClientError::Method { code: e.0, message: e.1 }),
        None => match reply.result {
            Some(text) => {
                if is_json(text.as_str()) {
                    Ok(text)
                } else {
                    Err(ChannelClientError::Malformed)
                }
            },
            None => Err(ChannelClientError::Malformed),
        },
    }
}

/// A reply to another request is never taken for an answer.
pub proof fn law_replies_answer_their_request(
    r: Result<String, ChannelClientError>,
    sent: u64,
    reply: MethodReply,
)
    requires
        answers(r, sent, reply),
    ensures
        r is Ok ==> reply.nonce == sent && reply.error is None,
{
}

/// A response that names another station than the pinned one pairs with nothing,
/// whatever it is signed with.
pub proof fn law_only_the_pinned_station_pairs(
    r: Result<Vec<u8>, ChannelClientError>,
    status: u16,
    body: Seq<u8>,
    parsed: Option<PairResponse>,
    pinned: Seq<char>,
)
    requires
        pairing(r, status, body, parsed, pinned),
    ensures
        r is Ok ==> status == 200 && parsed is Some && parsed->0.station_address@ == pinned,
{
}

/// What comes of the signed payload of an opened reply: nothing unless the station's
/// signature covers it, and then what it answers to the call, where it parses at all.
pub open spec fn payload_outcome<C: Fn(&Vec<u8>, &Vec<u8>) -> bool, P: Fn(&Vec<u8>) -> Option<MethodReply>>(
    r: Result<String, ChannelClientError>,
    sent: u64,
    f: ReplyFrame,
    covers: C,
    parse: P,
) -> bool {
    exists|holds: bool| #[trigger]
        call_ensures(covers, (&f.payload, &f.signature), holds) && if holds {
            exists|reply: Option<MethodReply>| #[trigger]
                call_ensures(parse, (&f.payload,), reply) && match reply {
                    Some(m) => answers(r, sent, m),
                    None => r == Err::<String, ChannelClientError>(ChannelClientError::Malformed),
                }
        } else {
            r == Err::<String, ChannelClientError>(ChannelClientError::Verify)
        }
}

/// What comes of a sealed reply: nothing unless it opens, to exactly one frame, and then
/// what comes of that frame's payload.
pub open spec fn sealed_outcome<
    O: Fn(&[u8]) -> Option<Vec<u8>>,
    C: Fn(&Vec<u8>, &Vec<u8>) -> bool,
    P: Fn(&Vec<u8>) -> Option<MethodReply>,
>(
    r: Result<String, ChannelClientError>,
    sent: u64,
    body: &[u8],
    open: O,
    covers: C,
    parse: P,
) -> bool {
    exists|opened: Option<Vec<u8>>| #[trigger]
        call_ensures(open, (body,), opened) && match opened {
            Some(frame) => if is_frame(frame@) {
                exists|f: ReplyFrame| #[trigger]
                    holds_frame(f, frame@) && payload_outcome(r, sent, f, covers, parse)
            } else {
                r == Err::<String, ChannelClientError>(ChannelClientError::Malformed)
            },
            None => r == Err::<String, ChannelClientError>(ChannelClientError::Malformed),
        }
}

/// Concludes a method call from the response to it: the status comes first, then the
/// sealed reply is opened, its frame taken apart, its signature checked, its payload
/// parsed, and only then read as the answer to the call that sent a nonce. `open`,
/// `covers` and `parse` are the channel's cryptography and encoding.
pub fn conclude_call<
    O: Fn(&[u8]) -> Option<Vec<u8>>,
    C: Fn(&Vec<u8>, &Vec<u8>) -> bool,
    P: Fn(&Vec<u8>) -> Option<MethodReply>,
>(sent: u64, status: u16, body: &[u8], open: O, covers: C, parse: P) -> (r: Result<
    String,
    ChannelClientError,
>)
    requires
        forall|b: &[u8]| call_requires(open, (b,)),
        forall|p: &Vec<u8>, s: &Vec<u8>| call_requires(covers, (p, s)),
        forall|p: &Vec<u8>| call_requires(parse, (p,)),
    ensures
        status == 200 ==> sealed_outcome(r, sent, body, open, covers, parse),
        status == 401 ==> (r matches Err(e) && e is NotPaired),
        status != 200 && status != 401 ==> (r matches Err(
            ChannelClientError::Http { status: s, message },
        ) && s == status && message@ == lossy_text(body@)),
{
    match read_call_status(status, body) {
        Ok(()) => {},
        Err(e) => {
            return Err(e);
        },
    }
    let frame = match open(body) {
        Some(frame) => frame,
        None => {
            return Err(ChannelClientError::Malformed);
        },
    };
    let f = match open_frame(frame.as_slice()) {
        Ok(f) => f,
        Err(_) => {
            return Err(ChannelClientError::Malformed);
        },
    };
    assert(holds_frame(f, frame@));
    let holds = covers(&f.payload, &f.signature);
    if !holds {
        return Err(ChannelClientError::Verify);
    }
    match parse(&f.payload) {
        Some(reply) => read_reply(sent, reply),
        None => Err(ChannelClientError::Malformed),
    }
}

/// A result comes only out of a response that opened to one frame whose payload the
/// station's signature covers and which answers this call.
pub proof fn law_only_verified_answers_come_through<
    O: Fn(&[u8]) -> Option<Vec<u8>>,
    C: Fn(&Vec<u8>, &Vec<u8>) -> bool,
    P: Fn(&Vec<u8>) -> Option<MethodReply>,
>(
    r: Result<String, ChannelClientError>,
    sent: u64,
    body: &[u8],
    open: O,
    covers: C,
    parse: P,
) -> (f: ReplyFrame)
    requires
        sealed_outcome(r, sent, body, open, covers, parse),
        r is Ok,
    ensures
        call_ensures(covers, (&f.payload, &f.signature), true),
        exists|frame: Vec<u8>|
            call_ensures(open, (body,), Some(frame)) && #[trigger] holds_frame(f, frame@),
        exists|m: MethodReply| #[trigger]
            call_ensures(parse, (&f.payload,), Some(m)) && m.nonce == sent && m.error is None
                && m.result == Some(r->Ok_0),
{
    let opened = choose|opened: Option<Vec<u8>>| #[trigger]
        call_ensures(open, (body,), opened) && match opened {
            Some(frame) => if is_frame(frame@) {
                exists|f: ReplyFrame| #[trigger]
                    holds_frame(f, frame@) && payload_outcome(r, sent, f, covers, parse)
            } else {
                r == Err::<String, ChannelClientError>(ChannelClientError::Malformed)
            },
            None => r == Err::<String, ChannelClientError>(ChannelClientError::Malformed),
        };
    let frame = opened->0;
    let f = choose|f: ReplyFrame| #[trigger]
        holds_frame(f, frame@) && payload_outcome(r, sent, f, covers, parse);
    assert(call_ensures(open, (body,), Some(frame)));
    f
}

/// What comes of a pairing response: the first thing that is wrong with it or, where
/// nothing is, the response, if the station's signature covers the request's token.
pub open spec fn paired<C: Fn(&Vec<u8>) -> bool>(
    r: Result<PairResponse, ChannelClientError>,
    status: u16,
    body: Seq<u8>,
    parsed: Option<PairResponse>,
    pinned: Seq<char>,
    covers: C,
) -> bool {
    exists|read: Result<Vec<u8>, ChannelClientError>| #[trigger]
        pairing(read, status, body, parsed, pinned) && match read {
            Ok(signature) => exists|holds: bool| #[trigger]
                call_ensures(covers, (&signature,), holds) && r == if holds {
                    Ok::<PairResponse, ChannelClientError>(parsed->0)
                } else {
                    Err::<PairResponse, ChannelClientError>(ChannelClientError::Verify)
                },
            Err(e) => r == Err::<PairResponse, ChannelClientError>(e),
        }
}

/// Concludes a pairing from the response to it. `covers` says whether a signature of the
/// pinned station covers the request's token.
pub fn conclude_pairing<C: Fn(&Vec<u8>) -> bool>(
    status: u16,
    body: &[u8],
    parsed: Option<PairResponse>,
    pinned: &str,
    covers: C,
) -> (r: Result<PairResponse, ChannelClientError>)
    requires
        forall|s: &Vec<u8>| call_requires(covers, (s,)),
    ensures
        paired(r, status, body@, parsed, pinned@, covers),
{
    match read_pairing(status, body, &parsed, pinned) {
        Ok(signature) => {
            let holds = covers(&signature);
            match parsed {
                Some(response) => verified(response, holds),
                None => Err(ChannelClientError::Malformed),
            }
        },
        Err(e) => Err(e),
    }
}

proof fn lemma_decimal(n: nat)
    ensures
        decimal(n).len() > 0,
        all_digits(decimal(n)),
        digits_value(decimal(n)) == n,
        n > 0 ==> decimal(n)[0] != '0',
    decreases n,
{
    reveal_with_fuel(digits_value, 2);
    if n >= 10 {
        lemma_decimal(n / 10);
        let front = decimal(n / 10);
        let d = digit_char((n % 10) as int);
        assert(decimal(n).drop_last() =~= front);
        assert(d as nat == 48 + n % 10);
        assert forall|i: int| 0 <= i < decimal(n).len() implies '0' <= #[trigger] decimal(n)[i]
            <= '9' by {
            if i < front.len() {
                assert(front[i] == decimal(n)[i]);
            }
        }
        assert(decimal(n)[0] == front[0]);
    } else {
        let d = digit_char(n as int);
        assert(d as nat == 48 + n);
        assert(decimal(n).drop_last() =~= Seq::<char>::empty());
    }
}

/// A number that is written in decimal and read as a status is that number where it fits in
/// 16 bits, with or without a plus sign, and none where it does not. `word` is what was
/// written.
pub proof fn law_a_written_number_reads_back(n: u64, t: String, word: &str, r: Option<u16>)
    requires
        call_ensures(decimal_u64, (n,), t),
        word@ == t@ || word@ == seq!['+'] + t@,
        call_ensures(parse_status, (word,), r),
    ensures
        n <= 0xffff ==> r == Some(n as u16),
        n > 0xffff ==> r is None,
        n > 0 ==> t@[0] != '0',
{
    lemma_decimal(n as nat);
    assert('0' <= t@[0] <= '9');
    if word@ == seq!['+'] + t@ {
        assert(word@.skip(1) =~= t@);
    }
}

/// A word that has a character which is no digit, or none at all behind its sign, is no
/// status.
pub proof fn law_only_digits_are_a_status(word: &str, r: Option<u16>, i: int)
    requires
        call_ensures(parse_status, (word,), r),
        word@.len() == 0 || word@ == seq!['+'] || (0 <= i < word@.len() && !('0' <= word@[i]
            <= '9') && !(i == 0 && word@[0] == '+')),
    ensures
        r is None,
{
    let s = unsigned(word@);
    if 0 <= i < word@.len() && !(i == 0 && word@[0] == '+') && word@.len() > 0 {
        if word@[0] == '+' {
            if i > 0 {
                assert(s[i - 1] == word@[i]);
            }
        } else {
            assert(s[i] == word@[i]);
        }
    }
}

proof fn lemma_word_len_of(w: Seq<char>, tail: Seq<char>)
    requires
        forall|i: int| 0 <= i < w.len() ==> !white(#[trigger] w[i]),
        tail.len() == 0 || white(tail[0]),
    ensures
        word_len(w + tail) == w.len(),
    decreases w.len(),
{
    if w.len() == 0 {
        assert(w + tail =~= tail);
    } else {
        let rest = w.skip(1);
        assert forall|i: int| 0 <= i < rest.len() implies !white(#[trigger] rest[i]) by {
            assert(rest[i] == w[i + 1]);
        }
        lemma_word_len_of(rest, tail);
        assert((w + tail).skip(1) =~= rest + tail);
        assert(!white(w[0]));
    }
}

proof fn lemma_words_of(w: Seq<char>, tail: Seq<char>)
    requires
        w.len() > 0,
        forall|i: int| 0 <= i < w.len() ==> !white(#[trigger] w[i]),
        tail.len() == 0 || white(tail[0]),
    ensures
        words(w + tail) == seq![w] + words(tail),
{
    let rest = w.skip(1);
    assert forall|i: int| 0 <= i < rest.len() implies !white(#[trigger] rest[i]) by {
        assert(rest[i] == w[i + 1]);
    }
    lemma_word_len_of(rest, tail);
    assert((w + tail).skip(1) =~= rest + tail);
    assert(!white(w[0]));
    assert((w + tail).take(w.len() as int) =~= w);
    assert((w + tail).skip(w.len() as int) =~= tail);
}

proof fn lemma_first_line(a: Seq<char>, b: Seq<char>)
    requires
        forall|i: int| 0 <= i < a.len() ==> (#[trigger] a[i]) != '\n',
        b.len() == 0 || b[0] == '\n',
    ensures
        first_line(a + b) == a,
    decreases a.len(),
{
    if a.len() == 0 {
        assert(a + b =~= b);
        assert(first_line(b) =~= a);
    } else {
        let rest = a.skip(1);
        assert forall|i: int| 0 <= i < rest.len() implies (#[trigger] rest[i]) != '\n' by {
            assert(rest[i] == a[i + 1]);
        }
        lemma_first_line(rest, b);
        assert((a + b).skip(1) =~= rest + b);
        assert(a[0] != '\n');
        assert(first_line(a + b) =~= a);
    }
}

/// The status is what the second word of the first line spells: behind a first word and a
/// blank, up to the next white space, whatever follows. `line` is the rest of that line,
/// and `more` the lines behind it.
pub proof fn law_the_status_is_the_second_word(
    head: &str,
    version: Seq<char>,
    word: &str,
    line: Seq<char>,
    more: Seq<char>,
    status: Option<u16>,
    r: Option<u16>,
)
    requires
        head@ == version + seq![' '] + word@ + line + more,
        version.len() > 0,
        word@.len() > 0,
        forall|i: int| 0 <= i < version.len() ==> !white(#[trigger] version[i]),
        forall|i: int| 0 <= i < word@.len() ==> !white(#[trigger] word@[i]),
        forall|i: int| 0 <= i < line.len() ==> (#[trigger] line[i]) != '\n',
        line.len() == 0 || line[0] == ' ' || line[0] == '\r',
        more.len() == 0 || more[0] == '\n',
        call_ensures(parse_status, (word,), status),
        call_ensures(read_status, (head,), r),
    ensures
        r == status,
{
    let first = version + seq![' '] + word@ + line;
    assert forall|i: int| 0 <= i < first.len() implies (#[trigger] first[i]) != '\n' by {
        let v = version.len() as int;
        let w = word@.len() as int;
        if i < v {
            assert(!white(version[i]));
        } else if i > v && i <= v + w {
            assert(!white(word@[i - v - 1]));
        } else if i > v + w {
            assert(line[i - v - w - 1] != '\n');
        }
    }
    lemma_first_line(first, more);
    let behind = word@ + line;
    assert(seq![' '] + behind =~= seq![' '] + word@ + line);
    assert(first =~= version + (seq![' '] + behind));
    lemma_words_of(version, seq![' '] + behind);
    assert((seq![' '] + behind).skip(1) =~= behind);
    lemma_words_of(word@, line);
    assert(words(seq![' '] + behind) == words(behind));
}

/// A response is its head and, behind the first blank line, its body, whatever the body
/// holds.
pub proof fn law_the_body_follows_the_first_blank_line(
    raw: &[u8],
    head: Seq<u8>,
    body: Seq<u8>,
    r: Result<(u16, Vec<u8>), ChannelClientError>,
)
    requires
        raw@ == head + seq![13u8, 10u8, 13u8, 10u8] + body,
        forall|j: int|
            0 <= j < head.len() ==> !(#[trigger] raw@[j] == 13 && raw@[j + 1] == 10 && raw@[j + 2]
                == 13 && raw@[j + 3] == 10),
        call_ensures(read_response, (raw,), r),
    ensures
        match r {
            Ok((status, b)) => b@ == body && head_status(lossy_text(head)) == Some(status),
            Err(e) => e is Malformed && head_status(lossy_text(head)) is None,
        },
{
    let n = head.len() as int;
    assert(ends_head(raw@, n));
    assert forall|j: int| 0 <= j < n implies !#[trigger] ends_head(raw@, j) by {
        assert(!(raw@[j] == 13 && raw@[j + 1] == 10 && raw@[j + 2] == 13 && raw@[j + 3] == 10));
    }
    assert(first_end(raw@, n));
    assert(raw@.subrange(0, n) =~= head);
    assert(raw@.subrange(n + 4, raw@.len() as int) =~= body);
    if r is Ok {
        let at = choose|at: int| #[trigger]
            first_end(raw@, at) && head_status(lossy_text(raw@.subrange(0, at))) == Some(r->Ok_0.0)
                && r->Ok_0.1@ == raw@.subrange(at + 4, raw@.len() as int);
        assert(at == n) by {
            if at < n {
                assert(!ends_head(raw@, at));
            } else if at > n {
                assert(!ends_head(raw@, n));
            }
        }
    }
}

/// A pairing response that succeeds, names the pinned station and carries sixty-four bytes in
/// hex gives these bytes to be checked; one that names another station is told apart, with
/// both names, whatever its signature.
pub proof fn law_a_good_pairing_gives_its_signature(
    status: u16,
    body: &[u8],
    p: PairResponse,
    pinned: &str,
    signature: Seq<u8>,
    r: Result<Vec<u8>, ChannelClientError>,
)
    requires
        call_ensures(read_pairing, (status, body, &Some(p), pinned), r),
        status == 200,
    ensures
        p.station_address@ == pinned@ && p.signature@ == hex_text(signature) && signature.len()
            == 64 ==> (r matches Ok(s) && s@ == signature),
        p.station_address@ == pinned@ && p.signature@ == hex_text(signature) && signature.len()
            != 64 ==> (r matches Err(e) && e is Malformed),
        p.station_address@ != pinned@ ==> (r matches Err(
            ChannelClientError::StationMismatch { pinned: want, got },
        ) && want@ == pinned@ && got@ == p.station_address@),
{
    law_unhex_inverts_hex(signature);
}

/// A frame comes apart into the payload and the signature that it was put together from. The
/// first four bytes are the payload's length, the most significant first.
pub proof fn law_a_frame_comes_apart(
    frame: &[u8],
    payload: Seq<u8>,
    signature: Seq<u8>,
    r: Result<ReplyFrame, ChannelClientError>,
)
    requires
        call_ensures(open_frame, (frame,), r),
        signature.len() == 64,
        frame@.len() == 4 + payload.len() + 64,
        frame@[0] * 0x100_0000 + frame@[1] * 0x1_0000 + frame@[2] * 0x100 + frame@[3]
            == payload.len(),
        frame@.skip(4) == payload + signature,
    ensures
        r matches Ok(f) && f.payload@ == payload && f.signature@ == signature,
{
    let n = payload.len() as int;
    assert(is_frame(frame@));
    assert(frame@.subrange(4, 4 + n) =~= frame@.skip(4).take(n));
    assert(frame@.skip(4).take(n) =~= payload);
    assert(frame@.subrange(4 + n, frame@.len() as int) =~= frame@.skip(4).skip(n));
    assert(frame@.skip(4).skip(n) =~= signature);
}

/// A reply is handed on exactly where it answers the call that was made, reports no error,
/// and has a result that is JSON; then it is that result.
pub proof fn law_a_reply_is_handed_on_where_it_answers(
    sent: u64,
    reply: MethodReply,
    r: Result<String, ChannelClientError>,
)
    requires
        call_ensures(read_reply, (sent, reply), r),
    ensures
        r is Ok <==> reply.nonce == sent && reply.error is None && (reply.result matches Some(t)
            && json_readable(t@)),
        r matches Ok(t) ==> reply.result == Some(t),
        reply.nonce != sent ==> r == Err::<String, ChannelClientError>(
            ChannelClientError::NonceMismatch { expected: sent, got: reply.nonce },
        ),
        reply.nonce == sent ==> (reply.error matches Some(e) ==> r == Err::<
            String,
            ChannelClientError,
        >(ChannelClientError::Method { code: e.0, message: e.1 })),
{
}

} // verus!
