//! Log entries as the human-readable rows that the history command shows, most
//! recent first. This is presentation only; nothing here is authoritative.

use vstd::prelude::*;
use vstd::string::*;

use crate::cbor::{kind_text, record_kind};
use crate::log::{CancelReason, LogEntry, LogRecord};
use crate::tables::Id;
use crate::text::{
    chars_of, debug_of, debug_text, decimal, decimal_u64, digit_char, hex, hex_text, join3,
    text_of,
};

verus! {

/// One row of the history.
#[derive(Clone, Debug, PartialEq, Eq)]
pub struct HistoryEntry {
    /// The entry's sequence number.
    pub seq: u64,
    /// What the entry is.
    pub kind: String,
    /// What it says.
    pub summary: String,
    /// When it was admitted.
    pub created_at: i64,
}

/// A row, as plain values.
#[verifier::ext_equal]
pub struct Row {
    pub seq: u64,
    pub kind: Seq<char>,
    pub summary: Seq<char>,
    pub created_at: i64,
}

impl View for HistoryEntry {
    type V = Row;

    open spec fn view(&self) -> Row {
        Row {
            seq: self.seq,
            kind: self.kind@,
            summary: self.summary@,
            created_at: self.created_at,
        }
    }
}

/// Hundredths as a whole part and two digits.
pub open spec fn commons_text(centi: int) -> Seq<char> {
    let sign = if centi < 0 {
        seq!['-']
    } else {
        Seq::empty()
    };
    let abs = if centi < 0 {
        -centi
    } else {
        centi
    };
    sign + decimal((abs / 100) as nat) + seq![
        '.',
        digit_char(abs / 10 % 10),
        digit_char(abs % 10),
    ] + " Commons"@
}

/// Formats hundredths as `<int>.<2-digit> Commons`.
pub fn fmt_commons(centi: i64) -> (r: String)
    ensures
        r@ == commons_text(centi as int),
{
    let mut s = String::new();
    let abs: u64 = if centi < 0 {
        s.push('-');
        (0 - centi as i128) as u64
    } else {
        centi as u64
    };
    let whole = decimal_u64(abs / 100);
    s.append(whole.as_str());
    s.push('.');
    let tens = decimal_u64(abs / 10 % 10);
    s.append(tens.as_str());
    let ones = decimal_u64(abs % 10);
    s.append(ones.as_str());
    s.append(" Commons");
    assert(s@ =~= commons_text(centi as int));
    s
}

/// The first twelve characters of an address and an ellipsis.
pub open spec fn short_addr_text(addr: Seq<char>) -> Seq<char> {
    addr.take(
        if addr.len() < 12 {
            addr.len() as int
        } else {
            12
        },
    ) + "…"@
}

/// First 12 characters of an address, for compact display.
pub fn short_addr(addr: &str) -> (r: String)
    ensures
        r@ == short_addr_text(addr@),
{
    let chars = chars_of(addr);
    let n: usize = if chars.len() < 12 {
        chars.len()
    } else {
        12
    };
    let mut s = text_of(&chars, 0, n);
    assert(s@ =~= addr@.take(n as int));
    s.append("…");
    s
}

/// The hex of the first four bytes of an id and an ellipsis.
pub open spec fn short_tx_text(id: Seq<u8>) -> Seq<char> {
    hex_text(id.take(4)) + "…"@
}

/// Hex of the first 4 bytes of a transaction id, for compact display.
pub fn short_tx(id: &Id) -> (r: String)
    ensures
        r@ == short_tx_text(id@),
{
    let head = vstd::slice::slice_subrange(id.bytes.as_slice(), 0, 4);
    assert(head@ =~= id@.take(4));
    let mut s = hex(head);
    s.append("…");
    s
}

/// The parts of a text between the occurrences of a separator.
pub open spec fn split(s: Seq<char>, sep: char) -> Seq<Seq<char>>
    decreases s.len(),
{
    if s.len() == 0 {
        seq![Seq::empty()]
    } else {
        let parts = split(s.drop_last(), sep);
        if s.last() == sep {
            parts.push(Seq::empty())
        } else {
            parts.drop_last().push(parts.last().push(s.last()))
        }
    }
}

/// Parts put one behind the other with a separator between them.
pub open spec fn joined(parts: Seq<Seq<char>>, sep: char) -> Seq<char>
    decreases parts.len(),
{
    if parts.len() == 0 {
        Seq::empty()
    } else if parts.len() == 1 {
        parts[0]
    } else {
        joined(parts.drop_last(), sep).push(sep) + parts.last()
    }
}

/// Whether a segment is a version tag like `v1`, `v2`.
pub open spec fn is_version_text(s: Seq<char>) -> bool {
    &&& s.len() >= 2
    &&& s[0] == 'v'
    &&& forall|i: int| 1 <= i < s.len() ==> '0' <= #[trigger] s[i] <= '9'
}

/// Whether a dotted segment is a version tag like `v1`, `v2`.
pub fn is_version(s: &str) -> (r: bool)
    ensures
        r == is_version_text(s@),
{
    let c = chars_of(s);
    if c.len() < 2 || c[0] != 'v' {
        return false;
    }
    let mut i: usize = 1;
    while i < c.len()
        invariant
            1 <= i <= c.len(),
            c@ == s@,
            forall|j: int| 1 <= j < i ==> '0' <= #[trigger] c@[j] <= '9',
        decreases c.len() - i,
    {
        if c[i] < '0' || c[i] > '9' {
            assert(!('0' <= c@[i as int] <= '9'));
            return false;
        }
        i = i + 1;
    }
    true
}

/// A kind without the `rrn.` in front.
pub open spec fn unprefixed(kind: Seq<char>) -> Seq<char> {
    if kind.len() >= 4 && kind.take(4) == "rrn."@ {
        kind.skip(4)
    } else {
        kind
    }
}

/// The segments of a kind that name it: without the `rrn.` in front and without a
/// version at the end.
pub open spec fn kind_parts(kind: Seq<char>) -> Seq<Seq<char>> {
    let parts = split(unprefixed(kind), '.');
    if is_version_text(parts.last()) {
        parts.drop_last()
    } else {
        parts
    }
}

/// A text with its underscores as blanks.
pub open spec fn spaced(s: Seq<char>) -> Seq<char> {
    s.map_values(
        |c: char|
            if c == '_' {
                ' '
            } else {
                c
            },
    )
}

/// How a kind is shown: its last segment, and its segments as a plain phrase. A
/// kind that is nothing but a version is shown as it stands.
pub open spec fn friendly(kind: Seq<char>) -> (Seq<char>, Seq<char>) {
    let parts = kind_parts(kind);
    (
        if parts.len() == 0 {
            kind
        } else {
            parts.last()
        },
        spaced(joined(parts, ' ')),
    )
}

proof fn lemma_split_nonempty(s: Seq<char>, sep: char)
    ensures
        split(s, sep).len() >= 1,
    decreases s.len(),
{
    if s.len() > 0 {
        lemma_split_nonempty(s.drop_last(), sep);
    }
}

fn split_at_dots(c: &Vec<char>, from: usize) -> (r: Vec<String>)
    requires
        from <= c@.len(),
    ensures
        r@.map_values(|s: String| s@) == split(c@.skip(from as int), '.'),
        r@.len() >= 1,
{
    let mut parts: Vec<String> = Vec::new();
    let mut open = String::new();
    let mut i: usize = from;
    let ghost whole = c@.skip(from as int);
    assert(whole.take(0) =~= Seq::<char>::empty());
    assert(parts@.map_values(|s: String| s@).push(open@) =~= split(whole.take(0), '.'));
    while i < c.len()
        invariant
            from <= i <= c@.len(),
            whole == c@.skip(from as int),
            parts@.map_values(|s: String| s@).push(open@) == split(whole.take(i - from), '.'),
        decreases c.len() - i,
    {
        let ghost seen = whole.take(i - from);
        let ghost more = whole.take(i - from + 1);
        let ghost before = parts@;
        let ghost was = open@;
        assert(more.drop_last() =~= seen);
        assert(more.last() == c@[i as int]);
        proof {
            lemma_split_nonempty(seen, '.');
            assert(split(seen, '.').last() == was);
            assert(split(seen, '.').drop_last() =~= before.map_values(|s: String| s@));
        }
        if c[i] == '.' {
            let part = open.clone();
            parts.push(part);
            open = String::new();
            assert(parts@.map_values(|s: String| s@) =~= before.map_values(|s: String| s@).push(
                was,
            ));
            assert(parts@.map_values(|s: String| s@).push(open@) =~= split(more, '.'));
        } else {
            open.push(c[i]);
            assert(parts@.map_values(|s: String| s@).push(open@) =~= split(more, '.'));
        }
        i = i + 1;
    }
    assert(whole.take(i - from) =~= whole);
    let ghost before = parts@;
    let ghost last = open@;
    parts.push(open);
    assert(parts@.map_values(|s: String| s@) =~= before.map_values(|s: String| s@).push(last));
    parts
}

fn phrase(parts: &Vec<String>) -> (r: String)
    ensures
        r@ == spaced(joined(parts@.map_values(|s: String| s@), ' ')),
{
    let ghost views = parts@.map_values(|s: String| s@);
    let mut all = String::new();
    let mut i: usize = 0;
    while i < parts.len()
        invariant
            i <= parts.len(),
            views == parts@.map_values(|s: String| s@),
            all@ == joined(views.take(i as int), ' '),
        decreases parts.len() - i,
    {
        assert(views.take(i as int + 1).drop_last() =~= views.take(i as int));
        if i > 0 {
            all.push(' ');
        }
        all.append(parts[i].as_str());
        i = i + 1;
        assert(all@ =~= joined(views.take(i as int), ' '));
    }
    assert(views.take(i as int) =~= views);
    let c = chars_of(all.as_str());
    let mut out = String::new();
    let mut j: usize = 0;
    while j < c.len()
        invariant
            j <= c.len(),
            out@ == spaced(c@.take(j as int)),
        decreases c.len() - j,
    {
        if c[j] == '_' {
            out.push(' ');
        } else {
            out.push(c[j]);
        }
        j = j + 1;
        assert(out@ =~= spaced(c@.take(j as int)));
    }
    assert(c@.take(j as int) =~= c@);
    out
}

fn has_prefix(c: &Vec<char>) -> (r: bool)
    ensures
        r == (c@.len() >= 4 && c@.take(4) == "rrn."@),
{
    proof {
        reveal_strlit("rrn.");
    }
    if c.len() < 4 {
        return false;
    }
    let r = c[0] == 'r' && c[1] == 'r' && c[2] == 'n' && c[3] == '.';
    if r {
        assert(c@.take(4) =~= "rrn."@);
    } else {
        assert(c@.take(4)[0] == c@[0] && c@.take(4)[1] == c@[1] && c@.take(4)[2] == c@[2]
            && c@.take(4)[3] == c@[3]);
    }
    r
}

/// Turns a record's kind into a kind column and a summary: drops the `rrn.` prefix
/// and any trailing version, names the row by its final segment, and reads the
/// summary as a plain phrase.
pub fn friendly_kind(kind: &str) -> (r: (String, String))
    ensures
        (r.0@, r.1@) == friendly(kind@),
{
    let c = chars_of(kind);
    let from: usize = if has_prefix(&c) {
        4
    } else {
        0
    };
    assert(c@.skip(from as int) =~= unprefixed(kind@));
    let mut parts = split_at_dots(&c, from);
    let ghost all = parts@.map_values(|s: String| s@);
    assert(all.last() == parts@.last()@);
    if is_version(parts[parts.len() - 1].as_str()) {
        let _ = parts.pop();
        assert(parts@.map_values(|s: String| s@) =~= all.drop_last());
    }
    let ghost kept = parts@.map_values(|s: String| s@);
    assert(kept == kind_parts(kind@));
    let name = if parts.len() == 0 {
        String::from_str(kind)
    } else {
        assert(kept.last() == parts@.last()@);
        parts[parts.len() - 1].clone()
    };
    (name, phrase(&parts))
}

/// The name of a cancellation's reason.
pub open spec fn cancel_text(reason: CancelReason) -> Seq<char> {
    match reason {
        CancelReason::WithdrawnBySender => "WithdrawnBySender"@,
        CancelReason::RejectedByReceiver => "RejectedByReceiver"@,
        CancelReason::Expired => "Expired"@,
    }
}

/// What a payment's row says: the verb, the amount, the parties and the
/// transaction.
pub open spec fn payment_text(
    verb: Seq<char>,
    amount: int,
    from: Seq<char>,
    to: Seq<char>,
    id: Seq<u8>,
) -> Seq<char> {
    verb + commons_text(amount) + " from "@ + short_addr_text(from) + " to "@ + short_addr_text(to)
        + " (tx "@ + short_tx_text(id) + ")"@
}

/// The kind column and the summary of an entry.
pub open spec fn summary_of(record: LogRecord, bytes: Seq<u8>) -> (Seq<char>, Seq<char>) {
    match record {
        LogRecord::Proposal(p) => (
            "proposal"@,
            payment_text("propose "@, p.amount_centi as int, p.sender@, p.receiver@, p.id@),
        ),
        LogRecord::Confirmation(c) => (
            "confirmation"@,
            "confirm tx "@ + short_tx_text(c.proposal_id@) + " by "@ + short_addr_text(
                c.confirmer@,
            ),
        ),
        LogRecord::Settlement(s) => (
            "settlement"@,
            payment_text(
                "settle "@,
                s.amount_centi as int,
                s.sender@,
                s.receiver@,
                s.proposal_id@,
            ),
        ),
        LogRecord::Cancellation(c) => (
            "cancellation"@,
            "cancel tx "@ + short_tx_text(c.proposal_id@) + " ("@ + cancel_text(c.reason) + ")"@,
        ),
        LogRecord::Vouch(v) => (
            "vouch"@,
            "vouch for "@ + short_addr_text(v.subject@) + ": "@ + debug_text(v.statement@),
        ),
        _ => match kind_text(bytes) {
            Some(kind) => friendly(kind),
            None => ("unknown"@, decimal(bytes.len()) + " bytes"@),
        },
    }
}

fn payment_summary(verb: &str, amount: i64, from: &String, to: &String, id: &Id) -> (r: String)
    ensures
        r@ == payment_text(verb@, amount as int, from@, to@, id@),
{
    let amount = fmt_commons(amount);
    let mut s = join3(verb, amount.as_str(), " from ");
    let from = short_addr(from.as_str());
    s.append(from.as_str());
    s.append(" to ");
    let to = short_addr(to.as_str());
    s.append(to.as_str());
    s.append(" (tx ");
    let id = short_tx(id);
    s.append(id.as_str());
    s.append(")");
    s
}

/// The kind column and the summary of a record. A record without a summary of its
/// own still names itself by the kind it carries.
pub fn decode_summary(record: &LogRecord, bytes: &Vec<u8>) -> (r: (String, String))
    ensures
        (r.0@, r.1@) == summary_of(*record, bytes@),
{
    match record {
        LogRecord::Proposal(p) => (
            String::from_str("proposal"),
            payment_summary("propose ", p.amount_centi, &p.sender, &p.receiver, &p.id),
        ),
        LogRecord::Confirmation(c) => {
            let tx = short_tx(&c.proposal_id);
            let mut s = join3("confirm tx ", tx.as_str(), " by ");
            let by = short_addr(c.confirmer.as_str());
            s.append(by.as_str());
            (String::from_str("confirmation"), s)
        },
        LogRecord::Settlement(t) => (
            String::from_str("settlement"),
            payment_summary("settle ", t.amount_centi, &t.sender, &t.receiver, &t.proposal_id),
        ),
        LogRecord::Cancellation(c) => {
            let tx = short_tx(&c.proposal_id);
            let mut s = join3("cancel tx ", tx.as_str(), " (");
            match c.reason {
                CancelReason::WithdrawnBySender => {
                    s.append("WithdrawnBySender");
                },
                CancelReason::RejectedByReceiver => {
                    s.append("RejectedByReceiver");
                },
                CancelReason::Expired => {
                    s.append("Expired");
                },
            }
            s.append(")");
            (String::from_str("cancellation"), s)
        },
        LogRecord::Vouch(v) => {
            let subject = short_addr(v.subject.as_str());
            let mut s = join3("vouch for ", subject.as_str(), ": ");
            let statement = debug_of(v.statement.as_str());
            s.append(statement.as_str());
            (String::from_str("vouch"), s)
        },
        _ => match record_kind(bytes.as_slice()) {
            Some(kind) => friendly_kind(kind.as_str()),
            None => {
                let mut s = decimal_u64(bytes.len() as u64);
                s.append(" bytes");
                (String::from_str("unknown"), s)
            },
        },
    }
}

/// The row of an entry.
pub open spec fn row_of(e: LogEntry) -> Row {
    let s = summary_of(e.record, e.bytes@);
    Row { seq: e.seq, kind: s.0, summary: s.1, created_at: e.created_at }
}

/// The row of an entry.
pub fn summarize(e: &LogEntry) -> (r: HistoryEntry)
    ensures
        r@ == row_of(*e),
{
    let (kind, summary) = decode_summary(&e.record, &e.bytes);
    HistoryEntry { seq: e.seq, kind, summary, created_at: e.created_at }
}

/// At most `limit` of the items behind the first `offset`.
pub open spec fn page<A>(s: Seq<A>, limit: Option<u64>, offset: Option<u64>) -> Seq<A> {
    let skipped = match offset {
        Some(o) => if o < s.len() {
            s.skip(o as int)
        } else {
            Seq::empty()
        },
        None => s,
    };
    match limit {
        Some(l) => if l < skipped.len() {
            skipped.take(l as int)
        } else {
            skipped
        },
        None => skipped,
    }
}

/// Returns decoded history, most recent first, after skipping `offset` entries and
/// taking at most `limit` (both from the most-recent end).
pub fn history(entries: &Vec<LogEntry>, limit: Option<u64>, offset: Option<u64>) -> (r: Vec<
    HistoryEntry,
>)
    ensures
        r@.map_values(|h: HistoryEntry| h@) == page(
            entries@.map_values(|e: LogEntry| row_of(e)).reverse(),
            limit,
            offset,
        ),
{
    let ghost rows = entries@.map_values(|e: LogEntry| row_of(e)).reverse();
    let n: usize = entries.len();
    let skip: usize = match offset {
        Some(o) => if o < n as u64 {
            o as usize
        } else {
            n
        },
        None => 0,
    };
    let left: usize = n - skip;
    let take: usize = match limit {
        Some(l) => if l < left as u64 {
            l as usize
        } else {
            left
        },
        None => left,
    };
    assert(page(rows, limit, offset) =~= rows.subrange(skip as int, skip + take));
    let mut out: Vec<HistoryEntry> = Vec::new();
    let mut i: usize = 0;
    while i < take
        invariant
            n == entries.len(),
            i <= take,
            take <= n - skip,
            skip <= n,
            rows == entries@.map_values(|e: LogEntry| row_of(e)).reverse(),
            out@.map_values(|h: HistoryEntry| h@) == rows.subrange(skip as int, skip + i),
        decreases take - i,
    {
        let ghost before = out@;
        let row = summarize(&entries[n - 1 - skip - i]);
        out.push(row);
        assert(rows[skip + i] == row@);
        i = i + 1;
        assert(out@.map_values(|h: HistoryEntry| h@) =~= before.map_values(
            |h: HistoryEntry| h@,
        ).push(row@));
        assert(out@.map_values(|h: HistoryEntry| h@) =~= rows.subrange(skip as int, skip + i));
    }
    out
}

/// Consecutive pages put together are one longer page: paging neither drops nor
/// repeats an entry.
pub proof fn law_pages_join<A>(s: Seq<A>, limit: u64, offset: u64, more: u64)
    requires
        offset + limit <= u64::MAX,
        limit + more <= u64::MAX,
    ensures
        page(s, Some(limit), Some(offset)) + page(s, Some(more), Some((offset + limit) as u64))
            == page(s, Some((limit + more) as u64), Some(offset)),
{
    assert(page(s, Some(limit), Some(offset)) + page(
        s,
        Some(more),
        Some((offset + limit) as u64),
    ) =~= page(s, Some((limit + more) as u64), Some(offset)));
}

/// The history shows the log's entries from the newest on: as many as there are behind the
/// ones that were passed over, up to the limit, each with its place, its time, and the kind
/// and summary that its record reads as.
pub proof fn law_history_is_the_log_from_its_end(
    entries: &Vec<LogEntry>,
    limit: Option<u64>,
    offset: Option<u64>,
    r: Vec<HistoryEntry>,
    k: int,
    read: (String, String),
)
    requires
        call_ensures(history, (entries, limit, offset), r),
    ensures
        ({
            let n = entries@.len() as int;
            let passed = match offset {
                Some(o) => if o < n {
                    o as int
                } else {
                    n
                },
                None => 0,
            };
            &&& r@.len() == match limit {
                Some(l) => if l < n - passed {
                    l as int
                } else {
                    n - passed
                },
                None => n - passed,
            }
            &&& 0 <= k < r@.len() ==> {
                let e = entries@[n - 1 - passed - k];
                &&& r@[k].seq == e.seq
                &&& r@[k].created_at == e.created_at
                &&& call_ensures(decode_summary, (&e.record, &e.bytes), read) ==> r@[k].kind@
                    == read.0@ && r@[k].summary@ == read.1@
            }
        }),
{
    let rows = entries@.map_values(|e: LogEntry| row_of(e)).reverse();
    let shown = r@.map_values(|h: HistoryEntry| h@);
    assert(shown == page(rows, limit, offset));
    if 0 <= k < r@.len() {
        assert(shown[k] == r@[k]@);
    }
}

/// A payment's summary names its amount, who pays, who is paid, and the transaction, each as
/// it is shown elsewhere; so do the other records of a transaction, and a vouch.
pub proof fn law_summaries_name_what_their_records_name(
    record: &LogRecord,
    bytes: &Vec<u8>,
    r: (String, String),
    amount: String,
    one: String,
    other: String,
    tx: String,
)
    requires
        call_ensures(decode_summary, (record, bytes), r),
    ensures
        match record {
            LogRecord::Proposal(p) => {
                &&& r.0@ == "proposal"@
                &&& call_ensures(fmt_commons, (p.amount_centi,), amount) && p.sender@.len() > 12
                    && p.receiver@.len() > 12 && call_ensures(short_tx, (&p.id,), tx) ==> r.1@
                    == "propose "@ + amount@ + " from "@ + (p.sender@.take(12) + "…"@) + " to "@
                    + (p.receiver@.take(12) + "…"@) + " (tx "@ + tx@ + ")"@
            },
            LogRecord::Settlement(s) => {
                &&& r.0@ == "settlement"@
                &&& call_ensures(fmt_commons, (s.amount_centi,), amount) && s.sender@.len() > 12
                    && s.receiver@.len() > 12 && call_ensures(short_tx, (&s.proposal_id,), tx)
                    ==> r.1@ == "settle "@ + amount@ + " from "@ + (s.sender@.take(12) + "…"@)
                    + " to "@ + (s.receiver@.take(12) + "…"@) + " (tx "@ + tx@ + ")"@
            },
            LogRecord::Confirmation(c) => {
                &&& r.0@ == "confirmation"@
                &&& c.confirmer@.len() > 12 && call_ensures(short_tx, (&c.proposal_id,), tx)
                    ==> r.1@ == "confirm tx "@ + tx@ + " by "@ + (c.confirmer@.take(12) + "…"@)
            },
            LogRecord::Cancellation(c) => {
                &&& r.0@ == "cancellation"@
                &&& call_ensures(short_tx, (&c.proposal_id,), tx) ==> r.1@ == "cancel tx "@ + tx@
                    + " ("@ + (match c.reason {
                    CancelReason::WithdrawnBySender => "WithdrawnBySender"@,
                    CancelReason::RejectedByReceiver => "RejectedByReceiver"@,
                    CancelReason::Expired => "Expired"@,
                }) + ")"@
            },
            LogRecord::Vouch(v) => {
                &&& r.0@ == "vouch"@
                &&& v.subject@.len() > 12 ==> r.1@ == "vouch for "@ + (v.subject@.take(12) + "…"@)
                    + ": "@ + debug_text(v.statement@)
            },
            _ => true,
        },
{
}

/// An amount is shown as its hundredths read: a sign where it is negative, the whole part,
/// and two digits.
pub proof fn law_amounts_are_shown_in_hundredths(centi: i64, r: String, whole: nat, hundredths: nat)
    requires
        call_ensures(fmt_commons, (centi,), r),
        hundredths < 100,
        centi == whole * 100 + hundredths || centi == -(whole * 100 + hundredths),
    ensures
        r@ == (if centi < 0 {
            seq!['-']
        } else {
            Seq::<char>::empty()
        }) + decimal(whole) + seq!['.'] + seq![
            digit_char(hundredths as int / 10),
            digit_char(hundredths as int % 10),
        ] + " Commons"@,
{
    let abs = whole * 100 + hundredths;
    assert(abs / 100 == whole && abs / 10 % 10 == hundredths / 10 && abs % 10 == hundredths % 10)
        by (nonlinear_arith)
        requires
            abs == whole * 100 + hundredths,
            hundredths < 100,
    ;
    assert(r@ =~= (if centi < 0 {
        seq!['-']
    } else {
        Seq::<char>::empty()
    }) + decimal(whole) + seq!['.'] + seq![
        digit_char(hundredths as int / 10),
        digit_char(hundredths as int % 10),
    ] + " Commons"@);
}

/// A shortened address is its first twelve characters, or all of them where there are fewer,
/// and an ellipsis.
pub proof fn law_an_address_is_shortened_to_twelve(addr: &str, r: String, i: int)
    requires
        call_ensures(short_addr, (addr,), r),
    ensures
        addr@.len() >= 12 ==> r@.len() == 13,
        addr@.len() < 12 ==> r@.len() == addr@.len() + 1,
        0 <= i < r@.len() - 1 ==> r@[i] == addr@[i],
        r@.last() == '…',
{
    reveal_strlit("…");
}

/// A text that is split at a separator is cut at every occurrence of it and nowhere else: no
/// part has one, and the parts with one between them are the text.
pub proof fn law_splitting_cuts_at_every_separator(s: Seq<char>, sep: char)
    ensures
        split(s, sep).len() >= 1,
        forall|i: int| 0 <= i < split(s, sep).len() ==> !(#[trigger] split(s, sep)[i]).contains(sep),
        joined(split(s, sep), sep) == s,
    decreases s.len(),
{
    lemma_split_nonempty(s, sep);
    if s.len() == 0 {
        assert(joined(split(s, sep), sep) =~= s);
    } else {
        let front = s.drop_last();
        let parts = split(front, sep);
        law_splitting_cuts_at_every_separator(front, sep);
        let all = split(s, sep);
        assert(s =~= front.push(s.last()));
        if s.last() == sep {
            assert(all.drop_last() =~= parts);
            assert(joined(all, sep) =~= joined(parts, sep).push(sep) + Seq::<char>::empty());
            assert(joined(all, sep) =~= s);
            assert forall|i: int| 0 <= i < all.len() implies !(#[trigger] all[i]).contains(sep) by {
                if i < parts.len() {
                    assert(all[i] == parts[i]);
                }
            }
        } else {
            let last = parts.last().push(s.last());
            assert(all.drop_last() =~= parts.drop_last());
            assert(all.last() == last);
            assert forall|i: int| 0 <= i < all.len() implies !(#[trigger] all[i]).contains(sep) by {
                if i < parts.len() - 1 {
                    assert(all[i] == parts[i]);
                } else {
                    assert(!parts[parts.len() - 1].contains(sep));
                    assert forall|j: int| 0 <= j < last.len() implies last[j] != sep by {
                        if j < parts.last().len() {
                            assert(parts.last()[j] != sep);
                        }
                    }
                }
            }
            if parts.len() == 1 {
                assert(joined(all, sep) =~= last);
                assert(joined(parts, sep) == parts[0]);
            } else {
                assert(joined(all, sep) =~= joined(parts.drop_last(), sep).push(sep) + last);
            }
            assert(joined(all, sep) =~= s);
        }
    }
}

/// A kind is shown by its segments between the dots, without the leading `rrn` and without a
/// version at the end: the name is the last of them, and the phrase all of them with blanks
/// for the dots and the underscores. `parts` are the segments that name the kind.
pub proof fn law_a_kind_is_shown_by_its_segments(
    kind: &str,
    parts: Seq<Seq<char>>,
    version: Option<Seq<char>>,
    r: (String, String),
)
    requires
        call_ensures(friendly_kind, (kind,), r),
        parts.len() > 0,
        forall|i: int| 0 <= i < parts.len() ==> !(#[trigger] parts[i]).contains('.'),
        match version {
            Some(v) => {
                &&& v.len() >= 2
                &&& v[0] == 'v'
                &&& forall|i: int| 1 <= i < v.len() ==> '0' <= #[trigger] v[i] <= '9'
                &&& kind@ == "rrn."@ + joined(parts.push(v), '.')
            },
            None => {
                &&& parts.last().len() < 2 || parts.last()[0] != 'v' || exists|i: int|
                    1 <= i < parts.last().len() && !('0' <= #[trigger] parts.last()[i] <= '9')
                &&& kind@ == "rrn."@ + joined(parts, '.')
            },
        },
    ensures
        r.0@ == parts.last(),
        r.1@.len() == joined(parts, ' ').len(),
        forall|i: int|
            0 <= i < r.1@.len() ==> #[trigger] r.1@[i] == if joined(parts, ' ')[i] == '_' {
                ' '
            } else {
                joined(parts, ' ')[i]
            },
{
    reveal_strlit("rrn.");
    assert("rrn."@.len() == 4);
    let all = match version {
        Some(v) => parts.push(v),
        None => parts,
    };
    assert(kind@.take(4) =~= "rrn."@);
    assert(kind@.skip(4) =~= joined(all, '.'));
    assert forall|i: int| 0 <= i < all.len() implies !(#[trigger] all[i]).contains('.') by {
        if i < parts.len() {
            assert(all[i] == parts[i]);
        } else {
            let v = version->0;
            assert forall|j: int| 0 <= j < v.len() implies v[j] != '.' by {}
        }
    }
    lemma_split_of_joined(all, '.');
    if version is Some {
        assert(all.drop_last() =~= parts);
        assert(is_version_text(all.last()));
    } else {
        assert(!is_version_text(all.last()));
    }
}

proof fn lemma_split_of_joined(parts: Seq<Seq<char>>, sep: char)
    requires
        parts.len() > 0,
        forall|i: int| 0 <= i < parts.len() ==> !(#[trigger] parts[i]).contains(sep),
    ensures
        split(joined(parts, sep), sep) == parts,
    decreases parts.len(),
{
    let last = parts.last();
    assert(!parts[parts.len() - 1].contains(sep));
    if parts.len() == 1 {
        lemma_split_tail(Seq::empty(), seq![Seq::empty()], last, sep);
        assert(Seq::<char>::empty() + last =~= last);
        assert(seq![Seq::<char>::empty()].drop_last().push(Seq::<char>::empty() + last) =~= parts);
    } else {
        let front = parts.drop_last();
        assert forall|i: int| 0 <= i < front.len() implies !(#[trigger] front[i]).contains(sep) by {
            assert(front[i] == parts[i]);
        }
        lemma_split_of_joined(front, sep);
        let head = joined(front, sep).push(sep);
        assert(head.drop_last() =~= joined(front, sep));
        let cut = front.push(Seq::empty());
        lemma_split_tail(head, cut, last, sep);
        assert(Seq::<char>::empty() + last =~= last);
        assert(cut.drop_last().push(cut.last() + last) =~= parts);
    }
}

proof fn lemma_split_tail(head: Seq<char>, cut: Seq<Seq<char>>, tail: Seq<char>, sep: char)
    requires
        split(head, sep) == cut,
        cut.len() > 0,
        !tail.contains(sep),
    ensures
        split(head + tail, sep) == cut.drop_last().push(cut.last() + tail),
    decreases tail.len(),
{
    if tail.len() == 0 {
        assert(head + tail =~= head);
        assert(cut.last() + tail =~= cut.last());
        assert(cut.drop_last().push(cut.last()) =~= cut);
    } else {
        let rest = tail.drop_last();
        assert forall|i: int| 0 <= i < rest.len() implies rest[i] != sep by {
            assert(tail.contains(tail[i]));
        }
        lemma_split_tail(head, cut, rest, sep);
        assert((head + tail).drop_last() =~= head + rest);
        assert(tail.contains(tail[tail.len() - 1]));
        assert((cut.last() + rest).push(tail.last()) =~= cut.last() + tail);
        assert(split(head + tail, sep) =~= cut.drop_last().push(cut.last() + tail));
    }
}

/// A record without a summary of its own is shown by the kind that it carries, and by its
/// size where it carries none.
pub proof fn law_other_records_are_shown_by_their_kind(
    record: &LogRecord,
    bytes: &Vec<u8>,
    kind: &str,
    shown: (String, String),
    r: (String, String),
)
    requires
        record is Charge || record is Other,
        call_ensures(decode_summary, (record, bytes), r),
        call_ensures(friendly_kind, (kind,), shown),
    ensures
        kind_text(bytes@) == Some(kind@) ==> r.0@ == shown.0@ && r.1@ == shown.1@,
        kind_text(bytes@) is None ==> r.0@ == "unknown"@ && r.1@ == decimal(bytes@.len())
            + " bytes"@,
{
}

} // verus!
