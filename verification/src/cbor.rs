//! Reading the text fields of a canonical CBOR record, and how deeply CBOR is nested.

use vstd::prelude::*;

use dcbor::{CBORCase, CBOR};

verus! {

/// How deeply items may stand inside one another in CBOR that is read. The decoder
/// calls itself for each level.
pub const MAX_NESTING: usize = 128;

/// An unsigned number of `n` bytes that begins at a place, most significant byte first.
pub open spec fn big_endian(bytes: Seq<u8>, at: int, n: nat) -> nat
    decreases n,
{
    if n == 0 {
        0
    } else {
        big_endian(bytes, at, (n - 1) as nat) * 256 + bytes[at + n - 1] as nat
    }
}

/// How many numbers `n` bytes can hold.
pub open spec fn byte_range(n: nat) -> nat
    decreases n,
{
    if n == 0 {
        1
    } else {
        256 * byte_range((n - 1) as nat)
    }
}

proof fn lemma_big_endian(bytes: Seq<u8>, at: int, n: nat)
    ensures
        big_endian(bytes, at, n) < byte_range(n),
    decreases n,
{
    if n > 0 {
        lemma_big_endian(bytes, at, (n - 1) as nat);
    }
}

proof fn lemma_byte_range(n: nat)
    requires
        n <= 8,
    ensures
        byte_range(n) <= 0x1_0000_0000_0000_0000,
{
    reveal_with_fuel(byte_range, 9);
}

/// How many bytes of argument follow an item's first byte; none where the low bits of
/// that byte announce no argument that canonical CBOR has.
pub open spec fn argument_len(first: u8) -> Option<nat> {
    let low = first % 32;
    if low < 24 {
        Some(0)
    } else if low == 24 {
        Some(1)
    } else if low == 25 {
        Some(2)
    } else if low == 26 {
        Some(4)
    } else if low == 27 {
        Some(8)
    } else {
        None
    }
}

/// The argument of the item at a place: the low bits of its first byte, or the number
/// in the bytes behind it.
pub open spec fn argument(bytes: Seq<u8>, at: int, n: nat) -> nat {
    if n == 0 {
        (bytes[at] % 32) as nat
    } else {
        big_endian(bytes, at + 1, n)
    }
}

/// What the head of an item says: where the next item begins and, of an array, a map or
/// a tag, how many items it holds; a map counts its keys and its values. Texts and byte
/// strings are as long as their argument says, and other items are their head alone.
/// None where the bytes end before the item does, or begin no item.
pub open spec fn head(bytes: Seq<u8>, at: int) -> Option<(int, Option<nat>)> {
    if !(0 <= at < bytes.len()) {
        None
    } else {
        match argument_len(bytes[at]) {
            None => None,
            Some(n) => {
                let major = bytes[at] / 32;
                let body = at + 1 + n;
                let arg = argument(bytes, at, n);
                if body > bytes.len() {
                    None
                } else if major == 2 || major == 3 {
                    if body + arg > bytes.len() {
                        None
                    } else {
                        Some((body + arg, None))
                    }
                } else if major == 4 {
                    Some((body, Some(arg)))
                } else if major == 5 {
                    Some((body, Some(2 * arg)))
                } else if major == 6 {
                    Some((body, Some(1)))
                } else {
                    Some((body, None))
                }
            },
        }
    }
}

/// The most items that stand open around an item, that item included, from a place on.
/// `open` holds, for each level that is open there, how many of its items are still to
/// come.
pub open spec fn deepest(bytes: Seq<u8>, at: int, open: Seq<nat>) -> nat
    decreases bytes.len() - at, open.len(),
{
    if open.len() == 0 {
        0
    } else if open.last() == 0 {
        deepest(bytes, at, open.drop_last())
    } else {
        match head(bytes, at) {
            None => open.len(),
            Some((next, items)) => {
                let rest = open.drop_last().push((open.last() - 1) as nat);
                let beyond = deepest(
                    bytes,
                    next,
                    match items {
                        None => rest,
                        Some(n) => rest.push(n),
                    },
                );
                if beyond > open.len() {
                    beyond
                } else {
                    open.len()
                }
            },
        }
    }
}

/// How deeply the items that bytes begin with stand inside one another. An item that
/// holds no other counts one.
pub open spec fn nesting(bytes: Seq<u8>) -> nat {
    deepest(bytes, 0, seq![1])
}

fn read_argument(bytes: &[u8], at: usize, n: usize) -> (r: u64)
    requires
        at < bytes@.len(),
        at + 1 + n <= bytes@.len(),
        n <= 8,
    ensures
        r == argument(bytes@, at as int, n as nat),
{
    if n == 0 {
        return (bytes[at] % 32) as u64;
    }
    let end: usize = bytes.len();
    let mut v: u64 = 0;
    let mut i: usize = 0;
    while i < n
        invariant
            i <= n <= 8,
            at + 1 + n <= end == bytes@.len(),
            v == big_endian(bytes@, at as int + 1, i as nat),
        decreases n - i,
    {
        proof {
            lemma_big_endian(bytes@, at as int + 1, (i + 1) as nat);
            lemma_byte_range((i + 1) as nat);
        }
        v = v * 256 + bytes[at + 1 + i] as u64;
        i = i + 1;
    }
    v
}

fn read_head(bytes: &[u8], at: usize) -> (r: Option<(usize, Option<u128>)>)
    requires
        at <= bytes@.len(),
    ensures
        match r {
            None => head(bytes@, at as int) is None,
            Some((next, None)) => head(bytes@, at as int) == Some((next as int, None::<nat>)),
            Some((next, Some(items))) => head(bytes@, at as int) == Some(
                (next as int, Some(items as nat)),
            ),
        },
{
    if at >= bytes.len() {
        return None;
    }
    let low: u8 = bytes[at] % 32;
    let major: u8 = bytes[at] / 32;
    let n: usize = if low < 24 {
        0
    } else if low == 24 {
        1
    } else if low == 25 {
        2
    } else if low == 26 {
        4
    } else if low == 27 {
        8
    } else {
        return None;
    };
    if n > bytes.len() - at - 1 {
        return None;
    }
    let body: usize = at + 1 + n;
    let arg: u64 = read_argument(bytes, at, n);
    if major == 2 || major == 3 {
        if arg as u128 > (bytes.len() - body) as u128 {
            None
        } else {
            Some((body + arg as usize, None))
        }
    } else if major == 4 {
        Some((body, Some(arg as u128)))
    } else if major == 5 {
        Some((body, Some(2 * (arg as u128))))
    } else if major == 6 {
        Some((body, Some(1)))
    } else {
        Some((body, None))
    }
}

/// Whether the items in bytes stand no deeper inside one another than can be read. Only
/// the heads are looked at.
pub fn is_shallow(bytes: &[u8]) -> (r: bool)
    ensures
        r == (nesting(bytes@) <= MAX_NESTING),
{
    let mut open: Vec<u128> = Vec::new();
    open.push(1);
    let mut at: usize = 0;
    assert(counts(open@) =~= seq![1nat]);
    while open.len() > 0
        invariant
            at <= bytes@.len(),
            (nesting(bytes@) <= MAX_NESTING) == (deepest(bytes@, at as int, counts(open@))
                <= MAX_NESTING),
        decreases bytes@.len() - at, open@.len(),
    {
        let ghost before = counts(open@);
        let level: usize = open.len();
        let left: u128 = open[level - 1];
        assert(before.last() == left as nat);
        let _ = open.pop();
        assert(counts(open@) =~= before.drop_last());
        if left > 0 {
            match read_head(bytes, at) {
                None => {
                    return level <= MAX_NESTING;
                },
                Some((next, items)) => {
                    if level > MAX_NESTING {
                        return false;
                    }
                    open.push(left - 1);
                    let ghost rest = before.drop_last().push((before.last() - 1) as nat);
                    assert(counts(open@) =~= rest);
                    match items {
                        Some(n) => {
                            open.push(n);
                            assert(counts(open@) =~= rest.push(n as nat));
                        },
                        None => {},
                    }
                    at = next;
                },
            }
        }
    }
    true
}

/// Counts of items as plain numbers.
pub open spec fn counts(open: Seq<u128>) -> Seq<nat> {
    open.map_values(|n: u128| n as nat)
}

/// The text under a text key, where the bytes are one canonical CBOR map that has
/// the key and the value under it is text.
pub uninterp spec fn cbor_text_field(bytes: Seq<u8>, key: Seq<char>) -> Option<Seq<char>>;

/// Calls `dcbor::CBOR::try_from_data` on the bytes and `dcbor::Map::extract` on
/// the map they hold. The result is a function of the bytes and the key: none
/// where the bytes are not one deterministic CBOR item, where the item is not a
/// map, or where the map has no text under the key. The decoder calls itself for each
/// level of nesting, so the nesting is bounded.
#[verifier::external_body]
pub(crate) fn text_field(bytes: &[u8], key: &str) -> (r: Option<String>)
    requires
        nesting(bytes@) <= MAX_NESTING,
    ensures
        match r {
            Some(s) => cbor_text_field(bytes@, key@) == Some(s@),
            None => cbor_text_field(bytes@, key@) is None,
        },
{
    match CBOR::try_from_data(bytes).ok()?.into_case() {
        CBORCase::Map(map) => map.extract::<&str, String>(key).ok(),
        _ => None,
    }
}

/// The `kind` discriminator of a record, if it has one. A record that is nested too
/// deeply to be read has none.
pub open spec fn kind_text(bytes: Seq<u8>) -> Option<Seq<char>> {
    if nesting(bytes) <= MAX_NESTING {
        cbor_text_field(bytes, "kind"@)
    } else {
        None
    }
}

/// Reads a record's `kind` discriminator from its canonical bytes, or `None` if
/// the bytes are not a canonical CBOR map with a text `kind`.
pub fn record_kind(bytes: &[u8]) -> (r: Option<String>)
    ensures
        match r {
            Some(s) => kind_text(bytes@) == Some(s@),
            None => kind_text(bytes@) is None,
        },
{
    if is_shallow(bytes) {
        text_field(bytes, "kind")
    } else {
        None
    }
}

proof fn lemma_nesting_bound(bytes: Seq<u8>, at: int, open: Seq<nat>)
    requires
        0 <= at <= bytes.len(),
    ensures
        deepest(bytes, at, open) <= open.len() + bytes.len() - at,
    decreases bytes.len() - at, open.len(),
{
    if open.len() > 0 {
        if open.last() == 0 {
            lemma_nesting_bound(bytes, at, open.drop_last());
        } else {
            match head(bytes, at) {
                None => {},
                Some((next, items)) => {
                    let rest = open.drop_last().push((open.last() - 1) as nat);
                    lemma_nesting_bound(
                        bytes,
                        next,
                        match items {
                            None => rest,
                            Some(n) => rest.push(n),
                        },
                    );
                },
            }
        }
    }
}

/// A record of fewer than a hundred and twenty-eight bytes is never nested too deeply: each
/// level takes a byte. Its kind is the text under that key, where it has one.
pub proof fn law_short_records_are_read(bytes: &[u8], shallow: bool, r: Option<String>)
    requires
        bytes@.len() < 128,
        call_ensures(is_shallow, (bytes,), shallow),
        call_ensures(record_kind, (bytes,), r),
    ensures
        shallow,
        r matches Some(s) ==> cbor_text_field(bytes@, "kind"@) == Some(s@),
        r is None ==> cbor_text_field(bytes@, "kind"@) is None,
{
    lemma_nesting_bound(bytes@, 0, seq![1nat]);
}

proof fn lemma_shifted_number(b: Seq<u8>, at: int, n: nat, first: u8)
    requires
        0 <= at,
        at + n <= b.len(),
    ensures
        big_endian(seq![first] + b, at + 1, n) == big_endian(b, at, n),
    decreases n,
{
    if n > 0 {
        lemma_shifted_number(b, at, (n - 1) as nat, first);
        assert((seq![first] + b)[at + 1 + n - 1] == b[at + n - 1]);
    }
}

proof fn lemma_shifted_head(b: Seq<u8>, at: int, first: u8)
    requires
        0 <= at,
    ensures
        head(seq![first] + b, at + 1) == match head(b, at) {
            Some((next, items)) => Some((next + 1, items)),
            None => None,
        },
{
    let s = seq![first] + b;
    if at < b.len() {
        assert(s[at + 1] == b[at]);
        match argument_len(b[at]) {
            Some(n) => {
                if n > 0 && at + 1 + n <= b.len() {
                    lemma_shifted_number(b, at + 1, n, first);
                }
            },
            None => {},
        }
    }
}

proof fn lemma_shifted_depth(b: Seq<u8>, at: int, open: Seq<nat>, first: u8)
    requires
        0 <= at <= b.len(),
        open.len() > 0,
    ensures
        deepest(seq![first] + b, at + 1, seq![0nat] + open) == if deepest(b, at, open) == 0 {
            0
        } else {
            deepest(b, at, open) + 1
        },
    decreases b.len() - at, open.len(),
{
    let s = seq![first] + b;
    let deep = seq![0nat] + open;
    assert(deep.last() == open.last());
    if open.last() == 0 {
        assert(deep.drop_last() =~= seq![0nat] + open.drop_last());
        if open.len() > 1 {
            lemma_shifted_depth(b, at, open.drop_last(), first);
        } else {
            assert(deep.drop_last() =~= seq![0nat]);
            assert(seq![0nat].drop_last() =~= Seq::<nat>::empty());
            assert(deepest(s, at + 1, Seq::<nat>::empty()) == 0);
            assert(deepest(s, at + 1, seq![0nat]) == 0);
            assert(open.drop_last() =~= Seq::<nat>::empty());
            assert(deepest(b, at, Seq::<nat>::empty()) == 0);
        }
    } else {
        lemma_shifted_head(b, at, first);
        match head(b, at) {
            None => {},
            Some((next, items)) => {
                let rest = open.drop_last().push((open.last() - 1) as nat);
                let then = match items {
                    None => rest,
                    Some(n) => rest.push(n),
                };
                let deep_rest = deep.drop_last().push((deep.last() - 1) as nat);
                assert(deep_rest =~= seq![0nat] + rest);
                let deep_then = match items {
                    None => deep_rest,
                    Some(n) => deep_rest.push(n),
                };
                assert(deep_then =~= seq![0nat] + then);
                lemma_shifted_depth(b, next, then, first);
                let beyond = deepest(b, next, then);
                let deep_beyond = deepest(s, next + 1, deep_then);
                assert(deepest(b, at, open) == if beyond > open.len() {
                    beyond
                } else {
                    open.len()
                });
                assert(head(s, at + 1) == Some((next + 1, items)));
                assert(deepest(s, at + 1, deep) == if deep_beyond > deep.len() {
                    deep_beyond
                } else {
                    deep.len()
                });
            },
        }
    }
}

/// An item in an array of its own, or under a tag, stands one level deeper than alone. The
/// first byte is that of an array of one item, or of a small tag.
pub proof fn law_wrapping_nests_one_deeper(b: Seq<u8>, first: u8)
    requires
        first == 0x81 || 0xc0 <= first < 0xd8,
        b.len() > 0,
    ensures
        nesting(seq![first] + b) == nesting(b) + 1,
{
    let s = seq![first] + b;
    assert(first / 32 == 4 && first % 32 == 1 || first / 32 == 6 && first % 32 < 24) by (bit_vector)
        requires
            first == 0x81u8 || (0xc0u8 <= first && first < 0xd8u8),
    ;
    assert(s[0] == first);
    assert(head(s, 0) == Some((1int, Some(1nat))));
    let rest = seq![1nat].drop_last().push(0nat);
    assert(rest =~= seq![0nat]);
    assert(rest.push(1nat) =~= seq![0nat] + seq![1nat]);
    lemma_shifted_depth(b, 0, seq![1nat], first);
    assert(deepest(b, 0, seq![1nat]) >= 1);
}

/// A text or a byte string takes the bytes that its head says, whichever way the length is
/// written, and holds no other item; a small number is one byte. `n` is the length, and
/// `next` where the following item begins.
pub proof fn law_a_string_is_as_long_as_it_says(bytes: Seq<u8>, at: int, n: int, next: int)
    requires
        0 <= at < bytes.len(),
        0 <= n,
        (bytes[at] < 24 && next == at + 1) || ((bytes[at] == 0x40 + n || bytes[at] == 0x60 + n) && n
            < 24 && next == at + 1 + n) || ((bytes[at] == 0x58 || bytes[at] == 0x78) && at + 1
            < bytes.len() && n == bytes[at + 1] && next == at + 2 + n) || ((bytes[at] == 0x59
            || bytes[at] == 0x79) && at + 2 < bytes.len() && n == bytes[at + 1] * 256 + bytes[at
            + 2] && next == at + 3 + n),
        next <= bytes.len(),
    ensures
        head(bytes, at) == Some((next, None::<nat>)),
{
    reveal_with_fuel(big_endian, 3);
}

/// A map of texts, byte strings and small numbers is two levels deep, however many it has
/// and however long they are, so its kind is the text under that key, where it has one.
/// `places` are where its keys and values begin, and where the last of them ends.
pub proof fn law_a_flat_record_is_read(bytes: &[u8], places: Seq<int>, r: Option<String>)
    requires
        call_ensures(record_kind, (bytes,), r),
        places.len() > 1,
        head(bytes@, 0) == Some((places[0], Some((places.len() - 1) as nat))),
        forall|i: int|
            0 <= i < places.len() - 1 ==> head(bytes@, #[trigger] places[i]) == Some(
                (places[i + 1], None::<nat>),
            ),
    ensures
        r matches Some(s) ==> cbor_text_field(bytes@, "kind"@) == Some(s@),
        r is None ==> cbor_text_field(bytes@, "kind"@) is None,
{
    let n = (places.len() - 1) as nat;
    let rest = seq![1nat].drop_last().push(0nat);
    assert(rest =~= seq![0nat]);
    assert(rest.push(n) =~= seq![0nat, n]);
    lemma_flat(bytes@, places, 0);
    assert(nesting(bytes@) <= 2);
}

proof fn lemma_flat(bytes: Seq<u8>, places: Seq<int>, i: int)
    requires
        0 <= i < places.len(),
        forall|k: int|
            0 <= k < places.len() - 1 ==> head(bytes, #[trigger] places[k]) == Some(
                (places[k + 1], None::<nat>),
            ),
    ensures
        deepest(bytes, places[i], seq![0nat, (places.len() - 1 - i) as nat]) <= 2,
    decreases places.len() - i,
{
    let open = seq![0nat, (places.len() - 1 - i) as nat];
    if i < places.len() - 1 {
        lemma_flat(bytes, places, i + 1);
        assert(head(bytes, places[i]) == Some((places[i + 1], None::<nat>)));
        assert(open.drop_last().push((open.last() - 1) as nat) =~= seq![
            0nat,
            (places.len() - 1 - (i + 1)) as nat,
        ]);
    } else {
        assert(open.drop_last() =~= seq![0nat]);
        assert(seq![0nat].drop_last() =~= Seq::<nat>::empty());
        assert(deepest(bytes, places[i], Seq::<nat>::empty()) == 0);
        assert(deepest(bytes, places[i], seq![0nat]) == 0);
    }
}

} // verus!
