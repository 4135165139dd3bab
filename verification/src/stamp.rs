//! The order of modification timestamps.
//!
//! A timestamp is text. Two timestamps are ordered as their UTF-8 bytes are,
//! byte by byte, a proper prefix coming first. This is the order in which the
//! store compares text, and for timestamps of one fixed layout
//! (`YYYY-MM-DD HH:MM:SS`) it is the order of time.

use vstd::prelude::*;
use vstd::string::*;
use vstd::utf8::*;

verus! {

/// `a` and `b` agree on their first `k` bytes, and at index `k` either `a`
/// has ended while `b` goes on, or `a` holds the smaller byte.
pub open spec fn breaks_before(a: Seq<u8>, b: Seq<u8>, k: int) -> bool {
    &&& 0 <= k <= a.len()
    &&& k < b.len()
    &&& a.subrange(0, k) == b.subrange(0, k)
    &&& (k < a.len() ==> a[k] < b[k])
}

/// `a` comes strictly before `b` in the lexicographic order of bytes.
pub open spec fn bytes_before(a: Seq<u8>, b: Seq<u8>) -> bool {
    exists|k: int| #[trigger] breaks_before(a, b, k)
}

/// The timestamp `stamp` is strictly later than `mark`.
pub open spec fn stamp_after(stamp: Seq<char>, mark: Seq<char>) -> bool {
    bytes_before(encode_utf8(mark), encode_utf8(stamp))
}

/// `stamp` is `mark` or later.
pub open spec fn stamp_at_or_after(stamp: Seq<char>, mark: Seq<char>) -> bool {
    stamp == mark || stamp_after(stamp, mark)
}

/// Where two byte strings agree up to `i` and part ways there (or one of them
/// ends there), index `i` alone decides which comes first.
pub proof fn lemma_decided_at(a: Seq<u8>, b: Seq<u8>, i: int)
    requires
        0 <= i <= a.len(),
        i <= b.len(),
        a.subrange(0, i) == b.subrange(0, i),
        i == a.len() || i == b.len() || a[i] != b[i],
    ensures
        bytes_before(a, b) <==> (i < b.len() && (i == a.len() || a[i] < b[i])),
{
    if i < b.len() && (i == a.len() || a[i] < b[i]) {
        assert(breaks_before(a, b, i));
    }
    if bytes_before(a, b) {
        let k = choose|k: int| #[trigger] breaks_before(a, b, k);
        assert(breaks_before(a, b, k));
        if k < i {
            assert(a.subrange(0, i)[k] == a[k]);
            assert(b.subrange(0, i)[k] == b[k]);
        } else if k > i {
            assert(a.subrange(0, k)[i] == a[i]);
            assert(b.subrange(0, k)[i] == b[i]);
        }
    }
}

/// No byte string comes before itself.
pub proof fn lemma_bytes_irreflexive(a: Seq<u8>)
    ensures
        !bytes_before(a, a),
{
}

/// Of three byte strings, where the first comes before the second and the
/// second before the third, the first comes before the third.
pub proof fn lemma_bytes_transitive(a: Seq<u8>, b: Seq<u8>, c: Seq<u8>)
    requires
        bytes_before(a, b),
        bytes_before(b, c),
    ensures
        bytes_before(a, c),
{
    let k1 = choose|k: int| #[trigger] breaks_before(a, b, k);
    let k2 = choose|k: int| #[trigger] breaks_before(b, c, k);
    let k = if k1 <= k2 {
        k1
    } else {
        k2
    };
    assert(a.subrange(0, k) =~= c.subrange(0, k)) by {
        assert forall|j: int| 0 <= j < k implies a[j] == c[j] by {
            assert(a.subrange(0, k1)[j] == a[j]);
            assert(b.subrange(0, k1)[j] == b[j]);
            assert(b.subrange(0, k2)[j] == b[j]);
            assert(c.subrange(0, k2)[j] == c[j]);
        }
    }
    if k1 < k2 {
        assert(b.subrange(0, k2)[k1] == b[k1]);
        assert(c.subrange(0, k2)[k1] == c[k1]);
    } else if k2 < k1 {
        assert(a.subrange(0, k1)[k2] == a[k2]);
        assert(b.subrange(0, k1)[k2] == b[k2]);
    }
    assert(breaks_before(a, c, k));
}

/// Two byte strings that agree on their first `i` bytes are equal, or one
/// of them comes before the other.
proof fn lemma_bytes_total_from(a: Seq<u8>, b: Seq<u8>, i: int)
    requires
        0 <= i <= a.len(),
        i <= b.len(),
        a.subrange(0, i) == b.subrange(0, i),
    ensures
        a == b || bytes_before(a, b) || bytes_before(b, a),
    decreases a.len() - i,
{
    if i == a.len() && i == b.len() {
        assert(a.subrange(0, i) == a);
        assert(b.subrange(0, i) == b);
    } else if i == a.len() {
        assert(breaks_before(a, b, i));
    } else if i == b.len() {
        assert(breaks_before(b, a, i));
    } else if a[i] < b[i] {
        assert(breaks_before(a, b, i));
    } else if b[i] < a[i] {
        assert(breaks_before(b, a, i));
    } else {
        assert(a.subrange(0, i + 1) =~= a.subrange(0, i).push(a[i]));
        assert(b.subrange(0, i + 1) =~= b.subrange(0, i).push(b[i]));
        lemma_bytes_total_from(a, b, i + 1);
    }
}

/// Two byte strings are equal, or one of them comes before the other.
pub proof fn lemma_bytes_total(a: Seq<u8>, b: Seq<u8>)
    ensures
        a == b || bytes_before(a, b) || bytes_before(b, a),
{
    assert(a.subrange(0, 0) =~= b.subrange(0, 0));
    lemma_bytes_total_from(a, b, 0);
}

/// Timestamps are totally ordered: none is later than itself, later than
/// later is later, and of two different timestamps one is later than the
/// other.
pub proof fn lemma_stamp_order(a: Seq<char>, b: Seq<char>, c: Seq<char>)
    ensures
        !stamp_after(a, a),
        stamp_after(a, b) && stamp_after(b, c) ==> stamp_after(a, c),
        !(stamp_after(a, b) && stamp_after(b, a)),
        a == b || stamp_after(a, b) || stamp_after(b, a),
{
    lemma_bytes_irreflexive(encode_utf8(a));
    if stamp_after(a, b) && stamp_after(b, c) {
        lemma_bytes_transitive(encode_utf8(c), encode_utf8(b), encode_utf8(a));
    }
    if stamp_after(a, b) && stamp_after(b, a) {
        lemma_bytes_transitive(encode_utf8(a), encode_utf8(b), encode_utf8(a));
    }
    lemma_bytes_total(encode_utf8(a), encode_utf8(b));
    if encode_utf8(a) == encode_utf8(b) {
        encode_utf8_decode_utf8(a);
        encode_utf8_decode_utf8(b);
    }
}

/// A timestamp is strictly later than a mark exactly when the mark is not
/// that timestamp or later.
pub proof fn lemma_after_or_not(stamp: Seq<char>, mark: Seq<char>)
    ensures
        stamp_after(stamp, mark) <==> !stamp_at_or_after(mark, stamp),
{
    lemma_stamp_order(stamp, mark, stamp);
}

/// A decimal digit.
pub open spec fn is_digit(c: char) -> bool {
    '0' <= c <= '9'
}

/// The timestamp is laid out as the store writes it: `YYYY-MM-DD HH:MM:SS`.
pub open spec fn in_layout(s: Seq<char>) -> bool {
    &&& s.len() == 19
    &&& s[4] == '-'
    &&& s[7] == '-'
    &&& s[10] == ' '
    &&& s[13] == ':'
    &&& s[16] == ':'
    &&& forall|i: int|
        0 <= i < 19 && i != 4 && i != 7 && i != 10 && i != 13 && i != 16 ==> is_digit(
            #[trigger] s[i],
        )
}

/// The number that the digits among the first `n` characters of `s` spell.
pub open spec fn spelled(s: Seq<char>, n: int) -> int
    decreases n,
{
    if n <= 0 {
        0
    } else if is_digit(s[n - 1]) {
        spelled(s, n - 1) * 10 + (s[n - 1] as int - '0' as int)
    } else {
        spelled(s, n - 1)
    }
}

/// The moment that a timestamp in the layout names, as the number
/// `YYYYMMDDHHMMSS`.
pub open spec fn moment(s: Seq<char>) -> int {
    spelled(s, 19)
}

/// Two texts that agree on their first `n` characters spell the same number
/// there.
proof fn lemma_spelled_alike(a: Seq<char>, b: Seq<char>, n: int)
    requires
        0 <= n <= a.len(),
        n <= b.len(),
        forall|i: int| 0 <= i < n ==> a[i] == b[i],
    ensures
        spelled(a, n) == spelled(b, n),
    decreases n,
{
    if n > 0 {
        lemma_spelled_alike(a, b, n - 1);
    }
}

/// Of two timestamps in the layout, the one that spells the smaller number
/// up to some character spells the smaller number up to every later one.
proof fn lemma_spelled_stays_smaller(a: Seq<char>, b: Seq<char>, m: int, n: int)
    requires
        in_layout(a),
        in_layout(b),
        0 <= m <= n <= 19,
        spelled(a, m) < spelled(b, m),
    ensures
        spelled(a, n) < spelled(b, n),
    decreases n - m,
{
    if m < n {
        lemma_spelled_stays_smaller(a, b, m, n - 1);
        assert(is_digit(a[n - 1]) <==> is_digit(b[n - 1]));
    }
}

/// In the layout of the store the order of timestamps is the order of time:
/// of two timestamps laid out as `YYYY-MM-DD HH:MM:SS`, one is strictly
/// later than the other exactly when the moment it names is.
pub proof fn lemma_layout_order_is_time(a: Seq<char>, b: Seq<char>)
    requires
        in_layout(a),
        in_layout(b),
    ensures
        stamp_after(a, b) <==> moment(a) > moment(b),
{
    lemma_layout_forward(a, b);
    lemma_layout_forward(b, a);
    lemma_stamp_order(a, b, a);
}

/// A timestamp in the layout that is strictly later names a later moment.
proof fn lemma_layout_forward(a: Seq<char>, b: Seq<char>)
    requires
        in_layout(a),
        in_layout(b),
    ensures
        stamp_after(a, b) ==> moment(a) > moment(b),
{
    if stamp_after(a, b) {
        assert(is_ascii_chars(a));
        assert(is_ascii_chars(b));
        is_ascii_chars_encode_utf8(a);
        is_ascii_chars_encode_utf8(b);
        let ea = encode_utf8(a);
        let eb = encode_utf8(b);
        let k = choose|k: int| #[trigger] breaks_before(eb, ea, k);
        assert(breaks_before(eb, ea, k));
        assert(0 <= k < 19);
        assert forall|i: int| 0 <= i < k implies a[i] == b[i] by {
            assert(eb.subrange(0, k)[i] == eb[i]);
            assert(ea.subrange(0, k)[i] == ea[i]);
            assert(a[i] as u8 == ea[i]);
            assert(b[i] as u8 == eb[i]);
        }
        assert(b[k] as u8 == eb[k]);
        assert(a[k] as u8 == ea[k]);
        assert(b[k] < a[k]);
        assert(is_digit(a[k]) && is_digit(b[k]));
        lemma_spelled_alike(a, b, k);
        lemma_spelled_stays_smaller(b, a, k + 1, 19);
    }
}

fn slice_before(a: &[u8], b: &[u8]) -> (r: bool)
    ensures
        r == bytes_before(a@, b@),
{
    let mut i: usize = 0;
    while i < a.len() && i < b.len()
        invariant
            i <= a.len(),
            i <= b.len(),
            a@.subrange(0, i as int) == b@.subrange(0, i as int),
        decreases a.len() - i,
    {
        if a[i] != b[i] {
            proof {
                lemma_decided_at(a@, b@, i as int);
            }
            return a[i] < b[i];
        }
        proof {
            assert(a@.subrange(0, i + 1) =~= a@.subrange(0, i as int).push(a@[i as int]));
            assert(b@.subrange(0, i + 1) =~= b@.subrange(0, i as int).push(b@[i as int]));
        }
        i += 1;
    }
    proof {
        lemma_decided_at(a@, b@, i as int);
    }
    a.len() < b.len()
}

/// Whether the timestamp `stamp` is strictly later than `mark`.
pub fn is_after(stamp: &str, mark: &str) -> (r: bool)
    ensures
        r == stamp_after(stamp@, mark@),
{
    slice_before(mark.as_bytes(), stamp.as_bytes())
}

} // verus!
