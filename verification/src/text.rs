//! Plain operations on text, each proved against a statement over
//! sequences of characters.

use vstd::prelude::*;
use vstd::string::*;

verus! {

/// `p` stands in `s` at index `at`.
pub open spec fn occurs_at(s: Seq<char>, at: int, p: Seq<char>) -> bool {
    &&& 0 <= at
    &&& at + p.len() <= s.len()
    &&& s.subrange(at, at + p.len()) == p
}

/// `s` begins with `p`.
pub open spec fn has_prefix(s: Seq<char>, p: Seq<char>) -> bool {
    occurs_at(s, 0, p)
}

/// `s` ends with `p`.
pub open spec fn has_suffix(s: Seq<char>, p: Seq<char>) -> bool {
    occurs_at(s, s.len() - p.len(), p)
}

/// `p` stands somewhere in `s`.
pub open spec fn contains_text(s: Seq<char>, p: Seq<char>) -> bool {
    exists|at: int| occurs_at(s, at, p)
}

/// `s` without the run of `c` at its end.
pub open spec fn without_trailing(s: Seq<char>, c: char) -> Seq<char>
    decreases s.len(),
{
    if s.len() > 0 && s.last() == c {
        without_trailing(s.drop_last(), c)
    } else {
        s
    }
}

/// `s` without the occurrences of `p`, found from left to right, none
/// overlapping another. An empty `p` occurs nowhere.
pub open spec fn without(s: Seq<char>, p: Seq<char>) -> Seq<char>
    decreases s.len(),
{
    if p.len() == 0 || s.len() == 0 {
        s
    } else if occurs_at(s, 0, p) {
        without(s.skip(p.len() as int), p)
    } else {
        seq![s[0]] + without(s.skip(1), p)
    }
}

/// White space: the characters with the Unicode property `White_Space`.
pub open spec fn is_space(c: char) -> bool {
    let n = c as u32;
    (0x09 <= n <= 0x0D) || n == 0x20 || n == 0x85 || n == 0xA0 || n == 0x1680 || (0x2000 <= n
        <= 0x200A) || n == 0x2028 || n == 0x2029 || n == 0x202F || n == 0x205F || n == 0x3000
}

/// `s` without the white space at its start.
pub open spec fn without_leading_space(s: Seq<char>) -> Seq<char>
    decreases s.len(),
{
    if s.len() > 0 && is_space(s[0]) {
        without_leading_space(s.skip(1))
    } else {
        s
    }
}

/// `s` without the white space at its end.
pub open spec fn without_trailing_space(s: Seq<char>) -> Seq<char>
    decreases s.len(),
{
    if s.len() > 0 && is_space(s.last()) {
        without_trailing_space(s.drop_last())
    } else {
        s
    }
}

/// `s` without the white space at its start and at its end.
pub open spec fn trimmed(s: Seq<char>) -> Seq<char> {
    without_trailing_space(without_leading_space(s))
}

/// The index of the first `c` in `s`, or the length of `s` where there is
/// none.
pub open spec fn first_index_of(s: Seq<char>, c: char) -> int
    decreases s.len(),
{
    if s.len() == 0 {
        0
    } else if s[0] == c {
        0
    } else {
        1 + first_index_of(s.skip(1), c)
    }
}

/// The decimal digit of `d`.
pub open spec fn digit(d: nat) -> char {
    if d == 0 {
        '0'
    } else if d == 1 {
        '1'
    } else if d == 2 {
        '2'
    } else if d == 3 {
        '3'
    } else if d == 4 {
        '4'
    } else if d == 5 {
        '5'
    } else if d == 6 {
        '6'
    } else if d == 7 {
        '7'
    } else if d == 8 {
        '8'
    } else {
        '9'
    }
}

/// `n` in decimal digits, without leading zeros.
pub open spec fn decimal(n: nat) -> Seq<char>
    decreases n,
{
    if n < 10 {
        seq![digit(n)]
    } else {
        decimal(n / 10).push(digit(n % 10))
    }
}

/// The characters of `s`, in order.
pub fn chars_of(s: &str) -> (out: Vec<char>)
    ensures
        out@ == s@,
{
    let mut out: Vec<char> = Vec::new();
    for c in it: s.chars()
        invariant
            out@ == it.seq().take(it.index@ as int),
    {
        out.push(c);
    }
    out
}

/// Whether `p` stands in `s` at index `at`.
pub fn stands_at(s: &Vec<char>, at: usize, p: &Vec<char>) -> (r: bool)
    ensures
        r == occurs_at(s@, at as int, p@),
{
    if at > s.len() || p.len() > s.len() - at {
        return false;
    }
    let mut j: usize = 0;
    while j < p.len()
        invariant
            j <= p.len(),
            at + p.len() <= s.len(),
            forall|k: int| 0 <= k < j ==> s@[at + k] == p@[k],
        decreases p.len() - j,
    {
        if s[at + j] != p[j] {
            proof {
                assert(s@.subrange(at as int, at + p.len())[j as int] == s@[at + j]);
            }
            return false;
        }
        j += 1;
    }
    proof {
        assert(s@.subrange(at as int, at + p.len()) =~= p@);
    }
    true
}

/// Whether `s` begins with `p`.
pub fn starts_with(s: &str, p: &str) -> (r: bool)
    ensures
        r == has_prefix(s@, p@),
{
    let text = chars_of(s);
    let pat = chars_of(p);
    stands_at(&text, 0, &pat)
}

/// Whether `s` ends with `p`.
pub fn ends_with(s: &str, p: &str) -> (r: bool)
    ensures
        r == has_suffix(s@, p@),
{
    let text = chars_of(s);
    let pat = chars_of(p);
    if pat.len() > text.len() {
        return false;
    }
    stands_at(&text, text.len() - pat.len(), &pat)
}

/// Whether `p` stands somewhere in `s`.
pub fn contains(s: &str, p: &str) -> (r: bool)
    ensures
        r == contains_text(s@, p@),
{
    let text = chars_of(s);
    let pat = chars_of(p);
    let mut at: usize = 0;
    loop
        invariant
            at <= text.len(),
            text@ == s@,
            pat@ == p@,
            forall|k: int| 0 <= k < at ==> !occurs_at(s@, k, p@),
        decreases text.len() - at,
    {
        if stands_at(&text, at, &pat) {
            return true;
        }
        if at == text.len() {
            return false;
        }
        at += 1;
    }
}

/// `s` without the run of `c` at its end.
pub fn trim_end_matches(s: &str, c: char) -> (r: &str)
    ensures
        r@ == without_trailing(s@, c),
{
    let text = chars_of(s);
    let mut end: usize = text.len();
    proof {
        assert(s@.take(text.len() as int) == s@);
    }
    while end > 0 && text[end - 1] == c
        invariant
            end <= text.len(),
            text@ == s@,
            without_trailing(s@, c) == without_trailing(s@.take(end as int), c),
        decreases end,
    {
        proof {
            assert(s@.take(end as int).drop_last() == s@.take(end - 1));
        }
        end -= 1;
    }
    s.substring_char(0, end)
}

/// `s` without the occurrences of `p`, found from left to right.
pub fn remove_all(s: &str, p: &str) -> (r: String)
    ensures
        r@ == without(s@, p@),
{
    let text = chars_of(s);
    let pat = chars_of(p);
    if pat.len() == 0 {
        return String::from_str(s);
    }
    let mut out = String::new();
    let mut at: usize = 0;
    proof {
        assert(s@.skip(0) == s@);
        assert(out@ + without(s@, p@) =~= without(s@, p@));
    }
    while at < text.len()
        invariant
            at <= text.len(),
            text@ == s@,
            pat@ == p@,
            pat.len() > 0,
            out@ + without(s@.skip(at as int), p@) == without(s@, p@),
        decreases text.len() - at,
    {
        let ghost rest = s@.skip(at as int);
        proof {
            assert(occurs_at(rest, 0, p@) == occurs_at(s@, at as int, p@)) by {
                if at + p@.len() <= s@.len() {
                    assert(rest.subrange(0, p@.len() as int) =~= s@.subrange(
                        at as int,
                        at + p@.len(),
                    ));
                }
            }
        }
        if stands_at(&text, at, &pat) {
            proof {
                assert(rest.skip(p@.len() as int) =~= s@.skip(at + p@.len()));
            }
            at += pat.len();
        } else {
            let one = s.substring_char(at, at + 1);
            proof {
                assert(one@ =~= seq![rest[0]]);
                assert(rest.skip(1) =~= s@.skip(at + 1));
                assert((out@ + one@) + without(s@.skip(at + 1), p@) =~= out@ + (seq![rest[0]]
                    + without(rest.skip(1), p@)));
            }
            out.append(one);
            at += 1;
        }
    }
    proof {
        assert(s@.skip(text.len() as int).len() == 0);
        assert(out@ + Seq::<char>::empty() =~= out@);
    }
    out
}

/// Whether `c` is white space.
pub fn is_whitespace(c: char) -> (r: bool)
    ensures
        r == is_space(c),
{
    let n = c as u32;
    (0x09 <= n && n <= 0x0D) || n == 0x20 || n == 0x85 || n == 0xA0 || n == 0x1680 || (0x2000
        <= n && n <= 0x200A) || n == 0x2028 || n == 0x2029 || n == 0x202F || n == 0x205F || n
        == 0x3000
}

/// `s` without the white space at its start and at its end.
pub fn trim(s: &str) -> (r: &str)
    ensures
        r@ == trimmed(s@),
{
    let text = chars_of(s);
    let mut start: usize = 0;
    proof {
        assert(s@.skip(0) == s@);
    }
    while start < text.len() && is_whitespace(text[start])
        invariant
            start <= text.len(),
            text@ == s@,
            without_leading_space(s@) == without_leading_space(s@.skip(start as int)),
        decreases text.len() - start,
    {
        proof {
            assert(s@.skip(start as int).skip(1) == s@.skip(start + 1));
        }
        start += 1;
    }
    let ghost core = s@.skip(start as int);
    proof {
        assert(without_leading_space(s@) == core);
    }
    let mut end: usize = text.len();
    proof {
        assert(core.take(text.len() - start) == core);
    }
    while end > start && is_whitespace(text[end - 1])
        invariant
            start <= end <= text.len(),
            text@ == s@,
            core == s@.skip(start as int),
            without_trailing_space(core) == without_trailing_space(core.take(end - start)),
        decreases end,
    {
        proof {
            assert(core.take(end - start).last() == s@[end - 1]);
            assert(core.take(end - start).drop_last() == core.take(end - start - 1));
        }
        end -= 1;
    }
    proof {
        if end > start {
            assert(core.take(end - start).last() == s@[end - 1]);
        }
        assert(core.take(end - start) =~= s@.subrange(start as int, end as int));
    }
    s.substring_char(start, end)
}

/// The index of the first `c` in `s`, or the length of `s` where there is
/// none.
pub fn find_char(s: &Vec<char>, from: usize, c: char) -> (r: usize)
    requires
        from <= s.len(),
    ensures
        r == from + first_index_of(s@.skip(from as int), c),
        from <= r <= s.len(),
{
    let mut at: usize = from;
    while at < s.len() && s[at] != c
        invariant
            from <= at <= s.len(),
            from + first_index_of(s@.skip(from as int), c) == at + first_index_of(
                s@.skip(at as int),
                c,
            ),
        decreases s.len() - at,
    {
        proof {
            assert(s@.skip(at as int).skip(1) == s@.skip(at + 1));
        }
        at += 1;
    }
    at
}

fn digit_text(d: u8) -> (r: &'static str)
    requires
        d < 10,
    ensures
        r@ == seq![digit(d as nat)],
{
    proof {
        reveal_strlit("0");
        reveal_strlit("1");
        reveal_strlit("2");
        reveal_strlit("3");
        reveal_strlit("4");
        reveal_strlit("5");
        reveal_strlit("6");
        reveal_strlit("7");
        reveal_strlit("8");
        reveal_strlit("9");
    }
    let r = if d == 0 {
        "0"
    } else if d == 1 {
        "1"
    } else if d == 2 {
        "2"
    } else if d == 3 {
        "3"
    } else if d == 4 {
        "4"
    } else if d == 5 {
        "5"
    } else if d == 6 {
        "6"
    } else if d == 7 {
        "7"
    } else if d == 8 {
        "8"
    } else {
        "9"
    };
    assert(r@ =~= seq![digit(d as nat)]);
    r
}

/// `n` in decimal digits, without leading zeros.
pub fn decimal_text(n: u32) -> (r: String)
    ensures
        r@ == decimal(n as nat),
    decreases n,
{
    if n < 10 {
        String::from_str(digit_text(n as u8))
    } else {
        let mut out = decimal_text(n / 10);
        let last = digit_text((n % 10) as u8);
        out.append(last);
        proof {
            assert(out@ =~= decimal((n / 10) as nat).push(digit((n % 10) as nat)));
        }
        out
    }
}

} // verus!
