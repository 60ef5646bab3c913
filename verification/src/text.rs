//! Character classes, trimming and case-blind substring search on text.

use vstd::prelude::*;
use vstd::string::*;

verus! {

/// A character with the Unicode property `White_Space`.
pub open spec fn is_space(c: char) -> bool {
    let u = c as u32;
    ||| 0x09 <= u <= 0x0D
    ||| u == 0x20
    ||| u == 0x85
    ||| u == 0xA0
    ||| u == 0x1680
    ||| 0x2000 <= u <= 0x200A
    ||| u == 0x2028
    ||| u == 0x2029
    ||| u == 0x202F
    ||| u == 0x205F
    ||| u == 0x3000
}

/// An ASCII letter or an ASCII digit.
pub open spec fn is_ascii_alnum(c: char) -> bool {
    let u = c as u32;
    ||| 0x30 <= u <= 0x39
    ||| 0x41 <= u <= 0x5A
    ||| 0x61 <= u <= 0x7A
}

/// The text without its leading whitespace.
pub open spec fn skip_leading(s: Seq<char>) -> Seq<char>
    decreases s.len(),
{
    if s.len() > 0 && is_space(s.first()) {
        skip_leading(s.drop_first())
    } else {
        s
    }
}

/// The text without its trailing whitespace.
pub open spec fn skip_trailing(s: Seq<char>) -> Seq<char>
    decreases s.len(),
{
    if s.len() > 0 && is_space(s.last()) {
        skip_trailing(s.drop_last())
    } else {
        s
    }
}

/// The text without leading and trailing whitespace.
pub open spec fn trimmed(s: Seq<char>) -> Seq<char> {
    skip_trailing(skip_leading(s))
}

/// Neither the first nor the last character is whitespace.
pub open spec fn is_trimmed(s: Seq<char>) -> bool {
    s.len() == 0 || (!is_space(s.first()) && !is_space(s.last()))
}

/// The text holds nothing but whitespace.
pub open spec fn is_blank(s: Seq<char>) -> bool {
    trimmed(s).len() == 0
}

pub fn is_space_char(c: char) -> (r: bool)
    ensures
        r == is_space(c),
{
    let u: u32 = c as u32;
    (0x09 <= u && u <= 0x0D) || u == 0x20 || u == 0x85 || u == 0xA0 || u == 0x1680 || (0x2000 <= u
        && u <= 0x200A) || u == 0x2028 || u == 0x2029 || u == 0x202F || u == 0x205F || u == 0x3000
}

pub fn is_ascii_alnum_char(c: char) -> (r: bool)
    ensures
        r == is_ascii_alnum(c),
{
    let u: u32 = c as u32;
    (0x30 <= u && u <= 0x39) || (0x41 <= u && u <= 0x5A) || (0x61 <= u && u <= 0x7A)
}

/// Dropping one leading whitespace character does not change what is left
/// once all leading whitespace is gone.
proof fn lemma_skip_leading_step(s: Seq<char>, a: int)
    requires
        0 <= a < s.len(),
        is_space(s[a]),
    ensures
        skip_leading(s.subrange(a, s.len() as int)) == skip_leading(
            s.subrange(a + 1, s.len() as int),
        ),
{
    let cur = s.subrange(a, s.len() as int);
    assert(cur.first() == s[a]);
    assert(cur.drop_first() =~= s.subrange(a + 1, s.len() as int));
}

proof fn lemma_skip_trailing_step(s: Seq<char>, a: int, b: int)
    requires
        0 <= a < b <= s.len(),
        is_space(s[b - 1]),
    ensures
        skip_trailing(s.subrange(a, b)) == skip_trailing(s.subrange(a, b - 1)),
{
    let cur = s.subrange(a, b);
    assert(cur.last() == s[b - 1]);
    assert(cur.drop_last() =~= s.subrange(a, b - 1));
}

/// Removes leading and trailing whitespace.
pub fn trim(s: &str) -> (t: String)
    ensures
        t@ == trimmed(s@),
{
    let n: usize = s.unicode_len();
    let mut a: usize = 0;
    let mut b: usize = n;
    let mut scanning: bool = true;
    proof {
        assert(s@.subrange(0, n as int) =~= s@);
    }
    while scanning
        invariant
            a <= n,
            n == s@.len(),
            skip_leading(s@) == skip_leading(s@.subrange(a as int, n as int)),
            !scanning ==> a == n || !is_space(s@[a as int]),
        decreases n - a + (if scanning { 1int } else { 0int }),
    {
        if a < n && is_space_char(s.get_char(a)) {
            proof {
                lemma_skip_leading_step(s@, a as int);
            }
            a += 1;
        } else {
            scanning = false;
        }
    }
    let ghost rest = s@.subrange(a as int, n as int);
    assert(skip_leading(rest) == rest) by {
        if a < n {
            assert(rest.first() == s@[a as int]);
        }
    }
    scanning = true;
    while scanning
        invariant
            a <= b <= n,
            n == s@.len(),
            skip_trailing(rest) == skip_trailing(s@.subrange(a as int, b as int)),
            !scanning ==> b == a || !is_space(s@[b - 1]),
        decreases b + (if scanning { 1int } else { 0int }),
    {
        if b > a && is_space_char(s.get_char(b - 1)) {
            proof {
                lemma_skip_trailing_step(s@, a as int, b as int);
            }
            b -= 1;
        } else {
            scanning = false;
        }
    }
    let ghost kept = s@.subrange(a as int, b as int);
    assert(skip_trailing(kept) == kept) by {
        if b > a {
            assert(kept.last() == s@[b - 1]);
        }
    }
    s.substring_char(a, b).to_owned()
}

/// A trimmed text starts and ends with a character that is no whitespace.
pub proof fn lemma_skip_leading_shape(s: Seq<char>)
    ensures
        skip_leading(s).len() <= s.len(),
        skip_leading(s).len() > 0 ==> !is_space(skip_leading(s).first()) && skip_leading(s).last()
            == s.last(),
    decreases s.len(),
{
    if s.len() > 0 && is_space(s.first()) {
        lemma_skip_leading_shape(s.drop_first());
    }
}

pub proof fn lemma_skip_trailing_shape(s: Seq<char>)
    ensures
        skip_trailing(s).len() <= s.len(),
        skip_trailing(s).len() > 0 ==> !is_space(skip_trailing(s).last()) && skip_trailing(
            s,
        ).first() == s.first(),
    decreases s.len(),
{
    if s.len() > 0 && is_space(s.last()) {
        lemma_skip_trailing_shape(s.drop_last());
    }
}

/// What trimming returns has no whitespace at either end.
pub proof fn lemma_trimmed_is_trimmed(s: Seq<char>)
    ensures
        is_trimmed(trimmed(s)),
        trimmed(s).len() <= s.len(),
{
    lemma_skip_leading_shape(s);
    lemma_skip_trailing_shape(skip_leading(s));
}

/// Trimming a text with no whitespace at either end changes nothing.
pub proof fn lemma_trim_fixes_trimmed(s: Seq<char>)
    requires
        is_trimmed(s),
    ensures
        trimmed(s) == s,
{
}

/// Trimming twice is trimming once.
pub proof fn lemma_trim_idempotent(s: Seq<char>)
    ensures
        trimmed(trimmed(s)) == trimmed(s),
{
    lemma_trimmed_is_trimmed(s);
    lemma_trim_fixes_trimmed(trimmed(s));
}

/// Every character of the text is whitespace.
pub open spec fn all_space(s: Seq<char>) -> bool {
    forall|i: int| 0 <= i < s.len() ==> is_space(#[trigger] s[i])
}

/// Leading whitespace is skipped up to the first character that is none:
/// what follows that character does not matter.
pub proof fn lemma_skip_leading_concat(s: Seq<char>, t: Seq<char>)
    ensures
        skip_leading(s + t) == if skip_leading(s).len() > 0 {
            skip_leading(s) + t
        } else {
            skip_leading(t)
        },
    decreases s.len(),
{
    if s.len() == 0 {
        assert(s + t =~= t);
    } else if is_space(s.first()) {
        assert((s + t).first() == s.first());
        assert((s + t).drop_first() =~= s.drop_first() + t);
        lemma_skip_leading_concat(s.drop_first(), t);
    } else {
        assert((s + t).first() == s.first());
    }
}

/// Nothing is left of a text that is all whitespace.
pub proof fn lemma_skip_leading_all_space(s: Seq<char>)
    requires
        all_space(s),
    ensures
        skip_leading(s).len() == 0,
    decreases s.len(),
{
    if s.len() > 0 {
        assert(is_space(s[0]));
        assert forall|i: int| 0 <= i < s.drop_first().len() implies is_space(
            #[trigger] s.drop_first()[i],
        ) by {
            assert(s.drop_first()[i] == s[i + 1]);
        }
        lemma_skip_leading_all_space(s.drop_first());
    }
}

/// Whitespace after a text is skipped with the text's own.
pub proof fn lemma_skip_trailing_padding(s: Seq<char>, trail: Seq<char>)
    requires
        all_space(trail),
    ensures
        skip_trailing(s + trail) == skip_trailing(s),
    decreases trail.len(),
{
    if trail.len() == 0 {
        assert(s + trail =~= s);
    } else {
        assert((s + trail).last() == trail.last());
        assert(is_space(trail[trail.len() - 1]));
        assert((s + trail).drop_last() =~= s + trail.drop_last());
        assert forall|i: int| 0 <= i < trail.drop_last().len() implies is_space(
            #[trigger] trail.drop_last()[i],
        ) by {
            assert(trail.drop_last()[i] == trail[i]);
        }
        lemma_skip_trailing_padding(s, trail.drop_last());
    }
}

/// Whitespace around a text does not change what trimming leaves of it.
pub proof fn lemma_trim_ignores_padding(lead: Seq<char>, s: Seq<char>, trail: Seq<char>)
    requires
        all_space(lead),
        all_space(trail),
    ensures
        trimmed(lead + s + trail) == trimmed(s),
{
    assert(lead + s + trail =~= lead + (s + trail));
    lemma_skip_leading_concat(lead, s + trail);
    lemma_skip_leading_all_space(lead);
    lemma_skip_leading_concat(s, trail);
    if skip_leading(s).len() > 0 {
        lemma_skip_trailing_padding(skip_leading(s), trail);
    } else {
        lemma_skip_leading_all_space(trail);
    }
}

/// The code of a character, with the letters `A` to `Z` taken as `a` to `z`.
/// No other character is changed.
pub open spec fn fold_case(c: char) -> u32 {
    let u = c as u32;
    if 0x41 <= u <= 0x5A {
        (u + 0x20) as u32
    } else {
        u
    }
}

/// The case-folded codes of a text.
pub open spec fn folded(s: Seq<char>) -> Seq<u32> {
    Seq::new(s.len(), |i: int| fold_case(s[i]))
}

/// `needle` stands in `hay` from position `at` on.
pub open spec fn occurs_at(hay: Seq<u32>, needle: Seq<u32>, at: int) -> bool {
    0 <= at && at + needle.len() <= hay.len() && hay.subrange(at, at + needle.len()) == needle
}

/// `needle` stands somewhere in `hay`.
pub open spec fn occurs_in(hay: Seq<u32>, needle: Seq<u32>) -> bool {
    exists|at: int| occurs_at(hay, needle, at)
}

/// `needle` stands somewhere in `hay` when the case of the letters `A` to
/// `Z` is left out of account.
pub open spec fn contains_ignoring_case(hay: Seq<char>, needle: Seq<char>) -> bool {
    occurs_in(folded(hay), folded(needle))
}

pub fn fold_case_char(c: char) -> (r: u32)
    ensures
        r == fold_case(c),
{
    let u: u32 = c as u32;
    if 0x41 <= u && u <= 0x5A {
        u + 0x20
    } else {
        u
    }
}

/// The case-folded codes of a text.
pub fn fold_text(s: &str) -> (r: Vec<u32>)
    ensures
        r@ == folded(s@),
{
    let n: usize = s.unicode_len();
    let mut out: Vec<u32> = Vec::new();
    let mut i: usize = 0;
    while i < n
        invariant
            i <= n,
            n == s@.len(),
            out@.len() == i,
            forall|k: int| 0 <= k < i ==> out@[k] == fold_case(s@[k]),
        decreases n - i,
    {
        out.push(fold_case_char(s.get_char(i)));
        i += 1;
    }
    assert(out@ =~= folded(s@));
    out
}

/// Whether `needle` stands in `hay` from position `at` on.
pub fn occurs_at_index(hay: &Vec<u32>, needle: &Vec<u32>, at: usize) -> (r: bool)
    requires
        at + needle@.len() <= hay@.len(),
    ensures
        r == occurs_at(hay@, needle@, at as int),
{
    let n: usize = hay.len();
    let m: usize = needle.len();
    let mut k: usize = 0;
    while k < m
        invariant
            k <= m,
            m == needle@.len(),
            n == hay@.len(),
            at + m <= n,
            forall|j: int| 0 <= j < k ==> hay@[at + j] == needle@[j],
        decreases m - k,
    {
        if hay[at + k] != needle[k] {
            proof {
                assert(hay@.subrange(at as int, at + m)[k as int] == hay@[at + k]);
            }
            return false;
        }
        k += 1;
    }
    assert(hay@.subrange(at as int, at + m) =~= needle@);
    true
}

/// Whether `needle` stands somewhere in `hay`.
pub fn occurs_in_codes(hay: &Vec<u32>, needle: &Vec<u32>) -> (r: bool)
    ensures
        r == occurs_in(hay@, needle@),
{
    let n: usize = hay.len();
    let m: usize = needle.len();
    if m > n {
        return false;
    }
    let last: usize = n - m;
    let mut at: usize = 0;
    while at < last
        invariant
            last == n - m,
            n == hay@.len(),
            m == needle@.len(),
            at <= last,
            forall|j: int| 0 <= j < at ==> !occurs_at(hay@, needle@, j),
        decreases last - at,
    {
        if occurs_at_index(hay, needle, at) {
            return true;
        }
        at += 1;
    }
    occurs_at_index(hay, needle, last)
}

/// Whether `needle` stands somewhere in `hay`, the case of ASCII letters
/// left out of account.
pub fn contains_text(hay: &str, needle: &str) -> (r: bool)
    ensures
        r == contains_ignoring_case(hay@, needle@),
{
    let h = fold_text(hay);
    let n = fold_text(needle);
    occurs_in_codes(&h, &n)
}

} // verus!
