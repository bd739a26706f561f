//! Character-level helpers shared by the request parser and the response writer.
//!
//! Strings are viewed as sequences of characters. The executable functions work on
//! slices of `char` and are specified against small recursive definitions over
//! `Seq<char>`.

use vstd::prelude::*;
use vstd::string::*;

verus! {

/// The characters of `s`, in order, as an indexable vector.
pub fn chars_of(s: &str) -> (out: Vec<char>)
    ensures
        out@ == s@,
{
    let mut out: Vec<char> = Vec::new();
    for c in it: s.chars()
        invariant
            it.seq() == s@,
            out@ == it.seq().take(it.index() as int),
    {
        out.push(c);
    }
    out
}

/// The characters that separate words: the code points with the Unicode
/// `White_Space` property.
pub open spec fn is_blank(c: char) -> bool {
    let u: u32 = c as u32;
    ||| 0x09 <= u <= 0x0D
    ||| u == 0x20
    ||| u == 0x85
    ||| u == 0xA0
    ||| u == 0x1680
    ||| 0x2000 <= u <= 0x200A
    ||| u == 0x2028
    ||| u == 0x2029
    ||| u == 0x202F
    ||| u == 0x205F
    ||| u == 0x3000
}

/// Decides [`is_blank`].
pub fn is_blank_char(c: char) -> (b: bool)
    ensures
        b == is_blank(c),
{
    let u: u32 = c as u32;
    (0x09 <= u && u <= 0x0D)
        || u == 0x20
        || u == 0x85
        || u == 0xA0
        || u == 0x1680
        || (0x2000 <= u && u <= 0x200A)
        || u == 0x2028
        || u == 0x2029
        || u == 0x202F
        || u == 0x205F
        || u == 0x3000
}

/// Whether `p` occurs in `s` starting at index `i`.
pub open spec fn occurs_at(s: Seq<char>, p: Seq<char>, i: int) -> bool {
    0 <= i && i + p.len() <= s.len() && s.subrange(i, i + p.len()) == p
}

/// The number of characters of `s` in front of the first occurrence of `p`, and the
/// length of `s` when `p` does not occur in it.
pub open spec fn offset_of(s: Seq<char>, p: Seq<char>) -> nat
    decreases s.len(),
{
    if s.len() == 0 || occurs_at(s, p, 0) {
        0
    } else {
        1 + offset_of(s.drop_first(), p)
    }
}

/// The part of `s` in front of the first occurrence of `p`: all of `s` when `p` does
/// not occur in it.
pub open spec fn before(s: Seq<char>, p: Seq<char>) -> Seq<char> {
    s.take(offset_of(s, p) as int)
}

/// The length of the longest prefix of `s` whose characters are all blank
/// (`blank == true`) or all not blank (`blank == false`).
pub open spec fn leading(s: Seq<char>, blank: bool) -> nat
    decreases s.len(),
{
    if s.len() > 0 && is_blank(s[0]) == blank {
        1 + leading(s.drop_first(), blank)
    } else {
        0
    }
}

/// The first word of `s`: what follows its leading blanks, up to the next blank.
/// Empty when `s` holds blanks only.
pub open spec fn first_word(s: Seq<char>) -> Seq<char> {
    let rest = s.skip(leading(s, true) as int);
    rest.take(leading(rest, false) as int)
}

/// `offset_of` is the one index that no occurrence precedes and that is itself an
/// occurrence or the end of the text.
pub proof fn lemma_offset_of(s: Seq<char>, p: Seq<char>, k: int)
    requires
        0 <= k <= s.len(),
        forall|j: int| 0 <= j < k ==> !occurs_at(s, p, j),
        k == s.len() || occurs_at(s, p, k),
    ensures
        offset_of(s, p) == k,
    decreases k,
{
    if k > 0 {
        let t = s.drop_first();
        assert(!occurs_at(s, p, 0));
        assert forall|j: int| 0 <= j < k - 1 implies !occurs_at(t, p, j) by {
            assert(!occurs_at(s, p, j + 1));
            if j + p.len() <= t.len() {
                assert(t.subrange(j, j + p.len()) == s.subrange(j + 1, j + 1 + p.len()));
            }
        }
        if k < s.len() {
            assert(t.subrange(k - 1, k - 1 + p.len()) == s.subrange(k, k + p.len()));
        }
        lemma_offset_of(t, p, k - 1);
    }
}

/// `leading` is the one index that ends a run of like characters.
pub proof fn lemma_leading(s: Seq<char>, blank: bool, k: int)
    requires
        0 <= k <= s.len(),
        forall|j: int| 0 <= j < k ==> is_blank(#[trigger] s[j]) == blank,
        k == s.len() || is_blank(s[k]) != blank,
    ensures
        leading(s, blank) == k,
    decreases k,
{
    if k > 0 {
        let t = s.drop_first();
        assert(is_blank(s[0]) == blank);
        assert forall|j: int| 0 <= j < k - 1 implies is_blank(#[trigger] t[j]) == blank by {
            assert(t[j] == s[j + 1]);
        }
        lemma_leading(t, blank, k - 1);
    }
}

/// Whether `s` begins with `p`.
pub fn starts_with(s: &[char], p: &[char]) -> (b: bool)
    ensures
        b == p@.is_prefix_of(s@),
{
    if p.len() > s.len() {
        return false;
    }
    let mut i: usize = 0;
    while i < p.len()
        invariant
            i <= p.len() <= s.len(),
            forall|j: int| 0 <= j < i ==> s[j] == p[j],
        decreases p.len() - i,
    {
        if s[i] != p[i] {
            assert(s@[i as int] != p@[i as int]);
            return false;
        }
        i += 1;
    }
    assert(p@ =~= s@.subrange(0, p@.len() as int));
    true
}

/// Whether `p` occurs in `s` at index `at`.
pub(crate) fn matches_at(s: &[char], at: usize, p: &[char]) -> (b: bool)
    requires
        at <= s.len(),
    ensures
        b == occurs_at(s@, p@, at as int),
{
    if p.len() > s.len() - at {
        return false;
    }
    let mut i: usize = 0;
    while i < p.len()
        invariant
            at + p.len() <= s.len(),
            i <= p.len(),
            forall|j: int| 0 <= j < i ==> s[at + j] == p[j],
        decreases p.len() - i,
    {
        if s[at + i] != p[i] {
            assert(s@.subrange(at as int, at + p.len())[i as int] != p@[i as int]);
            return false;
        }
        i += 1;
    }
    assert(s@.subrange(at as int, at + p.len()) =~= p@);
    true
}

/// The index of the first occurrence of `p` in `s` at or after `from`, and the
/// length of `s` when there is none.
pub(crate) fn find_from(s: &[char], from: usize, p: &[char]) -> (k: usize)
    requires
        from <= s.len(),
    ensures
        from <= k <= s.len(),
        k - from == offset_of(s@.skip(from as int), p@),
{
    let ghost tail = s@.skip(from as int);
    let mut k: usize = from;
    while k < s.len()
        invariant
            from <= k <= s.len(),
            tail == s@.skip(from as int),
            forall|j: int| 0 <= j < k - from ==> !occurs_at(tail, p@, j),
        decreases s.len() - k,
    {
        let hit = matches_at(s, k, p);
        proof {
            let j = k - from;
            if j + p@.len() <= tail.len() {
                assert(tail.subrange(j, j + p@.len()) == s@.subrange(k as int, k + p@.len()));
            }
            assert(hit == occurs_at(tail, p@, j));
        }
        if hit {
            proof {
                lemma_offset_of(tail, p@, k - from);
            }
            return k;
        }
        k += 1;
    }
    proof {
        lemma_offset_of(tail, p@, k - from);
    }
    k
}

/// The end of the run of blank (`blank == true`) or non-blank characters that starts
/// at `from` and does not reach past `to`.
pub(crate) fn skip_run(s: &[char], from: usize, to: usize, blank: bool) -> (k: usize)
    requires
        from <= to <= s.len(),
    ensures
        from <= k <= to,
        k - from == leading(s@.subrange(from as int, to as int), blank),
{
    let ghost part = s@.subrange(from as int, to as int);
    let mut k: usize = from;
    while k < to
        invariant
            from <= k <= to <= s.len(),
            part == s@.subrange(from as int, to as int),
            forall|j: int| 0 <= j < k - from ==> is_blank(#[trigger] part[j]) == blank,
        decreases to - k,
    {
        if is_blank_char(s[k]) != blank {
            proof {
                assert(part[k - from] == s@[k as int]);
                lemma_leading(part, blank, k - from);
            }
            return k;
        }
        assert(part[k - from] == s@[k as int]);
        k += 1;
    }
    proof {
        lemma_leading(part, blank, k - from);
    }
    k
}

/// The decimal digit for `d`, which is below ten.
pub open spec fn digit(d: nat) -> char {
    if d == 0 {
        '0'
    } else if d == 1 {
        '1'
    } else if d == 2 {
        '2'
    } else if d == 3 {
        '3'
    } else if d == 4 {
        '4'
    } else if d == 5 {
        '5'
    } else if d == 6 {
        '6'
    } else if d == 7 {
        '7'
    } else if d == 8 {
        '8'
    } else {
        '9'
    }
}

/// `n` in decimal, without sign or leading zeros.
pub open spec fn decimal(n: nat) -> Seq<char>
    decreases n,
{
    if n < 10 {
        seq![digit(n)]
    } else {
        decimal(n / 10).push(digit(n % 10))
    }
}

/// The one-character text of a decimal digit.
pub(crate) fn digit_text(d: usize) -> (t: &'static str)
    requires
        d < 10,
    ensures
        t@ == seq![digit(d as nat)],
{
    proof {
        reveal_strlit("0");
        reveal_strlit("1");
        reveal_strlit("2");
        reveal_strlit("3");
        reveal_strlit("4");
        reveal_strlit("5");
        reveal_strlit("6");
        reveal_strlit("7");
        reveal_strlit("8");
        reveal_strlit("9");
    }
    let t = if d == 0 {
        "0"
    } else if d == 1 {
        "1"
    } else if d == 2 {
        "2"
    } else if d == 3 {
        "3"
    } else if d == 4 {
        "4"
    } else if d == 5 {
        "5"
    } else if d == 6 {
        "6"
    } else if d == 7 {
        "7"
    } else if d == 8 {
        "8"
    } else {
        "9"
    };
    assert(t@ =~= seq![digit(d as nat)]);
    t
}

/// Writes `n` in decimal at the end of `out`.
pub fn append_decimal(out: &mut String, n: usize)
    ensures
        final(out)@ == old(out)@ + decimal(n as nat),
    decreases n,
{
    if n >= 10 {
        append_decimal(out, n / 10);
    }
    out.append(digit_text(n % 10));
    assert(out@ =~= old(out)@ + decimal(n as nat));
}

} // verus!
