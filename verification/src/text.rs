//! Character-level helpers on strings: every string is viewed as its sequence of chars.

use vstd::prelude::*;
use vstd::string::*;

verus! {

broadcast use vstd::string::group_string_axioms;

/// Pushes one char onto a `String` (`String::push`).
#[verifier::external_body]
pub(crate) fn push_char(s: &mut String, c: char)
    ensures
        final(s)@ == old(s)@.push(c),
{
    s.push(c)
}

/// The chars of a string, in order.
pub fn chars_of(s: &str) -> (v: Vec<char>)
    ensures
        v@ == s@,
{
    let mut v: Vec<char> = Vec::new();
    for c in it: s.chars()
        invariant
            it.seq() == s@,
            v@ == it.seq().take(it.index() as int),
    {
        v.push(c);
    }
    v
}

/// A `String` holding the chars `v[from..to]`.
pub fn string_of_range(v: &Vec<char>, from: usize, to: usize) -> (s: String)
    requires
        from <= to <= v.len(),
    ensures
        s@ == v@.subrange(from as int, to as int),
{
    let mut s = String::new();
    let mut i = from;
    while i < to
        invariant
            from <= i <= to <= v.len(),
            s@ == v@.subrange(from as int, i as int),
        decreases to - i,
    {
        push_char(&mut s, v[i]);
        assert(v@.subrange(from as int, i + 1) == v@.subrange(from as int, i as int).push(v@[i as int]));
        i = i + 1;
    }
    s
}

/// Whether two strings hold the same chars.
pub fn str_eq(a: &str, b: &str) -> (r: bool)
    ensures
        r == (a@ == b@),
{
    let x = chars_of(a);
    let y = chars_of(b);
    assert(x@.subrange(0, x@.len() as int) == x@);
    chars_eq_range(&x, 0, x.len(), &y)
}

/// Whether `v[from..to]` equals `w`.
pub fn chars_eq_range(v: &Vec<char>, from: usize, to: usize, w: &Vec<char>) -> (r: bool)
    requires
        from <= to <= v.len(),
    ensures
        r == (v@.subrange(from as int, to as int) == w@),
{
    if to - from != w.len() {
        return false;
    }
    let mut i: usize = 0;
    while i < w.len()
        invariant
            from <= to <= v.len(),
            to - from == w.len(),
            i <= w.len(),
            forall|j: int| 0 <= j < i ==> v@[from + j] == w@[j],
        decreases w.len() - i,
    {
        if v[from + i] != w[i] {
            assert(v@.subrange(from as int, to as int)[i as int] != w@[i as int]);
            return false;
        }
        i = i + 1;
    }
    assert(v@.subrange(from as int, to as int) =~= w@);
    true
}

/// The first position at or after `from` that holds `c`, if any.
pub fn find_char(v: &Vec<char>, c: char, from: usize) -> (r: Option<usize>)
    requires
        from <= v.len(),
    ensures
        match r {
            Some(i) => from <= i < v.len() && v@[i as int] == c
                && forall|j: int| from <= j < i ==> v@[j] != c,
            None => forall|j: int| from <= j < v.len() ==> v@[j] != c,
        },
{
    let mut i = from;
    while i < v.len()
        invariant
            from <= i <= v.len(),
            forall|j: int| from <= j < i ==> v@[j] != c,
        decreases v.len() - i,
    {
        if v[i] == c {
            return Some(i);
        }
        i = i + 1;
    }
    None
}


/// The position of the first `c` in `s`, or the length of `s` when there is none.
pub open spec fn first_index(s: Seq<char>, c: char) -> int
    decreases s.len(),
{
    if s.len() == 0 {
        0
    } else if s[0] == c {
        0
    } else {
        1 + first_index(s.drop_first(), c)
    }
}

pub proof fn lemma_first_index(s: Seq<char>, c: char, i: int)
    requires
        0 <= i <= s.len(),
        i < s.len() ==> s[i] == c,
        forall|j: int| 0 <= j < i ==> s[j] != c,
    ensures
        first_index(s, c) == i,
    decreases s.len(),
{
    if s.len() > 0 && s[0] != c {
        assert forall|j: int| 0 <= j < i - 1 implies s.drop_first()[j] != c by {
            assert(s.drop_first()[j] == s[j + 1]);
        }
        lemma_first_index(s.drop_first(), c, i - 1);
    }
}

/// The position of the first `c` in `v[from..]`, or `v.len()`.
pub fn find_char_or_end(v: &Vec<char>, c: char, from: usize) -> (r: usize)
    requires
        from <= v.len(),
    ensures
        from <= r <= v.len(),
        r - from == first_index(v@.subrange(from as int, v@.len() as int), c),
{
    let r = match find_char(v, c, from) {
        Some(i) => i,
        None => v.len(),
    };
    proof {
        let s = v@.subrange(from as int, v@.len() as int);
        assert forall|j: int| 0 <= j < r - from implies s[j] != c by {
            assert(s[j] == v@[from + j]);
        }
        if r < v.len() {
            assert(s[r - from] == v@[r as int]);
        }
        lemma_first_index(s, c, r - from);
    }
    r
}

/// The decimal text of a number (no sign, no leading zeros).
pub open spec fn decimal(n: nat) -> Seq<char>
    decreases n,
{
    if n < 10 {
        seq![digit_char(n)]
    } else {
        decimal(n / 10).push(digit_char(n % 10))
    }
}

/// The char of a digit.
pub open spec fn digit_char(d: nat) -> char {
    if d == 0 { '0' } else if d == 1 { '1' } else if d == 2 { '2' } else if d == 3 { '3' }
    else if d == 4 { '4' } else if d == 5 { '5' } else if d == 6 { '6' } else if d == 7 { '7' }
    else if d == 8 { '8' } else { '9' }
}

fn digit(d: u64) -> (c: char)
    requires
        d < 10,
    ensures
        c == digit_char(d as nat),
{
    if d == 0 { '0' } else if d == 1 { '1' } else if d == 2 { '2' } else if d == 3 { '3' }
    else if d == 4 { '4' } else if d == 5 { '5' } else if d == 6 { '6' } else if d == 7 { '7' }
    else if d == 8 { '8' } else { '9' }
}

/// The decimal text of a number.
pub fn decimal_text(n: u64) -> (s: String)
    ensures
        s@ == decimal(n as nat),
    decreases n,
{
    if n < 10 {
        let mut s = String::new();
        push_char(&mut s, digit(n));
        assert(s@ =~= seq![digit_char(n as nat)]);
        s
    } else {
        let mut s = decimal_text(n / 10);
        push_char(&mut s, digit(n % 10));
        s
    }
}


pub proof fn lemma_first_index_bounds(s: Seq<char>, c: char)
    ensures
        0 <= first_index(s, c) <= s.len(),
        first_index(s, c) < s.len() ==> s[first_index(s, c)] == c,
        forall|j: int| 0 <= j < first_index(s, c) ==> s[j] != c,
    decreases s.len(),
{
    if s.len() > 0 && s[0] != c {
        lemma_first_index_bounds(s.drop_first(), c);
        assert forall|j: int| 0 <= j < first_index(s, c) implies s[j] != c by {
            if j > 0 {
                assert(s[j] == s.drop_first()[j - 1]);
            }
        }
    }
}

/// The position of the first `c` in `v[from..to]`, or `to`.
pub fn find_char_between(v: &Vec<char>, c: char, from: usize, to: usize) -> (r: usize)
    requires
        from <= to <= v.len(),
    ensures
        from <= r <= to,
        r - from == first_index(v@.subrange(from as int, to as int), c),
{
    let ghost s = v@.subrange(from as int, to as int);
    let mut i = from;
    while i < to
        invariant
            from <= i <= to <= v.len(),
            s == v@.subrange(from as int, to as int),
            forall|j: int| from <= j < i ==> v@[j] != c,
        decreases to - i,
    {
        if v[i] == c {
            proof {
                assert forall|j: int| 0 <= j < i - from implies s[j] != c by {
                    assert(s[j] == v@[from + j]);
                }
                assert(s[i - from] == v@[i as int]);
                lemma_first_index(s, c, i - from);
            }
            return i;
        }
        i = i + 1;
    }
    proof {
        assert forall|j: int| 0 <= j < i - from implies s[j] != c by {
            assert(s[j] == v@[from + j]);
        }
        lemma_first_index(s, c, i - from);
    }
    i
}


/// The position of the first occurrence of `pat` in `s`.
pub open spec fn first_occurrence(s: Seq<char>, pat: Seq<char>) -> Option<int>
    decreases s.len(),
{
    if s.len() < pat.len() {
        None
    } else if s.subrange(0, pat.len() as int) == pat {
        Some(0)
    } else if s.len() == 0 {
        None
    } else {
        match first_occurrence(s.drop_first(), pat) {
            Some(i) => Some(i + 1),
            None => None,
        }
    }
}

/// `pat` occurs in `s` at `i`.
pub open spec fn occurs_at(s: Seq<char>, pat: Seq<char>, i: int) -> bool {
    0 <= i && i + pat.len() <= s.len() && s.subrange(i, i + pat.len()) == pat
}

pub proof fn lemma_first_occurrence(s: Seq<char>, pat: Seq<char>, i: Option<int>)
    requires
        match i {
            Some(k) => occurs_at(s, pat, k) && forall|j: int| 0 <= j < k ==> !occurs_at(s, pat, j),
            None => forall|j: int| 0 <= j ==> !occurs_at(s, pat, j),
        },
    ensures
        first_occurrence(s, pat) == i,
    decreases s.len(),
{
    if pat.len() == 0 {
        assert(s.subrange(0, 0) =~= pat);
    }
    if s.len() < pat.len() {
        if i is Some {
            assert(false);
        }
    } else if s.subrange(0, pat.len() as int) == pat {
        assert(occurs_at(s, pat, 0));
        if i is Some && i->0 > 0 {
            assert(false);
        }
    } else {
        let d = s.drop_first();
        assert(!occurs_at(s, pat, 0));
        assert forall|j: int| 0 <= j implies occurs_at(d, pat, j) == occurs_at(s, pat, j + 1) by {
            if j + pat.len() <= d.len() {
                assert forall|m: int| 0 <= m < pat.len() implies #[trigger] d.subrange(j, j + pat.len())[m]
                    == s.subrange(j + 1, j + 1 + pat.len())[m] by {
                    assert(d[j + m] == s[j + 1 + m]);
                }
                assert(d.subrange(j, j + pat.len()) =~= s.subrange(j + 1, j + 1 + pat.len()));
            }
        }
        match i {
            Some(k) => {
                lemma_first_occurrence(d, pat, Some(k - 1));
            },
            None => {
                lemma_first_occurrence(d, pat, None);
            },
        }
    }
}

/// The first occurrence of `pat` in `v`.
pub fn find_pattern(v: &Vec<char>, pat: &Vec<char>) -> (r: Option<usize>)
    ensures
        match r {
            Some(i) => first_occurrence(v@, pat@) == Some(i as int) && i + pat.len() <= v.len(),
            None => first_occurrence(v@, pat@) is None,
        },
{
    if pat.len() > v.len() {
        proof {
            lemma_first_occurrence(v@, pat@, None);
        }
        return None;
    }
    let last = v.len() - pat.len();
    let mut i: usize = 0;
    loop
        invariant
            last == v.len() - pat.len(),
            pat.len() <= v.len(),
            i <= last,
            forall|j: int| 0 <= j < i ==> !occurs_at(v@, pat@, j),
        decreases last - i,
    {
        if chars_eq_range(v, i, i + pat.len(), pat) {
            proof {
                lemma_first_occurrence(v@, pat@, Some(i as int));
            }
            return Some(i);
        }
        if i == last {
            proof {
                assert forall|j: int| 0 <= j implies !occurs_at(v@, pat@, j) by {
                    if j > i {
                        assert(j + pat@.len() > v@.len());
                    }
                }
                lemma_first_occurrence(v@, pat@, None);
            }
            return None;
        }
        i = i + 1;
    }
}

/// `s` without its trailing `c` chars (all of them).
pub open spec fn trim_end_char(s: Seq<char>, c: char) -> Seq<char>
    decreases s.len(),
{
    if s.len() > 0 && s.last() == c {
        trim_end_char(s.drop_last(), c)
    } else {
        s
    }
}

/// `v[from..to]` without its trailing `c` chars: the end of what remains.
pub fn trim_end_position(v: &Vec<char>, c: char, from: usize, to: usize) -> (r: usize)
    requires
        from <= to <= v.len(),
    ensures
        from <= r <= to,
        v@.subrange(from as int, r as int) == trim_end_char(v@.subrange(from as int, to as int), c),
{
    let mut e = to;
    while e > from && v[e - 1] == c
        invariant
            from <= e <= to <= v.len(),
            trim_end_char(v@.subrange(from as int, to as int), c) == trim_end_char(
                v@.subrange(from as int, e as int),
                c,
            ),
        decreases e,
    {
        proof {
            let s = v@.subrange(from as int, e as int);
            assert(s.last() == v@[e - 1]);
            assert(s.drop_last() =~= v@.subrange(from as int, e - 1));
        }
        e = e - 1;
    }
    proof {
        let s = v@.subrange(from as int, e as int);
        if e > from {
            assert(s.last() == v@[e - 1]);
        }
    }
    e
}

/// Whether `s` starts with `prefix`.
pub fn starts_with(s: &str, prefix: &str) -> (r: bool)
    ensures
        r == (prefix@.len() <= s@.len() && s@.subrange(0, prefix@.len() as int) == prefix@),
{
    let v = chars_of(s);
    let p = chars_of(prefix);
    if p.len() > v.len() {
        return false;
    }
    chars_eq_range(&v, 0, p.len(), &p)
}

} // verus!
