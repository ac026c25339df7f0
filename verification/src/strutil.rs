//! Character-level text utilities: conversion between `&str`, `Vec<char>`
//! and `String`, splitting on a separator, first-occurrence search and
//! substring-occurrence counting.

use vstd::prelude::*;
use vstd::string::StrSliceExecFns;

verus! {

/// Relies on `String::push`: appends the character to the end of the string.
#[verifier::external_body]
pub fn push_char(s: &mut String, c: char)
    ensures
        final(s)@ == old(s)@.push(c),
{
    s.push(c);
}

/// Builds the string holding exactly the characters of `v`.
pub fn chars_to_string(v: &Vec<char>) -> (r: String)
    ensures
        r@ == v@,
{
    let mut s = String::new();
    let mut i: usize = 0;
    while i < v.len()
        invariant
            i <= v@.len(),
            s@ == v@.take(i as int),
        decreases v@.len() - i,
    {
        push_char(&mut s, v[i]);
        proof {
            assert(v@.take(i as int).push(v@[i as int]) =~= v@.take(i as int + 1));
        }
        i += 1;
    }
    proof {
        assert(v@.take(v@.len() as int) =~= v@);
    }
    s
}

/// Collects the characters of `s` into a vector.
pub fn str_to_chars(s: &str) -> (r: Vec<char>)
    ensures
        r@ == s@,
{
    let n = s.unicode_len();
    let mut v: Vec<char> = Vec::new();
    let mut i: usize = 0;
    while i < n
        invariant
            n == s@.len(),
            i <= n,
            v@ == s@.take(i as int),
        decreases n - i,
    {
        let c = s.get_char(i);
        v.push(c);
        proof {
            assert(s@.take(i as int).push(s@[i as int]) =~= s@.take(i as int + 1));
        }
        i += 1;
    }
    proof {
        assert(s@.take(n as int) =~= s@);
    }
    v
}

/// The index of the first occurrence of `c` in `s`, if any.
pub open spec fn find_char(s: Seq<char>, c: char) -> Option<int>
    decreases s.len(),
{
    if s.len() == 0 {
        None
    } else if s[0] == c {
        Some(0)
    } else {
        match find_char(s.drop_first(), c) {
            None => None,
            Some(j) => Some(j + 1),
        }
    }
}

pub proof fn lemma_find_char_range(s: Seq<char>, c: char)
    ensures
        match find_char(s, c) {
            None => forall|i: int| 0 <= i < s.len() ==> s[i] != c,
            Some(j) => 0 <= j < s.len() && s[j] == c,
        },
    decreases s.len(),
{
    if s.len() > 0 && s[0] != c {
        lemma_find_char_range(s.drop_first(), c);
        match find_char(s.drop_first(), c) {
            None => {
                assert forall|i: int| 0 <= i < s.len() implies s[i] != c by {
                    if i > 0 {
                        assert(s.drop_first()[i - 1] == s[i]);
                    }
                }
            },
            Some(j) => {
                assert(s.drop_first()[j] == s[j + 1]);
            },
        }
    }
}

/// Finds the first occurrence of `c` in `v` at or after `from`.
pub fn find_char_from(v: &Vec<char>, c: char, from: usize) -> (r: Option<usize>)
    requires
        from <= v@.len(),
    ensures
        r == match find_char(v@.skip(from as int), c) {
            None => None::<usize>,
            Some(j) => Some((from + j) as usize),
        },
{
    let mut i: usize = from;
    while i < v.len()
        invariant
            from <= i <= v@.len(),
            find_char(v@.skip(from as int), c) == match find_char(v@.skip(i as int), c) {
                None => None::<int>,
                Some(j) => Some(j + i - from),
            },
        decreases v@.len() - i,
    {
        proof {
            assert(v@.skip(i as int)[0] == v@[i as int]);
            assert(v@.skip(i as int).drop_first() =~= v@.skip(i as int + 1));
        }
        if v[i] == c {
            return Some(i);
        }
        i += 1;
    }
    proof {
        assert(v@.skip(i as int).len() == 0);
    }
    None
}

/// `s` split at every occurrence of `sep`.  Splitting the empty sequence
/// gives one empty part; a separator at either end gives an empty part
/// there, as `str::split` does with a `char` pattern.
pub open spec fn spec_split(s: Seq<char>, sep: char) -> Seq<Seq<char>>
    decreases s.len(),
{
    if s.len() == 0 {
        seq![Seq::<char>::empty()]
    } else {
        let rest = spec_split(s.drop_first(), sep);
        if s[0] == sep {
            seq![Seq::<char>::empty()] + rest
        } else {
            seq![seq![s[0]] + rest[0]] + rest.skip(1)
        }
    }
}

pub proof fn lemma_split_nonempty(s: Seq<char>, sep: char)
    ensures
        spec_split(s, sep).len() >= 1,
    decreases s.len(),
{
    if s.len() > 0 {
        lemma_split_nonempty(s.drop_first(), sep);
    }
}

/// The views of a sequence of character vectors.
pub open spec fn views_of(ws: Seq<Vec<char>>) -> Seq<Seq<char>> {
    ws.map_values(|w: Vec<char>| w@)
}

pub proof fn lemma_views_push(ws: Seq<Vec<char>>, w: Vec<char>)
    ensures
        views_of(ws.push(w)) =~= views_of(ws).push(w@),
{
    assert forall|k: int| 0 <= k < ws.len() + 1 implies views_of(ws.push(w))[k] == views_of(
        ws,
    ).push(w@)[k] by {
        if k < ws.len() {
            assert(ws.push(w)[k] == ws[k]);
        } else {
            assert(ws.push(w)[k] == w);
        }
    }
}

/// Splits `v` at every occurrence of `sep`.
pub fn split_chars(v: &Vec<char>, sep: char) -> (r: Vec<Vec<char>>)
    ensures
        views_of(r@) == spec_split(v@, sep),
{
    let mut head: Vec<char> = Vec::new();
    let mut tail: Vec<Vec<char>> = Vec::new();
    proof {
        assert(seq![head@] + views_of(tail@) =~= spec_split(v@.skip(v@.len() as int), sep));
    }
    let mut i: usize = v.len();
    while i > 0
        invariant
            i <= v@.len(),
            seq![head@] + views_of(tail@) == spec_split(v@.skip(i as int), sep),
        decreases i,
    {
        i -= 1;
        let ghost before = v@.skip(i as int + 1);
        let ghost cur = v@.skip(i as int);
        let ghost old_head = head@;
        let ghost old_tail = tail@;
        proof {
            assert(cur.drop_first() =~= before);
            assert(cur[0] == v@[i as int]);
        }
        let c = v[i];
        if c == sep {
            tail.insert(0, head);
            head = Vec::new();
            proof {
                assert(views_of(tail@) =~= seq![old_head] + views_of(old_tail));
                assert(seq![head@] + views_of(tail@) =~= spec_split(cur, sep));
            }
        } else {
            head.insert(0, c);
            proof {
                let rest = spec_split(before, sep);
                assert(rest[0] == old_head);
                assert(rest.skip(1) =~= views_of(old_tail));
                assert(head@ =~= seq![cur[0]] + rest[0]);
                assert(seq![head@] + views_of(tail@) =~= spec_split(cur, sep));
            }
        }
    }
    let ghost final_head = head@;
    let ghost final_tail = tail@;
    tail.insert(0, head);
    proof {
        assert(v@.skip(0) =~= v@);
        assert(views_of(tail@) =~= seq![final_head] + views_of(final_tail));
    }
    tail
}

/// The number of non-overlapping occurrences of `pat` in `s` starting at or
/// after `i`, counted left to right as `str::match_indices` walks them.
pub open spec fn count_occurrences_from(s: Seq<char>, pat: Seq<char>, i: int) -> nat
    decreases s.len() - i,
{
    if pat.len() == 0 || i < 0 || i + pat.len() > s.len() {
        0
    } else if s.subrange(i, i + pat.len() as int) == pat {
        1 + count_occurrences_from(s, pat, i + pat.len())
    } else {
        count_occurrences_from(s, pat, i + 1)
    }
}

/// The number of non-overlapping occurrences of `pat` in `s`.
pub open spec fn count_occurrences(s: Seq<char>, pat: Seq<char>) -> nat {
    count_occurrences_from(s, pat, 0)
}

fn window_matches(v: &Vec<char>, pat: &Vec<char>, i: usize) -> (r: bool)
    requires
        i + pat@.len() <= v@.len(),
    ensures
        r == (v@.subrange(i as int, i + pat@.len() as int) == pat@),
{
    let n = v.len();
    let mut k: usize = 0;
    while k < pat.len()
        invariant
            n == v@.len(),
            i + pat@.len() <= n,
            k <= pat@.len(),
            v@.subrange(i as int, i + k) == pat@.take(k as int),
        decreases pat@.len() - k,
    {
        proof {
            assert(v@.subrange(i as int, i + k).push(v@[i + k]) =~= v@.subrange(
                i as int,
                i + k + 1,
            ));
            assert(pat@.take(k as int).push(pat@[k as int]) =~= pat@.take(k as int + 1));
        }
        if v[i + k] != pat[k] {
            proof {
                assert(v@.subrange(i as int, i + pat@.len() as int)[k as int] != pat@[k as int]);
            }
            return false;
        }
        k += 1;
    }
    proof {
        assert(pat@.take(pat@.len() as int) =~= pat@);
    }
    true
}

/// Counts the non-overlapping occurrences of `pat` in `v`.
pub fn count_occurrences_chars(v: &Vec<char>, pat: &Vec<char>) -> (r: usize)
    requires
        pat@.len() > 0,
    ensures
        r == count_occurrences(v@, pat@),
{
    let mut count: usize = 0;
    let mut i: usize = 0;
    while i <= v.len() && pat.len() <= v.len() - i
        invariant
            pat@.len() > 0,
            i <= v@.len() + 1,
            count <= i,
            count + count_occurrences_from(v@, pat@, i as int) == count_occurrences(v@, pat@),
        decreases v@.len() - i,
    {
        if window_matches(v, pat, i) {
            count += 1;
            i += pat.len();
        } else {
            i += 1;
        }
    }
    proof {
        assert(count_occurrences_from(v@, pat@, i as int) == 0);
    }
    count
}

} // verus!
