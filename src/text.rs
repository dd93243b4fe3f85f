//! Character-level helpers on strings, each stated over the string's view.
use vstd::prelude::*;

verus! {

/// `s` ends with `t`.
pub open spec fn ends_with(s: Seq<char>, t: Seq<char>) -> bool {
    t.len() <= s.len() && s.subrange(s.len() - t.len(), s.len() as int) == t
}

/// `s` starts with `t`.
pub open spec fn starts_with(s: Seq<char>, t: Seq<char>) -> bool {
    t.len() <= s.len() && s.subrange(0, t.len() as int) == t
}

/// `t` occurs in `s` at position `i`.
pub open spec fn occurs_at(s: Seq<char>, t: Seq<char>, i: int) -> bool {
    0 <= i && i + t.len() <= s.len() && s.subrange(i, i + t.len()) == t
}

/// The first position at or after `i` where `t` occurs in `s`.
pub open spec fn first_occurrence_from(s: Seq<char>, t: Seq<char>, i: int) -> Option<int>
    decreases s.len() + 1 - i,
{
    if i < 0 || i + t.len() > s.len() {
        None
    } else if occurs_at(s, t, i) {
        Some(i)
    } else {
        first_occurrence_from(s, t, i + 1)
    }
}

/// `s` with every leading `c` removed.
pub open spec fn trim_start_char(s: Seq<char>, c: char) -> Seq<char>
    decreases s.len(),
{
    if s.len() > 0 && s[0] == c {
        trim_start_char(s.drop_first(), c)
    } else {
        s
    }
}

/// `s` with `t` removed from its end for as long as it ends with `t`.
pub open spec fn trim_end_seq(s: Seq<char>, t: Seq<char>) -> Seq<char>
    decreases s.len(),
{
    if t.len() > 0 && ends_with(s, t) {
        trim_end_seq(s.subrange(0, s.len() - t.len()), t)
    } else {
        s
    }
}

/// The characters of `s`, in order.
pub fn chars_of(s: &str) -> (r: Vec<char>)
    ensures
        r@ == s@,
{
    let mut r: Vec<char> = Vec::new();
    for c in it: s.chars()
        invariant
            r@ == it.seq().subrange(0, it.index() as int),
    {
        r.push(c);
    }
    r
}

/// Whether the characters `t` stand in `s` at position `i`.
fn chars_match_at(s: &Vec<char>, t: &Vec<char>, i: usize) -> (r: bool)
    requires
        i + t@.len() <= s@.len(),
    ensures
        r == occurs_at(s@, t@, i as int),
{
    let n = s.len();
    let mut j: usize = 0;
    while j < t.len()
        invariant
            n == s@.len(),
            i + t@.len() <= s@.len(),
            j <= t@.len(),
            forall|k: int| 0 <= k < j ==> s@[i + k] == t@[k],
        decreases t@.len() - j,
    {
        if s[i + j] != t[j] {
            assert(s@.subrange(i as int, i + t@.len())[j as int] != t@[j as int]);
            return false;
        }
        j = j + 1;
    }
    assert(s@.subrange(i as int, i + t@.len()) =~= t@);
    true
}

/// Whether `s` ends with `t`.
pub fn str_ends_with(s: &str, t: &str) -> (r: bool)
    ensures
        r == ends_with(s@, t@),
{
    let sc = chars_of(s);
    let tc = chars_of(t);
    if tc.len() > sc.len() {
        return false;
    }
    chars_match_at(&sc, &tc, sc.len() - tc.len())
}

/// Whether `s` starts with `t`.
pub fn str_starts_with(s: &str, t: &str) -> (r: bool)
    ensures
        r == starts_with(s@, t@),
{
    let sc = chars_of(s);
    let tc = chars_of(t);
    if tc.len() > sc.len() {
        return false;
    }
    chars_match_at(&sc, &tc, 0)
}

/// Whether `s` and `t` hold the same characters.
pub fn str_equal(s: &str, t: &str) -> (r: bool)
    ensures
        r == (s@ == t@),
{
    let sc = chars_of(s);
    let tc = chars_of(t);
    if tc.len() != sc.len() {
        return false;
    }
    let r = chars_match_at(&sc, &tc, 0);
    assert(sc@.subrange(0, tc@.len() as int) =~= sc@);
    r
}

/// The first position at or after `from` where `t` occurs in `s`.
pub fn find_from(s: &str, t: &str, from: usize) -> (r: Option<usize>)
    ensures
        r matches Some(i) ==> first_occurrence_from(s@, t@, from as int) == Some(i as int)
            && occurs_at(s@, t@, i as int),
        r is None ==> first_occurrence_from(s@, t@, from as int) is None,
{
    let sc = chars_of(s);
    let tc = chars_of(t);
    if tc.len() > sc.len() {
        proof {
            lemma_no_room(s@, t@, from as int);
        }
        return None;
    }
    let last = sc.len() - tc.len();
    if from > last {
        proof {
            lemma_no_room(s@, t@, from as int);
        }
        return None;
    }
    let mut i = from;
    loop
        invariant
            sc@ == s@,
            tc@ == t@,
            last + t@.len() == s@.len(),
            from <= i <= last,
            first_occurrence_from(s@, t@, from as int) == first_occurrence_from(s@, t@, i as int),
        decreases last - i,
    {
        if chars_match_at(&sc, &tc, i) {
            return Some(i);
        }
        if i == last {
            proof {
                lemma_no_room(s@, t@, i + 1);
            }
            return None;
        }
        i = i + 1;
    }
}

proof fn lemma_no_room(s: Seq<char>, t: Seq<char>, i: int)
    requires
        i + t.len() > s.len(),
    ensures
        first_occurrence_from(s, t, i) is None,
{
}

/// `s` with every leading `c` removed.
pub fn trim_start_matches_char(s: &str, c: char) -> (r: &str)
    ensures
        r@ == trim_start_char(s@, c),
{
    let sc = chars_of(s);
    let mut i: usize = 0;
    assert(s@.subrange(0, s@.len() as int) =~= s@);
    while i < sc.len() && sc[i] == c
        invariant
            sc@ == s@,
            i <= sc@.len(),
            trim_start_char(s@, c) == trim_start_char(s@.subrange(i as int, s@.len() as int), c),
        decreases sc@.len() - i,
    {
        proof {
            let rest = s@.subrange(i as int, s@.len() as int);
            assert(rest.drop_first() =~= s@.subrange(i + 1, s@.len() as int));
        }
        i = i + 1;
    }
    proof {
        let rest = s@.subrange(i as int, s@.len() as int);
        assert(rest.len() == 0 || rest[0] != c);
    }
    s.substring_char(i, sc.len())
}

/// `s` with `t` removed from its end for as long as it ends with `t`.
pub fn trim_end_matches_str<'a>(s: &'a str, t: &str) -> (r: &'a str)
    ensures
        r@ == trim_end_seq(s@, t@),
{
    let sc = chars_of(s);
    let tc = chars_of(t);
    if tc.len() == 0 {
        return s;
    }
    let mut end: usize = sc.len();
    assert(s@.subrange(0, s@.len() as int) =~= s@);
    while end >= tc.len() && chars_match_at(&sc, &tc, end - tc.len())
        invariant
            sc@ == s@,
            tc@ == t@,
            t@.len() > 0,
            end <= sc@.len(),
            trim_end_seq(s@, t@) == trim_end_seq(s@.subrange(0, end as int), t@),
        decreases end,
    {
        proof {
            let w = s@.subrange(0, end as int);
            assert(w.subrange(w.len() - t@.len(), w.len() as int) =~= s@.subrange(
                end - t@.len(),
                end as int,
            ));
            assert(w.subrange(0, w.len() - t@.len()) =~= s@.subrange(0, end - t@.len()));
        }
        end = end - tc.len();
    }
    proof {
        let w = s@.subrange(0, end as int);
        if end >= t@.len() {
            assert(w.subrange(w.len() - t@.len(), w.len() as int) =~= s@.subrange(
                end - t@.len(),
                end as int,
            ));
        }
    }
    s.substring_char(0, end)
}

} // verus!
