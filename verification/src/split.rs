//! Splitting text into components on a deliminator, and joining components
//! back with it.
//!
//! Splitting cuts at non-overlapping, leftmost occurrences of the
//! deliminator, keeping empty components between consecutive occurrences.  A
//! wholly empty input yields no components at all, so that zero-component
//! documents keep their arity.

use vstd::prelude::*;

verus! {

/// Whether the character `c` occurs in `s`.
pub open spec fn contains_char(s: Seq<char>, c: char) -> bool {
    exists|i: int| 0 <= i < s.len() && s[i] == c
}

/// Whether `d` occurs in `s` at position `i`.
pub open spec fn match_at(s: Seq<char>, d: Seq<char>, i: int) -> bool {
    0 <= i && i + d.len() <= s.len() && s.subrange(i, i + d.len()) == d
}

/// The position of the leftmost occurrence of `d` in `s` at or after
/// position `i`, if any.
pub open spec fn find_from(s: Seq<char>, d: Seq<char>, i: int) -> Option<int>
    recommends
        d.len() > 0,
        0 <= i,
    decreases s.len() - i,
{
    if d.len() == 0 || i + d.len() > s.len() {
        None
    } else if match_at(s, d, i) {
        Some(i)
    } else {
        find_from(s, d, i + 1)
    }
}

/// What [`find_from`] returns: the leftmost match position, with no match
/// before it; or no position, when there is no match at all.
pub proof fn lemma_find_from(s: Seq<char>, d: Seq<char>, i: int)
    requires
        d.len() > 0,
        0 <= i,
    ensures
        match find_from(s, d, i) {
            Some(j) => i <= j && match_at(s, d, j) && forall|k: int|
                i <= k < j ==> !match_at(s, d, k),
            None => forall|k: int| i <= k ==> !match_at(s, d, k),
        },
    decreases s.len() - i,
{
    if i + d.len() > s.len() {
        assert forall|k: int| i <= k implies !match_at(s, d, k) by {}
    } else if match_at(s, d, i) {
    } else {
        lemma_find_from(s, d, i + 1);
    }
}

/// The leftmost match position determines the result of [`find_from`].
pub proof fn lemma_find_from_exact(s: Seq<char>, d: Seq<char>, j: int)
    requires
        d.len() > 0,
        match_at(s, d, j),
        forall|k: int| 0 <= k < j ==> !match_at(s, d, k),
    ensures
        find_from(s, d, 0) == Some(j),
{
    lemma_find_from(s, d, 0);
    match find_from(s, d, 0) {
        Some(j0) => {
            if j0 < j {
                assert(!match_at(s, d, j0));
            } else if j0 > j {
                assert(!match_at(s, d, j));
            }
        },
        None => {
            assert(!match_at(s, d, j));
        },
    }
}

/// With no match anywhere, [`find_from`] finds nothing.
pub proof fn lemma_find_from_none(s: Seq<char>, d: Seq<char>)
    requires
        d.len() > 0,
        forall|k: int| 0 <= k ==> !match_at(s, d, k),
    ensures
        find_from(s, d, 0) == None::<int>,
{
    lemma_find_from(s, d, 0);
    match find_from(s, d, 0) {
        Some(j0) => {
            assert(!match_at(s, d, j0));
        },
        None => {},
    }
}

/// The components of `s` cut at the non-overlapping leftmost occurrences of
/// the nonempty deliminator `d`.  There is always at least one component;
/// an input without any occurrence is one single component.
pub open spec fn split_at_matches(s: Seq<char>, d: Seq<char>) -> Seq<Seq<char>>
    recommends
        d.len() > 0,
    decreases s.len(),
    via split_at_matches_decreases
{
    match find_from(s, d, 0) {
        None => seq![s],
        Some(i) => seq![s.subrange(0, i)] + split_at_matches(
            s.subrange(i + d.len(), s.len() as int),
            d,
        ),
    }
}

#[via_fn]
proof fn split_at_matches_decreases(s: Seq<char>, d: Seq<char>) {
    if d.len() > 0 {
        lemma_find_from(s, d, 0);
    }
}

/// The component queue of an input: empty input yields no components at
/// all; an empty deliminator never splits; otherwise the input is cut at
/// the deliminator's occurrences.
pub open spec fn pieces_of(s: Seq<char>, d: Seq<char>) -> Seq<Seq<char>> {
    if s.len() == 0 {
        seq![]
    } else if d.len() == 0 {
        seq![s]
    } else {
        split_at_matches(s, d)
    }
}

/// The document text of a component sequence: components joined by the
/// deliminator, with a leading deliminator when something has been written
/// already.
pub open spec fn join_from(parts: Seq<Seq<char>>, d: Seq<char>, written: bool) -> Seq<char>
    decreases parts.len(),
{
    if parts.len() == 0 {
        seq![]
    } else {
        (if written {
            d
        } else {
            seq![]
        }) + parts[0] + join_from(parts.drop_first(), d, true)
    }
}

/// A leading deliminator factors out of a nonempty join.
pub proof fn lemma_join_from_true(parts: Seq<Seq<char>>, d: Seq<char>)
    requires
        parts.len() > 0,
    ensures
        join_from(parts, d, true) == d + join_from(parts, d, false),
{
    assert(join_from(parts, d, true) =~= d + join_from(parts, d, false));
}

/// For a one-character deliminator, an occurrence is an occurrence of the
/// character.
pub proof fn lemma_match_at_single(s: Seq<char>, d: Seq<char>, k: int)
    requires
        d.len() == 1,
    ensures
        match_at(s, d, k) == (0 <= k && k + 1 <= s.len() && s[k] == d[0]),
{
    if 0 <= k && k + 1 <= s.len() {
        assert(s.subrange(k, k + 1) =~= seq![s[k]]);
        if s[k] == d[0] {
            assert(s.subrange(k, k + 1) =~= d);
        } else {
            assert(s.subrange(k, k + 1) != d) by {
                assert(s.subrange(k, k + 1)[0] != d[0]);
            }
        }
    }
}

/// Splitting undoes joining, for a one-character deliminator that occurs in
/// no component.
pub proof fn lemma_split_of_join(parts: Seq<Seq<char>>, d: Seq<char>)
    requires
        d.len() == 1,
        parts.len() > 0,
        forall|k: int| 0 <= k < parts.len() ==> !contains_char(#[trigger] parts[k], d[0]),
    ensures
        split_at_matches(join_from(parts, d, false), d) == parts,
    decreases parts.len(),
{
    let c = d[0];
    let p0 = parts[0];
    if parts.len() == 1 {
        let j = join_from(parts, d, false);
        assert(parts.drop_first().len() == 0);
        assert(join_from(parts.drop_first(), d, true) =~= Seq::<char>::empty());
        assert(j =~= p0);
        assert forall|k: int| 0 <= k implies !match_at(j, d, k) by {
            lemma_match_at_single(j, d, k);
            if 0 <= k && k + 1 <= j.len() && j[k] == c {
                assert(contains_char(p0, c));
            }
        }
        lemma_find_from_none(j, d);
        assert(split_at_matches(j, d) =~= parts);
    } else {
        let rest = parts.drop_first();
        lemma_join_from_true(rest, d);
        let jr = join_from(rest, d, false);
        let j = join_from(parts, d, false);
        assert(j =~= p0 + d + jr);
        let n0 = p0.len() as int;
        assert(match_at(j, d, n0)) by {
            lemma_match_at_single(j, d, n0);
            assert(j[n0] == (p0 + d + jr)[n0]);
            assert((p0 + d)[n0] == c);
            assert(j[n0] == c);
        }
        assert forall|k: int| 0 <= k < n0 implies !match_at(j, d, k) by {
            lemma_match_at_single(j, d, k);
            if k + 1 <= j.len() && j[k] == c {
                assert(j[k] == p0[k]);
                assert(contains_char(p0, c));
            }
        }
        lemma_find_from_exact(j, d, n0);
        assert(split_at_matches(j, d) == seq![j.subrange(0, n0)] + split_at_matches(
            j.subrange(n0 + 1, j.len() as int),
            d,
        ));
        assert(j.subrange(0, n0) =~= p0);
        assert(j.subrange(n0 + 1, j.len() as int) =~= jr);
        lemma_split_of_join(rest, d);
        assert(split_at_matches(j, d) =~= parts);
    }
}

/// Joining more than one component always produces the deliminator, so the
/// join is nonempty.
pub proof fn lemma_join_from_len(parts: Seq<Seq<char>>, d: Seq<char>)
    requires
        parts.len() > 1,
    ensures
        join_from(parts, d, false).len() >= d.len(),
    decreases parts.len(),
{
    lemma_join_from_true(parts.drop_first(), d);
}

/// Whether two strings hold the same characters.
pub fn str_eq(a: &str, b: &str) -> (r: bool)
    ensures
        r == (a@ == b@),
{
    let n = a.unicode_len();
    let m = b.unicode_len();
    if n != m {
        return false;
    }
    let mut i: usize = 0;
    while i < n
        invariant
            i <= n,
            n == a@.len(),
            n == b@.len(),
            forall|k: int| 0 <= k < i ==> a@[k] == b@[k],
        decreases n - i,
    {
        if a.get_char(i) != b.get_char(i) {
            return false;
        }
        i = i + 1;
    }
    proof {
        assert(a@ =~= b@);
    }
    true
}

/// Joining a concatenation of component sequences joins each in turn.
pub proof fn lemma_join_from_concat(
    c1: Seq<Seq<char>>,
    c2: Seq<Seq<char>>,
    d: Seq<char>,
    w: bool,
)
    ensures
        join_from(c1 + c2, d, w) == join_from(c1, d, w) + join_from(c2, d, w || c1.len() > 0),
    decreases c1.len(),
{
    if c1.len() == 0 {
        assert(c1 + c2 =~= c2);
        assert(join_from(c1, d, w) + join_from(c2, d, w) =~= join_from(c2, d, w));
    } else {
        assert((c1 + c2).len() > 0);
        assert((c1 + c2)[0] == c1[0]);
        assert((c1 + c2).drop_first() =~= c1.drop_first() + c2);
        lemma_join_from_concat(c1.drop_first(), c2, d, true);
        assert(join_from(c1 + c2, d, w) =~= join_from(c1, d, w) + join_from(
            c2,
            d,
            w || c1.len() > 0,
        ));
    }
}

/// UTF-8 encoding distributes over concatenation.
pub proof fn lemma_encode_utf8_concat(a: Seq<char>, b: Seq<char>)
    ensures
        vstd::utf8::encode_utf8(a + b) == vstd::utf8::encode_utf8(a) + vstd::utf8::encode_utf8(
            b,
        ),
    decreases a.len(),
{
    if a.len() == 0 {
        assert(a + b =~= b);
        assert(vstd::utf8::encode_utf8(a) + vstd::utf8::encode_utf8(b) =~= vstd::utf8::encode_utf8(
            b,
        ));
    } else {
        assert((a + b).len() > 0);
        assert((a + b)[0] == a[0]);
        assert((a + b).drop_first() =~= a.drop_first() + b);
        lemma_encode_utf8_concat(a.drop_first(), b);
        assert(vstd::utf8::encode_utf8(a + b) =~= vstd::utf8::encode_utf8(a)
            + vstd::utf8::encode_utf8(b));
    }
}

// ---------------------------------------------------------------------------
// Executable splitting
// ---------------------------------------------------------------------------

/// The views of a sequence of string slices.
pub open spec fn strs_views(ss: Seq<&str>) -> Seq<Seq<char>> {
    Seq::new(ss.len(), |i: int| ss[i]@)
}

/// Whether the deliminator occurs at character position `i` of `s`.
fn match_at_exec(s: &str, d: &str, i: usize) -> (b: bool)
    requires
        i + d@.len() <= s@.len(),
        s@.len() <= usize::MAX,
    ensures
        b == match_at(s@, d@, i as int),
{
    let m = d.unicode_len();
    let mut j: usize = 0;
    while j < m
        invariant
            j <= m,
            m == d@.len(),
            i + m <= s@.len(),
            s@.len() <= usize::MAX,
            forall|k: int| 0 <= k < j ==> s@[i + k] == d@[k],
        decreases m - j,
    {
        if s.get_char(i + j) != d.get_char(j) {
            proof {
                assert(s@.subrange(i as int, i + m) != d@) by {
                    assert(s@.subrange(i as int, i + m)[j as int] != d@[j as int]);
                }
            }
            return false;
        }
        j = j + 1;
    }
    proof {
        assert(s@.subrange(i as int, i + m) =~= d@);
    }
    true
}

/// Cuts `s` at the non-overlapping leftmost occurrences of the nonempty
/// deliminator `d`.
pub fn split_str<'a>(s: &'a str, d: &str) -> (r: Vec<&'a str>)
    requires
        d@.len() > 0,
    ensures
        strs_views(r@) == split_at_matches(s@, d@),
{
    let n = s.unicode_len();
    let m = d.unicode_len();
    let mut parts: Vec<&'a str> = Vec::new();
    if m > n {
        proof {
            assert(find_from(s@, d@, 0) == None::<int>);
        }
        parts.push(s);
        proof {
            assert(strs_views(parts@) =~= split_at_matches(s@, d@));
        }
        return parts;
    }
    let mut start: usize = 0;
    let mut i: usize = 0;
    proof {
        assert(s@.subrange(0, n as int) =~= s@);
        assert(strs_views(parts@) =~= Seq::<Seq<char>>::empty());
    }
    while i <= n - m
        invariant
            m == d@.len(),
            n == s@.len(),
            0 < m <= n,
            start <= i,
            i <= n,
            strs_views(parts@) + split_at_matches(s@.subrange(start as int, n as int), d@)
                =~= split_at_matches(s@, d@),
            forall|k: int| start <= k < i ==> !match_at(s@, d@, k),
        decreases n - i,
    {
        if match_at_exec(s, d, i) {
            let piece = s.substring_char(start, i);
            proof {
                let suffix = s@.subrange(start as int, n as int);
                let rel = i - start;
                assert(match_at(suffix, d@, rel)) by {
                    assert(suffix.subrange(rel, rel + m) =~= s@.subrange(i as int, i + m));
                }
                assert forall|k: int| 0 <= k < rel implies !match_at(suffix, d@, k) by {
                    if match_at(suffix, d@, k) {
                        assert(match_at(s@, d@, start + k)) by {
                            assert(s@.subrange(start + k, start + k + m) =~= suffix.subrange(
                                k,
                                k + m,
                            ));
                        }
                    }
                }
                lemma_find_from_exact(suffix, d@, rel);
                assert(split_at_matches(suffix, d@) == seq![suffix.subrange(0, rel)]
                    + split_at_matches(suffix.subrange(rel + m as int, suffix.len() as int), d@));
                assert(suffix.subrange(0, rel) =~= piece@);
                assert(suffix.subrange(rel + m as int, suffix.len() as int) =~= s@.subrange(
                    i + m as int,
                    n as int,
                ));
            }
            parts.push(piece);
            proof {
                assert(strs_views(parts@) =~= strs_views(parts@.drop_last()).push(piece@));
                assert(strs_views(parts@) + split_at_matches(
                    s@.subrange((i + m) as int, n as int),
                    d@,
                ) =~= split_at_matches(s@, d@));
            }
            i = i + m;
            start = i;
        } else {
            i = i + 1;
        }
    }
    proof {
        let suffix = s@.subrange(start as int, n as int);
        assert forall|k: int| 0 <= k implies !match_at(suffix, d@, k) by {
            if match_at(suffix, d@, k) {
                assert(k + m <= suffix.len());
                assert(start + k < i) by {
                    assert(start + k + m <= n);
                    assert(i > n - m);
                }
                assert(match_at(s@, d@, start + k)) by {
                    assert(s@.subrange(start + k, start + k + m) =~= suffix.subrange(k, k + m));
                }
            }
        }
        lemma_find_from_none(suffix, d@);
    }
    let last = s.substring_char(start, n);
    parts.push(last);
    proof {
        assert(strs_views(parts@) =~= strs_views(parts@.drop_last()).push(last@));
        assert(strs_views(parts@) =~= split_at_matches(s@, d@));
    }
    parts
}

} // verus!
