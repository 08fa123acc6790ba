//! The fuzzy path matcher: classic edit distance (insertions, deletions
//! and substitutions, each of cost one) between an input path and the
//! known filenames, with a prefix refinement, used to suggest the
//! closest existing name for a mistyped path.

use vstd::prelude::*;

verus! {

pub open spec fn spec_min3(a: nat, b: nat, c: nat) -> nat {
    if a <= b && a <= c {
        a
    } else if b <= c {
        b
    } else {
        c
    }
}

/// The edit distance between two character sequences: the least number
/// of single-character insertions, deletions and substitutions that
/// turns one into the other.
pub open spec fn lev(a: Seq<char>, b: Seq<char>) -> nat
    decreases a.len() + b.len(),
{
    if a.len() == 0 {
        b.len()
    } else if b.len() == 0 {
        a.len()
    } else {
        let cost: nat = if a.last() == b.last() {
            0
        } else {
            1
        };
        spec_min3(lev(a.drop_last(), b.drop_last()) + cost, lev(a.drop_last(), b) + 1, lev(a, b.drop_last()) + 1)
    }
}

/// The edit distance never exceeds the longer length.
pub proof fn lemma_lev_bound(a: Seq<char>, b: Seq<char>)
    ensures
        lev(a, b) <= a.len() || lev(a, b) <= b.len(),
        lev(a, b) <= a.len() + b.len(),
    decreases a.len() + b.len(),
{
    if a.len() == 0 || b.len() == 0 {
    } else {
        lemma_lev_bound(a.drop_last(), b.drop_last());
        lemma_lev_bound(a.drop_last(), b);
        lemma_lev_bound(a, b.drop_last());
    }
}

/// The dynamic-programming step: for non-empty prefixes, the distance of
/// the prefixes of lengths `i` and `j` satisfies the standard recurrence.
proof fn lemma_lev_step(a: Seq<char>, b: Seq<char>, i: int, j: int)
    requires
        1 <= i <= a.len(),
        1 <= j <= b.len(),
    ensures
        lev(a.take(i), b.take(j)) == ({
            let cost: nat = if a[i - 1] == b[j - 1] {
                0
            } else {
                1
            };
            spec_min3(
                lev(a.take(i - 1), b.take(j - 1)) + cost,
                lev(a.take(i - 1), b.take(j)) + 1,
                lev(a.take(i), b.take(j - 1)) + 1,
            )
        }),
{
    let x = a.take(i);
    let y = b.take(j);
    assert(x.drop_last() =~= a.take(i - 1));
    assert(y.drop_last() =~= b.take(j - 1));
    assert(x.last() == a[i - 1]);
    assert(y.last() == b[j - 1]);
}

/// The characters of a string slice, in order.
fn chars_of(s: &str) -> (v: Vec<char>)
    ensures
        v@ == s@,
{
    let n = s.unicode_len();
    let mut v: Vec<char> = Vec::new();
    let mut i: usize = 0;
    while i < n
        invariant
            i <= n,
            n == s@.len(),
            v@ == s@.take(i as int),
        decreases n - i,
    {
        v.push(s.get_char(i));
        proof {
            assert(v@ =~= s@.take(i + 1 as int));
        }
        i += 1;
    }
    proof {
        assert(s@.take(n as int) =~= s@);
    }
    v
}

fn min3(a: usize, b: usize, c: usize) -> (r: usize)
    ensures
        r == spec_min3(a as nat, b as nat, c as nat),
{
    if a <= b && a <= c {
        a
    } else if b <= c {
        b
    } else {
        c
    }
}

/// The edit distance between two strings, computed with the standard
/// dynamic-programming recurrence over prefix pairs.
pub fn edit_distance(a: &str, b: &str) -> (r: usize)
    requires
        a@.len() < usize::MAX,
        b@.len() < usize::MAX,
    ensures
        r == lev(a@, b@),
{
    let av = chars_of(a);
    let bv = chars_of(b);
    let la = av.len();
    let lb = bv.len();
    // Row 0: the distance from the empty prefix of `a` to each prefix of `b`.
    let mut prev: Vec<usize> = Vec::new();
    let mut j: usize = 0;
    while j <= lb
        invariant
            j <= lb + 1,
            lb == b@.len() < usize::MAX,
            prev@.len() == j,
            forall|j2: int| 0 <= j2 < j ==> prev@[j2] == lev(a@.take(0), b@.take(j2)),
        decreases lb + 1 - j,
    {
        proof {
            assert(a@.take(0) =~= Seq::<char>::empty());
            assert(b@.take(j as int).len() == j);
        }
        prev.push(j);
        j += 1;
    }
    let mut i: usize = 1;
    while i <= la
        invariant
            1 <= i <= la + 1,
            la == a@.len() < usize::MAX,
            lb == b@.len() < usize::MAX,
            av@ == a@,
            bv@ == b@,
            prev@.len() == lb + 1,
            forall|j2: int| 0 <= j2 <= lb ==> prev@[j2] == lev(a@.take(i - 1), b@.take(j2)),
        decreases la + 1 - i,
    {
        let mut cur: Vec<usize> = Vec::new();
        proof {
            assert(b@.take(0) =~= Seq::<char>::empty());
            assert(a@.take(i as int).len() == i);
        }
        cur.push(i);
        let mut j: usize = 1;
        while j <= lb
            invariant
                1 <= j <= lb + 1,
                1 <= i <= la,
                la == a@.len() < usize::MAX,
                lb == b@.len() < usize::MAX,
                av@ == a@,
                bv@ == b@,
                prev@.len() == lb + 1,
                forall|j2: int| 0 <= j2 <= lb ==> prev@[j2] == lev(a@.take(i - 1), b@.take(j2)),
                cur@.len() == j,
                forall|j2: int| 0 <= j2 < j ==> cur@[j2] == lev(a@.take(i as int), b@.take(j2)),
            decreases lb + 1 - j,
        {
            let cost: usize = if av[i - 1] == bv[j - 1] {
                0
            } else {
                1
            };
            proof {
                lemma_lev_bound(a@.take(i - 1), b@.take(j - 1));
                lemma_lev_bound(a@.take(i - 1), b@.take(j as int));
                lemma_lev_bound(a@.take(i as int), b@.take(j - 1));
                assert(a@.take(i - 1).len() == i - 1);
                assert(a@.take(i as int).len() == i);
                assert(b@.take(j - 1).len() == j - 1);
                assert(b@.take(j as int).len() == j);
            }
            let d_sub = prev[j - 1] + cost;
            let d_del = prev[j] + 1;
            let d_ins = cur[j - 1] + 1;
            let m = min3(d_sub, d_del, d_ins);
            proof {
                lemma_lev_step(a@, b@, i as int, j as int);
            }
            cur.push(m);
            j += 1;
        }
        prev = cur;
        i += 1;
    }
    proof {
        assert(a@.take(la as int) =~= a@);
        assert(b@.take(lb as int) =~= b@);
    }
    prev[lb]
}

/// Whether `p` is a literal prefix of `s`.
pub open spec fn spec_is_prefix(p: Seq<char>, s: Seq<char>) -> bool {
    p.len() <= s.len() && s.take(p.len() as int) == p
}

/// Whether the string `s` starts with `p`, character for character.
pub fn str_starts_with(s: &str, p: &str) -> (r: bool)
    ensures
        r == spec_is_prefix(p@, s@),
{
    let lp = p.unicode_len();
    let ls = s.unicode_len();
    if lp > ls {
        return false;
    }
    let mut i: usize = 0;
    while i < lp
        invariant
            i <= lp,
            lp == p@.len(),
            ls == s@.len(),
            lp <= ls,
            forall|j: int| 0 <= j < i ==> s@[j] == p@[j],
        decreases lp - i,
    {
        if s.get_char(i) != p.get_char(i) {
            proof {
                assert(s@.take(lp as int)[i as int] != p@[i as int]);
            }
            return false;
        }
        i += 1;
    }
    proof {
        assert(s@.take(lp as int) =~= p@);
    }
    true
}

/// The matcher's distance between a candidate name and the input: zero
/// when the name starts with the input as a literal prefix, else the
/// edit distance between the two.
pub open spec fn match_dist(name: Seq<char>, input: Seq<char>) -> nat {
    if spec_is_prefix(input, name) {
        0
    } else {
        lev(name, input)
    }
}

/// Compute the difference between two names.
///
/// When `str1` starts with `str2`, the difference is zero; otherwise it
/// is the edit distance between the two strings.
pub fn get_best_match(str1: String, str2: String) -> (r: usize)
    requires
        str1@.len() < usize::MAX,
        str2@.len() < usize::MAX,
    ensures
        r == match_dist(str1@, str2@),
{
    if str_starts_with(str1.as_str(), str2.as_str()) {
        0
    } else {
        edit_distance(str1.as_str(), str2.as_str())
    }
}

/// Suggest the candidate closest to `input`, if one is close enough.
///
/// The winner is the candidate with the least matcher distance, ties
/// broken in favour of the first-seen candidate; it is surfaced only
/// when its distance is at most `input`'s length divided by five, and
/// otherwise nothing is suggested.
pub fn suggest(input: &str, candidates: &Vec<String>) -> (r: Option<String>)
    requires
        input@.len() < usize::MAX,
        forall|i: int| 0 <= i < candidates@.len() ==> candidates@[i]@.len() < usize::MAX,
    ensures
        match r {
            Some(s) => exists|i: int|
                #![auto]
                0 <= i < candidates@.len() && s == candidates@[i] && match_dist(
                    candidates@[i]@,
                    input@,
                ) <= input@.len() / 5 && (forall|j: int|
                    0 <= j < candidates@.len() ==> match_dist(candidates@[j]@, input@)
                        >= match_dist(candidates@[i]@, input@)) && (forall|j: int|
                    0 <= j < i ==> match_dist(candidates@[j]@, input@) > match_dist(
                        candidates@[i]@,
                        input@,
                    )),
            None => forall|i: int|
                0 <= i < candidates@.len() ==> match_dist(candidates@[i]@, input@)
                    > input@.len() / 5,
        },
{
    if candidates.len() == 0 {
        return None;
    }
    let mut best_i: usize = 0;
    let mut best_d: usize = match_distance(&candidates[0], input);
    let mut i: usize = 1;
    while i < candidates.len()
        invariant
            1 <= i <= candidates@.len(),
            best_i < i,
            input@.len() < usize::MAX,
            forall|k: int| 0 <= k < candidates@.len() ==> candidates@[k]@.len() < usize::MAX,
            best_d == match_dist(candidates@[best_i as int]@, input@),
            forall|j: int| 0 <= j < i ==> match_dist(candidates@[j]@, input@) >= best_d,
            forall|j: int| 0 <= j < best_i ==> match_dist(candidates@[j]@, input@) > best_d,
        decreases candidates@.len() - i,
    {
        let d = match_distance(&candidates[i], input);
        if d < best_d {
            best_i = i;
            best_d = d;
        }
        i += 1;
    }
    let threshold = input.unicode_len() / 5;
    if best_d <= threshold {
        Some(candidates[best_i].clone())
    } else {
        None
    }
}

/// The matcher distance between one candidate and the input.
fn match_distance(candidate: &String, input: &str) -> (r: usize)
    requires
        candidate@.len() < usize::MAX,
        input@.len() < usize::MAX,
    ensures
        r == match_dist(candidate@, input@),
{
    if str_starts_with(candidate.as_str(), input) {
        0
    } else {
        edit_distance(candidate.as_str(), input)
    }
}

} // verus!
