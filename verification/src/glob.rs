//! Single-segment globs: `*` is anything, the empty text too; `?` is one character.

use vstd::prelude::*;

#[allow(unused_imports)]
use crate::text::begins;
use crate::text::chars_of;

verus! {

/// Does the pattern from `i` on match the name from `j` on?
pub open spec fn globs_from(p: Seq<char>, n: Seq<char>, i: int, j: int) -> bool
    decreases p.len() - i, n.len() - j,
{
    if i >= p.len() {
        j >= n.len()
    } else if p[i] == '*' {
        globs_from(p, n, i + 1, j) || (j < n.len() && globs_from(p, n, i, j + 1))
    } else {
        j < n.len() && (p[i] == '?' || p[i] == n[j]) && globs_from(p, n, i + 1, j + 1)
    }
}

/// Does the pattern match the whole name?
pub open spec fn globs(p: Seq<char>, n: Seq<char>) -> bool {
    globs_from(p, n, 0, 0)
}

/// A text without `*` and `?` in it: as a pattern it names itself alone.
pub open spec fn is_literal(p: Seq<char>) -> bool {
    !p.contains('*') && !p.contains('?')
}

/// A pattern without wildcards matches the name it spells and no other.
pub proof fn literal_patterns_match_themselves(p: Seq<char>, n: Seq<char>)
    requires
        is_literal(p),
    ensures
        globs(p, n) == (p == n),
{
    literal_from(p, n, 0);
    assert(p.skip(0) =~= p && n.skip(0) =~= n);
}

proof fn literal_from(p: Seq<char>, n: Seq<char>, i: int)
    requires
        is_literal(p),
        0 <= i <= p.len(),
        i <= n.len(),
    ensures
        globs_from(p, n, i, i) == (p.skip(i) == n.skip(i)),
    decreases p.len() - i,
{
    if i < p.len() {
        assert(p.contains(p[i]));
        if i < n.len() {
            literal_from(p, n, i + 1);
            assert(p.skip(i).skip(1) =~= p.skip(i + 1) && n.skip(i).skip(1) =~= n.skip(i + 1));
            assert(p.skip(i)[0] == p[i] && n.skip(i)[0] == n[i]);
            if p[i] == n[i] && p.skip(i + 1) == n.skip(i + 1) {
                assert(p.skip(i) =~= seq![p[i]] + p.skip(i + 1));
                assert(n.skip(i) =~= seq![n[i]] + n.skip(i + 1));
            }
        } else {
            assert(p.skip(i).len() > n.skip(i).len());
        }
    } else {
        assert(p.skip(i).len() == 0);
        if n.skip(i).len() == 0 {
            assert(p.skip(i) =~= n.skip(i));
        }
    }
}

/// A `*` alone matches every name.
pub proof fn a_star_takes_anything(p: Seq<char>, n: Seq<char>)
    requires
        p == seq!['*'],
    ensures
        globs(p, n),
{
    star_alone(p, n, 0);
}

proof fn star_alone(p: Seq<char>, n: Seq<char>, j: int)
    requires
        p == seq!['*'],
        0 <= j <= n.len(),
    ensures
        globs_from(p, n, 0, j),
    decreases n.len() - j,
{
    if j < n.len() {
        star_alone(p, n, j + 1);
    } else {
        assert(globs_from(p, n, 1, j));
    }
}

/// A `*` that matches from a later place matches from here.
proof fn star_absorbs(p: Seq<char>, n: Seq<char>, i: int, j: int, k: int)
    requires
        0 <= i < p.len(),
        p[i] == '*',
        0 <= j <= k <= n.len(),
        globs_from(p, n, i, k),
    ensures
        globs_from(p, n, i, j),
    decreases k - j,
{
    if j < k {
        star_absorbs(p, n, i, j + 1, k);
    }
}

/// Where a `*` matches, what follows it matches from some place on.
proof fn star_stops(p: Seq<char>, n: Seq<char>, i: int, j: int) -> (k: int)
    requires
        0 <= i < p.len(),
        p[i] == '*',
        0 <= j <= n.len(),
        globs_from(p, n, i, j),
    ensures
        j <= k <= n.len(),
        globs_from(p, n, i + 1, k),
    decreases n.len() - j,
{
    if globs_from(p, n, i + 1, j) {
        j
    } else {
        star_stops(p, n, i, j + 1)
    }
}

/// The `m` characters of the pattern from `i` on, without a `*`, fit the name from `j` on.
spec fn fits(p: Seq<char>, n: Seq<char>, i: int, j: int, m: int) -> bool {
    &&& 0 <= i && 0 <= j && 0 <= m
    &&& i + m <= p.len()
    &&& j + m <= n.len()
    &&& forall|t: int| 0 <= t < m ==> (#[trigger] p[i + t] == '?' || p[i + t] == n[j + t])
}

spec fn starless(p: Seq<char>, i: int, m: int) -> bool {
    &&& 0 <= i && 0 <= m
    &&& i + m <= p.len()
    &&& forall|t: int| 0 <= t < m ==> #[trigger] p[i + t] != '*'
}

/// A run without a `*` matches exactly where it fits.
proof fn run_matches(p: Seq<char>, n: Seq<char>, i: int, j: int, m: int)
    requires
        starless(p, i, m),
        0 <= j <= n.len(),
    ensures
        globs_from(p, n, i, j) == (fits(p, n, i, j, m) && globs_from(p, n, i + m, j + m)),
    decreases m,
{
    if m > 0 {
        assert(p[i + 0] != '*');
        assert forall|t: int| 0 <= t < m - 1 implies #[trigger] p[i + 1 + t] != '*' by {
            assert(p[i + (t + 1)] != '*');
        }
        if j < n.len() {
            run_matches(p, n, i + 1, j + 1, m - 1);
            if fits(p, n, i + 1, j + 1, m - 1) && (p[i] == '?' || p[i] == n[j]) {
                assert forall|t: int| 0 <= t < m implies (#[trigger] p[i + t] == '?' || p[i + t] == n[j + t]) by {
                    if t > 0 {
                        assert(p[i + 1 + (t - 1)] == '?' || p[i + 1 + (t - 1)] == n[j + 1 + (t - 1)]);
                    }
                }
            }
            if fits(p, n, i, j, m) {
                assert(p[i + 0] == '?' || p[i + 0] == n[j + 0]);
                assert forall|t: int| 0 <= t < m - 1 implies (#[trigger] p[i + 1 + t] == '?' || p[i + 1 + t] == n[j + 1 + t]) by {
                    assert(p[i + (t + 1)] == '?' || p[i + (t + 1)] == n[j + (t + 1)]);
                }
            }
        }
    }
}

/// Single-segment glob.
pub fn glob_match(pattern: &str, name: &str) -> (r: bool)
    ensures
        r == globs(pattern@, name@),
{
    let p = chars_of(pattern);
    let n = chars_of(name);
    let mut pi: usize = 0;
    let mut ni: usize = 0;
    // The last `*` seen and where the name was then, to come back to.
    let mut star: Option<usize> = None;
    let mut back: usize = 0;
    while ni < n.len()
        invariant
            p@ == pattern@,
            n@ == name@,
            pi <= p.len(),
            ni <= n.len(),
            back <= ni,
            star is None ==> globs(p@, n@) == globs_from(p@, n@, pi as int, ni as int),
            star matches Some(s) ==> {
                &&& s < pi
                &&& p[s as int] == '*'
                &&& pi - s - 1 == ni - back
                &&& starless(p@, s + 1, pi - s - 1)
                &&& fits(p@, n@, s + 1, back as int, pi - s - 1)
                &&& globs(p@, n@) == globs_from(p@, n@, s as int, back as int)
            },
        decreases (if star is Some { p.len() - star->0 } else { p.len() + 1 }), n.len() - back, n.len() - ni,
    {
        if pi < p.len() && p[pi] == '*' {
            proof {
                if let Some(s) = star {
                    let m = pi - s - 1;
                    if globs_from(p@, n@, s as int, back as int) {
                        let k = star_stops(p@, n@, s as int, back as int);
                        run_matches(p@, n@, s + 1, k, m);
                        star_absorbs(p@, n@, pi as int, ni as int, k + m);
                    }
                    if globs_from(p@, n@, pi as int, ni as int) {
                        run_matches(p@, n@, s + 1, back as int, m);
                    }
                }
            }
            star = Some(pi);
            back = ni;
            pi += 1;
        } else if pi < p.len() && (p[pi] == '?' || p[pi] == n[ni]) {
            pi += 1;
            ni += 1;
        } else if let Some(s) = star {
            proof {
                let m = pi - s - 1;
                run_matches(p@, n@, s + 1, back as int, m);
                assert(!globs_from(p@, n@, pi as int, ni as int));
                assert(!globs_from(p@, n@, s + 1, back as int));
            }
            pi = s + 1;
            back += 1;
            ni = back;
        } else {
            return false;
        }
    }
    proof {
        if let Some(s) = star {
            let m = pi - s - 1;
            run_matches(p@, n@, s + 1, back as int, m);
            if globs_from(p@, n@, s as int, back as int) {
                let k = star_stops(p@, n@, s as int, back as int);
                run_matches(p@, n@, s + 1, k, m);
                assert(k == back);
            }
        }
        assert(globs(p@, n@) == globs_from(p@, n@, pi as int, ni as int));
    }
    while pi < p.len() && p[pi] == '*'
        invariant
            pi <= p.len(),
            ni == n.len(),
            globs(p@, n@) == globs_from(p@, n@, pi as int, ni as int),
        decreases p.len() - pi,
    {
        pi += 1;
    }
    pi == p.len()
}

/// A `*` at the end of an otherwise literal pattern matches every name that begins with the rest.
pub proof fn a_trailing_star_matches_a_beginning(head: Seq<char>, n: Seq<char>)
    requires
        is_literal(head),
    ensures
        globs(head.push('*'), n) == begins(n, head),
{
    let p = head.push('*');
    let m = head.len() as int;
    assert forall|t: int| 0 <= t < m implies #[trigger] p[0 + t] != '*' && p[0 + t] != '?' by {
        assert(head.contains(head[t]));
    }
    run_matches(p, n, 0, 0, m);
    if m <= n.len() {
        assert(globs_from(p, n, m + 1, n.len() as int));
        assert(globs_from(p, n, m, n.len() as int));
        star_absorbs(p, n, m, m, n.len() as int);
    }
    if fits(p, n, 0, 0, m) {
        assert forall|t: int| 0 <= t < m implies n[t] == head[t] by {
            assert(p[0 + t] == n[0 + t]);
        }
        assert(n.take(m) =~= head);
    }
    if begins(n, head) {
        assert forall|t: int| 0 <= t < m implies (#[trigger] p[0 + t] == '?' || p[0 + t] == n[0
            + t]) by {
            assert(n.take(m)[t] == head[t]);
        }
        assert(fits(p, n, 0, 0, m));
    }
}


/// What a pattern's first character asks for: a plain one asks for itself, a question mark for any
/// one, and a star for nothing or for one more. An empty pattern takes the empty name alone.
pub proof fn a_pattern_is_read_from_the_front(
    p: &str,
    n: &str,
    rest: &str,
    tail: &str,
    whole: bool,
    without: bool,
    both: bool,
    same_star: bool,
)
    requires
        call_ensures(glob_match, (p, n), whole),
        call_ensures(glob_match, (rest, n), without),
        call_ensures(glob_match, (rest, tail), both),
        call_ensures(glob_match, (p, tail), same_star),
        p@.len() > 0 ==> rest@ == p@.skip(1),
        n@.len() > 0 ==> tail@ == n@.skip(1),
    ensures
        p@.len() == 0 ==> (whole <==> n@.len() == 0),
        p@.len() > 0 && p@[0] != '*' && n@.len() == 0 ==> !whole,
        p@.len() > 0 && n@.len() > 0 && p@[0] == '?' ==> whole == both,
        p@.len() > 0 && n@.len() > 0 && p@[0] != '*' && p@[0] != '?' ==> (whole <==> p@[0] == n@[0]
            && both),
        p@.len() > 0 && n@.len() > 0 && p@[0] == '*' ==> (whole <==> without || same_star),
        p@.len() > 0 && n@.len() == 0 && p@[0] == '*' ==> whole == without,
{
    if p@.len() > 0 {
        shifted(p@, n@, 1, 0, 0, 0);
        if n@.len() > 0 {
            shifted(p@, n@, 1, 1, 0, 0);
            shifted(p@, n@, 0, 1, 0, 0);
            assert(p@.skip(0) =~= p@);
        }
        assert(n@.skip(0) =~= n@);
    }
}

proof fn shifted(p: Seq<char>, n: Seq<char>, a: int, b: int, i: int, j: int)
    requires
        0 <= a <= p.len(),
        0 <= b <= n.len(),
        0 <= i,
        0 <= j,
    ensures
        globs_from(p.skip(a), n.skip(b), i, j) == globs_from(p, n, a + i, b + j),
    decreases p.len() - a - i, n.len() - b - j,
{
    if a + i < p.len() {
        assert(p.skip(a)[i] == p[a + i]);
        if b + j < n.len() {
            assert(n.skip(b)[j] == n[b + j]);
        }
        if p[a + i] == '*' {
            shifted(p, n, a, b, i + 1, j);
            if b + j < n.len() {
                shifted(p, n, a, b, i, j + 1);
            }
        } else if b + j < n.len() {
            shifted(p, n, a, b, i + 1, j + 1);
        }
    }
}

} // verus!
