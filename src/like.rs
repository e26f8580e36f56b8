//! Wildcard matching for the Like operator.
use vstd::prelude::*;

use crate::numeric::chars_of;

verus! {

/// Index of the first `c` in `t` at or after `i`, or the length when there is none.
pub open spec fn first_index(t: Seq<char>, c: char, i: nat) -> nat
    decreases t.len() - i,
{
    if i >= t.len() {
        t.len()
    } else if t[i as int] == c {
        i
    } else {
        first_index(t, c, i + 1)
    }
}

/// Whether `t` matches the pattern `p`: '%' matches any run of characters, '_' any one
/// character, and `[abc]` one of the listed characters; an unclosed '[' and every other
/// character match themselves.
pub open spec fn like_match(t: Seq<char>, p: Seq<char>) -> bool
    decreases p.len(), t.len(),
{
    if p.len() == 0 {
        t.len() == 0
    } else if p[0] == '%' {
        like_match(t, p.drop_first()) || (t.len() > 0 && like_match(t.drop_first(), p))
    } else if t.len() == 0 {
        false
    } else if p[0] == '_' {
        like_match(t.drop_first(), p.drop_first())
    } else if p[0] == '[' && first_index(p, ']', 1) < p.len() {
        let k = first_index(p, ']', 1);
        p.subrange(1, k as int).contains(t[0]) && like_match(t.drop_first(), p.skip((k + 1) as int))
    } else {
        p[0] == t[0] && like_match(t.drop_first(), p.drop_first())
    }
}

/// Whether `t[i..]` matches `p[j..]`.
fn like_from(t: &Vec<char>, i: usize, p: &Vec<char>, j: usize) -> (r: bool)
    requires
        i <= t@.len(),
        j <= p@.len(),
    ensures
        r == like_match(t@.skip(i as int), p@.skip(j as int)),
    decreases p@.len() - j, t@.len() - i,
{
    let ghost ts = t@.skip(i as int);
    let ghost ps = p@.skip(j as int);
    if j == p.len() {
        return i == t.len();
    }
    assert(ps[0] == p@[j as int]);
    assert(ps.drop_first() =~= p@.skip(j + 1));
    if p[j] == '%' {
        if like_from(t, i, p, j + 1) {
            return true;
        }
        if i == t.len() {
            return false;
        }
        assert(ts.drop_first() =~= t@.skip(i + 1));
        return like_from(t, i + 1, p, j);
    }
    if i == t.len() {
        return false;
    }
    assert(ts[0] == t@[i as int]);
    assert(ts.drop_first() =~= t@.skip(i + 1));
    let c = t[i];
    if p[j] == '_' {
        return like_from(t, i + 1, p, j + 1);
    }
    if p[j] == '[' {
        let mut k: usize = j + 1;
        while k < p.len() && p[k] != ']'
            invariant
                j < k <= p@.len(),
                ps == p@.skip(j as int),
                first_index(ps, ']', 1) == first_index(ps, ']', (k - j) as nat),
            decreases p@.len() - k,
        {
            assert(ps[k - j] == p@[k as int]);
            k = k + 1;
        }
        assert(first_index(ps, ']', 1) == k - j) by {
            if k < p.len() {
                assert(ps[k - j] == p@[k as int]);
            }
        }
        if k < p.len() {
            let ghost class = ps.subrange(1, (k - j) as int);
            assert(class =~= p@.subrange(j + 1, k as int));
            let mut m: usize = j + 1;
            let mut found = false;
            while m < k
                invariant
                    j < m <= k < p@.len(),
                    found == p@.subrange(j + 1, m as int).contains(c),
                decreases k - m,
            {
                let ghost before = p@.subrange(j + 1, m as int);
                let ghost after = p@.subrange(j + 1, m + 1);
                assert(after =~= before.push(p@[m as int]));
                if p[m] == c {
                    assert(after[m - j - 1] == c);
                    found = true;
                } else if found {
                    let ghost w = choose|w: int| 0 <= w < before.len() && before[w] == c;
                    assert(after[w] == c);
                } else {
                    assert forall|w: int| 0 <= w < after.len() implies after[w] != c by {
                        if w < before.len() {
                            assert(after[w] == before[w]);
                        }
                    }
                }
                m = m + 1;
            }
            if !found {
                return false;
            }
            assert(ps.skip((k - j + 1) as int) =~= p@.skip(k + 1));
            return like_from(t, i + 1, p, k + 1);
        }
    }
    if p[j] != c {
        return false;
    }
    like_from(t, i + 1, p, j + 1)
}

/// Whether the text `s` matches the pattern `p`, as `like_match` describes.
pub fn like_exec(s: &String, p: &String) -> (r: bool)
    ensures
        r == like_match(s@, p@),
{
    let t = chars_of(s);
    let q = chars_of(p);
    assert(t@.skip(0) =~= t@);
    assert(q@.skip(0) =~= q@);
    like_from(&t, 0, &q, 0)
}

} // verus!
