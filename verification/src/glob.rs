use vstd::prelude::*;

use crate::text::{
    chars_of, ends_with_seq, find_from, matches_at, occurs_at, split, split_seq, starts_with,
    starts_with_seq, views,
};

verus! {

/// `t` is made of the texts `ps`, in order, each preceded by any text, and the
/// last one ends `t`: `t` lies in `Σ* ps[0] Σ* ps[1] … Σ* ps[last]`.
pub open spec fn tail_matches(ps: Seq<Seq<char>>, t: Seq<char>) -> bool
    decreases ps.len(),
{
    if ps.len() <= 1 {
        ps.len() == 0 || ends_with_seq(t, ps[0])
    } else {
        exists|i: int|
            #[trigger] occurs_at(t, ps[0], i) && tail_matches(
                ps.drop_first(),
                t.skip(i + ps[0].len()),
            )
    }
}

/// `s` matches the pattern whose text between its `*`s is `ps`: with one
/// part, `s` is that part; otherwise `s` is `ps[0] Σ* ps[1] … Σ* ps[last]`.
pub open spec fn parts_match(ps: Seq<Seq<char>>, s: Seq<char>) -> bool {
    if ps.len() <= 1 {
        ps.len() == 1 && s == ps[0]
    } else {
        starts_with_seq(s, ps[0]) && tail_matches(ps.drop_first(), s.skip(ps[0].len() as int))
    }
}

/// `s` matches the glob `pattern`, in which `*` stands for any text
/// (possibly empty) and every other character stands for itself.
pub open spec fn glob_matches(pattern: Seq<char>, s: Seq<char>) -> bool {
    parts_match(split_seq(pattern, seq!['*']), s)
}

/// A match of the later parts in a suffix of `t` is also one in any longer
/// suffix of `t`.
proof fn lemma_tail_matches_longer(ps: Seq<Seq<char>>, t: Seq<char>, i: int, j: int)
    requires
        0 <= i <= j <= t.len(),
        tail_matches(ps, t.skip(j)),
    ensures
        tail_matches(ps, t.skip(i)),
{
    let u = t.skip(j);
    let v = t.skip(i);
    if ps.len() == 1 {
        let p = ps[0];
        assert(v.subrange(v.len() - p.len(), v.len() as int) =~= u.subrange(
            u.len() - p.len(),
            u.len() as int,
        ));
    } else if ps.len() > 1 {
        let p = ps[0];
        assert(exists|w: int|
            #[trigger] occurs_at(u, p, w) && tail_matches(ps.drop_first(), u.skip(w + p.len())));
        let w = choose|w: int|
            #[trigger] occurs_at(u, p, w) && tail_matches(ps.drop_first(), u.skip(w + p.len()));
        let w2 = w + (j - i);
        assert(v.subrange(w2, w2 + p.len()) =~= u.subrange(w, w + p.len()));
        assert(v.skip(w2 + p.len()) =~= u.skip(w + p.len()));
        assert(occurs_at(v, p, w2));
        assert(tail_matches(ps.drop_first(), v.skip(w2 + p.len())));
    }
}

/// Matching the first of several parts at its leftmost occurrence loses no
/// match.
proof fn lemma_leftmost_suffices(ps: Seq<Seq<char>>, t: Seq<char>, lo: int)
    requires
        ps.len() >= 2,
        occurs_at(t, ps[0], lo),
        forall|j: int| 0 <= j < lo ==> !occurs_at(t, ps[0], j),
    ensures
        tail_matches(ps, t) == tail_matches(ps.drop_first(), t.skip(lo + ps[0].len())),
{
    let p = ps[0];
    if tail_matches(ps, t) {
        let w = choose|w: int|
            #[trigger] occurs_at(t, p, w) && tail_matches(ps.drop_first(), t.skip(w + p.len()));
        assert(lo <= w);
        lemma_tail_matches_longer(ps.drop_first(), t, lo + p.len(), w + p.len());
    }
    if tail_matches(ps.drop_first(), t.skip(lo + p.len())) {
        assert(occurs_at(t, p, lo));
    }
}

proof fn lemma_occurs_in_suffix(t: Seq<char>, p: Seq<char>, pos: int, j: int)
    requires
        0 <= pos <= t.len(),
        0 <= j,
    ensures
        occurs_at(t.skip(pos), p, j) == occurs_at(t, p, pos + j),
{
    if j + p.len() <= t.len() - pos {
        assert(t.skip(pos).subrange(j, j + p.len()) =~= t.subrange(pos + j, pos + j + p.len()));
    }
}

/// Whether `s` matches the glob `pattern` (`*` stands for any text).
pub fn glob_match(pattern: &str, s: &str) -> (b: bool)
    ensures
        b == glob_matches(pattern@, s@),
{
    let p = chars_of(pattern);
    let t = chars_of(s);
    let star: Vec<char> = vec!['*'];
    assert(star@ =~= seq!['*']);
    let parts = split(&p, &star);
    let ghost ps = views(parts@);
    if parts.len() == 1 {
        let r = t.len() == parts[0].len() && matches_at(&t, &parts[0], 0);
        proof {
            assert(ps[0] == parts[0]@);
            if t.len() == parts[0].len() {
                assert(t@.subrange(0, t@.len() as int) =~= t@);
            }
        }
        return r;
    }
    if !starts_with(&t, &parts[0]) {
        return false;
    }
    let mut pos: usize = parts[0].len();
    let mut i: usize = 1;
    proof {
        assert(ps.drop_first() =~= ps.skip(1));
    }
    while i < parts.len()
        invariant
            ps == views(parts@),
            ps == split_seq(pattern@, seq!['*']),
            ps.len() >= 2,
            1 <= i <= parts.len(),
            pos <= t.len(),
            t@ == s@,
            glob_matches(pattern@, s@) == tail_matches(ps.skip(i as int), t@.skip(pos as int)),
        decreases parts.len() - i,
    {
        let ghost qs = ps.skip(i as int);
        let ghost u = t@.skip(pos as int);
        assert(qs[0] == parts[i as int]@);
        if i == parts.len() - 1 {
            let part = &parts[i];
            if part.len() > t.len() - pos {
                return false;
            }
            let r = matches_at(&t, part, t.len() - part.len());
            proof {
                assert(u.subrange(u.len() - part@.len(), u.len() as int) =~= t@.subrange(
                    t.len() - part@.len(),
                    t.len() as int,
                ));
            }
            return r;
        }
        match find_from(&t, &parts[i], pos) {
            Some(idx) => {
                proof {
                    let lo = idx - pos;
                    lemma_occurs_in_suffix(t@, qs[0], pos as int, lo);
                    assert forall|j: int| 0 <= j < lo implies !occurs_at(u, qs[0], j) by {
                        lemma_occurs_in_suffix(t@, qs[0], pos as int, j);
                    }
                    lemma_leftmost_suffices(qs, u, lo);
                    assert(u.skip(lo + qs[0].len()) =~= t@.skip(idx + qs[0].len()));
                    assert(qs.drop_first() =~= ps.skip(i + 1));
                }
                pos = idx + parts[i].len();
            },
            None => {
                proof {
                    assert forall|j: int| occurs_at(u, qs[0], j) implies false by {
                        lemma_occurs_in_suffix(t@, qs[0], pos as int, j);
                    }
                }
                return false;
            },
        }
        i = i + 1;
    }
    true
}

} // verus!
