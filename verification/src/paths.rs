//! Relative path normalization, as relative-import resolution uses it: a
//! path is split on `/`, `.` and empty segments vanish, `..` climbs one
//! kept segment, and a path that is absolute or climbs out of its root is
//! rejected.

use vstd::prelude::*;
use crate::cancel::opt_view;
use crate::text::str_eq;

verus! {

/// The segments of `s` split on `/`: the separators vanish, and an empty
/// segment stands where two separators touch or the string starts or ends
/// with one.
pub open spec fn spec_split_slash(s: Seq<char>) -> Seq<Seq<char>>
    decreases s.len(),
{
    if s.len() == 0 {
        seq![Seq::<char>::empty()]
    } else {
        let rest = spec_split_slash(s.drop_last());
        if s.last() == '/' {
            rest.push(Seq::<char>::empty())
        } else {
            rest.update(rest.len() - 1, rest.last().push(s.last()))
        }
    }
}

/// A split is never empty: there is always a segment under construction.
proof fn lemma_split_nonempty(s: Seq<char>)
    ensures
        spec_split_slash(s).len() >= 1,
    decreases s.len(),
{
    if s.len() > 0 {
        lemma_split_nonempty(s.drop_last());
    }
}

/// The kept segments of `segs`, left to right: empty and `.` segments
/// vanish, `..` pops the last kept segment, any other segment is kept;
/// `None` when a `..` finds nothing to pop — the path climbs out of its
/// root.
pub open spec fn spec_normalize_segments(segs: Seq<Seq<char>>) -> Option<Seq<Seq<char>>>
    decreases segs.len(),
{
    if segs.len() == 0 {
        Some(Seq::empty())
    } else {
        match spec_normalize_segments(segs.drop_last()) {
            None => None,
            Some(st) => {
                let s = segs.last();
                if s.len() == 0 || s == "."@ {
                    Some(st)
                } else if s == ".."@ {
                    if st.len() == 0 {
                        None
                    } else {
                        Some(st.drop_last())
                    }
                } else {
                    Some(st.push(s))
                }
            },
        }
    }
}

/// The segments joined with `/`.
pub open spec fn spec_join_slash(segs: Seq<Seq<char>>) -> Seq<char>
    decreases segs.len(),
{
    if segs.len() == 0 {
        Seq::empty()
    } else if segs.len() == 1 {
        segs[0]
    } else {
        spec_join_slash(segs.drop_last()) + seq!['/'] + segs.last()
    }
}

/// What normalizing a relative path yields: `None` for an absolute path or
/// one whose `..` climb out of the root, else the kept segments joined.
pub open spec fn spec_try_normalize(s: Seq<char>) -> Option<Seq<char>> {
    if s.len() > 0 && s[0] == '/' {
        None
    } else {
        match spec_normalize_segments(spec_split_slash(s)) {
            None => None,
            Some(st) => Some(spec_join_slash(st)),
        }
    }
}

/// The views of a vector of strings.
pub open spec fn views_of(v: Seq<String>) -> Seq<Seq<char>> {
    v.map_values(|x: String| x@)
}

fn split_slash(s: &str) -> (r: Vec<String>)
    ensures
        views_of(r@) == spec_split_slash(s@),
{
    let n = s.unicode_len();
    let mut out: Vec<String> = Vec::new();
    let mut seg_start: usize = 0;
    let mut i: usize = 0;
    proof {
        assert(s@.subrange(0, 0) =~= Seq::<char>::empty());
        assert(views_of(out@).push(s@.subrange(0, 0)) =~= spec_split_slash(s@.subrange(0, 0)));
    }
    while i < n
        invariant
            0 <= seg_start <= i <= n,
            n == s@.len(),
            views_of(out@).push(s@.subrange(seg_start as int, i as int)) == spec_split_slash(
                s@.subrange(0, i as int),
            ),
        decreases n - i,
    {
        let c = s.get_char(i);
        proof {
            let pre = s@.subrange(0, i as int);
            let cur = s@.subrange(0, i + 1);
            assert(cur.drop_last() =~= pre);
            assert(cur.last() == s@[i as int]);
            lemma_split_nonempty(pre);
        }
        if c == '/' {
            let ghost premap = views_of(out@);
            let seg = s.substring_char(seg_start, i).to_owned();
            out.push(seg);
            proof {
                assert(views_of(out@) =~= premap.push(s@.subrange(seg_start as int, i as int)));
                assert(s@.subrange(i + 1, i + 1) =~= Seq::<char>::empty());
                assert(views_of(out@).push(s@.subrange(i + 1, i + 1)) =~= spec_split_slash(
                    s@.subrange(0, i + 1),
                ));
            }
            seg_start = i + 1;
        } else {
            proof {
                let m = views_of(out@);
                let pre = s@.subrange(0, i as int);
                assert(spec_split_slash(pre).last() == s@.subrange(
                    seg_start as int,
                    i as int,
                )) by {
                    assert(m.push(s@.subrange(seg_start as int, i as int)).last() == s@.subrange(
                        seg_start as int,
                        i as int,
                    ));
                }
                assert(s@.subrange(seg_start as int, i + 1) =~= s@.subrange(
                    seg_start as int,
                    i as int,
                ).push(s@[i as int]));
                assert(m.push(s@.subrange(seg_start as int, i + 1)) =~= spec_split_slash(
                    s@.subrange(0, i + 1),
                ));
            }
        }
        i = i + 1;
    }
    let last = s.substring_char(seg_start, n).to_owned();
    let ghost premap = views_of(out@);
    out.push(last);
    proof {
        assert(s@.subrange(0, n as int) =~= s@);
        assert(views_of(out@) =~= premap.push(s@.subrange(seg_start as int, n as int)));
    }
    out
}

fn normalize_segments(segs: &Vec<String>) -> (r: Option<Vec<String>>)
    ensures
        match r {
            Some(st) => spec_normalize_segments(views_of(segs@)) == Some(views_of(st@)),
            None => spec_normalize_segments(views_of(segs@)) is None,
        },
{
    let ghost m = views_of(segs@);
    let mut stack: Vec<String> = Vec::new();
    let mut i: usize = 0;
    proof {
        assert(m.subrange(0, 0) =~= Seq::<Seq<char>>::empty());
        assert(views_of(stack@) =~= Seq::<Seq<char>>::empty());
    }
    while i < segs.len()
        invariant
            0 <= i <= segs@.len(),
            m == views_of(segs@),
            spec_normalize_segments(m.subrange(0, i as int)) == Some(views_of(stack@)),
        decreases segs@.len() - i,
    {
        proof {
            let pre = m.subrange(0, i as int);
            let cur = m.subrange(0, i + 1);
            assert(cur.drop_last() =~= pre);
            assert(cur.last() == m[i as int]);
            assert(m[i as int] == segs@[i as int]@);
        }
        let seg = &segs[i];
        if seg.as_str().is_empty() || str_eq(seg.as_str(), ".") {
            proof {
                assert(spec_normalize_segments(m.subrange(0, i + 1)) == Some(views_of(stack@)));
            }
        } else if str_eq(seg.as_str(), "..") {
            let ghost prestack = views_of(stack@);
            match stack.pop() {
                Some(_) => {
                    proof {
                        assert(views_of(stack@) =~= prestack.drop_last());
                    }
                },
                None => {
                    proof {
                        assert(prestack.len() == 0);
                        assert(spec_normalize_segments(m.subrange(0, i + 1)) is None);
                        lemma_none_stays(m, i + 1);
                    }
                    return None;
                },
            }
        } else {
            let ghost prestack = views_of(stack@);
            stack.push(seg.clone());
            proof {
                assert(views_of(stack@) =~= prestack.push(segs@[i as int]@));
            }
        }
        i = i + 1;
    }
    proof {
        assert(m.subrange(0, m.len() as int) =~= m);
    }
    Some(stack)
}

/// Once a prefix of the segments climbs out of the root, every extension
/// does.
proof fn lemma_none_stays(m: Seq<Seq<char>>, k: int)
    requires
        0 <= k <= m.len(),
        spec_normalize_segments(m.subrange(0, k)) is None,
    ensures
        spec_normalize_segments(m) is None,
    decreases m.len() - k,
{
    if k < m.len() {
        let a = m.subrange(0, k);
        let b = m.subrange(0, k + 1);
        assert(b.drop_last() =~= a);
        lemma_none_stays(m, k + 1);
    } else {
        assert(m.subrange(0, k) =~= m);
    }
}

fn join_slash(segs: &Vec<String>) -> (r: String)
    ensures
        r@ == spec_join_slash(views_of(segs@)),
{
    let ghost m = views_of(segs@);
    let mut out = String::new();
    let mut i: usize = 0;
    while i < segs.len()
        invariant
            0 <= i <= segs@.len(),
            m == views_of(segs@),
            out@ == spec_join_slash(m.subrange(0, i as int)),
        decreases segs@.len() - i,
    {
        if i > 0 {
            out.append("/");
        }
        out.append(segs[i].as_str());
        proof {
            let pre = m.subrange(0, i as int);
            let cur = m.subrange(0, i + 1);
            assert(cur.drop_last() =~= pre);
            assert(cur.last() == m[i as int]);
            assert(m[i as int] == segs@[i as int]@);
            reveal_strlit("/");
            if i == 0 {
                assert(out@ =~= spec_join_slash(cur));
            } else {
                assert("/"@ =~= seq!['/']);
                assert(out@ =~= spec_join_slash(cur));
            }
        }
        i = i + 1;
    }
    proof {
        assert(m.subrange(0, m.len() as int) =~= m);
    }
    out
}

/// Normalize a relative path: `.` and empty segments vanish and `..` climbs
/// one segment. An absolute path, or one whose `..` climb out of the root,
/// yields `None`.
pub fn try_normalize(path: &str) -> (r: Option<String>)
    ensures
        opt_view(&r) == spec_try_normalize(path@),
{
    let n = path.unicode_len();
    if n > 0 && path.get_char(0) == '/' {
        return None;
    }
    let segs = split_slash(path);
    let stack = match normalize_segments(&segs) {
        Some(st) => st,
        None => {
            return None;
        },
    };
    Some(join_slash(&stack))
}

} // verus!
