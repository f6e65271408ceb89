//! The path normalizer: maps arbitrary Unix-syntax paths (absolute, relative,
//! with `.` and `..` segments) to relative paths that are safe to embed under
//! a fixed resource root, plus the segment model of a path that the rest of
//! the crate shares.
use vstd::prelude::*;

use crate::text::{join_spec, lemma_join_push};

verus! {

pub open spec fn dot_seg() -> Seq<char> {
    seq!['.']
}

pub open spec fn parent_seg() -> Seq<char> {
    seq!['.', '.']
}

pub open spec fn up_marker() -> Seq<char> {
    seq!['_', 'u', 'p', '_']
}

pub open spec fn root_marker() -> Seq<char> {
    seq!['_', 'r', 'o', 'o', 't', '_']
}

/// A finished segment is kept unless it is empty or a bare `.`, matching how
/// `std::path::Path::components` normalizes a path.
pub open spec fn keep_seg(cur: Seq<char>) -> Seq<Seq<char>> {
    if cur.len() == 0 || cur == dot_seg() {
        Seq::empty()
    } else {
        seq![cur]
    }
}

pub open spec fn segs_acc(s: Seq<char>, cur: Seq<char>) -> Seq<Seq<char>>
    decreases s.len(),
{
    if s.len() == 0 {
        keep_seg(cur)
    } else if s[0] == '/' {
        keep_seg(cur) + segs_acc(s.skip(1), Seq::empty())
    } else {
        segs_acc(s.skip(1), cur.push(s[0]))
    }
}

/// The normal and parent-reference segments of a path: split on `/`, with
/// empty and `.` segments dropped.
pub open spec fn path_segments(s: Seq<char>) -> Seq<Seq<char>> {
    segs_acc(s, Seq::empty())
}

/// Each parent reference is rewritten to the `_up_` sentinel; everything else
/// passes through unchanged.
pub open spec fn map_seg(g: Seq<char>) -> Seq<char> {
    if g == parent_seg() {
        up_marker()
    } else {
        g
    }
}

/// The segments of the normalized path: a `_root_` sentinel for a leading
/// root indicator, then the path's own segments with `..` rewritten.
pub open spec fn normalized_parts(s: Seq<char>) -> Seq<Seq<char>> {
    (if s.len() > 0 && s[0] == '/' {
        seq![root_marker()]
    } else {
        Seq::empty()
    }) + path_segments(s).map_values(|g: Seq<char>| map_seg(g))
}

pub open spec fn normalized_path(s: Seq<char>) -> Seq<char> {
    join_spec(normalized_parts(s), seq!['/'])
}

/// Splits a path into its segments, dropping empty and `.` segments.
pub fn path_segments_vec(path: &str) -> (r: Vec<String>)
    ensures
        r.deep_view() == path_segments(path@),
{
    let n = path.unicode_len();
    let mut out: Vec<String> = Vec::new();
    let mut cur = String::new();
    let dot = String::from_str(".");
    proof {
        reveal_strlit(".");
        assert(dot@ =~= dot_seg());
        assert(path@.skip(0) =~= path@);
        assert(out.deep_view() =~= Seq::<Seq<char>>::empty());
        assert(path_segments(path@) =~= out.deep_view() + segs_acc(path@.skip(0), cur@));
    }
    let mut i: usize = 0;
    while i < n
        invariant
            n == path@.len(),
            i <= n,
            dot@ == dot_seg(),
            path_segments(path@) =~= out.deep_view() + segs_acc(path@.skip(i as int), cur@),
        decreases n - i,
    {
        let ghost out0 = out.deep_view();
        let ghost cur0 = cur@;
        let c = path.get_char(i);
        proof {
            assert(path@.skip(i as int)[0] == path@[i as int]);
            assert(path@.skip(i as int).skip(1) =~= path@.skip(i + 1));
        }
        if c == '/' {
            if cur.unicode_len() > 0 && !cur.eq(&dot) {
                out.push(cur);
                proof {
                    assert(keep_seg(cur0) =~= seq![cur0]);
                    assert(out.deep_view() =~= out0.push(cur0));
                    assert(out.deep_view() =~= out0 + keep_seg(cur0));
                }
            } else {
                proof {
                    assert(keep_seg(cur0) =~= Seq::<Seq<char>>::empty());
                    assert(out.deep_view() =~= out0 + keep_seg(cur0));
                }
            }
            cur = String::new();
            proof {
                assert(segs_acc(path@.skip(i as int), cur0) == keep_seg(cur0) + segs_acc(
                    path@.skip(i + 1),
                    Seq::<char>::empty(),
                ));
                assert(path_segments(path@) =~= out.deep_view() + segs_acc(
                    path@.skip(i + 1),
                    cur@,
                ));
            }
        } else {
            let piece = path.substring_char(i, i + 1);
            cur.append(piece);
            proof {
                assert(piece@ =~= seq![path@[i as int]]);
                assert(cur@ =~= cur0.push(path@[i as int]));
                assert(path_segments(path@) =~= out.deep_view() + segs_acc(
                    path@.skip(i + 1),
                    cur@,
                ));
            }
        }
        i = i + 1;
    }
    proof {
        assert(path@.skip(n as int) =~= Seq::<char>::empty());
    }
    let ghost out0 = out.deep_view();
    let ghost curg = cur@;
    if cur.unicode_len() > 0 && !cur.eq(&dot) {
        out.push(cur);
        proof {
            assert(keep_seg(curg) =~= seq![curg]);
            assert(out.deep_view() =~= out0.push(curg));
            assert(out.deep_view() =~= out0 + keep_seg(curg));
        }
    } else {
        proof {
            assert(keep_seg(curg) =~= Seq::<Seq<char>>::empty());
            assert(out.deep_view() =~= out0 + keep_seg(curg));
        }
    }
    proof {
        assert(out.deep_view() =~= path_segments(path@));
    }
    out
}

/// Given a path (absolute or relative) to a resource file, returns the
/// relative path from the bundle resources directory where that resource
/// should be stored.
pub fn resource_relpath(path: &str) -> (r: String)
    ensures
        r@ == normalized_path(path@),
{
    let segs = path_segments_vec(path);
    let parent = String::from_str("..");
    let ghost mapped = path_segments(path@).map_values(|g: Seq<char>| map_seg(g));
    let mut out = String::new();
    let mut has_parts = false;
    let ghost mut parts: Seq<Seq<char>> = Seq::empty();
    proof {
        reveal_strlit("..");
        assert(parent@ =~= parent_seg());
    }
    if path.unicode_len() > 0 && path.get_char(0) == '/' {
        out.append("_root_");
        has_parts = true;
        proof {
            reveal_strlit("_root_");
            assert(out@ =~= root_marker());
            parts = seq![root_marker()];
            assert(out@ =~= join_spec(parts, seq!['/']));
        }
    } else {
        proof {
            assert(out@ =~= join_spec(parts, seq!['/']));
        }
    }
    proof {
        assert(normalized_parts(path@) =~= parts + mapped);
    }
    let mut i: usize = 0;
    while i < segs.len()
        invariant
            i <= segs@.len(),
            segs.deep_view().len() == segs@.len(),
            forall|j: int| 0 <= j < segs@.len() ==> segs.deep_view()[j] == segs@[j]@,
            parent@ == parent_seg(),
            mapped == segs.deep_view().map_values(|g: Seq<char>| map_seg(g)),
            normalized_parts(path@) == parts + mapped,
            has_parts == (parts.len() > 0),
            out@ =~= join_spec(parts + mapped.take(i as int), seq!['/']),
        decreases segs@.len() - i,
    {
        let ghost parts0 = parts + mapped.take(i as int);
        if has_parts || i > 0 {
            out.append("/");
            proof {
                reveal_strlit("/");
            }
        }
        if segs[i].eq(&parent) {
            out.append("_up_");
            proof {
                reveal_strlit("_up_");
            }
        } else {
            out.append(segs[i].as_str());
        }
        i = i + 1;
        proof {
            assert(mapped[i - 1] == map_seg(segs.deep_view()[i - 1]));
            assert(mapped.take(i as int) =~= mapped.take(i - 1).push(mapped[i - 1]));
            assert(parts + mapped.take(i as int) =~= parts0.push(mapped[i - 1]));
            lemma_join_push(parts0, seq!['/'], mapped[i - 1]);
            if parts0.len() == 0 {
                assert(out@ =~= join_spec(parts + mapped.take(i as int), seq!['/']));
            } else {
                assert(out@ =~= join_spec(parts0, seq!['/']) + seq!['/'] + mapped[i - 1]);
                assert(out@ =~= join_spec(parts + mapped.take(i as int), seq!['/']));
            }
        }
    }
    proof {
        assert(mapped.take(mapped.len() as int) =~= mapped);
        assert(out@ =~= normalized_path(path@));
    }
    out
}

// ---------- the normalizer never lets a path escape its root ----------

proof fn lemma_segs_acc_elements(s: Seq<char>, cur: Seq<char>)
    requires
        !cur.contains('/'),
    ensures
        forall|k: int|
            0 <= k < segs_acc(s, cur).len() ==> (#[trigger] segs_acc(s, cur)[k]).len() > 0
                && segs_acc(s, cur)[k] != dot_seg() && !segs_acc(s, cur)[k].contains('/'),
    decreases s.len(),
{
    if s.len() == 0 {
        if cur.len() == 0 || cur == dot_seg() {
        } else {
            assert(segs_acc(s, cur) =~= seq![cur]);
            assert(segs_acc(s, cur)[0] == cur);
        }
    } else if s[0] == '/' {
        lemma_segs_acc_elements(s.skip(1), Seq::empty());
        let rest = segs_acc(s.skip(1), Seq::<char>::empty());
        assert forall|k: int| 0 <= k < segs_acc(s, cur).len() implies (#[trigger] segs_acc(
            s,
            cur,
        )[k]).len() > 0 && segs_acc(s, cur)[k] != dot_seg() && !segs_acc(s, cur)[k].contains(
            '/',
        ) by {
            if k < keep_seg(cur).len() {
                assert(keep_seg(cur)[k] == cur);
                assert(segs_acc(s, cur)[k] == cur);
            } else {
                assert(segs_acc(s, cur)[k] == rest[k - keep_seg(cur).len()]);
            }
        }
    } else {
        assert(!cur.push(s[0]).contains('/')) by {
            assert(forall|k: int|
                0 <= k < cur.push(s[0]).len() ==> cur.push(s[0])[k] != '/');
        }
        lemma_segs_acc_elements(s.skip(1), cur.push(s[0]));
        assert(segs_acc(s, cur) == segs_acc(s.skip(1), cur.push(s[0])));
        assert forall|k: int| 0 <= k < segs_acc(s, cur).len() implies (#[trigger] segs_acc(
            s,
            cur,
        )[k]).len() > 0 && segs_acc(s, cur)[k] != dot_seg() && !segs_acc(s, cur)[k].contains(
            '/',
        ) by {
            assert(segs_acc(s, cur)[k] == segs_acc(s.skip(1), cur.push(s[0]))[k]);
        }
    }
}

proof fn lemma_segs_acc_noslash(s: Seq<char>, cur: Seq<char>)
    requires
        !s.contains('/'),
    ensures
        segs_acc(s, cur) == keep_seg(cur + s),
    decreases s.len(),
{
    if s.len() == 0 {
        assert(cur + s =~= cur);
    } else {
        assert(s[0] != '/');
        assert(!s.skip(1).contains('/')) by {
            assert(forall|k: int| 0 <= k < s.skip(1).len() ==> s.skip(1)[k] != '/');
        }
        lemma_segs_acc_noslash(s.skip(1), cur.push(s[0]));
        assert(cur.push(s[0]) + s.skip(1) =~= cur + s);
    }
}

proof fn lemma_segs_acc_split(x: Seq<char>, rest: Seq<char>, cur: Seq<char>)
    requires
        !x.contains('/'),
    ensures
        segs_acc(x + seq!['/'] + rest, cur) == keep_seg(cur + x) + segs_acc(rest, Seq::empty()),
    decreases x.len(),
{
    if x.len() == 0 {
        assert(x + seq!['/'] + rest =~= seq!['/'] + rest);
        assert((seq!['/'] + rest)[0] == '/');
        assert((seq!['/'] + rest).skip(1) =~= rest);
        assert(cur + x =~= cur);
    } else {
        assert(x[0] != '/');
        let s = x + seq!['/'] + rest;
        assert(s[0] == x[0]);
        assert(s.len() > 0);
        assert(!x.skip(1).contains('/')) by {
            assert(forall|k: int| 0 <= k < x.skip(1).len() ==> x.skip(1)[k] != '/');
        }
        lemma_segs_acc_split(x.skip(1), rest, cur.push(x[0]));
        assert(s.skip(1) =~= x.skip(1) + seq!['/'] + rest);
        assert(cur.push(x[0]) + x.skip(1) =~= cur + x);
    }
}

proof fn lemma_join_segments(parts: Seq<Seq<char>>)
    requires
        forall|k: int|
            0 <= k < parts.len() ==> (#[trigger] parts[k]).len() > 0 && parts[k] != dot_seg()
                && !parts[k].contains('/'),
    ensures
        path_segments(join_spec(parts, seq!['/'])) == parts,
    decreases parts.len(),
{
    if parts.len() == 0 {
        assert(path_segments(Seq::<char>::empty()) =~= Seq::<Seq<char>>::empty());
    } else if parts.len() == 1 {
        lemma_segs_acc_noslash(parts[0], Seq::empty());
        assert(Seq::<char>::empty() + parts[0] =~= parts[0]);
        assert(keep_seg(parts[0]) =~= seq![parts[0]]);
        assert(path_segments(join_spec(parts, seq!['/'])) =~= parts);
    } else {
        let rest = parts.drop_first();
        lemma_join_segments(rest);
        lemma_segs_acc_split(parts[0], join_spec(rest, seq!['/']), Seq::empty());
        assert(join_spec(parts, seq!['/']) =~= parts[0] + seq!['/'] + join_spec(rest, seq!['/']));
        assert(Seq::<char>::empty() + parts[0] =~= parts[0]);
        assert(keep_seg(parts[0]) =~= seq![parts[0]]);
        assert(path_segments(join_spec(parts, seq!['/'])) =~= seq![parts[0]] + rest);
        assert(seq![parts[0]] + rest =~= parts);
    }
}

/// The normalized path never escapes the root it is embedded under: none of
/// its segments is a parent reference.
pub proof fn lemma_relpath_never_escapes(s: Seq<char>)
    ensures
        forall|k: int|
            0 <= k < path_segments(normalized_path(s)).len()
                ==> #[trigger] path_segments(normalized_path(s))[k] != parent_seg(),
{
    let parts = normalized_parts(s);
    lemma_segs_acc_elements(s, Seq::empty());
    assert forall|k: int| 0 <= k < parts.len() implies (#[trigger] parts[k]).len() > 0
        && parts[k] != dot_seg() && !parts[k].contains('/') && parts[k] != parent_seg() by {
        let segs = path_segments(s).map_values(|g: Seq<char>| map_seg(g));
        if s.len() > 0 && s[0] == '/' {
            if k == 0 {
                assert(parts[0] == root_marker());
                assert(!root_marker().contains('/')) by {
                    assert(forall|j: int|
                        0 <= j < root_marker().len() ==> root_marker()[j] != '/');
                }
            } else {
                assert(parts[k] == segs[k - 1]);
                assert(segs[k - 1] == map_seg(path_segments(s)[k - 1]));
                lemma_map_seg_ok(path_segments(s)[k - 1]);
            }
        } else {
            assert(parts =~= segs);
            assert(parts[k] == map_seg(path_segments(s)[k]));
            lemma_map_seg_ok(path_segments(s)[k]);
        }
    }
    lemma_join_segments(parts);
}

proof fn lemma_map_seg_ok(g: Seq<char>)
    requires
        g.len() > 0,
        g != dot_seg(),
        !g.contains('/'),
    ensures
        map_seg(g).len() > 0,
        map_seg(g) != dot_seg(),
        !map_seg(g).contains('/'),
        map_seg(g) != parent_seg(),
{
    if g == parent_seg() {
        assert(map_seg(g) == up_marker());
        assert(!up_marker().contains('/')) by {
            assert(forall|j: int| 0 <= j < up_marker().len() ==> up_marker()[j] != '/');
        }
        assert(up_marker() != parent_seg());
        assert(up_marker() != dot_seg());
    }
}

} // verus!
