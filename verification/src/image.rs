//! Detection of high-density "retina" icon paths: a file whose stem ends in
//! `@2x`, per the platform convention for high-resolution images.
use vstd::prelude::*;

use crate::file::{parent_seg, path_segments};

verus! {

/// The index of the last `.` in `name.take(k)`, or -1 if there is none.
pub open spec fn last_dot_before(name: Seq<char>, k: int) -> int
    decreases k,
{
    if k <= 0 {
        -1
    } else if name[k - 1] == '.' {
        k - 1
    } else {
        last_dot_before(name, k - 1)
    }
}

/// What `std::path::Path::file_stem` keeps of a file name: everything before
/// the last `.`, unless that would leave nothing.
pub open spec fn stem_spec(name: Seq<char>) -> Seq<char> {
    let d = last_dot_before(name, name.len() as int);
    if d <= 0 {
        name
    } else {
        name.take(d)
    }
}

pub open spec fn ends_with(s: Seq<char>, suffix: Seq<char>) -> bool {
    s.len() >= suffix.len() && s.skip(s.len() - suffix.len()) == suffix
}

/// Whether the path names a file whose stem ends with `@2x`.
pub open spec fn is_retina_spec(s: Seq<char>) -> bool {
    let segs = path_segments(s);
    if segs.len() == 0 {
        false
    } else if segs.last() == parent_seg() {
        false
    } else {
        ends_with(stem_spec(segs.last()), seq!['@', '2', 'x'])
    }
}

proof fn lemma_last_dot_at(name: Seq<char>, k: int, d: int)
    requires
        -1 <= d < k <= name.len(),
        d >= 0 ==> name[d] == '.',
        forall|j: int| d < j < k ==> name[j] != '.',
    ensures
        last_dot_before(name, k) == d,
    decreases k,
{
    if k <= 0 {
    } else if k - 1 == d {
    } else {
        assert(name[k - 1] != '.');
        lemma_last_dot_at(name, k - 1, d);
    }
}

/// Returns true if the path has a filename indicating that it is a
/// high-density "retina" icon: the file stem ends with `@2x`.
pub fn is_retina(path: &str) -> (r: bool)
    ensures
        r == is_retina_spec(path@),
{
    let segs = crate::file::path_segments_vec(path);
    if segs.len() == 0 {
        return false;
    }
    let name = &segs[segs.len() - 1];
    let ghost nv = name@;
    proof {
        assert(segs.deep_view().last() == nv);
    }
    let parent = String::from_str("..");
    proof {
        reveal_strlit("..");
        assert(parent@ =~= parent_seg());
    }
    if name.eq(&parent) {
        return false;
    }
    let m = name.as_str().unicode_len();
    let mut k: usize = m;
    let mut dot_at: usize = 0;
    let mut found = false;
    while k > 0 && !found
        invariant
            m == nv.len(),
            nv == name@,
            k <= m,
            !found ==> forall|j: int| k <= j < m ==> nv[j] != '.',
            found ==> dot_at < m && nv[dot_at as int] == '.' && (forall|j: int|
                dot_at < j < m ==> nv[j] != '.'),
        decreases k,
    {
        if name.as_str().get_char(k - 1) == '.' {
            dot_at = k - 1;
            found = true;
        }
        k = k - 1;
    }
    let stem_end: usize = if !found || dot_at == 0 {
        m
    } else {
        dot_at
    };
    proof {
        if found {
            lemma_last_dot_at(nv, m as int, dot_at as int);
        } else {
            lemma_last_dot_at(nv, m as int, -1);
        }
        assert(stem_spec(nv).len() == stem_end);
        assert(forall|j: int| 0 <= j < stem_end ==> stem_spec(nv)[j] == nv[j]);
    }
    if stem_end < 3 {
        proof {
            assert(!ends_with(stem_spec(nv), seq!['@', '2', 'x']));
        }
        return false;
    }
    let r = name.as_str().get_char(stem_end - 3) == '@' && name.as_str().get_char(stem_end - 2)
        == '2' && name.as_str().get_char(stem_end - 1) == 'x';
    proof {
        let suffix = stem_spec(nv).skip(stem_end - 3);
        assert(suffix.len() == 3);
        assert(suffix[0] == nv[stem_end - 3]);
        assert(suffix[1] == nv[stem_end - 2]);
        assert(suffix[2] == nv[stem_end - 1]);
        if r {
            assert(suffix =~= seq!['@', '2', 'x']);
        } else {
            assert(suffix != seq!['@', '2', 'x']) by {
                if suffix == seq!['@', '2', 'x'] {
                    assert(suffix[0] == '@' && suffix[1] == '2' && suffix[2] == 'x');
                }
            }
        }
    }
    r
}

} // verus!
