//! The check that the working directory is not under version control yet.

use vstd::prelude::*;
use crate::path::{ancestor_of, join_path, joined_path, segments, split_segments, views};
use crate::text::{append_chars, chars_of, slice_chars, text_of};

verus! {

/// The place of the version-control metadata in the directory that holds
/// the first `k` segments of `dir`.
pub open spec fn marker_of(dir: Seq<char>, k: int) -> Seq<char> {
    joined_path(ancestor_of(dir, k), ".git"@)
}

/// `probe` has given `answer` when asked about `path`.
pub open spec fn answered<F: Fn(&str) -> bool>(probe: F, path: Seq<char>, answer: bool) -> bool {
    exists|p: &str| p@ == path && #[trigger] call_ensures(probe, (p,), answer)
}

/// `probe` has said yes for `dir` or for one of its ancestors.
pub open spec fn said_yes_once<F: Fn(&str) -> bool>(probe: F, dir: Seq<char>) -> bool {
    exists|k: int|
        0 <= k <= segments(dir).len() && #[trigger] answered(probe, marker_of(dir, k), true)
}

/// `probe` has said no for `dir` and for each of its ancestors up to the
/// root.
pub open spec fn said_no_throughout<F: Fn(&str) -> bool>(probe: F, dir: Seq<char>) -> bool {
    forall|k: int|
        0 <= k <= segments(dir).len() ==> #[trigger] answered(probe, marker_of(dir, k), false)
}

/// Where `probe` answers by what stands on disk, with `metadata` the set of
/// places that hold version-control metadata, the check says yes exactly
/// when `dir` or one of its ancestors up to the root holds such metadata.
pub proof fn lemma_check_decides<F: Fn(&str) -> bool>(
    probe: F,
    dir: Seq<char>,
    inside: bool,
    metadata: Set<Seq<char>>,
)
    requires
        forall|p: &str, r: bool| #[trigger] call_ensures(probe, (p,), r) ==> r == metadata.contains(p@),
        inside ==> said_yes_once(probe, dir),
        !inside ==> said_no_throughout(probe, dir),
    ensures
        inside <==> exists|k: int|
            0 <= k <= segments(dir).len() && metadata.contains(#[trigger] marker_of(dir, k)),
{
    if inside {
        let k = choose|k: int|
            0 <= k <= segments(dir).len() && #[trigger] answered(probe, marker_of(dir, k), true);
        assert(metadata.contains(marker_of(dir, k)));
    } else {
        assert forall|k: int| 0 <= k <= segments(dir).len() implies !metadata.contains(
            #[trigger] marker_of(dir, k),
        ) by {
            assert(answered(probe, marker_of(dir, k), false));
        }
    }
}

/// The places where version-control metadata would stand, for `current_dir`
/// first and then for each of its ancestors up to the root.
pub fn git_markers(current_dir: &str) -> (markers: Vec<String>)
    ensures
        markers.len() == segments(current_dir@).len() + 1,
        forall|i: int|
            0 <= i < markers.len() ==> (#[trigger] markers[i])@ == marker_of(
                current_dir@,
                segments(current_dir@).len() - i,
            ),
{
    let chars = chars_of(current_dir);
    let segs = split_segments(&chars);
    let n = segs.len();
    let ghost all = segments(current_dir@);
    // The ancestors from the root down to the directory itself.
    let mut dirs: Vec<Vec<char>> = Vec::new();
    let mut cur: Vec<char> = Vec::new();
    if chars.len() > 0 && chars[0] == '/' {
        cur.push('/');
    }
    proof {
        assert(all.take(0) =~= Seq::<Seq<char>>::empty());
        assert(cur@ =~= ancestor_of(current_dir@, 0));
    }
    dirs.push(slice_chars(&cur, 0, cur.len()));
    proof {
        assert(cur@.subrange(0, cur@.len() as int) =~= cur@);
    }
    let mut k: usize = 0;
    while k < n
        invariant
            k <= n,
            n == segs.len(),
            all == segments(current_dir@),
            views(segs@) == all,
            chars@ == current_dir@,
            cur@ == ancestor_of(current_dir@, k as int),
            dirs.len() == k + 1,
            forall|j: int| 0 <= j <= k ==> (#[trigger] dirs[j])@ == ancestor_of(current_dir@, j),
        decreases n - k,
    {
        proof {
            assert(all.take(k + 1).drop_last() =~= all.take(k as int));
            assert(all.take(k + 1).last() == segs[k as int]@);
            assert(all.take(k as int).len() == k);
        }
        if k > 0 {
            cur.push('/');
        }
        append_chars(&mut cur, &segs[k]);
        k += 1;
        proof {
            assert(cur@ =~= ancestor_of(current_dir@, k as int));
        }
        dirs.push(slice_chars(&cur, 0, cur.len()));
        proof {
            assert(cur@.subrange(0, cur@.len() as int) =~= cur@);
        }
    }
    let mut markers: Vec<String> = Vec::new();
    let mut i: usize = 0;
    while i <= n
        invariant
            i <= n + 1,
            n == segs.len(),
            views(segs@) == segments(current_dir@),
            dirs.len() == n + 1,
            forall|j: int| 0 <= j <= n ==> (#[trigger] dirs[j])@ == ancestor_of(current_dir@, j),
            markers.len() == i,
            forall|j: int|
                0 <= j < i ==> (#[trigger] markers[j])@ == marker_of(current_dir@, n - j),
        decreases n + 1 - i,
    {
        let dir = text_of(&dirs[n - i]);
        let marker = join_path(dir.as_str(), ".git");
        markers.push(marker);
        i += 1;
    }
    markers
}

/// Walks from `current_dir` up through every ancestor and asks `probe`
/// whether version-control metadata stands there. Answers at the first
/// place where `probe` says yes; says no when `probe` said no for the
/// directory and for every ancestor up to the root, and when the working
/// directory is not known.
pub fn is_inside_git_repo<F: Fn(&str) -> bool>(current_dir: Option<&str>, probe: F) -> (inside:
    bool)
    requires
        forall|p: &str| call_requires(probe, (p,)),
    ensures
        match current_dir {
            None => !inside,
            Some(dir) => if inside {
                said_yes_once(probe, dir@)
            } else {
                said_no_throughout(probe, dir@)
            },
        },
{
    let dir = match current_dir {
        Some(d) => d,
        None => {
            return false;
        },
    };
    let markers = git_markers(dir);
    let ghost n = segments(dir@).len() as int;
    let mut i: usize = 0;
    while i < markers.len()
        invariant
            i <= markers.len(),
            current_dir == Some(dir),
            markers.len() == n + 1,
            n == segments(dir@).len(),
            forall|p: &str| call_requires(probe, (p,)),
            forall|j: int|
                0 <= j < markers.len() ==> (#[trigger] markers[j])@ == marker_of(
                    dir@,
                    n - j,
                ),
            forall|k: int|
                n - i < k <= n ==> #[trigger] answered(probe, marker_of(dir@, k), false),
        decreases markers.len() - i,
    {
        let p = markers[i].as_str();
        let found = probe(p);
        proof {
            assert(p@ == marker_of(dir@, n - i));
            assert(answered(probe, marker_of(dir@, n - i), found));
        }
        if found {
            proof {
                assert(0 <= n - i <= n);
                assert(said_yes_once(probe, dir@));
            }
            return true;
        }
        i += 1;
    }
    false
}

} // verus!
