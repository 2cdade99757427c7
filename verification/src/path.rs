//! Directory paths as text: their segments, their final component, their
//! ancestors. `/` separates the segments.

use vstd::prelude::*;
use crate::text::{
    append_chars, chars_of, is_word, joined_by, lemma_single_word, lemma_words_clean, slice_chars, text_of,
    words_by,
};

verus! {

/// Holds of the separator of path segments.
pub open spec fn slash() -> spec_fn(char) -> bool {
    |c: char| c == '/'
}

/// The non-empty pieces of `path` between its separators, in order.
pub open spec fn segments(path: Seq<char>) -> Seq<Seq<char>> {
    words_by(path, slash())
}

/// The path starts at the root of the file system.
pub open spec fn rooted(path: Seq<char>) -> bool {
    path.len() > 0 && path[0] == '/'
}

/// The last segment that is not `.`, unless that segment is `..` or there is
/// none.
pub open spec fn last_named(segs: Seq<Seq<char>>) -> Option<Seq<char>>
    decreases segs.len(),
{
    if segs.len() == 0 {
        None
    } else if segs.last() == seq!['.'] {
        last_named(segs.drop_last())
    } else if segs.last() == seq!['.', '.'] {
        None
    } else {
        Some(segs.last())
    }
}

/// The final component of a path: its last segment, where trailing
/// separators and `.` segments do not count. The root, the empty path, `.`
/// and a path that ends in `..` have none.
pub open spec fn final_name(path: Seq<char>) -> Option<Seq<char>> {
    last_named(segments(path))
}

/// `name` put under `base`: a separator comes between them unless `base` is
/// empty or ends in one. A rooted `name` stands for itself.
pub open spec fn joined_path(base: Seq<char>, name: Seq<char>) -> Seq<char> {
    if rooted(name) {
        name
    } else if base.len() > 0 && base.last() != '/' {
        base + seq!['/'] + name
    } else {
        base + name
    }
}

/// The directory that holds the first `k` segments of `path`: `path` itself
/// for all of them, its parent for one less, the root (or, for a path that
/// is not rooted, the empty path) for none.
pub open spec fn ancestor_of(path: Seq<char>, k: int) -> Seq<char> {
    (if rooted(path) {
        seq!['/']
    } else {
        Seq::<char>::empty()
    }) + joined_by(segments(path).take(k), '/')
}

/// What is picked as the final component is one of the segments, and is
/// neither `.` nor `..`.
pub proof fn lemma_last_named_member(segs: Seq<Seq<char>>)
    ensures
        last_named(segs) matches Some(n) ==> n != seq!['.'] && n != seq!['.', '.'] && exists|i: int|
            0 <= i < segs.len() && segs[i] == n,
    decreases segs.len(),
{
    if segs.len() > 0 {
        if segs.last() == seq!['.'] {
            lemma_last_named_member(segs.drop_last());
            if let Some(n) = last_named(segs) {
                let i = choose|i: int| 0 <= i < segs.drop_last().len() && segs.drop_last()[i] == n;
                assert(segs[i] == n);
            }
        } else if segs.last() != seq!['.', '.'] {
            assert(segs[segs.len() - 1] == segs.last());
        }
    }
}

/// The final component of a path is a path of its own, whose final
/// component is itself.
pub proof fn lemma_final_name_stable(path: Seq<char>)
    ensures
        final_name(path) matches Some(n) ==> n != seq!['.'] && segments(n) == seq![n]
            && final_name(n) == Some(n),
{
    if let Some(n) = final_name(path) {
        let segs = segments(path);
        lemma_last_named_member(segs);
        let i = choose|i: int| 0 <= i < segs.len() && segs[i] == n;
        lemma_words_clean(path, slash());
        assert(is_word(segs[i], slash()));
        lemma_single_word(n, slash());
        assert(seq![n].last() == n);
    }
}

/// The sequences that the vectors hold.
pub open spec fn views(v: Seq<Vec<char>>) -> Seq<Seq<char>> {
    v.map_values(|w: Vec<char>| w@)
}

/// Splits a path into its segments.
pub fn split_segments(path: &Vec<char>) -> (segs: Vec<Vec<char>>)
    ensures
        views(segs@) == segments(path@),
{
    let mut segs: Vec<Vec<char>> = Vec::new();
    let mut cur: Vec<char> = Vec::new();
    let mut i: usize = 0;
    proof {
        assert(views(segs@) =~= segments(path@.take(0)));
    }
    while i < path.len()
        invariant
            i <= path.len(),
            cur@.len() > 0 <==> (i > 0 && path@[i - 1] != '/'),
            cur@.len() == 0 ==> views(segs@) == segments(path@.take(i as int)),
            cur@.len() > 0 ==> views(segs@).push(cur@) == segments(path@.take(i as int)),
        decreases path.len() - i,
    {
        let c = path[i];
        let ghost done = segments(path@.take(i as int));
        let ghost next = path@.take(i + 1);
        proof {
            assert(next.drop_last() =~= path@.take(i as int));
            assert(next.last() == c);
            assert(i > 0 ==> next[next.len() - 2] == path@[i - 1]);
        }
        if c == '/' {
            if cur.len() > 0 {
                segs.push(cur);
                cur = Vec::new();
                proof {
                    assert(views(segs@) =~= done);
                }
            }
        } else {
            proof {
                if cur@.len() > 0 {
                    assert(done.drop_last() =~= views(segs@));
                    assert(done.last() == cur@);
                }
            }
            let ghost open = cur@;
            cur.push(c);
            proof {
                assert(slash()(c) == false);
                if open.len() > 0 {
                    assert(slash()(path@[i - 1]) == false);
                    assert(segments(next) == done.drop_last().push(done.last().push(c)));
                } else {
                    assert(cur@ =~= seq![c]);
                    assert(i > 0 ==> slash()(path@[i - 1]));
                    assert(segments(next) == done.push(seq![c]));
                }
                assert(views(segs@).push(cur@) =~= segments(next));
            }
        }
        i += 1;
    }
    proof {
        assert(path@.take(path.len() as int) =~= path@);
    }
    if cur.len() > 0 {
        let ghost before = views(segs@);
        segs.push(cur);
        proof {
            assert(views(segs@) =~= before.push(cur@));
        }
    }
    segs
}

/// The final component of `path`, if it has one.
pub fn final_component(path: &str) -> (name: Option<String>)
    ensures
        match final_name(path@) {
            Some(n) => name matches Some(text) && text@ == n,
            None => name is None,
        },
{
    let chars = chars_of(path);
    let segs = split_segments(&chars);
    let ghost all = views(segs@);
    let mut k: usize = segs.len();
    proof {
        assert(all.take(k as int) =~= all);
    }
    while k > 0
        invariant
            k <= segs.len(),
            all == views(segs@),
            all == segments(path@),
            last_named(all) == last_named(all.take(k as int)),
        decreases k,
    {
        let seg = &segs[k - 1];
        proof {
            assert(all.take(k as int).last() == seg@);
            assert(all.take(k as int).drop_last() =~= all.take(k - 1));
        }
        if seg.len() == 1 && seg[0] == '.' {
            proof {
                assert(seg@ =~= seq!['.']);
            }
            k -= 1;
        } else if seg.len() == 2 && seg[0] == '.' && seg[1] == '.' {
            proof {
                assert(seg@ =~= seq!['.', '.']);
                assert(seq!['.', '.'].len() != seq!['.'].len());
            }
            return None;
        } else {
            proof {
                if seg@ == seq!['.'] {
                    assert(seg@.len() == 1 && seg@[0] == '.');
                }
                if seg@ == seq!['.', '.'] {
                    assert(seg@.len() == 2 && seg@[0] == '.' && seg@[1] == '.');
                }
            }
            return Some(text_of(seg));
        }
    }
    None
}

/// Puts `name` under `base`.
pub fn join_path(base: &str, name: &str) -> (out: String)
    ensures
        out@ == joined_path(base@, name@),
{
    let b = chars_of(base);
    let n = chars_of(name);
    if n.len() > 0 && n[0] == '/' {
        return text_of(&n);
    }
    let mut out = slice_chars(&b, 0, b.len());
    proof {
        assert(b@.subrange(0, b.len() as int) =~= b@);
    }
    if b.len() > 0 && b[b.len() - 1] != '/' {
        out.push('/');
    }
    append_chars(&mut out, &n);
    text_of(&out)
}

} // verus!
