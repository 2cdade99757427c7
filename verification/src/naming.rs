//! The names that a run derives: the repository name, and the year as text.

use vstd::prelude::*;
use crate::error::InitError;
use crate::path::{
    final_component, final_name, lemma_final_name_stable, rooted, segments, split_segments, views,
};
use crate::text::{chars_of, text_of};

verus! {

/// The argument is a spelling of the current directory: it does not start
/// at the root, and it is made of `.` segments, at least one.
pub open spec fn denotes_current(dir: Seq<char>) -> bool {
    &&& !rooted(dir)
    &&& segments(dir).len() > 0
    &&& forall|i: int| 0 <= i < segments(dir).len() ==> #[trigger] segments(dir)[i] == seq!['.']
}

/// The repository name for a directory argument: the final component of
/// the directory, where a spelling of the current directory stands for the
/// working directory. There is none where the working directory is asked
/// for and unknown, or where the directory has no final component.
pub open spec fn repo_name_of(dir: Seq<char>, current_dir: Option<Seq<char>>) -> Option<Seq<char>> {
    if denotes_current(dir) {
        match current_dir {
            Some(cwd) => final_name(cwd),
            None => None,
        }
    } else {
        final_name(dir)
    }
}

/// The text of an optional string.
pub open spec fn opt_view(s: Option<&str>) -> Option<Seq<char>> {
    match s {
        Some(t) => Some(t@),
        None => None,
    }
}

/// Whether the argument is a spelling of the current directory.
pub fn is_current_dir(dir: &str) -> (current: bool)
    ensures
        current == denotes_current(dir@),
{
    let chars = chars_of(dir);
    if chars.len() > 0 && chars[0] == '/' {
        return false;
    }
    let segs = split_segments(&chars);
    if segs.len() == 0 {
        return false;
    }
    let ghost all = segments(dir@);
    let mut i: usize = 0;
    while i < segs.len()
        invariant
            i <= segs.len(),
            segs.len() > 0,
            !rooted(dir@),
            all == segments(dir@),
            views(segs@) == all,
            forall|j: int| 0 <= j < i ==> #[trigger] all[j] == seq!['.'],
        decreases segs.len() - i,
    {
        let seg = &segs[i];
        proof {
            assert(all[i as int] == seg@);
        }
        if !(seg.len() == 1 && seg[0] == '.') {
            proof {
                if seg@ == seq!['.'] {
                    assert(seg@.len() == 1 && seg@[0] == '.');
                }
                assert(segments(dir@)[i as int] != seq!['.']);
            }
            return false;
        }
        proof {
            assert(seg@ =~= seq!['.']);
        }
        i += 1;
    }
    true
}

/// Derives the repository name from the directory argument. `current_dir`
/// is the absolute path of the working directory, if it is known; it is
/// read only where `dir` is a spelling of the current directory.
pub fn get_repo_name(dir: &str, current_dir: Option<&str>) -> (name: Result<String, InitError>)
    ensures
        match repo_name_of(dir@, opt_view(current_dir)) {
            Some(n) => name matches Ok(text) && text@ == n,
            None => name == Err::<String, InitError>(InitError::InvalidDir),
        },
{
    let found = if is_current_dir(dir) {
        match current_dir {
            Some(cwd) => final_component(cwd),
            None => None,
        }
    } else {
        final_component(dir)
    };
    match found {
        Some(text) => Ok(text),
        None => Err(InitError::InvalidDir),
    }
}

/// A repository name, given as the directory argument, names itself,
/// whatever the current directory is: deriving the name again from the name
/// changes nothing.
pub proof fn lemma_repo_name_stable(
    dir: Seq<char>,
    current_dir: Option<Seq<char>>,
    elsewhere: Option<Seq<char>>,
)
    ensures
        repo_name_of(dir, current_dir) matches Some(n) ==> repo_name_of(n, elsewhere) == Some(n),
{
    if denotes_current(dir) {
        if let Some(cwd) = current_dir {
            lemma_final_name_stable(cwd);
        }
    } else {
        lemma_final_name_stable(dir);
    }
    if let Some(n) = repo_name_of(dir, current_dir) {
        assert(segments(n)[0] == n);
    }
}

/// The character of a decimal digit.
pub open spec fn digit_char(d: int) -> char {
    if d == 0 {
        '0'
    } else if d == 1 {
        '1'
    } else if d == 2 {
        '2'
    } else if d == 3 {
        '3'
    } else if d == 4 {
        '4'
    } else if d == 5 {
        '5'
    } else if d == 6 {
        '6'
    } else if d == 7 {
        '7'
    } else if d == 8 {
        '8'
    } else {
        '9'
    }
}

/// The decimal digits of `n`, the most significant first, without leading
/// zeros.
pub open spec fn digits_of(n: nat) -> Seq<char>
    decreases n,
{
    if n < 10 {
        seq![digit_char(n as int)]
    } else {
        digits_of(n / 10).push(digit_char((n % 10) as int))
    }
}

/// A year in decimal, with a minus sign before the digits of a year before
/// the year 0.
pub open spec fn year_text_of(year: int) -> Seq<char> {
    if year < 0 {
        seq!['-'] + digits_of((-year) as nat)
    } else {
        digits_of(year as nat)
    }
}

/// The character of the decimal digit `d`.
fn digit(d: u64) -> (c: char)
    requires
        d < 10,
    ensures
        c == digit_char(d as int),
{
    if d == 0 {
        '0'
    } else if d == 1 {
        '1'
    } else if d == 2 {
        '2'
    } else if d == 3 {
        '3'
    } else if d == 4 {
        '4'
    } else if d == 5 {
        '5'
    } else if d == 6 {
        '6'
    } else if d == 7 {
        '7'
    } else if d == 8 {
        '8'
    } else {
        '9'
    }
}

/// Writes a year in decimal.
pub fn year_text(year: i32) -> (text: String)
    ensures
        text@ == year_text_of(year as int),
{
    let wide: i64 = year as i64;
    let magnitude: u64 = if wide < 0 {
        (-wide) as u64
    } else {
        wide as u64
    };
    // The digits but the first, the least significant first.
    let mut low: Vec<char> = Vec::new();
    let mut rest: u64 = magnitude;
    proof {
        assert(digits_of(rest as nat) + low@.reverse() =~= digits_of(magnitude as nat));
    }
    while rest >= 10
        invariant
            digits_of(magnitude as nat) == digits_of(rest as nat) + low@.reverse(),
        decreases rest,
    {
        let ghost before = low@;
        low.push(digit(rest % 10));
        proof {
            assert(low@.reverse() =~= seq![digit_char((rest % 10) as int)] + before.reverse());
            assert(digits_of(magnitude as nat) =~= digits_of((rest / 10) as nat) + low@.reverse());
        }
        rest = rest / 10;
    }
    let mut out: Vec<char> = Vec::new();
    if wide < 0 {
        out.push('-');
    }
    out.push(digit(rest));
    let ghost head = out@;
    let mut i: usize = low.len();
    proof {
        assert(low@.reverse().take(0) =~= Seq::<char>::empty());
        assert(head + Seq::<char>::empty() =~= head);
    }
    while i > 0
        invariant
            i <= low.len(),
            out@ == head + low@.reverse().take(low.len() - i),
        decreases i,
    {
        i -= 1;
        out.push(low[i]);
        proof {
            assert(low@.reverse()[low.len() - 1 - i] == low@[i as int]);
            assert(out@ =~= head + low@.reverse().take(low.len() - i));
        }
    }
    proof {
        assert(low@.reverse().take(low.len() as int) =~= low@.reverse());
        assert(out@ =~= year_text_of(year as int));
    }
    text_of(&out)
}

} // verus!
