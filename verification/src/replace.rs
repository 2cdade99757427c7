//! Literal placeholder substitution over the text of a file.

use vstd::prelude::*;
use vstd::string::StringExecFns;
use crate::text::{append_chars, chars_of, text_of};

verus! {

/// A placeholder token and the text that takes its place.
#[derive(Clone, Debug, PartialEq, Eq)]
pub struct Replacement {
    pub token: String,
    pub value: String,
}

impl View for Replacement {
    type V = (Seq<char>, Seq<char>);

    open spec fn view(&self) -> (Seq<char>, Seq<char>) {
        (self.token@, self.value@)
    }
}

/// The token and value of each replacement, in order.
pub open spec fn pairs_of(reps: Seq<Replacement>) -> Seq<(Seq<char>, Seq<char>)> {
    reps.map_values(|r: Replacement| r@)
}

/// `s` begins with `p`.
pub open spec fn starts_with(s: Seq<char>, p: Seq<char>) -> bool {
    p.len() <= s.len() && s.take(p.len() as int) == p
}

/// `p` stands somewhere in `s`.
pub open spec fn occurs(p: Seq<char>, s: Seq<char>) -> bool {
    exists|i: int| 0 <= i <= s.len() && #[trigger] starts_with(s.skip(i), p)
}

/// `s` with every match of `from` replaced by `to`. Matches are found from
/// the left and do not overlap; what was put in is not searched again. An
/// empty `from` matches before every character and at the end.
pub open spec fn replaced(s: Seq<char>, from: Seq<char>, to: Seq<char>) -> Seq<char>
    decreases s.len(),
{
    if from.len() == 0 {
        if s.len() == 0 {
            to
        } else {
            to + seq![s[0]] + replaced(s.skip(1), from, to)
        }
    } else if s.len() == 0 {
        s
    } else if starts_with(s, from) {
        to + replaced(s.skip(from.len() as int), from, to)
    } else {
        seq![s[0]] + replaced(s.skip(1), from, to)
    }
}

/// `s` after each replacement of `reps` in turn: each one works on what the
/// ones before it left.
pub open spec fn substituted(s: Seq<char>, reps: Seq<(Seq<char>, Seq<char>)>) -> Seq<char>
    decreases reps.len(),
{
    if reps.len() == 0 {
        s
    } else {
        replaced(substituted(s, reps.drop_last()), reps.last().0, reps.last().1)
    }
}

/// Whether `pat` stands in `text` at position `at`.
fn matches_at(text: &Vec<char>, at: usize, pat: &Vec<char>) -> (b: bool)
    requires
        at <= text.len(),
    ensures
        b == starts_with(text@.skip(at as int), pat@),
{
    if pat.len() > text.len() - at {
        return false;
    }
    let ghost rest = text@.skip(at as int);
    let mut j: usize = 0;
    while j < pat.len()
        invariant
            j <= pat.len(),
            at + pat.len() <= text.len(),
            rest == text@.skip(at as int),
            forall|k: int| 0 <= k < j ==> text@[at + k] == pat@[k],
        decreases pat.len() - j,
    {
        if text[at + j] != pat[j] {
            proof {
                assert(rest.take(pat.len() as int)[j as int] == text@[at + j]);
            }
            return false;
        }
        j += 1;
    }
    proof {
        assert(rest.take(pat.len() as int) =~= pat@);
    }
    true
}

/// Replaces every match of `from` in `text` by `to`.
pub fn replace_all(text: &str, from: &str, to: &str) -> (out: String)
    ensures
        out@ == replaced(text@, from@, to@),
{
    let s = chars_of(text);
    let pat = chars_of(from);
    let rep = chars_of(to);
    let mut out: Vec<char> = Vec::new();
    let mut i: usize = 0;
    proof {
        assert(s@.skip(0) =~= s@);
        assert(out@ + replaced(s@, pat@, rep@) =~= replaced(s@, pat@, rep@));
    }
    if pat.len() == 0 {
        while i < s.len()
            invariant
                i <= s.len(),
                pat@.len() == 0,
                replaced(s@, pat@, rep@) == out@ + replaced(s@.skip(i as int), pat@, rep@),
            decreases s.len() - i,
        {
            proof {
                assert(s@.skip(i as int).skip(1) =~= s@.skip(i + 1));
            }
            append_chars(&mut out, &rep);
            out.push(s[i]);
            i += 1;
            proof {
                assert(replaced(s@, pat@, rep@) =~= out@ + replaced(s@.skip(i as int), pat@, rep@));
            }
        }
        append_chars(&mut out, &rep);
    } else {
        while i < s.len()
            invariant
                i <= s.len(),
                pat@.len() > 0,
                replaced(s@, pat@, rep@) == out@ + replaced(s@.skip(i as int), pat@, rep@),
            decreases s.len() - i,
        {
            let ghost rest = s@.skip(i as int);
            if matches_at(&s, i, &pat) {
                proof {
                    assert(rest.skip(pat.len() as int) =~= s@.skip(i + pat.len()));
                }
                append_chars(&mut out, &rep);
                i += pat.len();
            } else {
                proof {
                    assert(rest.skip(1) =~= s@.skip(i + 1));
                }
                out.push(s[i]);
                i += 1;
            }
            proof {
                assert(replaced(s@, pat@, rep@) =~= out@ + replaced(s@.skip(i as int), pat@, rep@));
            }
        }
        proof {
            assert(out@ + Seq::<char>::empty() =~= out@);
        }
    }
    text_of(&out)
}

/// None of the tokens of the replacements stands in the text.
pub open spec fn no_token_in(text: Seq<char>, replacements: Seq<Replacement>) -> bool {
    forall|k: int| 0 <= k < replacements.len() ==> !occurs(#[trigger] replacements[k].token@, text)
}

/// Replacing a token that does not stand in the text leaves the text as it is.
pub proof fn lemma_absent_token_unchanged(s: Seq<char>, from: Seq<char>, to: Seq<char>)
    requires
        !occurs(from, s),
    ensures
        replaced(s, from, to) == s,
    decreases s.len(),
{
    assert(s.skip(0) =~= s);
    if from.len() == 0 {
        assert(s.take(0) =~= from);
        assert(starts_with(s.skip(0), from));
    } else if s.len() == 0 {
    } else {
        assert(!starts_with(s.skip(0), from));
        assert(!occurs(from, s.skip(1))) by {
            assert forall|i: int| 0 <= i <= s.skip(1).len() implies !#[trigger] starts_with(
                s.skip(1).skip(i),
                from,
            ) by {
                assert(s.skip(1).skip(i) =~= s.skip(i + 1));
                assert(!starts_with(s.skip(i + 1), from));
            }
        }
        lemma_absent_token_unchanged(s.skip(1), from, to);
        assert(seq![s[0]] + s.skip(1) =~= s);
    }
}

/// A text in which none of the tokens stands comes out of the substitution
/// as it went in.
pub proof fn lemma_no_tokens_unchanged(s: Seq<char>, reps: Seq<(Seq<char>, Seq<char>)>)
    requires
        forall|k: int| 0 <= k < reps.len() ==> !occurs(#[trigger] reps[k].0, s),
    ensures
        substituted(s, reps) == s,
    decreases reps.len(),
{
    if reps.len() > 0 {
        let head = reps.drop_last();
        assert forall|k: int| 0 <= k < head.len() implies !occurs(#[trigger] head[k].0, s) by {
            assert(head[k] == reps[k]);
        }
        lemma_no_tokens_unchanged(s, head);
        assert(!occurs(reps[reps.len() - 1].0, s));
        lemma_absent_token_unchanged(s, reps.last().0, reps.last().1);
    }
}

/// Applies each replacement in order to the whole text, each one on the
/// result of those before it. A text in which none of the tokens stands
/// comes back as it was.
pub fn apply_replacements(contents: &str, replacements: &Vec<Replacement>) -> (updated: String)
    ensures
        updated@ == substituted(contents@, pairs_of(replacements@)),
        no_token_in(contents@, replacements@) ==> updated@ == contents@,
{
    let mut updated = String::from_str(contents);
    let mut i: usize = 0;
    while i < replacements.len()
        invariant
            i <= replacements.len(),
            updated@ == substituted(contents@, pairs_of(replacements@.take(i as int))),
        decreases replacements.len() - i,
    {
        let r = &replacements[i];
        proof {
            let next = pairs_of(replacements@.take(i + 1));
            assert(next.drop_last() =~= pairs_of(replacements@.take(i as int)));
            assert(next.last() == r@);
        }
        updated = replace_all(updated.as_str(), r.token.as_str(), r.value.as_str());
        i += 1;
    }
    proof {
        assert(replacements@.take(replacements.len() as int) =~= replacements@);
        let pairs = pairs_of(replacements@);
        if no_token_in(contents@, replacements@) {
            assert forall|k: int| 0 <= k < pairs.len() implies !occurs(
                #[trigger] pairs[k].0,
                contents@,
            ) by {
                assert(pairs[k].0 == replacements[k].token@);
            }
            lemma_no_tokens_unchanged(contents@, pairs);
        }
    }
    updated
}

/// What the substitution step does to one file.
#[derive(Clone, Debug, PartialEq, Eq)]
pub enum Substitution {
    /// The file is not there: the run goes on, with this warning.
    Skipped { warning: String },
    /// The file is written back with this text.
    Rewritten { contents: String },
}

/// The warning for a file that is not there.
pub open spec fn missing_warning(file: Seq<char>) -> Seq<char> {
    "file not found: "@ + file
}

/// Rewrites the placeholders of `file`, of which `contents` is the text,
/// or `None` where the file does not exist. A missing file is tolerated and
/// only warned of; the text of a file that is there has the replacements
/// applied in order, and is unchanged where it holds none of the tokens.
pub fn replace_placeholders(
    file: &str,
    contents: Option<&str>,
    replacements: &Vec<Replacement>,
) -> (outcome: Substitution)
    ensures
        match contents {
            None => outcome matches Substitution::Skipped { warning } && warning@
                == missing_warning(file@),
            Some(text) => outcome matches Substitution::Rewritten { contents: updated }
                && updated@ == substituted(text@, pairs_of(replacements@)) && (no_token_in(
                text@,
                replacements@,
            ) ==> updated@ == text@),
        },
{
    match contents {
        None => {
            let mut warning = String::from_str("file not found: ");
            warning.append(file);
            Substitution::Skipped { warning }
        },
        Some(text) => Substitution::Rewritten { contents: apply_replacements(text, replacements) },
    }
}

} // verus!
