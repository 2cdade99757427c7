//! The human-readable title of a repository name.

use vstd::prelude::*;
use crate::text::{append_chars, chars_of, joined_by, text_of, words_by};

verus! {

/// What `char::is_whitespace` answers for `c`.
pub uninterp spec fn whitespace(c: char) -> bool;

/// The characters that `char::to_uppercase` yields for `c`.
pub uninterp spec fn uppercase(c: char) -> Seq<char>;

/// An ASCII lower-case letter.
pub open spec fn is_lower(c: char) -> bool {
    'a' <= c <= 'z'
}

/// The upper-case letter of an ASCII lower-case letter.
pub open spec fn ascii_upper(c: char) -> char {
    ((c as u32 - 32) as u32) as char
}

/// An ASCII character.
pub open spec fn is_ascii(c: char) -> bool {
    c <= '\u{7f}'
}

/// The ASCII whitespace: the space, and the characters from the tab to the
/// carriage return.
pub open spec fn ascii_space(c: char) -> bool {
    c == ' ' || ('\t' <= c && c <= '\r')
}

/// The upper-case mapping of an ASCII character: the upper-case letter of
/// a lower-case letter, any other character itself.
pub open spec fn ascii_capital(c: char) -> char {
    if is_lower(c) {
        ascii_upper(c)
    } else {
        c
    }
}

/// `char::is_whitespace` of the standard library: whether `c` has the Unicode
/// property White_Space. Among the ASCII characters the space and the
/// characters from U+0009 to U+000D have it, and no other.
#[verifier::external_body]
fn is_whitespace(c: char) -> (b: bool)
    ensures
        b == whitespace(c),
        is_ascii(c) ==> b == ascii_space(c),
{
    c.is_whitespace()
}

/// `char::to_uppercase` of the standard library: the upper-case mapping of
/// `c`. An ASCII lower-case letter maps to its one ASCII upper-case letter,
/// any other ASCII character to itself.
#[verifier::external_body]
fn to_uppercase(c: char) -> (up: Vec<char>)
    ensures
        up@ == uppercase(c),
        is_ascii(c) ==> up@ == seq![ascii_capital(c)],
{
    c.to_uppercase().collect()
}

/// A word with its first character replaced by what `cap` gives for it.
pub open spec fn capitalized_by(w: Seq<char>, cap: spec_fn(char) -> Seq<char>) -> Seq<char> {
    if w.len() == 0 {
        w
    } else {
        cap(w[0]) + w.skip(1)
    }
}

/// The words of `s`, each capitalized, joined by single spaces.
pub open spec fn title_by(
    s: Seq<char>,
    sep: spec_fn(char) -> bool,
    cap: spec_fn(char) -> Seq<char>,
) -> Seq<char> {
    joined_by(words_by(s, sep).map_values(|w: Seq<char>| capitalized_by(w, cap)), ' ')
}

/// A hyphen or a whitespace character.
pub open spec fn separates(c: char) -> bool {
    c == '-' || whitespace(c)
}

/// The title of a name: hyphens and whitespace separate its words, each word
/// starts with the upper-case mapping of its first character, and single
/// spaces join them.
pub open spec fn title_of(s: Seq<char>) -> Seq<char> {
    title_by(s, |c: char| separates(c), |c: char| uppercase(c))
}

/// Made of ASCII lower-case letters and hyphens only.
pub open spec fn is_kebab(s: Seq<char>) -> bool {
    forall|i: int| 0 <= i < s.len() ==> is_lower(#[trigger] s[i]) || s[i] == '-'
}

/// Made of ASCII characters only.
pub open spec fn is_ascii_text(s: Seq<char>) -> bool {
    forall|i: int| 0 <= i < s.len() ==> is_ascii(#[trigger] s[i])
}

/// The title of an ASCII name: hyphens and ASCII whitespace separate the
/// words, each word starts with the upper-case letter of its first
/// character if that is a lower-case letter, and single spaces join the
/// words.
pub open spec fn ascii_title(s: Seq<char>) -> Seq<char> {
    title_by(s, |c: char| c == '-' || ascii_space(c), |c: char| seq![ascii_capital(c)])
}

/// The title of a name of lower-case letters and hyphens: the words between
/// the hyphens, each with its first letter in upper case, joined by single
/// spaces.
pub open spec fn kebab_title(s: Seq<char>) -> Seq<char> {
    title_by(s, |c: char| c == '-', |c: char| seq![ascii_upper(c)])
}

/// What one more character does to the title of what came before it.
pub proof fn lemma_title_push(
    s: Seq<char>,
    c: char,
    sep: spec_fn(char) -> bool,
    cap: spec_fn(char) -> Seq<char>,
)
    ensures
        sep(c) ==> words_by(s.push(c), sep) == words_by(s, sep),
        sep(c) ==> title_by(s.push(c), sep, cap) == title_by(s, sep, cap),
        !sep(c) ==> words_by(s.push(c), sep).len() > 0,
        !sep(c) && s.len() > 0 && !sep(s.last()) ==> title_by(s.push(c), sep, cap) == title_by(
            s,
            sep,
            cap,
        ).push(c),
        !sep(c) && !(s.len() > 0 && !sep(s.last())) && words_by(s, sep).len() == 0 ==> title_by(
            s.push(c),
            sep,
            cap,
        ) == cap(c),
        !sep(c) && !(s.len() > 0 && !sep(s.last())) && words_by(s, sep).len() > 0 ==> title_by(
            s.push(c),
            sep,
            cap,
        ) == title_by(s, sep, cap) + seq![' '] + cap(c),
{
    let t = s.push(c);
    let f = |w: Seq<char>| capitalized_by(w, cap);
    let ws = words_by(s, sep);
    let m = ws.map_values(f);
    assert(t.drop_last() =~= s);
    assert(t.last() == c);
    if sep(c) {
        assert(words_by(t, sep) == ws);
    } else if s.len() > 0 && !sep(s.last()) {
        assert(t[t.len() - 2] == s.last());
        assert(ws.len() > 0 && ws.last().len() > 0);
        let w = ws.last();
        let ws2 = ws.drop_last().push(w.push(c));
        assert(words_by(t, sep) == ws2);
        assert(w.push(c).skip(1) =~= w.skip(1).push(c));
        assert(f(w.push(c)) =~= f(w).push(c));
        assert(ws2.map_values(f) =~= m.drop_last().push(f(w).push(c)));
        let m2 = m.drop_last().push(f(w).push(c));
        assert(m2.drop_last() =~= m.drop_last());
        assert(m.last() == f(w));
        assert(joined_by(m2, ' ') =~= joined_by(m, ' ').push(c));
    } else {
        assert(words_by(t, sep) == ws.push(seq![c]));
        assert(seq![c].skip(1) =~= Seq::<char>::empty());
        assert(f(seq![c]) =~= cap(c));
        let m2 = m.push(cap(c));
        assert(ws.push(seq![c]).map_values(f) =~= m2);
        assert(m2.drop_last() =~= m);
    }
}

/// A character together with what the standard library says of it: whether
/// it is whitespace, and its upper-case mapping.
#[derive(Clone, Debug, PartialEq, Eq)]
pub struct Classified {
    pub ch: char,
    pub whitespace: bool,
    pub upper: Vec<char>,
}

/// The characters themselves, in order.
pub open spec fn chars_in(letters: Seq<Classified>) -> Seq<char> {
    letters.map_values(|l: Classified| l.ch)
}

/// `sep` and `cap` say of each character what `letters` records of it:
/// `sep` holds of the hyphen and of what is recorded as whitespace, and
/// `cap` gives the recorded upper-case mapping of every other character.
pub open spec fn agree(
    letters: Seq<Classified>,
    sep: spec_fn(char) -> bool,
    cap: spec_fn(char) -> Seq<char>,
) -> bool {
    forall|i: int|
        0 <= i < letters.len() ==> {
            &&& sep((#[trigger] letters[i]).ch) == (letters[i].ch == '-' || letters[i].whitespace)
            &&& !sep(letters[i].ch) ==> cap(letters[i].ch) == letters[i].upper@
        }
}

/// The record says of its character what the standard library says of it.
pub open spec fn faithful(letter: Classified) -> bool {
    &&& letter.whitespace == whitespace(letter.ch)
    &&& letter.upper@ == uppercase(letter.ch)
    &&& is_ascii(letter.ch) ==> letter.whitespace == ascii_space(letter.ch) && letter.upper@
        == seq![ascii_capital(letter.ch)]
}

/// Asks the standard library about one character.
pub fn classify(c: char) -> (letter: Classified)
    ensures
        letter.ch == c,
        faithful(letter),
{
    let whitespace = is_whitespace(c);
    let upper = to_uppercase(c);
    Classified { ch: c, whitespace, upper }
}

/// Builds the title from classified characters: hyphens and what is
/// recorded as whitespace separate the words, each word starts with the
/// recorded upper-case mapping of its first character, and single spaces
/// join the words. The result is the title by every separator and
/// capitalization that the records agree with.
pub fn title_from(letters: &Vec<Classified>) -> (title: String)
    ensures
        forall|sep: spec_fn(char) -> bool, cap: spec_fn(char) -> Seq<char>|
            agree(letters@, sep, cap) ==> title@ == #[trigger] title_by(
                chars_in(letters@),
                sep,
                cap,
            ),
{
    let ghost chars = chars_in(letters@);
    let mut out: Vec<char> = Vec::new();
    let mut in_word = false;
    let mut any_word = false;
    let mut i: usize = 0;
    proof {
        assert(chars.take(0) =~= Seq::<char>::empty());
    }
    while i < letters.len()
        invariant
            i <= letters.len(),
            chars == chars_in(letters@),
            in_word == (i > 0 && !(letters[i - 1].ch == '-' || letters[i - 1].whitespace)),
            forall|sep: spec_fn(char) -> bool, cap: spec_fn(char) -> Seq<char>|
                agree(letters@, sep, cap) ==> out@ == #[trigger] title_by(
                    chars.take(i as int),
                    sep,
                    cap,
                ),
            forall|sep: spec_fn(char) -> bool, cap: spec_fn(char) -> Seq<char>| #[trigger]
                agree(letters@, sep, cap) ==> any_word == (words_by(chars.take(i as int), sep).len()
                    > 0),
        decreases letters.len() - i,
    {
        let letter = &letters[i];
        let c = letter.ch;
        let ghost head = chars.take(i as int);
        let ghost before = out@;
        let ghost had_word = any_word;
        let ghost was_in_word = in_word;
        if c == '-' || letter.whitespace {
            in_word = false;
        } else if in_word {
            out.push(c);
        } else {
            if any_word {
                out.push(' ');
            }
            append_chars(&mut out, &letter.upper);
            in_word = true;
            any_word = true;
        }
        i += 1;
        proof {
            assert(chars.take(i as int) =~= head.push(c));
            assert forall|sep: spec_fn(char) -> bool, cap: spec_fn(char) -> Seq<char>| #[trigger]
                agree(letters@, sep, cap) implies out@ == title_by(chars.take(i as int), sep, cap)
                && any_word == (words_by(chars.take(i as int), sep).len() > 0) by {
                lemma_title_push(head, c, sep, cap);
                assert(before == title_by(head, sep, cap));
                assert(had_word == (words_by(head, sep).len() > 0));
                assert(sep(letters[i - 1].ch) == (c == '-' || letter.whitespace));
                if i > 1 {
                    assert(head.last() == letters[i - 2].ch);
                    assert(sep(letters[i - 2].ch) == !was_in_word);
                }
                if !sep(c) && !was_in_word {
                    assert(cap(c) == letter.upper@);
                    if had_word {
                        assert(out@ =~= before + seq![' '] + cap(c));
                    } else {
                        assert(before.len() == 0) by {
                            assert(words_by(head, sep).map_values(
                                |w: Seq<char>| capitalized_by(w, cap),
                            ).len() == 0);
                        }
                        assert(out@ =~= cap(c));
                    }
                }
            }
        }
    }
    proof {
        assert(chars.take(letters.len() as int) =~= chars);
    }
    text_of(&out)
}

/// Derives the title of a repository name: hyphens and whitespace separate
/// the words, each word gets the upper-case mapping of its first character,
/// and single spaces join the words. The title of an ASCII name is fixed
/// character by character; a name of ASCII lower-case letters and hyphens
/// gets each of its hyphen-delimited words with a capital first letter.
pub fn hyphen_to_title(name: &str) -> (title: String)
    ensures
        title@ == title_of(name@),
        is_ascii_text(name@) ==> title@ == ascii_title(name@),
        is_kebab(name@) ==> title@ == kebab_title(name@),
{
    let chars = chars_of(name);
    let mut letters: Vec<Classified> = Vec::new();
    let mut i: usize = 0;
    while i < chars.len()
        invariant
            i <= chars.len(),
            letters.len() == i,
            forall|j: int|
                0 <= j < i ==> (#[trigger] letters[j]).ch == chars[j] && faithful(letters[j]),
        decreases chars.len() - i,
    {
        letters.push(classify(chars[i]));
        i += 1;
    }
    let title = title_from(&letters);
    proof {
        assert(chars_in(letters@) =~= name@);
        let sep = |c: char| separates(c);
        let cap = |c: char| uppercase(c);
        assert(agree(letters@, sep, cap)) by {
            assert forall|j: int| 0 <= j < letters.len() implies {
                &&& sep((#[trigger] letters[j]).ch) == (letters[j].ch == '-'
                    || letters[j].whitespace)
                &&& !sep(letters[j].ch) ==> cap(letters[j].ch) == letters[j].upper@
            } by {
                assert(faithful(letters[j]));
            }
        }
        assert(title@ == title_by(name@, sep, cap));
        if is_ascii_text(name@) {
            let breaks = |c: char| c == '-' || ascii_space(c);
            let capital = |c: char| seq![ascii_capital(c)];
            assert(agree(letters@, breaks, capital)) by {
                assert forall|j: int| 0 <= j < letters.len() implies {
                    &&& breaks((#[trigger] letters[j]).ch) == (letters[j].ch == '-'
                        || letters[j].whitespace)
                    &&& !breaks(letters[j].ch) ==> capital(letters[j].ch) == letters[j].upper@
                } by {
                    assert(faithful(letters[j]));
                    assert(is_ascii(name@[j]));
                }
            }
            assert(title@ == title_by(name@, breaks, capital));
        }
        if is_kebab(name@) {
            let hyphen = |c: char| c == '-';
            let upper = |c: char| seq![ascii_upper(c)];
            assert(agree(letters@, hyphen, upper)) by {
                assert forall|j: int| 0 <= j < letters.len() implies {
                    &&& hyphen((#[trigger] letters[j]).ch) == (letters[j].ch == '-'
                        || letters[j].whitespace)
                    &&& !hyphen(letters[j].ch) ==> upper(letters[j].ch) == letters[j].upper@
                } by {
                    assert(faithful(letters[j]));
                    assert(is_lower(name@[j]) || name@[j] == '-');
                }
            }
            assert(title@ == title_by(name@, hyphen, upper));
        }
    }
    title
}

} // verus!
