//! Conversions between strings and sequences of characters.

use vstd::prelude::*;
use vstd::std_specs::iter::IteratorSpec;

verus! {

/// The words of `s`: its maximal runs of characters that `sep` does not
/// hold of, in order. No word is empty.
pub open spec fn words_by(s: Seq<char>, sep: spec_fn(char) -> bool) -> Seq<Seq<char>>
    decreases s.len(),
{
    if s.len() == 0 {
        Seq::empty()
    } else {
        let before = words_by(s.drop_last(), sep);
        if sep(s.last()) {
            before
        } else if s.len() >= 2 && !sep(s[s.len() - 2]) && before.len() > 0 {
            before.drop_last().push(before.last().push(s.last()))
        } else {
            before.push(seq![s.last()])
        }
    }
}

/// The pieces of `ws` in order, with one `glue` between each two.
pub open spec fn joined_by(ws: Seq<Seq<char>>, glue: char) -> Seq<char>
    decreases ws.len(),
{
    if ws.len() == 0 {
        Seq::empty()
    } else if ws.len() == 1 {
        ws[0]
    } else {
        joined_by(ws.drop_last(), glue) + seq![glue] + ws.last()
    }
}

/// A non-empty text that holds no separator.
pub open spec fn is_word(w: Seq<char>, sep: spec_fn(char) -> bool) -> bool {
    w.len() > 0 && forall|j: int| 0 <= j < w.len() ==> !sep(#[trigger] w[j])
}

/// Every word is non-empty and free of separators.
pub proof fn lemma_words_clean(s: Seq<char>, sep: spec_fn(char) -> bool)
    ensures
        forall|i: int| 0 <= i < words_by(s, sep).len() ==> is_word(#[trigger] words_by(s, sep)[i], sep),
    decreases s.len(),
{
    if s.len() > 0 {
        let before = words_by(s.drop_last(), sep);
        let ws = words_by(s, sep);
        let c = s.last();
        lemma_words_clean(s.drop_last(), sep);
        if sep(c) {
        } else if s.len() >= 2 && !sep(s[s.len() - 2]) && before.len() > 0 {
            let w = before.last().push(c);
            assert(is_word(before[before.len() - 1], sep));
            assert(is_word(w, sep)) by {
                assert forall|j: int| 0 <= j < w.len() implies !sep(#[trigger] w[j]) by {
                    if j < before.last().len() {
                        assert(w[j] == before.last()[j]);
                    }
                }
            }
            assert forall|i: int| 0 <= i < ws.len() implies is_word(#[trigger] ws[i], sep) by {
                if i < ws.len() - 1 {
                    assert(ws[i] == before[i]);
                }
            }
        } else {
            assert(is_word(seq![c], sep));
            assert forall|i: int| 0 <= i < ws.len() implies is_word(#[trigger] ws[i], sep) by {
                if i < ws.len() - 1 {
                    assert(ws[i] == before[i]);
                }
            }
        }
    }
}

/// A non-empty text without a separator is its own single word.
pub proof fn lemma_single_word(w: Seq<char>, sep: spec_fn(char) -> bool)
    requires
        is_word(w, sep),
    ensures
        words_by(w, sep) == seq![w],
    decreases w.len(),
{
    assert(!sep(w[w.len() - 1]));
    if w.len() >= 2 {
        let head = w.drop_last();
        assert(is_word(head, sep)) by {
            assert forall|j: int| 0 <= j < head.len() implies !sep(#[trigger] head[j]) by {
                assert(head[j] == w[j]);
            }
        }
        lemma_single_word(head, sep);
        assert(!sep(w[w.len() - 2]));
        assert(head.push(w.last()) =~= w);
        assert(seq![head].drop_last().push(seq![head].last().push(w.last())) =~= seq![w]);
    } else {
        assert(words_by(w.drop_last(), sep) =~= Seq::<Seq<char>>::empty());
        assert(seq![w.last()] =~= w);
        assert(Seq::<Seq<char>>::empty().push(seq![w.last()]) =~= seq![w]);
    }
}

/// `String::push` of the standard library: appends one character to the end
/// of the string and leaves what was there before in place.
#[verifier::external_body]
pub(crate) fn push_char(s: &mut String, c: char)
    ensures
        final(s)@ == old(s)@.push(c),
{
    s.push(c);
}

/// The characters of `s`, in order.
pub fn chars_of(s: &str) -> (out: Vec<char>)
    ensures
        out@ == s@,
{
    broadcast use vstd::string::group_string_axioms;

    let mut out: Vec<char> = Vec::new();
    let mut it = s.chars();
    let ghost all = it.remaining();
    loop
        invariant
            it.obeys_prophetic_iter_laws(),
            all == s@,
            out@ + it.remaining() == all,
            it.decrease() is Some,
        ensures
            out@ == s@,
        decreases it.decrease()->0,
    {
        match it.next() {
            Some(c) => {
                out.push(c);
                proof {
                    assert(out@ + it.remaining() =~= all);
                }
            },
            None => {
                proof {
                    assert(out@ =~= all);
                }
                break ;
            },
        }
    }
    out
}

/// The string whose characters are `chars`, in order.
pub fn text_of(chars: &Vec<char>) -> (out: String)
    ensures
        out@ == chars@,
{
    let mut out = String::new();
    let mut i: usize = 0;
    while i < chars.len()
        invariant
            i <= chars.len(),
            out@ == chars@.take(i as int),
        decreases chars.len() - i,
    {
        push_char(&mut out, chars[i]);
        i += 1;
        proof {
            assert(out@ =~= chars@.take(i as int));
        }
    }
    proof {
        assert(chars@.take(chars.len() as int) =~= chars@);
    }
    out
}

/// Appends the characters of `more` to `out`.
pub fn append_chars(out: &mut Vec<char>, more: &Vec<char>)
    ensures
        final(out)@ == old(out)@ + more@,
{
    let mut i: usize = 0;
    while i < more.len()
        invariant
            i <= more.len(),
            out@ == old(out)@ + more@.take(i as int),
        decreases more.len() - i,
    {
        out.push(more[i]);
        i += 1;
        proof {
            assert(out@ =~= old(out)@ + more@.take(i as int));
        }
    }
    proof {
        assert(more@.take(more.len() as int) =~= more@);
    }
}

/// The characters of `v` from position `start` up to, not including, `end`.
pub fn slice_chars(v: &Vec<char>, start: usize, end: usize) -> (out: Vec<char>)
    requires
        start <= end <= v.len(),
    ensures
        out@ == v@.subrange(start as int, end as int),
{
    let mut out: Vec<char> = Vec::new();
    let mut i: usize = start;
    while i < end
        invariant
            start <= i <= end <= v.len(),
            out@ == v@.subrange(start as int, i as int),
        decreases end - i,
    {
        out.push(v[i]);
        i += 1;
        proof {
            assert(out@ =~= v@.subrange(start as int, i as int));
        }
    }
    out
}

} // verus!
