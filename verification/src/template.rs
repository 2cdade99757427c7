//! Template texts: plain text with `{{NAME}}` tokens in it, and what the
//! substitution makes of them.

use vstd::prelude::*;
use crate::replace::{occurs, replaced, starts_with, substituted};

verus! {

/// A piece of a template text: a run of plain text, or a token with its
/// name.
pub enum Piece {
    Plain(Seq<char>),
    Token(Seq<char>),
}

/// Holds neither an opening nor a closing brace.
pub open spec fn brace_free(s: Seq<char>) -> bool {
    forall|i: int| 0 <= i < s.len() ==> #[trigger] s[i] != '{' && s[i] != '}'
}

/// Holds no opening brace.
pub open spec fn no_opening(s: Seq<char>) -> bool {
    forall|i: int| 0 <= i < s.len() ==> #[trigger] s[i] != '{'
}

/// The token of a name: the name between two opening and two closing
/// braces.
pub open spec fn token_text(name: Seq<char>) -> Seq<char> {
    seq!['{', '{'] + name + seq!['}', '}']
}

/// The text of a piece.
pub open spec fn piece_text(p: Piece) -> Seq<char> {
    match p {
        Piece::Plain(text) => text,
        Piece::Token(name) => token_text(name),
    }
}

/// Plain text holds no opening brace, and the name of a token holds no
/// brace.
pub open spec fn well_formed_piece(p: Piece) -> bool {
    match p {
        Piece::Plain(text) => no_opening(text),
        Piece::Token(name) => brace_free(name),
    }
}

/// Every piece is well formed: opening braces stand in whole tokens only.
pub open spec fn well_formed(ps: Seq<Piece>) -> bool {
    forall|i: int| 0 <= i < ps.len() ==> well_formed_piece(#[trigger] ps[i])
}

/// The text that the pieces make up.
pub open spec fn render(ps: Seq<Piece>) -> Seq<char>
    decreases ps.len(),
{
    if ps.len() == 0 {
        Seq::empty()
    } else {
        piece_text(ps[0]) + render(ps.skip(1))
    }
}

/// The piece after the token `name` has been filled with `v`: plain text
/// in place of that token, any other piece as it was.
pub open spec fn fill_one(p: Piece, name: Seq<char>, v: Seq<char>) -> Piece {
    if p == Piece::Token(name) {
        Piece::Plain(v)
    } else {
        p
    }
}

/// The pieces with every token `name` filled with `v`.
pub open spec fn fill(ps: Seq<Piece>, name: Seq<char>, v: Seq<char>) -> Seq<Piece> {
    ps.map_values(|p: Piece| fill_one(p, name, v))
}

/// The value that the entries, each a name and its value, give to `name`:
/// that of the first entry with this name, if there is one.
pub open spec fn value_of(entries: Seq<(Seq<char>, Seq<char>)>, name: Seq<char>) -> Option<
    Seq<char>,
>
    decreases entries.len(),
{
    if entries.len() == 0 {
        None
    } else {
        match value_of(entries.drop_last(), name) {
            Some(v) => Some(v),
            None => if entries.last().0 == name {
                Some(entries.last().1)
            } else {
                None
            },
        }
    }
}

/// The piece after every listed token has been filled: plain text in place
/// of a token whose name is listed, any other piece as it was.
pub open spec fn filled_piece(p: Piece, entries: Seq<(Seq<char>, Seq<char>)>) -> Piece {
    match p {
        Piece::Plain(text) => p,
        Piece::Token(name) => match value_of(entries, name) {
            Some(v) => Piece::Plain(v),
            None => p,
        },
    }
}

/// The pieces with every token whose name is listed filled with its value.
pub open spec fn filled(ps: Seq<Piece>, entries: Seq<(Seq<char>, Seq<char>)>) -> Seq<Piece> {
    ps.map_values(|p: Piece| filled_piece(p, entries))
}

/// Every name holds no brace, and every value no opening brace.
pub open spec fn fillable(entries: Seq<(Seq<char>, Seq<char>)>) -> bool {
    forall|k: int|
        0 <= k < entries.len() ==> brace_free((#[trigger] entries[k]).0) && no_opening(
            entries[k].1,
        )
}

/// The replacements that the entries stand for: the token of each name, and
/// its value.
pub open spec fn replacements_of(entries: Seq<(Seq<char>, Seq<char>)>) -> Seq<
    (Seq<char>, Seq<char>),
> {
    entries.map_values(|e: (Seq<char>, Seq<char>)| (token_text(e.0), e.1))
}

/// Where the token starts at no place of `pre`, the replacement passes over
/// `pre` and goes on behind it.
pub proof fn lemma_pass_over(pre: Seq<char>, rest: Seq<char>, from: Seq<char>, to: Seq<char>)
    requires
        from.len() > 0,
        forall|k: int| 0 <= k < pre.len() ==> !#[trigger] starts_with((pre + rest).skip(k), from),
    ensures
        replaced(pre + rest, from, to) == pre + replaced(rest, from, to),
    decreases pre.len(),
{
    let s = pre + rest;
    if pre.len() == 0 {
        assert(s =~= rest);
        assert(pre + replaced(rest, from, to) =~= replaced(rest, from, to));
    } else {
        assert(s.skip(0) =~= s);
        assert(!starts_with(s.skip(0), from));
        assert(s.skip(1) =~= pre.skip(1) + rest);
        assert forall|k: int| 0 <= k < pre.skip(1).len() implies !#[trigger] starts_with(
            (pre.skip(1) + rest).skip(k),
            from,
        ) by {
            assert((pre.skip(1) + rest).skip(k) =~= s.skip(k + 1));
            assert(!starts_with(s.skip(k + 1), from));
        }
        lemma_pass_over(pre.skip(1), rest, from, to);
        assert(seq![s[0]] + (pre.skip(1) + replaced(rest, from, to)) =~= pre + replaced(
            rest,
            from,
            to,
        ));
    }
}

/// Inside a well-formed piece the token `name` starts nowhere, whatever
/// follows the piece, but at the front of that very token.
pub proof fn lemma_piece_unmatched(p: Piece, rest: Seq<char>, name: Seq<char>, k: int)
    requires
        well_formed_piece(p),
        brace_free(name),
        0 <= k < piece_text(p).len(),
        k == 0 ==> p != Piece::Token(name),
    ensures
        !starts_with((piece_text(p) + rest).skip(k), token_text(name)),
{
    let s = piece_text(p) + rest;
    let x = s.skip(k);
    let t = token_text(name);
    if starts_with(x, t) {
        assert forall|j: int| 0 <= j < t.len() implies s[k + j] == t[j] by {
            assert(x.take(t.len() as int)[j] == x[j]);
        }
        assert(t[0] == '{' && t[1] == '{');
        match p {
            Piece::Plain(text) => {
                assert(s[k + 0] == text[k]);
            },
            Piece::Token(n) => {
                let m = piece_text(p);
                let nl = n.len() as int;
                let al = name.len() as int;
                assert(m.len() == nl + 4);
                assert(forall|i: int| 0 <= i < nl ==> m[2 + i] == n[i]);
                assert(m[nl + 2] == '}' && m[nl + 3] == '}');
                assert(forall|i: int| 0 <= i < al ==> t[2 + i] == name[i]);
                assert(t[al + 2] == '}' && t[al + 3] == '}');
                assert(forall|i: int| 0 <= i < m.len() ==> s[i] == m[i]);
                if k == 0 {
                    if al < nl {
                        assert(s[2 + al] == n[al]);
                        assert(s[0 + (2 + al)] == t[2 + al]);
                    } else if al > nl {
                        assert(t[2 + nl] == name[nl]);
                        assert(s[0 + (2 + nl)] == t[2 + nl]);
                    } else {
                        assert forall|i: int| 0 <= i < nl implies n[i] == name[i] by {
                            assert(s[0 + (2 + i)] == t[2 + i]);
                        }
                        assert(n =~= name);
                    }
                } else if k == 1 {
                    assert(s[k + 1] == t[1]);
                    if nl > 0 {
                        assert(s[2] == n[0]);
                    }
                } else {
                    assert(s[k + 0] == t[0]);
                    if k < nl + 2 {
                        assert(s[k] == n[k - 2]);
                    }
                }
            },
        }
    }
}

/// Replacing the token `name` in the text of well-formed pieces fills
/// exactly the pieces that are that token.
pub proof fn lemma_fill_renders(ps: Seq<Piece>, name: Seq<char>, v: Seq<char>)
    requires
        well_formed(ps),
        brace_free(name),
    ensures
        replaced(render(ps), token_text(name), v) == render(fill(ps, name, v)),
    decreases ps.len(),
{
    let t = token_text(name);
    if ps.len() > 0 {
        let p = ps[0];
        let tail = ps.skip(1);
        let rest = render(tail);
        let s = piece_text(p) + rest;
        assert(well_formed(tail)) by {
            assert forall|i: int| 0 <= i < tail.len() implies well_formed_piece(
                #[trigger] tail[i],
            ) by {
                assert(tail[i] == ps[i + 1]);
            }
        }
        lemma_fill_renders(tail, name, v);
        assert(fill(ps, name, v).skip(1) =~= fill(tail, name, v));
        assert(fill(ps, name, v)[0] == fill_one(p, name, v));
        if p == Piece::Token(name) {
            assert(s.take(t.len() as int) =~= t);
            assert(s.skip(t.len() as int) =~= rest);
        } else {
            assert forall|k: int| 0 <= k < piece_text(p).len() implies !#[trigger] starts_with(
                (piece_text(p) + rest).skip(k),
                t,
            ) by {
                lemma_piece_unmatched(p, rest, name, k);
            }
            lemma_pass_over(piece_text(p), rest, t, v);
        }
    } else {
        assert(fill(ps, name, v).len() == 0);
    }
}

/// In the text of well-formed pieces of which none is the token `name`,
/// that token does not occur.
pub proof fn lemma_token_absent(ps: Seq<Piece>, name: Seq<char>)
    requires
        well_formed(ps),
        brace_free(name),
        forall|i: int| 0 <= i < ps.len() ==> #[trigger] ps[i] != Piece::Token(name),
    ensures
        !occurs(token_text(name), render(ps)),
    decreases ps.len(),
{
    let t = token_text(name);
    let s = render(ps);
    assert(t.len() == name.len() + 4);
    if ps.len() == 0 {
        assert forall|i: int| 0 <= i <= s.len() implies !#[trigger] starts_with(s.skip(i), t) by {}
    } else {
        let p = ps[0];
        let tail = ps.skip(1);
        let rest = render(tail);
        assert(well_formed(tail) && forall|i: int|
            0 <= i < tail.len() ==> #[trigger] tail[i] != Piece::Token(name)) by {
            assert forall|i: int| 0 <= i < tail.len() implies well_formed_piece(
                #[trigger] tail[i],
            ) && tail[i] != Piece::Token(name) by {
                assert(tail[i] == ps[i + 1]);
            }
        }
        lemma_token_absent(tail, name);
        assert forall|i: int| 0 <= i <= s.len() implies !#[trigger] starts_with(s.skip(i), t) by {
            if i < piece_text(p).len() {
                lemma_piece_unmatched(p, rest, name, i);
            } else {
                let j = i - piece_text(p).len();
                assert(s.skip(i) =~= rest.skip(j));
                assert(!starts_with(rest.skip(j), t));
            }
        }
    }
}

/// What the entries give to a name is the value of an entry of that name;
/// they give nothing only to a name that none of them has.
pub proof fn lemma_value_listed(entries: Seq<(Seq<char>, Seq<char>)>, name: Seq<char>)
    ensures
        match value_of(entries, name) {
            Some(v) => exists|k: int|
                0 <= k < entries.len() && #[trigger] entries[k] == (name, v),
            None => forall|k: int| 0 <= k < entries.len() ==> (#[trigger] entries[k]).0 != name,
        },
    decreases entries.len(),
{
    if entries.len() > 0 {
        let head = entries.drop_last();
        lemma_value_listed(head, name);
        match value_of(head, name) {
            Some(v) => {
                let k = choose|k: int| 0 <= k < head.len() && #[trigger] head[k] == (name, v);
                assert(entries[k] == head[k]);
            },
            None => {
                if entries.last().0 == name {
                    assert(entries[entries.len() - 1] == (name, entries.last().1));
                } else {
                    assert forall|k: int| 0 <= k < entries.len() implies (#[trigger] entries[k]).0
                        != name by {
                        if k < head.len() {
                            assert(entries[k] == head[k]);
                        }
                    }
                }
            },
        }
    }
}

/// After the filling every piece is well formed still, and none is a token
/// whose name is listed.
pub proof fn lemma_filled_clean(ps: Seq<Piece>, entries: Seq<(Seq<char>, Seq<char>)>)
    requires
        well_formed(ps),
        fillable(entries),
    ensures
        well_formed(filled(ps, entries)),
        forall|k: int, j: int|
            0 <= k < entries.len() && 0 <= j < ps.len() ==> #[trigger] filled(ps, entries)[j]
                != Piece::Token((#[trigger] entries[k]).0),
{
    let out = filled(ps, entries);
    assert forall|j: int| 0 <= j < out.len() implies well_formed_piece(#[trigger] out[j]) && forall|
        k: int,
    |
        0 <= k < entries.len() ==> out[j] != Piece::Token((#[trigger] entries[k]).0) by {
        assert(well_formed_piece(ps[j]));
        if let Piece::Token(name) = ps[j] {
            lemma_value_listed(entries, name);
            if let Some(v) = value_of(entries, name) {
                let k = choose|k: int| 0 <= k < entries.len() && #[trigger] entries[k] == (name, v);
                assert(no_opening(entries[k].1));
            }
        }
    }
}

/// The substitution fills a template: in a text made of plain text without
/// opening braces and of whole tokens, with every listed token of the form
/// `{{NAME}}` and no opening brace in any value, each listed token is
/// replaced by its value wherever it stands, and no listed token is left.
pub proof fn lemma_template_filled(ps: Seq<Piece>, entries: Seq<(Seq<char>, Seq<char>)>)
    requires
        well_formed(ps),
        fillable(entries),
    ensures
        substituted(render(ps), replacements_of(entries)) == render(filled(ps, entries)),
        forall|k: int|
            0 <= k < entries.len() ==> !occurs(
                token_text((#[trigger] entries[k]).0),
                substituted(render(ps), replacements_of(entries)),
            ),
    decreases entries.len(),
{
    let reps = replacements_of(entries);
    if entries.len() == 0 {
        assert(filled(ps, entries) =~= ps);
    } else {
        let head = entries.drop_last();
        let last = entries.last();
        assert(fillable(head)) by {
            assert forall|k: int| 0 <= k < head.len() implies brace_free((#[trigger] head[k]).0)
                && no_opening(head[k].1) by {
                assert(head[k] == entries[k]);
            }
        }
        lemma_template_filled(ps, head);
        lemma_filled_clean(ps, head);
        assert(reps.drop_last() =~= replacements_of(head));
        assert(reps.last() == (token_text(last.0), last.1));
        assert(brace_free(entries[entries.len() - 1].0));
        lemma_fill_renders(filled(ps, head), last.0, last.1);
        assert(fill(filled(ps, head), last.0, last.1) =~= filled(ps, entries));
    }
    lemma_filled_clean(ps, entries);
    assert forall|k: int| 0 <= k < entries.len() implies !occurs(
        token_text((#[trigger] entries[k]).0),
        substituted(render(ps), reps),
    ) by {
        let out = filled(ps, entries);
        assert forall|j: int| 0 <= j < out.len() implies #[trigger] out[j] != Piece::Token(
            entries[k].0,
        ) by {
            assert(filled(ps, entries)[j] != Piece::Token(entries[k].0));
        }
        lemma_token_absent(out, entries[k].0);
    }
}

} // verus!
