//! Templates taken apart: a template as a run of texts and placeholders, and
//! the proof that rendering it fills each placeholder in and changes
//! nothing else, as long as the result holds no mark of a placeholder.
//!
//! The replacements of [`rendered`] are made one after the other on the
//! whole text, so a value that goes in early is scanned by the later ones.
//! The law here says when that cannot be seen.

use crate::template_files::{
    rendered, CONFIG_PLACEHOLDER, IS_LAZY, IS_LAZY_PLACEHOLDER, JS_SDK_URL_PLACEHOLDER,
    LOAD_DIRECTIVE, PUBLIC_KEY_PLACEHOLDER,
};
use crate::text::{
    lemma_occurs_at_each, lemma_replaced_at_start, lemma_replaced_behind_clear_start, occurs_at,
    occurs_in, replaced,
};
use vstd::prelude::*;

verus! {

/// One piece of a template: a text, or one of the five placeholders.
pub enum Piece {
    Text(Seq<char>),
    PublicKey,
    JsSdkUrl,
    Config,
    IsLazy,
    LoadDirective,
}

/// The values that go into a template.
pub struct Filling {
    pub public_key: Seq<char>,
    pub js_sdk_url: Seq<char>,
    pub config: Seq<char>,
}

impl Piece {
    /// The piece as the template holds it.
    pub open spec fn written(self) -> Seq<char> {
        match self {
            Piece::Text(text) => text,
            Piece::PublicKey => PUBLIC_KEY_PLACEHOLDER@,
            Piece::JsSdkUrl => JS_SDK_URL_PLACEHOLDER@,
            Piece::Config => CONFIG_PLACEHOLDER@,
            Piece::IsLazy => IS_LAZY_PLACEHOLDER@,
            Piece::LoadDirective => LOAD_DIRECTIVE@,
        }
    }

    /// The piece as the rendered text holds it.
    pub open spec fn filled(self, filling: Filling) -> Seq<char> {
        match self {
            Piece::Text(text) => text,
            Piece::PublicKey => filling.public_key,
            Piece::JsSdkUrl => filling.js_sdk_url,
            Piece::Config => filling.config,
            Piece::IsLazy => IS_LAZY@,
            Piece::LoadDirective => ""@,
        }
    }

    /// Which of the five replacements fills the piece, counted from zero; a
    /// text needs none.
    spec fn turn(self) -> int {
        match self {
            Piece::Text(text) => -1,
            Piece::PublicKey => 0,
            Piece::JsSdkUrl => 1,
            Piece::Config => 2,
            Piece::IsLazy => 3,
            Piece::LoadDirective => 4,
        }
    }

    /// The piece after the first `done` replacements.
    spec fn after(self, done: int, filling: Filling) -> Seq<char> {
        if self.turn() < done {
            self.filled(filling)
        } else {
            self.written()
        }
    }
}

/// The template that the pieces make.
pub open spec fn written(pieces: Seq<Piece>) -> Seq<char>
    decreases pieces.len(),
{
    if pieces.len() == 0 {
        Seq::empty()
    } else {
        pieces[0].written() + written(pieces.skip(1))
    }
}

/// The pieces with every placeholder filled in.
pub open spec fn filled(pieces: Seq<Piece>, filling: Filling) -> Seq<char>
    decreases pieces.len(),
{
    if pieces.len() == 0 {
        Seq::empty()
    } else {
        pieces[0].filled(filling) + filled(pieces.skip(1), filling)
    }
}

/// The pieces after the first `done` replacements.
spec fn after(pieces: Seq<Piece>, done: int, filling: Filling) -> Seq<char>
    decreases pieces.len(),
{
    if pieces.len() == 0 {
        Seq::empty()
    } else {
        pieces[0].after(done, filling) + after(pieces.skip(1), done, filling)
    }
}

/// The mark with which every placeholder begins stands in `text` at `at`: an
/// opening brace, a second one or a percent sign, and a space.
pub open spec fn mark_at(text: Seq<char>, at: int) -> bool {
    &&& 0 <= at
    &&& at + 3 <= text.len()
    &&& text[at] == '{'
    &&& (text[at + 1] == '{' || text[at + 1] == '%')
    &&& text[at + 2] == ' '
}

/// Nowhere in `text` stands the mark of a placeholder.
pub open spec fn holds_no_mark(text: Seq<char>) -> bool {
    forall|at: int| !mark_at(text, at)
}

/// `pattern` begins with the mark and has no opening brace behind it.
spec fn marked(pattern: Seq<char>) -> bool {
    &&& pattern.len() >= 4
    &&& mark_at(pattern, 0)
    &&& forall|i: int| 2 <= i < pattern.len() ==> pattern[i] != '{'
}

/// Two patterns differ in one of their first four characters.
spec fn begin_apart(one: Seq<char>, other: Seq<char>) -> bool {
    exists|i: int| 0 <= i < 4 && one[i] != other[i]
}

/// The placeholder that the replacement at `turn` looks for.
spec fn sought(turn: int) -> Seq<char> {
    if turn == 0 {
        PUBLIC_KEY_PLACEHOLDER@
    } else if turn == 1 {
        JS_SDK_URL_PLACEHOLDER@
    } else if turn == 2 {
        CONFIG_PLACEHOLDER@
    } else if turn == 3 {
        IS_LAZY_PLACEHOLDER@
    } else {
        LOAD_DIRECTIVE@
    }
}

/// What the replacement at `turn` puts in its place.
spec fn put(turn: int, filling: Filling) -> Seq<char> {
    if turn == 0 {
        filling.public_key
    } else if turn == 1 {
        filling.js_sdk_url
    } else if turn == 2 {
        filling.config
    } else if turn == 3 {
        IS_LAZY@
    } else {
        ""@
    }
}

/// Each placeholder begins with the mark, has no opening brace behind it,
/// and differs from each other one within its first four characters.
proof fn lemma_placeholders_are_marked()
    ensures
        forall|turn: int| 0 <= turn < 5 ==> marked(#[trigger] sought(turn)),
        forall|one: int, other: int|
            0 <= one < 5 && 0 <= other < 5 && one != other ==> begin_apart(
                #[trigger] sought(one),
                #[trigger] sought(other),
            ),
{
    reveal_strlit("{{ publicKey|safe }}");
    reveal_strlit("{{ jsSdkUrl|safe }}");
    reveal_strlit("{{ config|to_json|safe }}");
    reveal_strlit("{{ isLazy|safe|lower }}");
    reveal_strlit("{% load sentry_helpers %}");
    assert(marked(sought(0)));
    assert(marked(sought(1)));
    assert(marked(sought(2)));
    assert(marked(sought(3)));
    assert(marked(sought(4)));
    assert forall|one: int, other: int|
        0 <= one < 5 && 0 <= other < 5 && one != other implies begin_apart(
        #[trigger] sought(one),
        #[trigger] sought(other),
    ) by {
        let a = sought(one);
        let b = sought(other);
        if one == 4 || other == 4 {
            assert(a[1] != b[1]);
        } else {
            assert(a[3] != b[3]);
        }
    }
}

/// Before any replacement the pieces are the template.
proof fn lemma_after_none(pieces: Seq<Piece>, filling: Filling)
    ensures
        after(pieces, 0, filling) == written(pieces),
    decreases pieces.len(),
{
    if pieces.len() > 0 {
        lemma_after_none(pieces.skip(1), filling);
    }
}

/// After all five replacements every placeholder is filled in.
proof fn lemma_after_all(pieces: Seq<Piece>, filling: Filling)
    ensures
        after(pieces, 5, filling) == filled(pieces, filling),
    decreases pieces.len(),
{
    if pieces.len() > 0 {
        lemma_after_all(pieces.skip(1), filling);
    }
}

/// The first character of what is left to scan is the one that the filled
/// text has there, or it opens a placeholder.
proof fn lemma_first_character(pieces: Seq<Piece>, done: int, filling: Filling)
    requires
        0 <= done < 5,
        after(pieces, done, filling).len() >= 1,
    ensures
        ({
            let now = after(pieces, done, filling);
            let then = filled(pieces, filling);
            (then.len() >= 1 && now[0] == then[0]) || now[0] == '{'
        }),
    decreases pieces.len(),
{
    lemma_placeholders_are_marked();
    let first = pieces[0];
    let rest = pieces.skip(1);
    if first.turn() < done {
        if first.filled(filling).len() == 0 {
            assert(after(pieces, done, filling) =~= after(rest, done, filling));
            assert(filled(pieces, filling) =~= filled(rest, filling));
            lemma_first_character(rest, done, filling);
        }
    } else {
        assert(first.written() == sought(first.turn()));
    }
}

/// The first two characters of what is left to scan are the ones that the
/// filled text has there, or one of them opens a placeholder.
proof fn lemma_first_two_characters(pieces: Seq<Piece>, done: int, filling: Filling)
    requires
        0 <= done < 5,
        after(pieces, done, filling).len() >= 2,
    ensures
        ({
            let now = after(pieces, done, filling);
            let then = filled(pieces, filling);
            ||| (then.len() >= 2 && now[0] == then[0] && now[1] == then[1])
            ||| now[1] == '{'
            ||| (now[0] == '{' && now[1] == '%')
        }),
    decreases pieces.len(),
{
    lemma_placeholders_are_marked();
    let first = pieces[0];
    let rest = pieces.skip(1);
    if first.turn() < done {
        let same = first.filled(filling);
        if same.len() == 0 {
            assert(after(pieces, done, filling) =~= after(rest, done, filling));
            assert(filled(pieces, filling) =~= filled(rest, filling));
            lemma_first_two_characters(rest, done, filling);
        } else if same.len() == 1 {
            lemma_first_character(rest, done, filling);
            assert(after(pieces, done, filling)[1] == after(rest, done, filling)[0]);
            if filled(rest, filling).len() >= 1 {
                assert(filled(pieces, filling)[1] == filled(rest, filling)[0]);
            }
        }
    } else {
        assert(first.written() == sought(first.turn()));
    }
}

/// No occurrence of a placeholder begins inside another placeholder that is
/// still written out, whatever follows it.
proof fn lemma_none_begins_in_placeholder(
    written: Seq<char>,
    rest: Seq<char>,
    pattern: Seq<char>,
)
    requires
        marked(written),
        marked(pattern),
        begin_apart(written, pattern),
    ensures
        forall|at: int| 0 <= at < written.len() ==> !occurs_at(written + rest, pattern, at),
{
    let text = written + rest;
    assert forall|at: int| 0 <= at < written.len() implies !occurs_at(text, pattern, at) by {
        if occurs_at(text, pattern, at) {
            lemma_occurs_at_each(text, pattern, at);
            if at == 0 {
                let i = choose|i: int| 0 <= i < 4 && written[i] != pattern[i];
                assert(text[at + i] == pattern[i]);
            } else {
                assert(text[at + 0] == pattern[0]);
                assert(text[at + 1] == pattern[1]);
            }
        }
    }
}

/// No occurrence of a placeholder begins inside a piece that the filled text
/// holds as it is, where the filled text holds no mark.
proof fn lemma_none_begins_in_filled_piece(
    same: Seq<char>,
    now: Seq<char>,
    then: Seq<char>,
    pattern: Seq<char>,
)
    requires
        marked(pattern),
        holds_no_mark(same + then),
        now.len() >= 1 ==> (then.len() >= 1 && now[0] == then[0]) || now[0] == '{',
        now.len() >= 2 ==> (then.len() >= 2 && now[0] == then[0] && now[1] == then[1]) || now[1]
            == '{' || (now[0] == '{' && now[1] == '%'),
    ensures
        forall|at: int| 0 <= at < same.len() ==> !occurs_at(same + now, pattern, at),
{
    let text = same + now;
    assert forall|at: int| 0 <= at < same.len() implies !occurs_at(text, pattern, at) by {
        if occurs_at(text, pattern, at) {
            lemma_occurs_at_each(text, pattern, at);
            assert(text[at + 0] == pattern[0]);
            assert(text[at + 1] == pattern[1]);
            assert(text[at + 2] == pattern[2]);
            assert(!mark_at(same + then, at));
            if at + 3 <= same.len() {
                assert((same + then)[at] == text[at]);
                assert((same + then)[at + 1] == text[at + 1]);
                assert((same + then)[at + 2] == text[at + 2]);
            } else if at + 2 == same.len() {
                assert(text[at + 2] == now[0]);
                assert((same + then)[at + 2] == then[0]);
            } else {
                assert(text[at + 1] == now[0]);
                assert(text[at + 2] == now[1]);
                assert((same + then)[at + 1] == then[0]);
                assert((same + then)[at + 2] == then[1]);
            }
        }
    }
}

/// One replacement fills the placeholders that are its own and changes
/// nothing else.
proof fn lemma_one_replacement(pieces: Seq<Piece>, done: int, filling: Filling)
    requires
        0 <= done < 5,
        holds_no_mark(filled(pieces, filling)),
    ensures
        replaced(after(pieces, done, filling), sought(done), put(done, filling)) == after(
            pieces,
            done + 1,
            filling,
        ),
    decreases pieces.len(),
{
    lemma_placeholders_are_marked();
    let pattern = sought(done);
    let with = put(done, filling);
    if pieces.len() > 0 {
        let first = pieces[0];
        let rest = pieces.skip(1);
        let now = after(rest, done, filling);
        let then = filled(rest, filling);
        assert forall|at: int| !mark_at(then, at) by {
            if mark_at(then, at) {
                assert(mark_at(filled(pieces, filling), first.filled(filling).len() + at));
            }
        }
        lemma_one_replacement(rest, done, filling);
        if first.turn() == done {
            lemma_replaced_at_start(now, pattern, with);
        } else if first.turn() < done {
            if now.len() >= 1 {
                lemma_first_character(rest, done, filling);
            }
            if now.len() >= 2 {
                lemma_first_two_characters(rest, done, filling);
            }
            lemma_none_begins_in_filled_piece(first.filled(filling), now, then, pattern);
            lemma_replaced_behind_clear_start(first.filled(filling), now, pattern, with);
        } else {
            assert(first.written() == sought(first.turn()));
            lemma_none_begins_in_placeholder(first.written(), now, pattern);
            lemma_replaced_behind_clear_start(first.written(), now, pattern, with);
        }
    }
}

/// A piece of the template stands, filled in, in the filled text.
proof fn lemma_filled_holds_piece(pieces: Seq<Piece>, filling: Filling, piece: Piece)
    requires
        pieces.contains(piece),
    ensures
        occurs_in(filled(pieces, filling), piece.filled(filling)),
    decreases pieces.len(),
{
    let text = filled(pieces, filling);
    let part = piece.filled(filling);
    if pieces[0] == piece {
        assert(text.subrange(0, part.len() as int) =~= part);
        assert(occurs_at(text, part, 0));
    } else {
        let rest = pieces.skip(1);
        let i = choose|i: int| 0 <= i < pieces.len() && pieces[i] == piece;
        assert(rest[i - 1] == piece);
        lemma_filled_holds_piece(rest, filling, piece);
        let behind = filled(rest, filling);
        let at = choose|at: int| occurs_at(behind, part, at);
        let before = pieces[0].filled(filling).len();
        assert(text.subrange(before + at, before + at + part.len()) =~= behind.subrange(
            at,
            at + part.len(),
        ));
        assert(occurs_at(text, part, before + at));
    }
}

/// A text without a mark holds no placeholder.
proof fn lemma_no_mark_no_placeholder(text: Seq<char>, turn: int)
    requires
        holds_no_mark(text),
        0 <= turn < 5,
    ensures
        !occurs_in(text, sought(turn)),
{
    lemma_placeholders_are_marked();
    let pattern = sought(turn);
    assert forall|at: int| !occurs_at(text, pattern, at) by {
        if occurs_at(text, pattern, at) {
            lemma_occurs_at_each(text, pattern, at);
            assert(text[at + 0] == pattern[0]);
            assert(text[at + 1] == pattern[1]);
            assert(text[at + 2] == pattern[2]);
            assert(mark_at(text, at));
        }
    }
}

/// Rendering a template that is made of texts and placeholders gives the
/// same pieces with every placeholder filled in, provided that the result
/// holds no mark of a placeholder: no text and no value brings one in, and
/// none arises where two pieces meet.
pub proof fn lemma_rendering_fills_the_placeholders(pieces: Seq<Piece>, filling: Filling)
    requires
        holds_no_mark(filled(pieces, filling)),
    ensures
        rendered(written(pieces), filling.public_key, filling.js_sdk_url, filling.config)
            == filled(pieces, filling),
{
    lemma_after_none(pieces, filling);
    lemma_one_replacement(pieces, 0, filling);
    lemma_one_replacement(pieces, 1, filling);
    lemma_one_replacement(pieces, 2, filling);
    lemma_one_replacement(pieces, 3, filling);
    lemma_one_replacement(pieces, 4, filling);
    lemma_after_all(pieces, filling);
}

/// The loader that such a template gives holds each value for which the
/// template has a placeholder, and none of the five placeholders.
pub proof fn lemma_rendered_holds_values_and_no_placeholder(
    pieces: Seq<Piece>,
    filling: Filling,
)
    requires
        holds_no_mark(filled(pieces, filling)),
    ensures
        ({
            let body = rendered(
                written(pieces),
                filling.public_key,
                filling.js_sdk_url,
                filling.config,
            );
            &&& pieces.contains(Piece::PublicKey) ==> occurs_in(body, filling.public_key)
            &&& pieces.contains(Piece::JsSdkUrl) ==> occurs_in(body, filling.js_sdk_url)
            &&& pieces.contains(Piece::Config) ==> occurs_in(body, filling.config)
            &&& !occurs_in(body, PUBLIC_KEY_PLACEHOLDER@)
            &&& !occurs_in(body, JS_SDK_URL_PLACEHOLDER@)
            &&& !occurs_in(body, CONFIG_PLACEHOLDER@)
            &&& !occurs_in(body, IS_LAZY_PLACEHOLDER@)
            &&& !occurs_in(body, LOAD_DIRECTIVE@)
        }),
{
    lemma_rendering_fills_the_placeholders(pieces, filling);
    let body = filled(pieces, filling);
    if pieces.contains(Piece::PublicKey) {
        lemma_filled_holds_piece(pieces, filling, Piece::PublicKey);
    }
    if pieces.contains(Piece::JsSdkUrl) {
        lemma_filled_holds_piece(pieces, filling, Piece::JsSdkUrl);
    }
    if pieces.contains(Piece::Config) {
        lemma_filled_holds_piece(pieces, filling, Piece::Config);
    }
    lemma_no_mark_no_placeholder(body, 0);
    lemma_no_mark_no_placeholder(body, 1);
    lemma_no_mark_no_placeholder(body, 2);
    lemma_no_mark_no_placeholder(body, 3);
    lemma_no_mark_no_placeholder(body, 4);
}

} // verus!
