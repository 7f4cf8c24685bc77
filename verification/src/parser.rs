//! Reading typed values back from the text of a response.

use std::collections::VecDeque;
use vstd::prelude::*;
use crate::entity::{
    all_lists, clone_entities, color_text, column_letter, join, render, render_each,
    vertex_text, views, Color, Entity, EntityView,
};
use crate::response::ResponseParseError;
use crate::text::{
    decimal, fold, fold_case, is_digit, lemma_decimal_value, lemma_run, lemma_run_is,
    parse_signed, parse_unsigned, run, signed_value, spells, spells_word, string_from_chars,
    unsigned_value,
};

verus! {

/// Whether `c` stands between tokens: a space or a newline.
pub open spec fn is_separator(c: char) -> bool {
    c == ' ' || c == '\n'
}

/// The property of a character to stand between tokens.
pub open spec fn separating() -> spec_fn(char) -> bool {
    |c: char| is_separator(c)
}

/// The property of a character to be part of a token.
pub open spec fn in_token() -> spec_fn(char) -> bool {
    |c: char| !is_separator(c)
}

/// The text `s` from its first token on.
pub open spec fn token_start(s: Seq<char>) -> Seq<char> {
    s.skip(run(s, separating()) as int)
}

/// The first token of `s`: the characters behind the separators that `s`
/// starts with, up to the next separator or to the end. It is empty where
/// `s` holds no token.
pub open spec fn first_token(s: Seq<char>) -> Seq<char> {
    token_start(s).take(run(token_start(s), in_token()) as int)
}

/// What is left of `s` behind its first token and the separator that ends
/// the token.
pub open spec fn after_token(s: Seq<char>) -> Seq<char> {
    let t = token_start(s);
    let n = run(t, in_token());
    if n < t.len() {
        t.skip(n as int + 1)
    } else {
        Seq::empty()
    }
}

/// Whether `s` holds a token.
pub open spec fn has_token(s: Seq<char>) -> bool {
    first_token(s).len() > 0
}

/// The color that the token `t` names: `w` or `white`, `b` or `black`, in
/// any case of the letters.
pub open spec fn decode_color(t: Seq<char>) -> Option<Color> {
    if spells(t, "w"@) || spells(t, "white"@) {
        Some(Color::W)
    } else if spells(t, "b"@) || spells(t, "black"@) {
        Some(Color::B)
    } else {
        None
    }
}

/// Whether `c` is a letter of the ASCII alphabet.
pub open spec fn is_letter(c: char) -> bool {
    ('a' <= c && c <= 'z') || ('A' <= c && c <= 'Z')
}

/// Whether `c` names a column: a letter of the ASCII alphabet, in either
/// case, other than `i`, which names none.
pub open spec fn is_column_letter(c: char) -> bool {
    is_letter(c) && fold_case(c) != 'i'
}

/// The column that the column letter `c` names: its place in the alphabet
/// without `i`, counted from one. So `h` names column 8 and `j` column 9.
/// The letter `i` names no column, and no token with it is a vertex.
pub open spec fn column_of(c: char) -> i32
    recommends
        is_column_letter(c),
{
    let place = fold_case(c) as u32 - 'a' as u32 + 1;
    if place > 8 {
        (place - 1) as i32
    } else {
        place as i32
    }
}

/// The vertex that the token `t` names: `pass`, in any case of the letters,
/// is the vertex `(0, 0)`; any other token has two or three characters, a
/// column letter, which is never `i`, and a signed number for the row.
pub open spec fn decode_vertex(t: Seq<char>) -> Option<(i32, i32)> {
    if spells(t, "pass"@) {
        Some((0i32, 0i32))
    } else if t.len() < 2 || t.len() > 3 || !is_column_letter(t[0]) {
        None
    } else {
        match signed_value(t.skip(1)) {
            Some(row) => Some((column_of(t[0]), row)),
            None => None,
        }
    }
}

/// The truth value that the token `t` names: `true` or `false`, in any case
/// of the letters.
pub open spec fn decode_bool(t: Seq<char>) -> Option<bool> {
    if spells(t, "true"@) {
        Some(true)
    } else if spells(t, "false"@) {
        Some(false)
    } else {
        None
    }
}

/// The state of an [`EntityParser`]: the text not yet read, the entities
/// read so far, and whether a read has failed.
pub struct ParserView {
    pub rest: Seq<char>,
    pub entities: Seq<EntityView>,
    pub failed: bool,
}

/// The state of a parser that has read nothing of the text `s` yet.
pub open spec fn unread(s: Seq<char>) -> ParserView {
    ParserView { rest: s, entities: Seq::empty(), failed: false }
}

/// One read from an [`EntityParser`]. A read of a float comes with what the
/// caller's decoder made of the token.
pub enum Access {
    S,
    I,
    F(Option<Seq<char>>),
    Color,
    Vertex,
    Mv,
    Bool,
}

/// The state `st` with `rest` left to read, and with the entity `decoded`
/// added; where there is none, the read has failed.
pub open spec fn accept(st: ParserView, rest: Seq<char>, decoded: Option<EntityView>) -> ParserView {
    ParserView {
        rest,
        entities: match decoded {
            Some(e) => st.entities.push(e),
            None => st.entities,
        },
        failed: st.failed || decoded is None,
    }
}

/// What the token `t` is read as by a read of one token; a move, which
/// takes two tokens, is read from none.
pub open spec fn decode(t: Seq<char>, access: Access) -> Option<EntityView> {
    match access {
        Access::S => if t.len() > 0 {
            Some(EntityView::String(t))
        } else {
            None
        },
        Access::I => match unsigned_value(t) {
            Some(i) => Some(EntityView::Int(i)),
            None => None,
        },
        Access::F(decoded) => match decoded {
            Some(text) => Some(EntityView::Float(text)),
            None => None,
        },
        Access::Color => match decode_color(t) {
            Some(c) => Some(EntityView::Color(c)),
            None => None,
        },
        Access::Vertex => match decode_vertex(t) {
            Some(v) => Some(EntityView::Vertex(v)),
            None => None,
        },
        Access::Bool => match decode_bool(t) {
            Some(b) => Some(EntityView::Boolean(b)),
            None => None,
        },
        Access::Mv => None,
    }
}

/// The state after one read.
///
/// A read takes one token from the text and adds the entity that the token
/// stands for; a token that stands for none makes the read fail, and a
/// failure stays. A read of a move takes a token for the color and, where
/// that is one, a second token for the vertex.
pub open spec fn step(st: ParserView, access: Access) -> ParserView {
    let token = first_token(st.rest);
    let rest = after_token(st.rest);
    match access {
        Access::Mv => match decode_color(token) {
            None => accept(st, rest, None),
            Some(c) => accept(
                st,
                after_token(rest),
                match decode_vertex(first_token(rest)) {
                    Some(v) => Some(EntityView::Move((c, v))),
                    None => None,
                },
            ),
        },
        _ => accept(st, rest, decode(token, access)),
    }
}

/// The state after the reads `accesses`, one after the other.
pub open spec fn steps(st: ParserView, accesses: Seq<Access>) -> ParserView
    decreases accesses.len(),
{
    if accesses.len() == 0 {
        st
    } else {
        step(steps(st, accesses.drop_last()), accesses.last())
    }
}

/// What a parser in state `st` gives as its result: the entities read,
/// unless a read has failed.
pub open spec fn result_of(st: ParserView) -> Option<Seq<EntityView>> {
    if st.failed {
        None
    } else {
        Some(st.entities)
    }
}

/// Once a read has failed, the result is a failure, however many reads
/// follow and whatever they read.
pub proof fn lemma_failure_stays(st: ParserView, accesses: Seq<Access>)
    requires
        st.failed,
    ensures
        steps(st, accesses).failed,
        result_of(steps(st, accesses)) is None,
    decreases accesses.len(),
{
    if accesses.len() > 0 {
        lemma_failure_stays(st, accesses.drop_last());
    }
}

/// A float handed in after a failed read leaves the failure in place.
pub proof fn lemma_failure_stays_with_float(st: ParserView, decoded: Option<EntityView>)
    requires
        st.failed,
    ensures
        result_of(accept(st, st.rest, decoded)) is None,
{
}

/// Whether `s` is a single token: not empty, and without separators.
pub open spec fn is_token(s: Seq<char>) -> bool {
    s.len() > 0 && forall|i: int| 0 <= i < s.len() ==> !is_separator(#[trigger] s[i])
}

/// A text that is a single token is read as that token, and nothing is
/// left behind it.
pub proof fn lemma_single_token(t: Seq<char>)
    requires
        is_token(t),
    ensures
        first_token(t) == t,
        after_token(t) == Seq::<char>::empty(),
{
    assert(token_start(t) =~= t);
    lemma_run_is(t, in_token(), t.len() as int);
}

/// Of a token, a separator and a text behind them, the token is read
/// first, and the text is left.
pub proof fn lemma_token_then(t: Seq<char>, sep: char, u: Seq<char>)
    requires
        is_token(t),
        is_separator(sep),
    ensures
        first_token(t.push(sep) + u) == t,
        after_token(t.push(sep) + u) == u,
{
    let s = t.push(sep) + u;
    assert(token_start(s) =~= s);
    assert(s[t.len() as int] == sep);
    lemma_run_is(s, in_token(), t.len() as int);
}

/// Whether `v` is the pass `(0, 0)` or a vertex with a column from 1 to 25
/// and a row from 1 to 99: the vertices whose text is read back as the same
/// vertex.
pub open spec fn is_plain_vertex(v: (i32, i32)) -> bool {
    (v.0 == 0 && v.1 == 0) || (1 <= v.0 <= 25 && 1 <= v.1 <= 99)
}

/// Whether `e` is a single value whose text is read back as the same value:
/// a number, a color, a truth value, a string that is one token, or a
/// vertex or move with a plain vertex.
pub open spec fn is_plain(e: EntityView) -> bool {
    match e {
        EntityView::Int(_) => true,
        EntityView::Float(_) => false,
        EntityView::String(s) => is_token(s),
        EntityView::Vertex(v) => is_plain_vertex(v),
        EntityView::Color(_) => true,
        EntityView::Move((_, v)) => is_plain_vertex(v),
        EntityView::Boolean(_) => true,
        EntityView::List(_) => false,
    }
}

/// The read that reads an entity of the kind of `e`.
pub open spec fn access_for(e: EntityView) -> Access {
    match e {
        EntityView::Int(_) => Access::I,
        EntityView::Float(t) => Access::F(Some(t)),
        EntityView::String(_) => Access::S,
        EntityView::Vertex(_) => Access::Vertex,
        EntityView::Color(_) => Access::Color,
        EntityView::Move(_) => Access::Mv,
        EntityView::Boolean(_) => Access::Bool,
        EntityView::List(_) => Access::S,
    }
}

/// No token that begins with the letter `i`, in either case, is a vertex.
pub proof fn lemma_no_vertex_with_i(t: Seq<char>)
    requires
        t.len() > 0,
        fold_case(t[0]) == 'i',
    ensures
        decode_vertex(t) is None,
{
    reveal_strlit("pass");
}

/// The text of a plain vertex is one token, and is decoded as that vertex.
pub proof fn lemma_vertex_round_trip(v: (i32, i32))
    requires
        is_plain_vertex(v),
    ensures
        is_token(vertex_text(v.0, v.1)),
        decode_vertex(vertex_text(v.0, v.1)) == Some(v),
{
    reveal_strlit("pass");
    let t = vertex_text(v.0, v.1);
    if v.0 == 0 {
        assert(t == "pass"@);
    } else {
        let row = decimal(v.1 as nat);
        let letter = column_letter(v.0 as int);
        lemma_decimal_value(v.1 as nat);
        assert(t[0] == letter);
        assert(t.skip(1) =~= row);
        assert forall|i: int| 0 <= i < t.len() implies !is_separator(#[trigger] t[i]) by {
            if i > 0 {
                assert(is_digit(row[i - 1]));
            }
        }
        assert(!spells(t, "pass"@));
        assert(row.skip(0) =~= row);
        assert(signed_value(row) == Some(v.1));
    }
}

/// The text of a color is one token, and is decoded as that color.
pub proof fn lemma_color_round_trip(c: Color)
    ensures
        is_token(color_text(c)),
        decode_color(color_text(c)) == Some(c),
{
    reveal_strlit("w");
    reveal_strlit("b");
    reveal_strlit("white");
    if c == Color::B {
        assert(fold_case("b"@[0]) != fold_case("w"@[0]));
    }
}

/// The text of a plain entity that is no move is one token, and the read
/// for its kind decodes that token as the entity.
pub proof fn lemma_plain_token(e: EntityView)
    requires
        is_plain(e),
        !(e is Move),
    ensures
        is_token(render(e)),
        decode(render(e), access_for(e)) == Some(e),
{
    let text = render(e);
    match e {
        EntityView::Int(i) => {
            lemma_decimal_value(i as nat);
            assert(unsigned_value(text) == Some(i));
        },
        EntityView::Vertex(v) => {
            lemma_vertex_round_trip(v);
        },
        EntityView::Color(c) => {
            lemma_color_round_trip(c);
        },
        EntityView::Boolean(b) => {
            reveal_strlit("true");
            reveal_strlit("false");
        },
        _ => {},
    }
}

/// A parser whose text is that of a plain entity reads the entity with the
/// read for its kind, and nothing is left.
pub proof fn lemma_read_last(st: ParserView, e: EntityView)
    requires
        is_plain(e),
        st.rest == render(e),
    ensures
        step(st, access_for(e)) == accept(st, Seq::empty(), Some(e)),
{
    match e {
        EntityView::Move((c, v)) => {
            lemma_color_round_trip(c);
            lemma_vertex_round_trip(v);
            lemma_token_then(color_text(c), ' ', vertex_text(v.0, v.1));
            lemma_single_token(vertex_text(v.0, v.1));
        },
        _ => {
            lemma_plain_token(e);
            lemma_single_token(render(e));
        },
    }
}

/// A parser whose text is that of a plain entity, a space and a text `u`
/// reads the entity with the read for its kind, and `u` is left.
pub proof fn lemma_read_next(st: ParserView, e: EntityView, u: Seq<char>)
    requires
        is_plain(e),
        st.rest == render(e).push(' ') + u,
    ensures
        step(st, access_for(e)) == accept(st, u, Some(e)),
{
    match e {
        EntityView::Move((c, v)) => {
            let vertex = vertex_text(v.0, v.1);
            lemma_color_round_trip(c);
            lemma_vertex_round_trip(v);
            assert(st.rest =~= color_text(c).push(' ') + (vertex.push(' ') + u));
            lemma_token_then(color_text(c), ' ', vertex.push(' ') + u);
            lemma_token_then(vertex, ' ', u);
        },
        _ => {
            lemma_plain_token(e);
            lemma_token_then(render(e), ' ', u);
        },
    }
}

/// An entity that is plain is read back from its text: a parser that reads
/// the text of the entity with the read for its kind ends with that entity
/// alone, with nothing left to read and without a failure.
pub proof fn lemma_round_trip(e: EntityView)
    requires
        is_plain(e),
    ensures
        step(unread(render(e)), access_for(e)) == (ParserView {
            rest: Seq::empty(),
            entities: seq![e],
            failed: false,
        }),
{
    lemma_read_last(unread(render(e)), e);
}

/// Whether every entity of `items` is plain.
pub open spec fn all_plain(items: Seq<EntityView>) -> bool {
    forall|i: int| 0 <= i < items.len() ==> is_plain(#[trigger] items[i])
}

/// The reads that read the entities of `items`, one after the other.
pub open spec fn accesses_for(items: Seq<EntityView>) -> Seq<Access> {
    Seq::new(items.len(), |i: int| access_for(items[i]))
}

/// A parser whose text is that of plain entities with a space between each
/// two, then a space and a text `u`, reads the entities with the reads for
/// their kinds, and `u` is left.
pub proof fn lemma_read_items(st: ParserView, items: Seq<EntityView>, u: Seq<char>)
    requires
        all_plain(items),
        items.len() > 0,
        st.rest == join(render_each(items), ' ').push(' ') + u,
    ensures
        steps(st, accesses_for(items)) == (ParserView {
            rest: u,
            entities: st.entities + items,
            failed: st.failed,
        }),
    decreases items.len(),
{
    let last = items.last();
    let init = items.drop_last();
    let reads = accesses_for(items);
    assert(reads.drop_last() =~= accesses_for(init));
    assert(render_each(items).drop_last() =~= render_each(init));
    if init.len() == 0 {
        lemma_read_next(st, last, u);
        assert(st.entities.push(last) =~= st.entities + items);
    } else {
        let behind = render(last).push(' ') + u;
        assert(st.rest =~= join(render_each(init), ' ').push(' ') + behind);
        lemma_read_items(st, init, behind);
        let mid = steps(st, accesses_for(init));
        lemma_read_next(mid, last, u);
        assert((st.entities + init).push(last) =~= st.entities + items);
    }
}

/// A list of plain entities is read back from its text, member by member:
/// a parser that reads the text of the list with the reads for the kinds of
/// its members ends with those members, with nothing left to read and
/// without a failure.
pub proof fn lemma_list_round_trip(items: Seq<EntityView>)
    requires
        all_plain(items),
    ensures
        steps(unread(render(EntityView::List(items))), accesses_for(items)) == (ParserView {
            rest: Seq::empty(),
            entities: items,
            failed: false,
        }),
{
    let text = render(EntityView::List(items));
    let st = unread(text);
    let reads = accesses_for(items);
    if items.len() == 0 {
        assert(st.entities =~= items);
    } else {
        let last = items.last();
        let init = items.drop_last();
        assert(reads.drop_last() =~= accesses_for(init));
        assert(render_each(items).drop_last() =~= render_each(init));
        assert(render_each(items).last() == render(last));
        if init.len() == 0 {
            lemma_read_last(st, last);
        } else {
            lemma_read_items(st, init, render(last));
            let mid = steps(st, accesses_for(init));
            lemma_read_last(mid, last);
            assert((st.entities + init).push(last) =~= items);
        }
    }
}

/// The color that the token `t` names.
pub fn color_of_token(t: &Vec<char>) -> (r: Option<Color>)
    ensures
        r == decode_color(t@),
{
    if spells_word(t, "w") || spells_word(t, "white") {
        Some(Color::W)
    } else if spells_word(t, "b") || spells_word(t, "black") {
        Some(Color::B)
    } else {
        None
    }
}

/// The vertex that the token `t` names.
pub fn vertex_of_token(t: &Vec<char>) -> (r: Option<(i32, i32)>)
    ensures
        r == decode_vertex(t@),
{
    if spells_word(t, "pass") {
        return Some((0, 0));
    }
    if t.len() < 2 || t.len() > 3 {
        return None;
    }
    let letter = fold(t[0]);
    if !('a' <= letter && letter <= 'z') || letter == 'i' {
        return None;
    }
    let place: u32 = letter as u32 - 'a' as u32 + 1;
    let column: i32 = if place > 8 {
        (place - 1) as i32
    } else {
        place as i32
    };
    match parse_signed(t, 1) {
        Some(row) => Some((column, row)),
        None => None,
    }
}

/// The truth value that the token `t` names.
pub fn bool_of_token(t: &Vec<char>) -> (r: Option<bool>)
    ensures
        r == decode_bool(t@),
{
    if spells_word(t, "true") {
        Some(true)
    } else if spells_word(t, "false") {
        Some(false)
    } else {
        None
    }
}

/// A reader of the entities in the text of a response.
///
/// Each read takes one token from the text. A failed read is remembered,
/// and is reported when the result is asked for at the end.
#[derive(Debug, PartialEq)]
pub struct EntityParser {
    buffer: VecDeque<char>,
    entities: Vec<Entity>,
    parse_error: bool,
}

impl View for EntityParser {
    type V = ParserView;

    closed spec fn view(&self) -> ParserView {
        ParserView {
            rest: self.buffer@,
            entities: views(self.entities@),
            failed: self.parse_error,
        }
    }
}

impl Clone for EntityParser {
    fn clone(&self) -> (r: Self)
        ensures
            r@ == self@,
    {
        let r = EntityParser {
            buffer: self.buffer.clone(),
            entities: clone_entities(&self.entities),
            parse_error: self.parse_error,
        };
        r
    }
}

impl EntityParser {
    /// A parser that reads the text `s`.
    pub fn new(s: &str) -> (p: EntityParser)
        ensures
            p@ == unread(s@),
    {
        let mut buffer: VecDeque<char> = VecDeque::new();
        for c in it: s.chars()
            invariant
                it.seq() == s@,
                buffer@ == it.seq().take(it.index() as int),
        {
            buffer.push_back(c);
        }
        let p = EntityParser { buffer, entities: Vec::new(), parse_error: false };
        proof {
            assert(p@.rest =~= s@);
            assert(p@.entities =~= Seq::<EntityView>::empty());
        }
        p
    }

    /// The entities read so far, unless a read has failed.
    pub fn result(&self) -> (r: Option<Vec<Entity>>)
        ensures
            match r {
                Some(entities) => result_of(self@) == Some(views(entities@)),
                None => result_of(self@) is None,
            },
    {
        if self.parse_error {
            return None;
        }
        Some(clone_entities(&self.entities))
    }

    /// Tells whether no token is left to read.
    pub fn is_eof(&self) -> (b: bool)
        ensures
            b == !has_token(self@.rest),
    {
        let mut i: usize = 0;
        while i < self.buffer.len() && (self.buffer[i] == ' ' || self.buffer[i] == '\n')
            invariant
                i <= self.buffer.len(),
                forall|j: int| 0 <= j < i ==> is_separator(#[trigger] self.buffer@[j]),
            decreases self.buffer.len() - i,
        {
            i += 1;
        }
        proof {
            let s = self.buffer@;
            lemma_run_is(s, separating(), i as int);
            let t = token_start(s);
            lemma_run(t, in_token());
        }
        i == self.buffer.len()
    }

    /// The entities read so far, or `BadEntityInput` where a read has
    /// failed.
    pub fn finish(&self) -> (r: Result<Vec<Entity>, ResponseParseError>)
        ensures
            match r {
                Ok(entities) => !self@.failed && views(entities@) == self@.entities,
                Err(e) => self@.failed && e is BadEntityInput,
            },
    {
        match self.result() {
            Some(entities) => Ok(entities),
            None => Err(ResponseParseError::BadEntityInput),
        }
    }

    /// Tells whether a read has failed.
    pub fn had_parse_error(&self) -> (b: bool)
        ensures
            b == self@.failed,
    {
        self.parse_error
    }

    /// Takes the first token out of the text.
    fn take_token(&mut self) -> (token: Vec<char>)
        ensures
            token@ == first_token(old(self)@.rest),
            final(self)@ == (ParserView { rest: after_token(old(self)@.rest), ..old(self)@ }),
    {
        let ghost s = self.buffer@;
        let ghost mut skipped: int = 0;
        while self.buffer.len() > 0 && (self.buffer[0] == ' ' || self.buffer[0] == '\n')
            invariant
                0 <= skipped <= s.len(),
                self.buffer@ == s.skip(skipped),
                forall|j: int| 0 <= j < skipped ==> is_separator(#[trigger] s[j]),
                self.entities == old(self).entities,
                self.parse_error == old(self).parse_error,
            decreases self.buffer@.len(),
        {
            self.buffer.pop_front();
            proof {
                skipped = skipped + 1;
            }
        }
        proof {
            lemma_run_is(s, separating(), skipped);
        }
        let ghost t = token_start(s);
        let mut token: Vec<char> = Vec::new();
        let mut ended = false;
        while !ended && self.buffer.len() > 0
            invariant
                token@.len() <= t.len(),
                token@ == t.take(token@.len() as int),
                forall|j: int| 0 <= j < token@.len() ==> !is_separator(#[trigger] t[j]),
                !ended ==> self.buffer@ == t.skip(token@.len() as int),
                ended ==> token@.len() < t.len() && is_separator(t[token@.len() as int])
                    && self.buffer@ == t.skip(token@.len() as int + 1),
                self.entities == old(self).entities,
                self.parse_error == old(self).parse_error,
            decreases self.buffer@.len() + (if ended { 0int } else { 1int }),
        {
            let c = self.buffer.pop_front().unwrap();
            if c == ' ' || c == '\n' {
                ended = true;
            } else {
                token.push(c);
            }
        }
        proof {
            lemma_run_is(t, in_token(), token@.len() as int);
            if !ended {
                assert(self.buffer@ =~= Seq::<char>::empty());
            }
        }
        token
    }

    /// Records what a read has given: adds the entity `decoded`, or, where
    /// there is none, remembers that the read has failed.
    fn record(&mut self, decoded: Option<Entity>)
        ensures
            final(self)@ == accept(
                old(self)@,
                old(self)@.rest,
                match decoded {
                    Some(e) => Some(e@),
                    None => None,
                },
            ),
    {
        match decoded {
            Some(e) => {
                self.entities.push(e);
                proof {
                    assert(views(self.entities@) =~= views(old(self).entities@).push(e@));
                }
            },
            None => {
                self.parse_error = true;
            },
        }
    }

    /// Takes the next token out of the text; `None` where no token is left.
    pub fn next_token(&mut self) -> (token: Option<String>)
        ensures
            final(self)@ == (ParserView { rest: after_token(old(self)@.rest), ..old(self)@ }),
            match token {
                Some(t) => t@ == first_token(old(self)@.rest) && t@.len() > 0,
                None => !has_token(old(self)@.rest),
            },
    {
        let token = self.take_token();
        if token.len() == 0 {
            None
        } else {
            Some(string_from_chars(token))
        }
    }

    /// Reads a token as a string. Fails where no token is left.
    pub fn s(&mut self) -> (r: &mut Self)
        ensures
            r@ == step(old(self)@, Access::S),
            *final(self) == *final(r),
    {
        let token = self.take_token();
        if token.len() == 0 {
            self.record(None);
        } else {
            self.record(Some(Entity::String(string_from_chars(token))));
        }
        self
    }

    /// Reads a token as an unsigned number.
    pub fn i(&mut self) -> (r: &mut Self)
        ensures
            r@ == step(old(self)@, Access::I),
            *final(self) == *final(r),
    {
        let token = self.take_token();
        match parse_unsigned(&token) {
            Some(i) => self.record(Some(Entity::Int(i))),
            None => self.record(None),
        }
        self
    }

    /// Reads a token as a float. What the token stands for is left to
    /// `parse`, which gives the decimal text of the float, or `None` where
    /// the token is no float.
    pub fn f<T>(&mut self, parse: T) -> (r: &mut Self) where T: Fn(&str) -> Option<String>
        requires
            forall|token: &str| call_requires(parse, (token,)),
        ensures
            exists|token: &str, decoded: Option<String>|
                token@ == first_token(old(self)@.rest) && call_ensures(parse, (token,), decoded)
                    && r@ == step(
                    old(self)@,
                    Access::F(
                        match decoded {
                            Some(text) => Some(text@),
                            None => None,
                        },
                    ),
                ),
            *final(self) == *final(r),
    {
        let token = string_from_chars(self.take_token());
        let decoded = parse(token.as_str());
        self.float(decoded)
    }

    /// Adds the float that the caller has decoded from a token, or fails
    /// where the token was no float. The float is given by its decimal text.
    pub fn float(&mut self, decoded: Option<String>) -> (r: &mut Self)
        ensures
            r@ == accept(
                old(self)@,
                old(self)@.rest,
                match decoded {
                    Some(text) => Some(EntityView::Float(text@)),
                    None => None,
                },
            ),
            *final(self) == *final(r),
    {
        match decoded {
            Some(text) => self.record(Some(Entity::Float(text))),
            None => self.record(None),
        }
        self
    }

    /// Reads a token as a color.
    pub fn color(&mut self) -> (r: &mut Self)
        ensures
            r@ == step(old(self)@, Access::Color),
            *final(self) == *final(r),
    {
        let token = self.take_token();
        match color_of_token(&token) {
            Some(c) => self.record(Some(Entity::Color(c))),
            None => self.record(None),
        }
        self
    }

    /// Reads a token as a vertex.
    pub fn vertex(&mut self) -> (r: &mut Self)
        ensures
            r@ == step(old(self)@, Access::Vertex),
            *final(self) == *final(r),
    {
        let token = self.take_token();
        match vertex_of_token(&token) {
            Some(v) => self.record(Some(Entity::Vertex(v))),
            None => self.record(None),
        }
        self
    }

    /// Reads two tokens as a move: a color, then a vertex. Where the first
    /// token is no color, the second is left in the text.
    pub fn mv(&mut self) -> (r: &mut Self)
        ensures
            r@ == step(old(self)@, Access::Mv),
            *final(self) == *final(r),
    {
        let token = self.take_token();
        match color_of_token(&token) {
            None => self.record(None),
            Some(c) => {
                let second = self.take_token();
                match vertex_of_token(&second) {
                    Some(v) => self.record(Some(Entity::Move((c, v)))),
                    None => self.record(None),
                }
            },
        }
        self
    }

    /// Reads a token as a truth value.
    pub fn bool(&mut self) -> (r: &mut Self)
        ensures
            r@ == step(old(self)@, Access::Bool),
            *final(self) == *final(r),
    {
        let token = self.take_token();
        match bool_of_token(&token) {
            Some(b) => self.record(Some(Entity::Boolean(b))),
            None => self.record(None),
        }
        self
    }
}

} // verus!
