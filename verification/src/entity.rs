//! The typed values of the protocol and the text they are written as.

use vstd::prelude::*;
use crate::text::{
    char_from_code, decimal, is_scalar_value, push_decimal, push_str, string_from_chars,
};

verus! {

/// The color of a player's stones.
#[derive(Debug, Clone, Copy, PartialEq, Eq, Structural)]
pub enum Color {
    W,
    B,
}

/// A value of the protocol.
///
/// A vertex is a pair of column and row; a pair with a coordinate of zero
/// or less stands for a pass. A float is held as the decimal text that it is
/// written with.
#[derive(Debug, PartialEq)]
pub enum Entity {
    Int(u32),
    Float(String),
    String(String),
    Vertex((i32, i32)),
    Color(Color),
    Move((Color, (i32, i32))),
    Boolean(bool),
    List(Vec<Entity>),
}

/// What an [`Entity`] holds, as a mathematical value.
pub enum EntityView {
    Int(u32),
    Float(Seq<char>),
    String(Seq<char>),
    Vertex((i32, i32)),
    Color(Color),
    Move((Color, (i32, i32))),
    Boolean(bool),
    List(Seq<EntityView>),
}

/// The mathematical value that `e` holds.
pub open spec fn view_of(e: Entity) -> EntityView
    decreases e,
{
    match e {
        Entity::Int(i) => EntityView::Int(i),
        Entity::Float(t) => EntityView::Float(t@),
        Entity::String(s) => EntityView::String(s@),
        Entity::Vertex(v) => EntityView::Vertex(v),
        Entity::Color(c) => EntityView::Color(c),
        Entity::Move(m) => EntityView::Move(m),
        Entity::Boolean(b) => EntityView::Boolean(b),
        Entity::List(items) => EntityView::List(views(items@)),
    }
}

/// The views of the entities of `items`, in order.
pub open spec fn views(items: Seq<Entity>) -> Seq<EntityView>
    decreases items,
{
    Seq::new(
        items.len(),
        |i: int|
            if 0 <= i < items.len() {
                view_of(items[i])
            } else {
                EntityView::Boolean(false)
            },
    )
}

impl View for Entity {
    type V = EntityView;

    open spec fn view(&self) -> EntityView {
        view_of(*self)
    }
}

/// The letter that names column `i`, for `i` of at least one: the `i`-th
/// capital letter of the alphabet without `I`. Past `Z` the characters that
/// follow it in code order go on, and where the code is that of no character
/// the letter is `Z`.
pub open spec fn column_letter(i: int) -> char {
    let code = if i <= 8 {
        'A' as int + i - 1
    } else {
        'A' as int + i
    };
    if is_scalar_value(code) {
        code as char
    } else {
        'Z'
    }
}

/// No column is named `I`.
pub proof fn lemma_no_column_i(i: int)
    requires
        1 <= i,
    ensures
        column_letter(i) != 'I',
{
}

/// The text of the vertex with column `h` and row `v`.
pub open spec fn vertex_text(h: i32, v: i32) -> Seq<char> {
    if h <= 0 || v <= 0 {
        "pass"@
    } else {
        seq![column_letter(h as int)] + decimal(v as nat)
    }
}

/// The text of a color.
pub open spec fn color_text(c: Color) -> Seq<char> {
    match c {
        Color::W => "w"@,
        Color::B => "b"@,
    }
}

/// The texts of `parts`, with `sep` between each two neighbours.
pub open spec fn join(parts: Seq<Seq<char>>, sep: char) -> Seq<char>
    decreases parts.len(),
{
    if parts.len() == 0 {
        Seq::empty()
    } else if parts.len() == 1 {
        parts[0]
    } else {
        join(parts.drop_last(), sep).push(sep) + parts.last()
    }
}

/// Whether every member of `items` is a list.
pub open spec fn all_lists(items: Seq<EntityView>) -> bool {
    forall|i: int| 0 <= i < items.len() ==> (#[trigger] items[i]) is List
}

/// What stands between the members of a list: a newline where every member
/// is a list itself, a space otherwise.
pub open spec fn list_separator(items: Seq<EntityView>) -> char {
    if all_lists(items) {
        '\n'
    } else {
        ' '
    }
}

/// The text that an entity is written as.
pub open spec fn render(e: EntityView) -> Seq<char>
    decreases e,
{
    match e {
        EntityView::Int(i) => decimal(i as nat),
        EntityView::Float(t) => t,
        EntityView::String(s) => s,
        EntityView::Vertex((h, v)) => vertex_text(h, v),
        EntityView::Color(c) => color_text(c),
        EntityView::Move((c, (h, v))) => color_text(c).push(' ') + vertex_text(h, v),
        EntityView::Boolean(b) => if b {
            "true"@
        } else {
            "false"@
        },
        EntityView::List(items) => join(render_each(items), list_separator(items)),
    }
}

/// The texts of the members of `items`, in order.
pub open spec fn render_each(items: Seq<EntityView>) -> Seq<Seq<char>>
    decreases items,
{
    Seq::new(
        items.len(),
        |i: int|
            if 0 <= i < items.len() {
                render(items[i])
            } else {
                Seq::empty()
            },
    )
}

/// The letter that names column `i`.
pub fn gen_move_char(i: u32) -> (c: char)
    requires
        1 <= i <= i32::MAX,
    ensures
        c == column_letter(i as int),
        c != 'I',
{
    let code: u32 = if i <= 8 {
        'A' as u32 + (i - 1)
    } else {
        'A' as u32 + i
    };
    match char_from_code(code) {
        Some(c) => c,
        None => 'Z',
    }
}

/// Appends the text of the vertex with column `h` and row `v` to `out`.
fn push_vertex(out: &mut Vec<char>, h: i32, v: i32)
    ensures
        final(out)@ == old(out)@ + vertex_text(h, v),
{
    if h <= 0 || v <= 0 {
        push_str(out, "pass");
    } else {
        out.push(gen_move_char(h as u32));
        push_decimal(out, v as u32);
    }
}

/// Appends the text of the color `c` to `out`.
fn push_color(out: &mut Vec<char>, c: Color)
    ensures
        final(out)@ == old(out)@ + color_text(c),
{
    match c {
        Color::W => push_str(out, "w"),
        Color::B => push_str(out, "b"),
    }
}

/// Tells whether every member of `items` is a list.
fn only_lists(items: &Vec<Entity>) -> (b: bool)
    ensures
        b == all_lists(views(items@)),
{
    let mut k: usize = 0;
    while k < items.len()
        invariant
            k <= items.len(),
            forall|i: int| 0 <= i < k ==> (#[trigger] views(items@)[i]) is List,
        decreases items.len() - k,
    {
        match &items[k] {
            Entity::List(_) => {},
            _ => {
                assert(!(views(items@)[k as int] is List));
                return false;
            },
        }
        k += 1;
    }
    true
}

impl Entity {
    /// Appends the text of this entity to `out`.
    pub fn render_into(&self, out: &mut Vec<char>)
        ensures
            final(out)@ == old(out)@ + render(self@),
        decreases self,
    {
        match self {
            Entity::Int(i) => push_decimal(out, *i),
            Entity::Float(t) => push_str(out, t.as_str()),
            Entity::String(s) => push_str(out, s.as_str()),
            Entity::Vertex((h, v)) => push_vertex(out, *h, *v),
            Entity::Color(c) => push_color(out, *c),
            Entity::Move((c, (h, v))) => {
                push_color(out, *c);
                out.push(' ');
                push_vertex(out, *h, *v);
            },
            Entity::Boolean(b) => {
                if *b {
                    push_str(out, "true");
                } else {
                    push_str(out, "false");
                }
            },
            Entity::List(items) => {
                let ghost models = views(items@);
                let ghost texts = render_each(models);
                let newline = only_lists(items);
                let sep: char = if newline {
                    '\n'
                } else {
                    ' '
                };
                let mut k: usize = 0;
                while k < items.len()
                    invariant
                        k <= items.len(),
                        *self is List,
                        self->List_0 == *items,
                        models == views(items@),
                        texts == render_each(models),
                        out@ == old(out)@ + join(texts.take(k as int), sep),
                    decreases items.len() - k,
                {
                    if k > 0 {
                        out.push(sep);
                    }
                    items[k].render_into(out);
                    proof {
                        let next = texts.take(k as int + 1);
                        assert(next.drop_last() =~= texts.take(k as int));
                    }
                    k += 1;
                }
                proof {
                    assert(texts.take(k as int) =~= texts);
                }
            },
        }
    }

    /// The text that this entity is written as.
    pub fn to_string(&self) -> (s: String)
        ensures
            s@ == render(self@),
    {
        let mut out: Vec<char> = Vec::new();
        self.render_into(&mut out);
        string_from_chars(out)
    }
}

/// A copy of the entities of `items`.
pub fn clone_entities(items: &Vec<Entity>) -> (r: Vec<Entity>)
    ensures
        views(r@) == views(items@),
    decreases items,
{
    let mut out: Vec<Entity> = Vec::new();
    let mut k: usize = 0;
    while k < items.len()
        invariant
            k <= items.len(),
            out.len() == k,
            forall|j: int| 0 <= j < k ==> out[j]@ == items[j]@,
        decreases items.len() - k,
    {
        let c = items[k].clone();
        out.push(c);
        k += 1;
    }
    out
}

impl Clone for Entity {
    fn clone(&self) -> (r: Self)
        ensures
            r@ == self@,
        decreases self,
    {
        match self {
            Entity::Int(i) => Entity::Int(*i),
            Entity::Float(t) => Entity::Float(t.clone()),
            Entity::String(s) => Entity::String(s.clone()),
            Entity::Vertex(v) => Entity::Vertex(*v),
            Entity::Color(c) => Entity::Color(*c),
            Entity::Move(m) => Entity::Move(*m),
            Entity::Boolean(b) => Entity::Boolean(*b),
            Entity::List(items) => {
                let copy = clone_entities(items);
                Entity::List(copy)
            },
        }
    }
}

} // verus!
