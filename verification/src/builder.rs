//! Building the entities that a command takes as its arguments.

use vstd::prelude::*;
use crate::entity::{clone_entities, views, Color, Entity, EntityView};

verus! {

/// A builder of entities.
///
/// Each call stages one entity and puts the entity that was staged before
/// behind the entities gathered so far. `list` wraps what was gathered into
/// one list entity, and `build` gives the staged entity.
#[derive(Debug, PartialEq)]
pub struct EntityBuilder {
    list: Vec<Entity>,
    current: Option<Entity>,
}

/// The state of an [`EntityBuilder`]: the entities gathered so far, and the
/// staged entity.
pub struct BuilderView {
    pub list: Seq<EntityView>,
    pub current: Option<EntityView>,
}

impl View for EntityBuilder {
    type V = BuilderView;

    closed spec fn view(&self) -> BuilderView {
        BuilderView {
            list: views(self.list@),
            current: match self.current {
                Some(e) => Some(e@),
                None => None,
            },
        }
    }
}

/// The state of a builder that has just been made.
pub open spec fn empty_builder() -> BuilderView {
    BuilderView { list: Seq::empty(), current: None }
}

/// The entities that a builder in state `b` has gathered, the staged one
/// among them.
pub open spec fn gathered(b: BuilderView) -> Seq<EntityView> {
    match b.current {
        Some(e) => b.list.push(e),
        None => b.list,
    }
}

/// The state `b` after the entity `e` was staged.
pub open spec fn staged(b: BuilderView, e: EntityView) -> BuilderView {
    BuilderView { list: gathered(b), current: Some(e) }
}

/// The state `b` after its entities were wrapped into a list.
pub open spec fn wrapped(b: BuilderView) -> BuilderView {
    BuilderView { list: Seq::empty(), current: Some(EntityView::List(gathered(b))) }
}

/// The color that a flag stands for: white where it is set.
pub open spec fn color_of_flag(white: bool) -> Color {
    if white {
        Color::W
    } else {
        Color::B
    }
}

impl Clone for EntityBuilder {
    fn clone(&self) -> (r: Self)
        ensures
            r@ == self@,
    {
        EntityBuilder {
            list: clone_entities(&self.list),
            current: match &self.current {
                Some(e) => Some(e.clone()),
                None => None,
            },
        }
    }
}

impl Default for EntityBuilder {
    fn default() -> (b: Self)
        ensures
            b@ == empty_builder(),
    {
        EntityBuilder::new()
    }
}

impl EntityBuilder {
    /// A builder that holds nothing.
    pub fn new() -> (b: EntityBuilder)
        ensures
            b@ == empty_builder(),
    {
        let b = EntityBuilder { list: Vec::new(), current: None };
        proof {
            assert(b@.list =~= Seq::<EntityView>::empty());
        }
        b
    }

    /// Stages `e`, behind what was staged before.
    fn stage(&mut self, e: Entity)
        ensures
            final(self)@ == staged(old(self)@, e@),
    {
        match self.current.take() {
            Some(previous) => {
                self.list.push(previous);
                proof {
                    assert(views(self.list@) =~= views(old(self).list@).push(previous@));
                }
            },
            None => {},
        }
        self.current = Some(e);
    }

    /// Stages the number `i`.
    pub fn i(&mut self, i: u32) -> (r: &mut Self)
        ensures
            r@ == staged(old(self)@, EntityView::Int(i)),
            *final(self) == *final(r),
    {
        self.stage(Entity::Int(i));
        self
    }

    /// Stages the float that is written as the decimal text `f`.
    pub fn f(&mut self, f: &str) -> (r: &mut Self)
        ensures
            r@ == staged(old(self)@, EntityView::Float(f@)),
            *final(self) == *final(r),
    {
        self.stage(Entity::Float(f.to_owned()));
        self
    }

    /// Stages the string `s`.
    pub fn s(&mut self, s: &str) -> (r: &mut Self)
        ensures
            r@ == staged(old(self)@, EntityView::String(s@)),
            *final(self) == *final(r),
    {
        self.stage(Entity::String(s.to_owned()));
        self
    }

    /// Stages the vertex that stands for a pass.
    pub fn v_pass(&mut self) -> (r: &mut Self)
        ensures
            r@ == staged(old(self)@, EntityView::Vertex((0i32, 0i32))),
            *final(self) == *final(r),
    {
        self.stage(Entity::Vertex((0, 0)));
        self
    }

    /// Stages the vertex `v`.
    pub fn v(&mut self, v: (i32, i32)) -> (r: &mut Self)
        ensures
            r@ == staged(old(self)@, EntityView::Vertex(v)),
            *final(self) == *final(r),
    {
        self.stage(Entity::Vertex(v));
        self
    }

    /// Stages the color white.
    pub fn w(&mut self) -> (r: &mut Self)
        ensures
            r@ == staged(old(self)@, EntityView::Color(Color::W)),
            *final(self) == *final(r),
    {
        self.stage(Entity::Color(Color::W));
        self
    }

    /// Stages the color black.
    pub fn b(&mut self) -> (r: &mut Self)
        ensures
            r@ == staged(old(self)@, EntityView::Color(Color::B)),
            *final(self) == *final(r),
    {
        self.stage(Entity::Color(Color::B));
        self
    }

    /// Stages the truth value `b`.
    pub fn bool(&mut self, b: bool) -> (r: &mut Self)
        ensures
            r@ == staged(old(self)@, EntityView::Boolean(b)),
            *final(self) == *final(r),
    {
        self.stage(Entity::Boolean(b));
        self
    }

    /// Stages a color: white where `b` is set, black otherwise.
    pub fn color(&mut self, b: bool) -> (r: &mut Self)
        ensures
            r@ == staged(old(self)@, EntityView::Color(color_of_flag(b))),
            *final(self) == *final(r),
    {
        self.stage(Entity::Color(if b { Color::W } else { Color::B }));
        self
    }

    /// Stages a move of white to the vertex `v`.
    pub fn mv_w(&mut self, v: (i32, i32)) -> (r: &mut Self)
        ensures
            r@ == staged(old(self)@, EntityView::Move((Color::W, v))),
            *final(self) == *final(r),
    {
        self.stage(Entity::Move((Color::W, v)));
        self
    }

    /// Stages a move of black to the vertex `v`.
    pub fn mv_b(&mut self, v: (i32, i32)) -> (r: &mut Self)
        ensures
            r@ == staged(old(self)@, EntityView::Move((Color::B, v))),
            *final(self) == *final(r),
    {
        self.stage(Entity::Move((Color::B, v)));
        self
    }

    /// Stages a move to the vertex `v`: of white where `color` is set, of
    /// black otherwise.
    pub fn mv(&mut self, color: bool, v: (i32, i32)) -> (r: &mut Self)
        ensures
            r@ == staged(old(self)@, EntityView::Move((color_of_flag(color), v))),
            *final(self) == *final(r),
    {
        self.stage(Entity::Move((if color { Color::W } else { Color::B }, v)));
        self
    }

    /// Wraps the entities gathered so far, the staged one last, into one
    /// list entity, and stages that list.
    pub fn list(&mut self) -> (r: &mut Self)
        ensures
            r@ == wrapped(old(self)@),
            *final(self) == *final(r),
    {
        match self.current.take() {
            Some(previous) => {
                self.list.push(previous);
                proof {
                    assert(views(self.list@) =~= views(old(self).list@).push(previous@));
                }
            },
            None => {},
        }
        let mut members: Vec<Entity> = Vec::new();
        std::mem::swap(&mut members, &mut self.list);
        self.current = Some(Entity::List(members));
        proof {
            assert(views(self.list@) =~= Seq::<EntityView>::empty());
        }
        self
    }

    /// The staged entity.
    pub fn build(&self) -> (e: Entity)
        requires
            self@.current is Some,
        ensures
            Some(e@) == self@.current,
    {
        match &self.current {
            Some(e) => e.clone(),
            None => vstd::pervasive::unreached(),
        }
    }
}

/// The entity that `f` stages in a new builder.
pub fn entity<T>(f: T) -> (e: Entity) where T: Fn(&mut EntityBuilder) -> &mut EntityBuilder
    requires
        forall|b: &mut EntityBuilder| b@ == empty_builder() ==> call_requires(f, (b,)),
        forall|b: &mut EntityBuilder, out: &mut EntityBuilder|
            b@ == empty_builder() && call_ensures(f, (b,), out) && *final(out) == *out
                ==> final(b)@.current is Some,
    ensures
        exists|b: &mut EntityBuilder, out: &mut EntityBuilder|
            b@ == empty_builder() && call_ensures(f, (b,), out) && *final(out) == *out
                && final(b)@.current == Some(e@),
{
    let mut b = EntityBuilder::new();
    f(&mut b);
    b.build()
}

} // verus!
