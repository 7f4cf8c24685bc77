//! Commands of the controller and the text they are sent as.

use vstd::prelude::*;
use crate::builder::{empty_builder, EntityBuilder};
use crate::entity::{render, Entity, EntityView};
use crate::text::{decimal, push_decimal, push_str, string_from_chars};

verus! {

/// A command for the engine: a name, the id that it is sent with, if it has
/// one, and its arguments, if it has any, as one entity.
#[derive(Debug, PartialEq)]
pub struct Command {
    id: Option<u32>,
    name: String,
    args: Option<Entity>,
}

/// What a [`Command`] holds, as a mathematical value.
pub struct CommandView {
    pub id: Option<u32>,
    pub name: Seq<char>,
    pub args: Option<EntityView>,
}

impl View for Command {
    type V = CommandView;

    closed spec fn view(&self) -> CommandView {
        CommandView {
            id: self.id,
            name: self.name@,
            args: match self.args {
                Some(e) => Some(e@),
                None => None,
            },
        }
    }
}

/// The text that a command is sent as: the id and a space, where it has an
/// id; the name; a space and the arguments, where it has any; a newline.
pub open spec fn wire_text(c: CommandView) -> Seq<char> {
    let head = match c.id {
        Some(id) => decimal(id as nat).push(' '),
        None => Seq::empty(),
    };
    let tail = match c.args {
        Some(e) => seq![' '] + render(e),
        None => Seq::empty(),
    };
    (head + c.name + tail).push('\n')
}

impl Clone for Command {
    fn clone(&self) -> (r: Self)
        ensures
            r@ == self@,
    {
        Command {
            id: self.id,
            name: self.name.clone(),
            args: match &self.args {
                Some(e) => Some(e.clone()),
                None => None,
            },
        }
    }
}

impl Command {
    /// A command with the name `name`, without id and without arguments.
    pub fn new(name: &str) -> (c: Command)
        ensures
            c@ == (CommandView { id: None, name: name@, args: None }),
    {
        Command { id: None, name: name.to_owned(), args: None }
    }

    /// A command with the name `name` and the arguments that `args` stages
    /// in a new builder.
    pub fn new_with_args<T>(name: &str, args: T) -> (c: Command) where
        T: Fn(&mut EntityBuilder) -> &mut EntityBuilder,

        requires
            forall|b: &mut EntityBuilder| b@ == empty_builder() ==> call_requires(args, (b,)),
            forall|b: &mut EntityBuilder, out: &mut EntityBuilder|
                b@ == empty_builder() && call_ensures(args, (b,), out) && *final(out) == *out
                    ==> final(b)@.current is Some,
        ensures
            c@.id is None,
            c@.name == name@,
            exists|b: &mut EntityBuilder, out: &mut EntityBuilder|
                b@ == empty_builder() && call_ensures(args, (b,), out) && *final(out) == *out
                    && final(b)@.current == c@.args && c@.args is Some,
    {
        let mut cmd = Command::new(name);
        cmd.args(args);
        cmd
    }

    /// A command with the name `name` and the arguments that `args` stages
    /// in a new builder; a short name for `new_with_args`.
    pub fn cmd<T>(name: &str, args: T) -> (c: Command) where
        T: Fn(&mut EntityBuilder) -> &mut EntityBuilder,

        requires
            forall|b: &mut EntityBuilder| b@ == empty_builder() ==> call_requires(args, (b,)),
            forall|b: &mut EntityBuilder, out: &mut EntityBuilder|
                b@ == empty_builder() && call_ensures(args, (b,), out) && *final(out) == *out
                    ==> final(b)@.current is Some,
        ensures
            c@.id is None,
            c@.name == name@,
            exists|b: &mut EntityBuilder, out: &mut EntityBuilder|
                b@ == empty_builder() && call_ensures(args, (b,), out) && *final(out) == *out
                    && final(b)@.current == c@.args && c@.args is Some,
    {
        Command::new_with_args(name, args)
    }

    /// Gives the command the id `id`, in place of the one it had.
    pub fn set_id(&mut self, id: u32)
        ensures
            final(self)@ == (CommandView { id: Some(id), ..old(self)@ }),
    {
        self.id = Some(id);
    }

    /// Gives the command the arguments that `f` stages in a new builder, in
    /// place of those it had.
    pub fn args<T>(&mut self, f: T) where T: Fn(&mut EntityBuilder) -> &mut EntityBuilder
        requires
            forall|b: &mut EntityBuilder| b@ == empty_builder() ==> call_requires(f, (b,)),
            forall|b: &mut EntityBuilder, out: &mut EntityBuilder|
                b@ == empty_builder() && call_ensures(f, (b,), out) && *final(out) == *out
                    ==> final(b)@.current is Some,
        ensures
            final(self)@.id == old(self)@.id,
            final(self)@.name == old(self)@.name,
            exists|b: &mut EntityBuilder, out: &mut EntityBuilder|
                b@ == empty_builder() && call_ensures(f, (b,), out) && *final(out) == *out
                    && final(b)@.current == final(self)@.args && final(self)@.args is Some,
    {
        let mut b = EntityBuilder::new();
        f(&mut b);
        let built = b.build();
        self.set_args(&built);
    }

    /// Gives the command the arguments `args`, in place of those it had.
    pub fn set_args(&mut self, args: &Entity)
        ensures
            final(self)@ == (CommandView { args: Some(args@), ..old(self)@ }),
    {
        self.args = Some(args.clone());
    }

    /// The text that the command is sent as.
    pub fn to_string(&self) -> (s: String)
        ensures
            s@ == wire_text(self@),
    {
        let mut out: Vec<char> = Vec::new();
        match self.id {
            Some(id) => {
                push_decimal(&mut out, id);
                out.push(' ');
            },
            None => {},
        }
        push_str(&mut out, self.name.as_str());
        match &self.args {
            Some(e) => {
                out.push(' ');
                e.render_into(&mut out);
            },
            None => {},
        }
        out.push('\n');
        string_from_chars(out)
    }

    /// The bytes that the command is sent as: its text in UTF-8.
    pub fn to_bytes(&self) -> (bytes: Vec<u8>)
        ensures
            bytes@ == vstd::utf8::encode_utf8(wire_text(self@)),
    {
        let text = self.to_string();
        text.as_str().as_bytes_vec()
    }
}

} // verus!
