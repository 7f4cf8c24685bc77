//! A controller-side implementation of the Go Text Protocol: commands and
//! their arguments, responses and their framing, and the bookkeeping of an
//! engine session.

pub mod builder;
pub mod command;
pub mod controller;
pub mod detached_command;
pub mod entity;
pub mod parser;
pub mod response;
pub mod text;

pub use builder::{entity, EntityBuilder};
pub use command::Command;
pub use entity::{Color, Entity};
pub use parser::EntityParser;
pub use response::{Response, ResponseError, ResponseParseError, ResponseParser};
