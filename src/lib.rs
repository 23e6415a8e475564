//! A social-graph state engine: users, posts, likes, tips and follow edges,
//! with every operation stated and proved against a mathematical model.
use vstd::prelude::*;

mod clock;
pub mod event;
pub mod ids;
pub mod model;
pub mod network;
pub mod table;

pub use event::{Error, ErrorKind, Event};
pub use model::{Like, Post, Tip, User};
pub use network::SocialNetwork;

verus! {

} // verus!
