use vstd::prelude::*;

pub mod client;
pub mod codec;
pub mod connection;
pub mod message;
pub mod registry;
pub mod text;

pub use message::ChatMessage;

verus! {

} // verus!
