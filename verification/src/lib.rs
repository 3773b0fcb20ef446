//! A framework for interactive bots on the Zephyr messaging protocol:
//! notices and their codec, command shapes and matching, and the ordered
//! dispatch of handlers and commands.

pub mod bot;
pub mod codec;
pub mod command;
pub mod pattern;
pub mod signature;
pub mod store;
pub mod text;
pub mod transport;
pub mod wrap;
pub mod zephyr;

pub use bot::Bot;
pub use command::Command;
pub use command::Handler;
pub use command::Scope;
pub use command::Shape;
pub use zephyr::Direction;
pub use zephyr::Notice;
pub use zephyr::Triplet;
