//! Client-side orchestration for a messaging application.
//!
//! The library holds the rules; the application around it performs the
//! input and output and serializes concurrent access.
//!
//! - [`slot`]: a one-shot slot for a shared service, whose initializer is
//!   started once whoever asks, and [`startup`]: the order in which the four
//!   services come up.
//! - [`bus`]: a bounded bus that fans inbound events out to subscribers
//!   without ever holding the publisher back.
//! - [`store`]: the notification history, one row per conversation and
//!   message id, and [`notification`]: the bundler that turns the newest rows
//!   of a conversation into one grouped notification.
//! - [`message`] and [`wire`]: the inbound events and what the user interface
//!   is told of them; [`text`] and [`deep_link`]: small helpers.

pub mod bus;
pub mod deep_link;
pub mod message;
pub mod notification;
pub mod slot;
pub mod startup;
pub mod store;
pub mod text;
pub mod wire;
