//! Which log events go where, and as what text.
//!
//! A [`config::Config`] names appenders, the places that events are written
//! to, and loggers, the rules that say which events go to which appenders
//! and how they are written. A [`dispatch::Dispatcher`] is the loggers of a
//! configuration at work: it is offered each event, and says for each logger
//! whether the logger takes the event and what text it makes of it. The one
//! who holds the appenders does the writing.
//!
//! What a function returns is stated in its contract, over the sequences of
//! characters that the strings stand for.

pub mod appenders;
pub mod clock;
pub mod config;
pub mod dispatch;
pub mod error;
pub mod event;
pub mod loggers;
pub mod size;
pub mod template;
pub mod text;
