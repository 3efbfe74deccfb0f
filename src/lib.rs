//! A small engine for building interactive, line-oriented command shells.
//!
//! Commands are declared with named positional parameters, input lines are
//! split into tokens, tokens are bound to parameter names, and the shell
//! decides for each line what is to be done: nothing, a help text, a help
//! miss, or a call of the command's callback with its bound arguments.
//! Reading lines, calling callbacks and printing are left to the embedding
//! program.

pub mod binder;
pub mod command;
pub mod error;
pub mod help;
pub mod paint;
pub mod parameter;
pub mod repl;
pub mod session;
pub mod text;
pub mod tokenizer;
pub mod value;

pub use binder::validate_arguments;
pub use command::{Callback, Command};
pub use error::{Error, Result};
pub use help::{DefaultHelpViewer, HelpContext, HelpEntry, HelpViewer};
pub use parameter::Parameter;
pub use repl::{completion_candidates, Action, Repl};
pub use session::{after_handler, help_not_found, on_read, route_result, LoopStep, Outcome, ReadEvent};
pub use tokenizer::tokenize;
pub use value::{Arguments, Value};
