//! The decisions of the run loop. The embedding program reads lines, calls
//! callbacks and error handlers, and prints; these functions say, for each
//! event it hands back, what comes next.
use vstd::prelude::*;
use crate::error::Error;

verus! {

/// What reading the next line gave.
#[derive(Debug)]
pub enum ReadEvent {
    /// A line of input.
    Line(String),
    /// The input has ended.
    EndOfInput,
    /// Reading failed, for the reason given; the input may go on.
    ReadFailed(String),
}

/// What the loop does next.
#[derive(Debug)]
pub enum LoopStep {
    /// Record the line in the history and process it.
    Process(String),
    /// Show this text on the error sink and read the next line.
    Report(String),
    /// End the run cleanly.
    Stop,
}

/// The notice for a failed read.
pub open spec fn read_failure_notice(reason: Seq<char>) -> Seq<char> {
    "Error reading line: "@ + reason
}

/// The step after a read: end of input stops the run, a failed read is
/// reported and the loop goes on, a line is processed.
pub fn on_read(event: ReadEvent) -> (r: LoopStep)
    ensures
        event is EndOfInput ==> r is Stop,
        event matches ReadEvent::ReadFailed(m) ==> r matches LoopStep::Report(n) && n@
            == read_failure_notice(m@),
        event matches ReadEvent::Line(l) ==> r matches LoopStep::Process(n) && n@ == l@,
{
    match event {
        ReadEvent::Line(line) => LoopStep::Process(line),
        ReadEvent::EndOfInput => LoopStep::Stop,
        ReadEvent::ReadFailed(reason) => {
            let mut notice = String::from_str("Error reading line: ");
            notice.append(reason.as_str());
            LoopStep::Report(notice)
        },
    }
}

/// Whether the run ends after the error handler returned: it ends, with the
/// handler's error, exactly when the handler failed.
pub fn after_handler(handled: Result<(), Error>) -> (stop: Option<Error>)
    ensures
        handled is Ok <==> stop is None,
        handled matches Err(e) ==> stop matches Some(x) && x@ == e@,
{
    match handled {
        Ok(()) => None,
        Err(e) => Some(e),
    }
}

/// What becomes of a callback's result.
#[derive(Debug)]
pub enum Outcome<E> {
    /// Show this text on the output sink.
    Print(String),
    /// Nothing to show.
    Silent,
    /// Hand this error to the error handler.
    Route(E),
}

/// Text returned by a callback is printed, no text means no output, and an
/// error goes to the error handler unchanged.
pub fn route_result<E>(r: Result<Option<String>, E>) -> (o: Outcome<E>)
    ensures
        r matches Ok(Some(t)) ==> o matches Outcome::Print(u) && u@ == t@,
        r matches Ok(None) ==> o is Silent,
        r matches Err(e) ==> o matches Outcome::Route(x) && x == e,
{
    match r {
        Ok(Some(text)) => Outcome::Print(text),
        Ok(None) => Outcome::Silent,
        Err(e) => Outcome::Route(e),
    }
}

/// The notice shown when help is asked for an unknown command.
pub open spec fn help_not_found_notice(name: Seq<char>) -> Seq<char> {
    "Help not found for command '"@ + name + "'"@
}

pub fn help_not_found(name: &str) -> (r: String)
    ensures
        r@ == help_not_found_notice(name@),
{
    let mut notice = String::from_str("Help not found for command '");
    notice.append(name);
    notice.append("'");
    notice
}

} // verus!
