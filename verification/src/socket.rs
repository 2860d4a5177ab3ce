//! What goes out through the writer, and what is told about it.

use crate::text::{contains, has_occurrence};
use vstd::prelude::*;

verus! {

/// What marks a line as one that carries the token.
pub const SECRET_MARK: &'static str = "oauth:";

/// The client's end of the transport.
#[derive(Clone, Copy, Debug, PartialEq, Eq)]
pub struct Client;

/// A line on its way out: the message for the transport, and what to report
/// of it before it is sent.
#[derive(Clone, Debug, PartialEq, Eq)]
pub struct Outgoing {
    /// The text of the one message that carries the line.
    pub message: String,
    /// What to report, if the line may be shown.
    pub report: Option<String>,
}

/// What is reported of a line that goes out: the line between quotes, and
/// nothing at all where the line carries the token.
pub open spec fn send_report(data: Seq<char>) -> Option<Seq<char>> {
    if has_occurrence(data, SECRET_MARK@) {
        None
    } else {
        Some("[+] Send: '"@ + data + "'"@)
    }
}

impl Client {
    /// Prepares the line `data` for sending: it goes out as it is, in one
    /// message, and is reported unless it carries the token.
    pub fn write_socket(data: &str) -> (outgoing: Outgoing)
        ensures
            outgoing.message@ == data@,
            outgoing.report.deep_view() == send_report(data@),
    {
        let report = if contains(data, SECRET_MARK) {
            None
        } else {
            let mut text = String::from_str("[+] Send: '");
            text.append(data);
            text.append("'");
            Some(text)
        };
        Outgoing { message: data.to_owned(), report }
    }
}

} // verus!
