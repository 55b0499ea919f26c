//! What can go wrong while discovery is set up.
use vstd::prelude::*;
use vstd::string::StringExecFns;

verus! {

/// The text of an input or output error, as its `Display` writes it. What it
/// says rests on the operating system and is left open.
#[verifier::external_body]
fn io_error_text(error: &std::io::Error) -> (text: String)
{
    format!("{}", error)
}

/// Tells whether `text` is what the `Display` of an input or output error wrote.
pub closed spec fn written_of_error(error: std::io::Error, text: Seq<char>) -> bool {
    exists|written: String|
        written@ == text && #[trigger] call_ensures(io_error_text, (&error,), written)
}

/// Only what the `Display` of the very error wrote counts as written of it.
proof fn error_was_written(error: std::io::Error, text: Seq<char>)
    ensures
        written_of_error(error, text) <==> exists|written: String|
            written@ == text && #[trigger] call_ensures(io_error_text, (&error,), written),
{
}

/// The reasons for which discovery cannot start.
#[derive(Debug)]
pub enum Error {
    /// Kademlia could not bootstrap.
    FailedBootstrap(String),
    /// Multicast DNS could not start.
    FailedMdns(std::io::Error),
}

impl Error {
    /// The start of the message of this kind of error.
    pub open spec fn message_start(&self) -> Seq<char> {
        match self {
            Error::FailedBootstrap(_) => "Failed to bootstrap kademlia "@,
            Error::FailedMdns(_) => "Failed to initialize mdns "@,
        }
    }

    /// The message for the user, given why it failed.
    pub fn message_for(&self, reason: &str) -> (text: String)
        ensures
            text@ == self.message_start() + reason@,
    {
        let mut text = match self {
            Error::FailedBootstrap(_) => String::from_str("Failed to bootstrap kademlia "),
            Error::FailedMdns(_) => String::from_str("Failed to initialize mdns "),
        };
        text.append(reason);
        text
    }

    /// The message for the user: what failed, then why.
    pub fn message(&self) -> (text: String)
        ensures
            self matches Error::FailedBootstrap(reason) ==> text@ == self.message_start() + reason@,
            self matches Error::FailedMdns(error) ==> exists|reason: Seq<char>|
                {
                    &&& text@ == #[trigger] (self.message_start() + reason)
                    &&& written_of_error(*error, reason)
                },
    {
        match self {
            Error::FailedBootstrap(reason) => self.message_for(reason.as_str()),
            Error::FailedMdns(error) => {
                let reason = io_error_text(error);
                self.message_for(reason.as_str())
            },
        }
    }
}

} // verus!
