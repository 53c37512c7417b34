//! The failures that the library reports.

use vstd::prelude::*;
use vstd::string::StringExecFns;

verus! {

/// A failure of a recovery, of a catalogue lookup or of the configuration.
#[derive(Debug, PartialEq, Eq)]
pub enum TwitchRecoverError {
    /// The pool of identifying headers is empty.
    UserAgent,
    /// A stream's title holds no complete entry.
    ParseStreamTitle,
    /// The catalogue knows no broadcaster of this name.
    StreamerNotFound(String),
    /// No candidate address answered with success.
    StreamNotFound,
    /// A request failed before any reply came; the text is the transport's.
    HttpRequest(String),
    /// A reply came with a status other than success: the status, then the address.
    HttpResponseCode(String, String),
    /// A reply's body could not be read as the expected record.
    SerializeHttpResponse(String),
}

/// What a fallible operation of the library returns.
pub type TwitchRecoverResult<T = ()> = Result<T, TwitchRecoverError>;

/// The text that describes a failure to a person.
pub open spec fn message_of(e: TwitchRecoverError) -> Seq<char> {
    match e {
        TwitchRecoverError::UserAgent => "User agent not found"@,
        TwitchRecoverError::ParseStreamTitle => "Failed to parse the stream title"@,
        TwitchRecoverError::StreamerNotFound(name) => "The streamer '"@ + name@
            + "' could not be found"@,
        TwitchRecoverError::StreamNotFound => "The stream could not be found"@,
        TwitchRecoverError::HttpRequest(_) => "The request was unable to be performed correctly"@,
        TwitchRecoverError::HttpResponseCode(code, url) => "The response code "@ + code@
            + " was received for '"@ + url@ + "'"@,
        TwitchRecoverError::SerializeHttpResponse(_) => "The HTTP response cannot be serialized"@,
    }
}

impl TwitchRecoverError {
    /// Renders the failure as the text of `message_of`.
    pub fn message(&self) -> (text: String)
        ensures
            text@ == message_of(*self),
    {
        match self {
            TwitchRecoverError::UserAgent => String::from_str("User agent not found"),
            TwitchRecoverError::ParseStreamTitle => String::from_str(
                "Failed to parse the stream title",
            ),
            TwitchRecoverError::StreamerNotFound(name) => {
                let mut text = String::from_str("The streamer '");
                text.append(name.as_str());
                text.append("' could not be found");
                text
            },
            TwitchRecoverError::StreamNotFound => String::from_str("The stream could not be found"),
            TwitchRecoverError::HttpRequest(_) => String::from_str(
                "The request was unable to be performed correctly",
            ),
            TwitchRecoverError::HttpResponseCode(code, url) => {
                let mut text = String::from_str("The response code ");
                text.append(code.as_str());
                text.append(" was received for '");
                text.append(url.as_str());
                text.append("'");
                text
            },
            TwitchRecoverError::SerializeHttpResponse(_) => String::from_str(
                "The HTTP response cannot be serialized",
            ),
        }
    }
}

} // verus!
