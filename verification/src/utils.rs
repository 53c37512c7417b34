//! What surrounds a request: the identifying header that it carries, and
//! how its reply is judged.

use vstd::prelude::*;
use vstd::string::StringExecFns;
use rand::seq::SliceRandom;
use rand::thread_rng;
use crate::error::TwitchRecoverError;

verus! {

/// Whether a header is one of a pool's.
pub open spec fn holds(pool: Seq<String>, header: Seq<char>) -> bool {
    exists|i: int| 0 <= i < pool.len() && (#[trigger] pool[i])@ == header
}

/// Calls `SliceRandom::choose` of the crate `rand` on the pool, with the
/// generator of `thread_rng`. Trusted: there is a choice exactly when the
/// pool is not empty, and the choice is one of the pool's headers. Which
/// one is left open.
#[verifier::external_body]
fn choose_header(pool: &Vec<String>) -> (choice: Option<String>)
    ensures
        choice is Some <==> pool@.len() > 0,
        choice matches Some(header) ==> holds(pool@, header@),
{
    pool.choose(&mut thread_rng()).cloned()
}

/// Get a random header from the pool. An empty pool is a fault of the
/// configuration.
pub fn get_random_header(pool: &Vec<String>) -> (header: Result<String, TwitchRecoverError>)
    ensures
        header is Err <==> pool@.len() == 0,
        header matches Err(e) ==> e == TwitchRecoverError::UserAgent,
        header matches Ok(h) ==> holds(pool@, h@),
{
    match choose_header(pool) {
        Some(user_agent) => Ok(user_agent),
        None => Err(TwitchRecoverError::UserAgent),
    }
}

/// A request that is ready to be sent: its address and the identifying
/// header that it carries.
#[derive(Debug)]
pub struct ProbeRequest {
    pub url: String,
    pub user_agent: String,
}

/// Prepares one request for each address, each with a header drawn for it.
/// With an empty pool nothing is prepared, so nothing can be sent.
pub fn plan_probes(urls: &Vec<String>, pool: &Vec<String>) -> (plan: Result<
    Vec<ProbeRequest>,
    TwitchRecoverError,
>)
    ensures
        plan is Err <==> pool@.len() == 0,
        plan matches Err(e) ==> e == TwitchRecoverError::UserAgent,
        plan matches Ok(requests) ==> requests@.len() == urls@.len() && forall|i: int|
            0 <= i < urls@.len() ==> (#[trigger] requests@[i]).url@ == urls@[i]@ && holds(
                pool@,
                requests@[i].user_agent@,
            ),
{
    if pool.len() == 0 {
        return Err(TwitchRecoverError::UserAgent);
    }
    let mut requests: Vec<ProbeRequest> = Vec::new();
    let mut i: usize = 0;
    while i < urls.len()
        invariant
            0 <= i <= urls@.len(),
            pool@.len() > 0,
            requests@.len() == i,
            forall|k: int|
                0 <= k < i ==> (#[trigger] requests@[k]).url@ == urls@[k]@ && holds(
                    pool@,
                    requests@[k].user_agent@,
                ),
        decreases urls@.len() - i,
    {
        match get_random_header(pool) {
            Ok(user_agent) => {
                requests.push(ProbeRequest { url: urls[i].clone(), user_agent });
            },
            Err(e) => {
                return Err(e);
            },
        }
        i += 1;
    }
    Ok(requests)
}

/// What became of a request that was sent.
#[derive(Debug)]
pub enum HttpReply {
    /// A reply came: its status, and the status as the reply words it.
    Response { status: u16, status_text: String },
    /// No reply came; the text is the transport's.
    Failed(String),
}

/// Judges what became of a request to an address: only a reply with the
/// status 200 is a success. Another status is reported with its wording and
/// the address, a failure of the transport with the transport's text.
pub fn check_reply(url: &str, reply: HttpReply) -> (verdict: Result<(), TwitchRecoverError>)
    ensures
        match reply {
            HttpReply::Response { status, status_text } => if status == 200 {
                verdict is Ok
            } else {
                verdict matches Err(TwitchRecoverError::HttpResponseCode(code, at))
                    && code@ == status_text@ && at@ == url@
            },
            HttpReply::Failed(reason) => verdict matches Err(TwitchRecoverError::HttpRequest(text))
                && text@ == reason@,
        },
{
    match reply {
        HttpReply::Response { status, status_text } => {
            if status != 200 {
                return Err(TwitchRecoverError::HttpResponseCode(status_text, String::from_str(url)));
            }
            Ok(())
        },
        HttpReply::Failed(reason) => Err(TwitchRecoverError::HttpRequest(reason)),
    }
}

/// Progress bar
pub struct ProgressBar {
    /// Increment to track the progress
    pub inc: usize,
}

impl Default for ProgressBar {
    fn default() -> (bar: Self)
        ensures
            bar.inc == 1,
    {
        Self { inc: 1 }
    }
}

impl ProgressBar {
    /// Update the progress bar and increment the inc by 1. The line to show
    /// is returned: it returns to the start of the line, then holds the message.
    pub fn progress(&mut self, message: &str) -> (line: String)
        requires
            old(self).inc < usize::MAX,
        ensures
            final(self).inc == old(self).inc + 1,
            line@ == "\r"@ + message@,
    {
        let mut line = String::from_str("\r");
        line.append(message);
        self.inc += 1;
        line
    }

    /// Consume `self`; what is returned ends the progress line.
    pub fn reset(self) -> (line: String)
        ensures
            line@ == "\n"@,
    {
        String::from_str("\n")
    }
}

} // verus!
