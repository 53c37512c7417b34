//! Derivation of the candidate addresses of a recording.
//!
//! The content network stores a recording under a path made of a truncated
//! SHA-1 digest and the text that was hashed. The same path is tried on each
//! mirror domain.

use vstd::prelude::*;
use vstd::string::StringExecFns;
use vstd::string::StrSliceExecFns;
use crypto::digest::Digest;
use crypto::sha1::Sha1;
use crate::error::TwitchRecoverError;
use crate::probe::{answer_view, find_valid_url, in_range, race_result, Arrival};
use crate::text::{decimal_int, decimal_nat, render_signed, render_unsigned, views};

verus! {

/// What identifies a recording: the mathematical content of a `Recover`.
pub ghost struct RecoveryRequest {
    pub broadcaster_name: Seq<char>,
    pub stream_id: nat,
    pub start_timestamp: int,
}

/// A request to recover the address of one past broadcast.
pub struct Recover {
    /// Streamer name
    name: String,
    /// Stream timestamp, in seconds since the epoch
    timestamp: i64,
    /// Stream id
    id: usize,
}

impl View for Recover {
    type V = RecoveryRequest;

    closed spec fn view(&self) -> RecoveryRequest {
        RecoveryRequest {
            broadcaster_name: self.name@,
            stream_id: self.id as nat,
            start_timestamp: self.timestamp as int,
        }
    }
}

/// The SHA-1 digest of a text's UTF-8 bytes, as 40 hexadecimal characters.
pub uninterp spec fn sha1_hex(input: Seq<char>) -> Seq<char>;

/// Whether a text is made of the characters `0` to `9` and `a` to `f` only.
pub open spec fn is_lower_hex(text: Seq<char>) -> bool {
    forall|i: int|
        0 <= i < text.len() ==> ('0' <= #[trigger] text[i] <= '9' || 'a' <= text[i] <= 'f')
}

/// The text that is hashed: name, stream id and start time, joined by `_`.
pub open spec fn canonical_key(request: RecoveryRequest) -> Seq<char> {
    request.broadcaster_name + "_"@ + decimal_nat(request.stream_id) + "_"@ + decimal_int(
        request.start_timestamp,
    )
}

/// The first 20 characters of the hexadecimal SHA-1 digest of a key.
pub open spec fn content_digest(key: Seq<char>) -> Seq<char> {
    sha1_hex(key).subrange(0, 20)
}

/// What follows the mirror domain in a candidate address.
pub open spec fn address_tail(key: Seq<char>) -> Seq<char> {
    content_digest(key) + "_"@ + key + "/chunked/index-dvr.m3u8"@
}

/// The candidate address of a recording on one mirror domain.
pub open spec fn candidate_url(domain: Seq<char>, key: Seq<char>) -> Seq<char> {
    domain + address_tail(key)
}

/// The candidate addresses of a recording, one for each domain, in the domains' order.
pub open spec fn candidate_urls(request: RecoveryRequest, domains: Seq<Seq<char>>) -> Seq<
    Seq<char>,
> {
    Seq::new(domains.len(), |i: int| candidate_url(domains[i], canonical_key(request)))
}

/// Calls `Sha1::new`, `Digest::input_str` and `Digest::result_str` of the
/// crate `crypto`. Trusted: the result is the SHA-1 digest of the input,
/// which `sha1_hex` names; it has 40 characters (the 20 bytes of the digest,
/// two for each), all of them lower-case hexadecimal digits.
#[verifier::external_body]
fn sha1_hex_digest(input: &str) -> (hex: String)
    ensures
        hex@ == sha1_hex(input@),
        hex@.len() == 40,
        is_lower_hex(hex@),
{
    let mut hasher = Sha1::new();
    hasher.input_str(input);
    hasher.result_str()
}

impl Recover {
    pub fn new(name: String, timestamp: i64, id: usize) -> (recover: Self)
        ensures
            recover@ == (RecoveryRequest {
                broadcaster_name: name@,
                stream_id: id as nat,
                start_timestamp: timestamp as int,
            }),
    {
        Self { name, timestamp, id }
    }

    /// The text that is hashed for this recording.
    pub fn canonical_key(&self) -> (key: String)
        ensures
            key@ == canonical_key(self@),
    {
        let mut key = self.name.clone();
        key.append("_");
        let id = render_unsigned(self.id as u64);
        key.append(id.as_str());
        key.append("_");
        let timestamp = render_signed(self.timestamp);
        key.append(timestamp.as_str());
        key
    }

    /// The truncated digest under which the recording is stored.
    pub fn content_digest(&self) -> (digest: String)
        ensures
            digest@ == content_digest(canonical_key(self@)),
            digest@.len() == 20,
            is_lower_hex(digest@),
    {
        let key = self.canonical_key();
        digest_of(key.as_str())
    }

    /// Generate all the possible urls: one for each mirror domain, in the
    /// domains' order.
    pub fn generate_all_urls(&self, domains: &Vec<String>) -> (urls: Vec<String>)
        requires
            domains@.len() > 0,
        ensures
            views(urls@) == candidate_urls(self@, views(domains@)),
            urls@.len() == domains@.len(),
            forall|i: int, j: int|
                0 <= i < j < domains@.len() && domains@[i]@ != domains@[j]@ ==> urls@[i]@
                    != urls@[j]@,
    {
        let key = self.canonical_key();
        let hash = digest_of(key.as_str());
        let mut urls: Vec<String> = Vec::new();
        let mut i: usize = 0;
        while i < domains.len()
            invariant
                0 <= i <= domains@.len(),
                urls@.len() == i,
                key@ == canonical_key(self@),
                hash@ == content_digest(key@),
                forall|k: int|
                    0 <= k < i ==> (#[trigger] urls@[k])@ == candidate_url(domains@[k]@, key@),
            decreases domains@.len() - i,
        {
            let mut url = domains[i].clone();
            url.append(hash.as_str());
            url.append("_");
            url.append(key.as_str());
            url.append("/chunked/index-dvr.m3u8");
            assert(url@ =~= candidate_url(domains@[i as int]@, key@));
            urls.push(url);
            i += 1;
        }
        proof {
            assert(views(urls@) =~= candidate_urls(self@, views(domains@)));
            assert forall|a: int, b: int|
                0 <= a < b < domains@.len() && domains@[a]@ != domains@[b]@ implies urls@[a]@
                != urls@[b]@ by {
                lemma_same_tail_distinct(domains@[a]@, domains@[b]@, address_tail(key@));
            }
        }
        urls
    }

    /// Get the vod url, for a recovery set up with these mirror domains and
    /// this pool of identifying headers, whose probes finished as listed,
    /// each with the rank of its domain. With an empty pool no probe can be
    /// sent: that is a fault of the configuration, whatever is listed. Else
    /// the answer is the candidate address of the first probe that hit.
    pub fn get_url(
        &self,
        domains: &Vec<String>,
        user_agents: &Vec<String>,
        arrivals: &Vec<Arrival>,
    ) -> (answer: Result<String, TwitchRecoverError>)
        requires
            domains@.len() > 0,
            in_range(arrivals@, domains@.len() as int),
        ensures
            answer_view(answer) == if user_agents@.len() == 0 {
                Err(TwitchRecoverError::UserAgent)
            } else {
                race_result(candidate_urls(self@, views(domains@)), arrivals@)
            },
    {
        if user_agents.len() == 0 {
            return Err(TwitchRecoverError::UserAgent);
        }
        let urls = self.generate_all_urls(domains);
        find_valid_url(&urls, arrivals)
    }
}

/// The truncated digest of a key: the first 20 characters of its SHA-1 digest.
fn digest_of(key: &str) -> (digest: String)
    ensures
        digest@ == content_digest(key@),
        digest@.len() == 20,
        is_lower_hex(digest@),
{
    let hex = sha1_hex_digest(key);
    let digest = String::from_str(hex.as_str().substring_char(0, 20));
    assert forall|i: int| 0 <= i < digest@.len() implies ('0' <= #[trigger] digest@[i] <= '9'
        || 'a' <= digest@[i] <= 'f') by {
        assert(digest@[i] == hex@[i]);
    }
    digest
}

/// Two texts that differ still differ when the same tail follows each.
pub proof fn lemma_same_tail_distinct(a: Seq<char>, b: Seq<char>, tail: Seq<char>)
    requires
        a != b,
    ensures
        a + tail != b + tail,
{
    if a + tail == b + tail {
        assert(a.len() == b.len()) by {
            assert((a + tail).len() == (b + tail).len());
        }
        assert forall|i: int| 0 <= i < a.len() implies a[i] == b[i] by {
            assert((a + tail)[i] == a[i]);
            assert((b + tail)[i] == b[i]);
        }
        assert(a =~= b);
    }
}

/// The candidate addresses are a function of the request and the domains:
/// there is one for each domain, each is its domain followed by the same
/// tail, and two of them are equal only where their domains are.
pub proof fn lemma_candidates_determined(request: RecoveryRequest, domains: Seq<Seq<char>>)
    ensures
        candidate_urls(request, domains).len() == domains.len(),
        forall|i: int|
            0 <= i < domains.len() ==> #[trigger] candidate_urls(request, domains)[i]
                == domains[i] + address_tail(canonical_key(request)),
        forall|i: int, j: int|
            0 <= i < domains.len() && 0 <= j < domains.len() && domains[i] != domains[j]
                ==> candidate_urls(request, domains)[i] != candidate_urls(request, domains)[j],
        domains.no_duplicates() ==> candidate_urls(request, domains).no_duplicates(),
{
    let urls = candidate_urls(request, domains);
    let tail = address_tail(canonical_key(request));
    assert forall|i: int, j: int|
        0 <= i < domains.len() && 0 <= j < domains.len() && domains[i] != domains[j] implies urls[i]
        != urls[j] by {
        lemma_same_tail_distinct(domains[i], domains[j], tail);
    }
}

} // verus!
