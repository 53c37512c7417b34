//! Recovery of direct playlist addresses for past broadcasts.
//!
//! A recording is stored by the content network under a path that is derived
//! from the broadcaster's name, the stream's id and its start time. The
//! library derives the candidate addresses on a list of mirror domains, and
//! decides, from the replies of the existence probes, which address is the
//! answer. It also holds the rules by which a broadcaster's stream catalogue
//! is read: the paging of the catalogue, its records and their titles.

pub mod error;
pub mod text;
pub mod recover;
pub mod probe;
pub mod utils;
pub mod stream;
pub mod streamer;

pub use error::{TwitchRecoverError, TwitchRecoverResult};
pub use recover::Recover;
