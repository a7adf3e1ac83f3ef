//! The identity of an installation.

use crate::codex_ws::is_uuid_text;
use crate::text::{trim_text, trimmed};
use vstd::prelude::*;

verus! {

pub const INSTALLATION_ID_FILENAME: &'static str = "installation_id";

pub const THREADLINE_HOME_ENV: &'static str = "THREADLINE_HOME";

/// The UUID that a text denotes, in hyphenated form; `None` when it denotes none.
pub uninterp spec fn parsed_uuid(text: Seq<char>) -> Option<Seq<char>>;

/// Wraps `uuid::Uuid::parse_str`: the UUID that a text denotes, in hyphenated form.
#[verifier::external_body]
fn parse_uuid(text: &str) -> (parsed: Option<String>)
    ensures
        match parsed {
            Some(id) => parsed_uuid(text@) == Some(id@) && is_uuid_text(id@),
            None => parsed_uuid(text@) is None,
        },
{
    uuid::Uuid::parse_str(text).ok().map(|id| id.to_string())
}

/// Wraps `uuid::Uuid::new_v4` and its `to_string`: a new id in hyphenated form. Which one comes is
/// left to chance.
#[verifier::external_body]
fn random_id() -> (id: String)
    ensures
        is_uuid_text(id@),
{
    uuid::Uuid::new_v4().to_string()
}

/// The identity of an installation.
#[derive(Debug, Clone)]
pub struct InstallationIdentity {
    pub installation_id: String,
    /// Whether the identity is new and is to be written down.
    pub is_new: bool,
}

/// The identity for what was written down earlier, as far as it was an id, and for a new id.
pub fn identity_from(written: Option<String>, new_id: String) -> (identity: InstallationIdentity)
    ensures
        match written {
            Some(id) => identity.installation_id == id && !identity.is_new,
            None => identity.installation_id == new_id && identity.is_new,
        },
{
    match written {
        Some(installation_id) => InstallationIdentity { installation_id, is_new: false },
        None => InstallationIdentity { installation_id: new_id, is_new: true },
    }
}

/// The identity for what was written down earlier, or a new one.
pub fn resolve_identity(contents: &str) -> (identity: InstallationIdentity)
    ensures
        is_uuid_text(identity.installation_id@),
        match parsed_uuid(trimmed(contents@)) {
            Some(id) => identity.installation_id@ == id && !identity.is_new,
            None => identity.is_new,
        },
{
    identity_from(parse_uuid(trim_text(contents)), random_id())
}

/// A new identity that is not written down.
pub fn transient_identity() -> (installation_id: String)
    ensures
        is_uuid_text(installation_id@),
{
    random_id()
}

/// Where the state of an installation is kept.
#[derive(Debug, Clone, Copy, PartialEq, Eq, Structural)]
pub enum StateDirectory {
    /// In the directory that was set for it.
    Explicit,
    /// Below the home directory of the user's profile.
    UserProfile,
    /// Below the home directory.
    Home,
}

/// Where the state of an installation is kept, given which of the three places are known.
pub fn state_directory(threadline_home: bool, user_profile: bool, home: bool) -> (place: Option<
    StateDirectory,
>)
    ensures
        place == if threadline_home {
            Some(StateDirectory::Explicit)
        } else if user_profile {
            Some(StateDirectory::UserProfile)
        } else if home {
            Some(StateDirectory::Home)
        } else {
            None
        },
{
    if threadline_home {
        Some(StateDirectory::Explicit)
    } else if user_profile {
        Some(StateDirectory::UserProfile)
    } else if home {
        Some(StateDirectory::Home)
    } else {
        None
    }
}

} // verus!
