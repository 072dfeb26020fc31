//! What can go wrong, and the text that is shown for it.
use vstd::prelude::*;
use vstd::string::StringExecFns;
use crate::manifest::ManifestParseError;

verus! {

/// The outcome of asking for a login that cannot go ahead.
#[derive(Debug, Clone, PartialEq, Eq)]
pub enum LoginError {
    /// The account is the one that is logged in already. Callers take this
    /// as a signal to skip the restart, not as a fault.
    AlreadyLoggedIn,
    Other(String),
}

impl LoginError {
    /// The text that is shown for this error.
    pub fn message(&self) -> (r: String)
        ensures
            r@ == match *self {
                LoginError::AlreadyLoggedIn => "Already logged in"@,
                LoginError::Other(text) => text@,
            },
    {
        match self {
            LoginError::AlreadyLoggedIn => "Already logged in".to_owned(),
            LoginError::Other(text) => text.clone(),
        }
    }
}

/// A file or directory that discovery needs is not there.
#[derive(Debug, Clone, PartialEq, Eq)]
pub struct PathError {
    pub path: String,
}

impl PathError {
    /// The text that is shown for this error.
    pub fn message(&self) -> (r: String)
        ensures
            r@ == "Path does not exist: "@ + self.path@,
    {
        "Path does not exist: ".to_owned().concat(self.path.as_str())
    }
}

/// The requested account is the one that is logged in already.
#[derive(Debug, Clone, Copy, PartialEq, Eq)]
pub struct AlreadyLoggedInError;

impl AlreadyLoggedInError {
    /// The text that is shown for this error.
    pub fn message(&self) -> (r: String)
        ensures
            r@ == "Already logged in"@,
    {
        "Already logged in".to_owned()
    }
}

/// Why a discovery call gave up. The model is left as it was before the call.
#[derive(Debug, Clone, PartialEq, Eq)]
pub enum DiscoveryError {
    /// A document or directory that is needed is not there or cannot be read.
    NotFound(PathError),
    /// A document that is needed holds no object.
    InvalidData(ManifestParseError),
}

/// What a discovery error means.
pub enum Fault {
    NotFound(Seq<char>),
    InvalidData,
}

impl View for DiscoveryError {
    type V = Fault;

    open spec fn view(&self) -> Fault {
        match *self {
            DiscoveryError::NotFound(e) => Fault::NotFound(e.path@),
            DiscoveryError::InvalidData(_) => Fault::InvalidData,
        }
    }
}

impl DiscoveryError {
    /// The text that is shown for this error.
    pub fn message(&self) -> (r: String)
        ensures
            r@ == match *self {
                DiscoveryError::NotFound(e) => "Path does not exist: "@ + e.path@,
                DiscoveryError::InvalidData(_) => "Failed to parse manifest"@,
            },
    {
        match self {
            DiscoveryError::NotFound(e) => e.message(),
            DiscoveryError::InvalidData(e) => e.message(),
        }
    }
}

} // verus!
