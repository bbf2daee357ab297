//! The error taxonomy of the store and its collaborators.

use vstd::prelude::*;

verus! {

use vstd::string::StringExecFns;

/// What can go wrong around the snapshot lifecycle.
///
/// The query layer itself is total and never raises one of these; they
/// belong to loading, fetching and configuration. During a refresh cycle
/// any of the first three leaves the last good snapshot in place; during
/// the initial load they are fatal to startup; a `ConfigFailure` only
/// degrades the system to running without auto-refresh.
pub enum NetVizError {
    /// The cache file could not be read or written.
    IoFailure(String),
    /// The serialized data was malformed.
    ParseFailure(String),
    /// The remote source was unreachable or returned an invalid shape.
    UpstreamFailure(String),
    /// The refresh schedule expression could not be parsed.
    ConfigFailure(String),
}

impl NetVizError {
    /// The rendered message: a fixed prefix naming the failure class,
    /// followed by the detail text.
    pub open spec fn message_spec(&self) -> Seq<char> {
        match *self {
            NetVizError::IoFailure(d) => "IO error: "@ + d@,
            NetVizError::ParseFailure(d) => "parse error: "@ + d@,
            NetVizError::UpstreamFailure(d) => "upstream error: "@ + d@,
            NetVizError::ConfigFailure(d) => "config error: "@ + d@,
        }
    }

    /// Renders the error as text for logging and display.
    pub fn message(&self) -> (m: String)
        ensures
            m@ == self.message_spec(),
    {
        match self {
            NetVizError::IoFailure(d) => {
                let mut m = String::from_str("IO error: ");
                m.append(d.as_str());
                m
            },
            NetVizError::ParseFailure(d) => {
                let mut m = String::from_str("parse error: ");
                m.append(d.as_str());
                m
            },
            NetVizError::UpstreamFailure(d) => {
                let mut m = String::from_str("upstream error: ");
                m.append(d.as_str());
                m
            },
            NetVizError::ConfigFailure(d) => {
                let mut m = String::from_str("config error: ");
                m.append(d.as_str());
                m
            },
        }
    }
}

impl Clone for NetVizError {
    /// A clone is equal to the original.
    fn clone(&self) -> (r: Self)
        ensures
            r == *self,
    {
        match self {
            NetVizError::IoFailure(d) => NetVizError::IoFailure(d.clone()),
            NetVizError::ParseFailure(d) => NetVizError::ParseFailure(d.clone()),
            NetVizError::UpstreamFailure(d) => NetVizError::UpstreamFailure(d.clone()),
            NetVizError::ConfigFailure(d) => NetVizError::ConfigFailure(d.clone()),
        }
    }
}

} // verus!
