//! The error kinds of the mark store.

use vstd::prelude::*;

verus! {

/// Everything that can go wrong while resolving, loading, querying or
/// persisting the store of marks.
#[derive(Debug, PartialEq, Eq)]
pub enum MarkError {
    /// The store file (or its parent directory) could not be read or
    /// written; `detail` carries the underlying I/O fault's description.
    AccessError { detail: String },
    /// The store file exists but does not hold valid serialized marks.
    DeserializeError,
    /// A lookup missed: no path has been set under `key`.
    NoPathSet { key: String },
    /// The host environment cannot supply a home directory.
    NoHome,
}

impl MarkError {
    /// The error's description, word for word as it is shown to the user.
    pub open spec fn message_spec(&self) -> Seq<char> {
        match self {
            MarkError::AccessError { detail } => "Cannot access the marks located at '~/.config/marks.list': "@
                + detail@,
            MarkError::DeserializeError => "Could not read marks located at '~/.config/marks.list'. Is the file malformed?"@,
            MarkError::NoPathSet { key } => "No path set for "@ + key@ + "."@,
            MarkError::NoHome => "Could not locate home folder"@,
        }
    }

    /// Renders the error for display.
    pub fn message(&self) -> (r: String)
        ensures
            r@ == self.message_spec(),
    {
        match self {
            MarkError::AccessError { detail } => "Cannot access the marks located at '~/.config/marks.list': "
                .to_owned()
                .concat(detail.as_str()),
            MarkError::DeserializeError => "Could not read marks located at '~/.config/marks.list'. Is the file malformed?".to_owned(),
            MarkError::NoPathSet { key } => "No path set for ".to_owned().concat(
                key.as_str(),
            ).concat("."),
            MarkError::NoHome => "Could not locate home folder".to_owned(),
        }
    }
}

} // verus!
