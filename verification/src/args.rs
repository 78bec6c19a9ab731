//! The caller's choice of input source: a local file path or a URL.
//! Fetching the bytes is the caller's business; the library only carries
//! the choice.

use vstd::prelude::*;

verus! {

/// Where the container bytes come from.
#[derive(Debug, Clone)]
pub enum Input {
    /// A path on the local file system.
    FilePath(String),
    /// A remote location to fetch over the network.
    Url(String),
}

impl Input {
    /// Wraps a raw argument as a URL when `is_url` is set, as a file path
    /// otherwise.
    pub fn from_args(input: String, is_url: bool) -> (r: Input)
        ensures
            match r {
                Input::Url(s) => is_url && s@ == input@,
                Input::FilePath(s) => !is_url && s@ == input@,
            },
    {
        if is_url {
            Input::Url(input)
        } else {
            Input::FilePath(input)
        }
    }
}

} // verus!
