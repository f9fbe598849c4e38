//! The `include` tag of the alternate templating backend.

use vstd::prelude::*;

verus! {

/// The tag that includes the content of a file.
#[derive(Copy, Clone, Debug, Default)]
pub struct IncludeTag;

impl IncludeTag {
    /// The tag.
    pub fn new() -> IncludeTag {
        IncludeTag
    }

    /// The name of the tag.
    pub fn tag(&self) -> (name: &'static str)
        ensures
            name@ == "include"@,
    {
        "include"
    }

    /// The description of the tag: none.
    pub fn description(&self) -> (text: &'static str)
        ensures
            text@ == ""@,
    {
        ""
    }
}

} // verus!
