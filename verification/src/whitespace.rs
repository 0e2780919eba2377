//! Whitespace policy around template blocks.

use crate::text::same_str;
use vstd::prelude::*;

verus! {

/// How whitespace around a block is treated, as chosen in the configuration
/// or by a template.
#[derive(Clone, Copy, Debug, PartialEq, Eq, Hash, Structural)]
pub enum WhitespaceHandling {
    /// Leave whitespace as it is.
    Preserve,
    /// Remove all whitespace before and after a block.
    Suppress,
    /// Remove all whitespace but one character before and after a block.
    Minimize,
}

/// The whitespace marker that a template node carries.
#[derive(Clone, Copy, Debug, PartialEq, Eq, Hash, Structural)]
pub enum Whitespace {
    Preserve,
    Suppress,
    Minimize,
}

/// The policy that a name stands for: the three names are `suppress`,
/// `minimize` and `preserve`, in lower case.
pub open spec fn whitespace_named(name: Seq<char>) -> Option<WhitespaceHandling> {
    if name == "suppress"@ {
        Some(WhitespaceHandling::Suppress)
    } else if name == "minimize"@ {
        Some(WhitespaceHandling::Minimize)
    } else if name == "preserve"@ {
        Some(WhitespaceHandling::Preserve)
    } else {
        None
    }
}

/// Each of the three names stands for its policy.
pub proof fn lemma_whitespace_names()
    ensures
        whitespace_named("suppress"@) == Some(WhitespaceHandling::Suppress),
        whitespace_named("minimize"@) == Some(WhitespaceHandling::Minimize),
        whitespace_named("preserve"@) == Some(WhitespaceHandling::Preserve),
{
    reveal_strlit("suppress");
    reveal_strlit("minimize");
    reveal_strlit("preserve");
    assert("minimize"@[0] != "suppress"@[0]);
    assert("preserve"@[0] != "suppress"@[0]);
    assert("preserve"@[0] != "minimize"@[0]);
}

impl WhitespaceHandling {
    /// The policy that `name` stands for, if it is one of the three names.
    pub fn from_name(name: &str) -> (policy: Option<WhitespaceHandling>)
        ensures
            policy == whitespace_named(name@),
    {
        if same_str(name, "suppress") {
            Some(WhitespaceHandling::Suppress)
        } else if same_str(name, "minimize") {
            Some(WhitespaceHandling::Minimize)
        } else if same_str(name, "preserve") {
            Some(WhitespaceHandling::Preserve)
        } else {
            None
        }
    }
}

impl Default for WhitespaceHandling {
    fn default() -> (ws: Self)
        ensures
            ws == WhitespaceHandling::Preserve,
    {
        WhitespaceHandling::Preserve
    }
}

impl vstd::std_specs::convert::FromSpecImpl<WhitespaceHandling> for Whitespace {
    open spec fn obeys_from_spec() -> bool {
        true
    }

    open spec fn from_spec(ws: WhitespaceHandling) -> Whitespace {
        match ws {
            WhitespaceHandling::Suppress => Whitespace::Suppress,
            WhitespaceHandling::Preserve => Whitespace::Preserve,
            WhitespaceHandling::Minimize => Whitespace::Minimize,
        }
    }
}

impl From<WhitespaceHandling> for Whitespace {
    fn from(ws: WhitespaceHandling) -> (node: Whitespace) {
        match ws {
            WhitespaceHandling::Suppress => Whitespace::Suppress,
            WhitespaceHandling::Preserve => Whitespace::Preserve,
            WhitespaceHandling::Minimize => Whitespace::Minimize,
        }
    }
}

} // verus!
