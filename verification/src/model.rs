//! Model tiers, and the choice of a tier by the complexity of a task.

use crate::config::ModelSettings;
use crate::text::{lowercase, same_text, to_lowercase};
use vstd::prelude::*;

verus! {

/// The fastest tier.
pub const HAIKU: &'static str = "haiku";

/// The default tier.
pub const SONNET: &'static str = "sonnet";

/// The most capable tier.
pub const OPUS: &'static str = "opus";

/// The tier that a name in lower case stands for; `SONNET` for a name that
/// is none of the three.
pub open spec fn spec_resolve_lowered(lowered: Seq<char>) -> Seq<char> {
    if lowered == "haiku"@ {
        HAIKU@
    } else if lowered == "sonnet"@ {
        SONNET@
    } else if lowered == "opus"@ {
        OPUS@
    } else {
        SONNET@
    }
}

/// The tier that a name stands for, whatever its case.
pub open spec fn spec_resolve(name: Seq<char>) -> Seq<char> {
    spec_resolve_lowered(lowercase(name))
}

/// The tier that a name in lower case stands for; `SONNET` for a name that
/// is none of the three.
pub fn resolve_lowered(lowered: &str) -> (r: &'static str)
    ensures
        r@ == spec_resolve_lowered(lowered@),
{
    if same_text(lowered, "haiku") {
        HAIKU
    } else if same_text(lowered, "sonnet") {
        SONNET
    } else if same_text(lowered, "opus") {
        OPUS
    } else {
        SONNET
    }
}

/// The tier that a name stands for, whatever its case; `SONNET` for a name
/// that is none of the three.
pub fn resolve(name: &str) -> (r: &'static str)
    ensures
        r@ == spec_resolve(name@),
{
    let lowered = to_lowercase(name);
    resolve_lowered(lowered.as_str())
}

/// How hard a task is judged to be.
#[derive(Debug, Clone, Copy, PartialEq, Eq, Structural)]
pub enum Complexity {
    Low,
    Medium,
    High,
}

/// The complexity that a word in lower case names.
pub open spec fn spec_complexity_lowered(lowered: Seq<char>) -> Option<Complexity> {
    if lowered == "low"@ {
        Some(Complexity::Low)
    } else if lowered == "medium"@ {
        Some(Complexity::Medium)
    } else if lowered == "high"@ {
        Some(Complexity::High)
    } else {
        None
    }
}

/// The complexity that a word names, whatever its case.
pub open spec fn spec_complexity(word: Seq<char>) -> Option<Complexity> {
    spec_complexity_lowered(lowercase(word))
}

/// The complexity that a word names, and `Medium` for any other word.
pub open spec fn spec_complexity_or_medium(word: Seq<char>) -> Complexity {
    match spec_complexity(word) {
        Some(c) => c,
        None => Complexity::Medium,
    }
}

/// What parsing a word as a complexity yields.
pub open spec fn spec_parse_complexity(word: Seq<char>) -> Result<Complexity, Seq<char>> {
    match spec_complexity(word) {
        Some(c) => Ok(c),
        None => Err("unknown complexity: "@ + word),
    }
}

/// The mathematical content of a parsed complexity.
pub open spec fn parsed_view(r: Result<Complexity, String>) -> Result<Complexity, Seq<char>> {
    match r {
        Ok(c) => Ok(c),
        Err(e) => Err(e@),
    }
}

impl Complexity {
    /// The tier that works on a task of this complexity: the default tier of
    /// `settings` for `Low` and `Medium`, its complex tier for `High`.
    pub open spec fn spec_select_model(self, settings: &ModelSettings) -> Seq<char> {
        match self {
            Complexity::Low => spec_resolve(settings.default@),
            Complexity::Medium => spec_resolve(settings.default@),
            Complexity::High => spec_resolve(settings.complex@),
        }
    }

    /// The tier that works on a task of this complexity.
    pub fn select_model(self, settings: &ModelSettings) -> (r: &'static str)
        ensures
            r@ == self.spec_select_model(settings),
    {
        match self {
            Complexity::Low => resolve(settings.default.as_str()),
            Complexity::Medium => resolve(settings.default.as_str()),
            Complexity::High => resolve(settings.complex.as_str()),
        }
    }

    /// The complexity that a word in lower case names.
    pub fn from_lowered(lowered: &str) -> (r: Option<Complexity>)
        ensures
            r == spec_complexity_lowered(lowered@),
    {
        if same_text(lowered, "low") {
            Some(Complexity::Low)
        } else if same_text(lowered, "medium") {
            Some(Complexity::Medium)
        } else if same_text(lowered, "high") {
            Some(Complexity::High)
        } else {
            None
        }
    }

    /// Reads a complexity from a word, whatever its case. Any word but
    /// `low`, `medium` and `high` is refused, with a message that names it.
    pub fn parse(word: &str) -> (r: Result<Complexity, String>)
        ensures
            parsed_view(r) == spec_parse_complexity(word@),
    {
        let lowered = to_lowercase(word);
        match Complexity::from_lowered(lowered.as_str()) {
            Some(c) => Ok(c),
            None => {
                let mut message = String::from_str("unknown complexity: ");
                message.append(word);
                Err(message)
            },
        }
    }

    /// Reads a complexity from a word, whatever its case, and takes `Medium`
    /// for any word that names none.
    pub fn parse_or_medium(word: &str) -> (r: Complexity)
        ensures
            r == spec_complexity_or_medium(word@),
    {
        let lowered = to_lowercase(word);
        match Complexity::from_lowered(lowered.as_str()) {
            Some(c) => c,
            None => Complexity::Medium,
        }
    }
}

impl std::str::FromStr for Complexity {
    type Err = String;

    fn from_str(s: &str) -> (r: Result<Self, String>)
        ensures
            parsed_view(r) == spec_parse_complexity(s@),
    {
        Complexity::parse(s)
    }
}

} // verus!
