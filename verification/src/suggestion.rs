use vstd::prelude::*;

verus! {

/// One actionable item surfaced to a client: a human-readable display label,
/// an opaque command token naming an action, and a secondary descriptive
/// comment. A record is immutable once created; duplicates are permitted and
/// carry no identity beyond structural equality.
#[derive(Debug, PartialEq, Eq)]
pub struct Suggestion {
    pub suggestion: String,
    pub command: String,
    pub comment: String,
}

impl Suggestion {
    pub fn new(suggestion: String, command: String, comment: String) -> (s: Suggestion)
        ensures
            s.suggestion == suggestion,
            s.command == command,
            s.comment == comment,
    {
        Suggestion { suggestion, command, comment }
    }
}

impl Clone for Suggestion {
    fn clone(&self) -> (s: Self)
        ensures
            s == *self,
    {
        Suggestion {
            suggestion: self.suggestion.clone(),
            command: self.command.clone(),
            comment: self.comment.clone(),
        }
    }
}

} // verus!
