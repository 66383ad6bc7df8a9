//! The rules by which the indexer passes over files.

use crate::text::{decimal, number_text};
use vstd::prelude::*;
use vstd::string::StringExecFns;

verus! {

/// Why an indexer rule is not deleted, with the message for the caller.
#[derive(Debug, PartialEq, Eq)]
pub enum RuleError {
    /// The rule is one of those that every library is seeded with.
    Forbidden(String),
    /// No rule goes by the identifier.
    NotFound(String),
}

/// The message that names a rule and says what is wrong with it.
pub open spec fn rule_message(id: i32, what: Seq<char>) -> Seq<char> {
    "Indexer rule <id="@ + decimal(id as int) + "> "@ + what
}

/// Whether the rule with the identifier may be deleted, from what was found
/// of it: nothing, or the rule with its mark of a seeded rule, which may be
/// missing.
pub fn check_deletion(id: i32, found: Option<Option<bool>>) -> (verdict: Result<(), RuleError>)
    ensures
        match found {
            Some(Some(true)) => verdict matches Err(RuleError::Forbidden(message)) && message@
                == rule_message(id, "can't be deleted"@),
            Some(_) => verdict.is_ok(),
            None => verdict matches Err(RuleError::NotFound(message)) && message@ == rule_message(
                id,
                "not found"@,
            ),
        },
{
    let name = String::from_str("Indexer rule <id=").concat(number_text(id).as_str()).concat("> ");
    match found {
        Some(Some(true)) => Err(RuleError::Forbidden(name.concat("can't be deleted"))),
        Some(_) => Ok(()),
        None => Err(RuleError::NotFound(name.concat("not found"))),
    }
}

} // verus!
