//! Rules that rewrite markup while a page is parsed.

use vstd::prelude::*;

verus! {

/// The text a parser works on.
#[derive(Debug, Clone, PartialEq, Eq)]
pub struct ParseState {
    pub text: String,
}

/// A rule could not be applied.
#[derive(Debug, Clone, Copy, PartialEq, Eq, Structural)]
pub struct ParseError;

/// The rule for a table of contents. It recognises nothing yet: the text
/// is left as it is, and the rule never fails.
pub fn rule_table_of_contents(state: &mut ParseState) -> (r: Result<(), ParseError>)
    ensures
        r is Ok,
        final(state).text@ == old(state).text@,
{
    Ok(())
}

} // verus!
