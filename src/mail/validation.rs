//! The rule that user parts, domain parts and display names obey.
use vstd::prelude::*;
use super::text::{is_white, is_whitespace};

verus! {

/// Why a fragment is not acceptable as a user part, a domain part or a display name.
#[derive(Debug, Clone, Copy, PartialEq, Eq, Structural)]
pub enum InvalidPartError {
    Empty,
    ForbiddenCharacter,
}

/// The characters that no fragment may hold: `@ < > ( )` and whitespace.
pub open spec fn is_forbidden(c: char) -> bool {
    c == '@' || c == '<' || c == '>' || c == '(' || c == ')' || is_white(c)
}

/// Whether some character of `s` is forbidden.
pub open spec fn has_forbidden(s: Seq<char>) -> bool {
    exists|i: int| 0 <= i < s.len() && is_forbidden(#[trigger] s[i])
}

/// The verdict on a fragment: empty, holding a forbidden character, or acceptable.
pub open spec fn part_verdict(s: Seq<char>) -> Result<(), InvalidPartError> {
    if s.len() == 0 {
        Err(InvalidPartError::Empty)
    } else if has_forbidden(s) {
        Err(InvalidPartError::ForbiddenCharacter)
    } else {
        Ok(())
    }
}

/// Whether `c` may not stand in a fragment.
pub fn forbidden_char(c: char) -> (r: bool)
    ensures
        r == is_forbidden(c),
{
    c == '@' || c == '<' || c == '>' || c == '(' || c == ')' || is_whitespace(c)
}

/// Checks that `s` is non-empty and free of forbidden characters.
pub fn validate_part(s: &str) -> (r: Result<(), InvalidPartError>)
    ensures
        r == part_verdict(s@),
{
    let n = s.unicode_len();
    if n == 0 {
        return Err(InvalidPartError::Empty);
    }
    let mut i: usize = 0;
    while i < n
        invariant
            n == s@.len(),
            i <= n,
            forall|j: int| 0 <= j < i ==> !is_forbidden(#[trigger] s@[j]),
        decreases n - i,
    {
        if forbidden_char(s.get_char(i)) {
            return Err(InvalidPartError::ForbiddenCharacter);
        }
        i = i + 1;
    }
    Ok(())
}

} // verus!
