//! The reply to a submitted name: a greeting, or a complaint when there is no name.

use vstd::prelude::*;

verus! {

/// The markup sent back for a submitted `name`.
pub open spec fn reply_markup(name: Seq<char>) -> Seq<char> {
    if name.len() == 0 {
        "<p style=\"color: red;\">Name cannot be empty!</p>"@
    } else {
        "<p>Hello, "@ + name + "!</p>"@
    }
}

/// Checks a submitted name and builds the markup to answer with: an error
/// paragraph for an empty name, otherwise a greeting that quotes the name as it
/// was given.
pub fn validate(name: &str) -> (markup: String)
    ensures
        markup@ == reply_markup(name@),
{
    if name.is_empty() {
        String::from_str("<p style=\"color: red;\">Name cannot be empty!</p>")
    } else {
        let mut markup = String::from_str("<p>Hello, ");
        markup.append(name);
        markup.append("!</p>");
        markup
    }
}

} // verus!
