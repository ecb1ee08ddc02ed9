//! The prompt for the completion backend, and what is accepted as its answer.

use crate::error::RunError;
use vstd::prelude::*;

verus! {

/// The prompt: fixed words around the user's context and the diff text. Both
/// are put in as they are; nothing in them is read as part of the template.
pub open spec fn prompt_text(context: Seq<char>, diff: Seq<char>) -> Seq<char> {
    "Create a conventional commit message for the following changes. Context: "@ + context
        + ". File changes: "@ + diff
}

/// The answer of the backend as a commit message: an empty answer is a
/// backend error, any other text is the message.
pub open spec fn accepted(answer: Seq<char>) -> Result<Seq<char>, RunError> {
    if answer.len() == 0 {
        Err(RunError::Backend)
    } else {
        Ok(answer)
    }
}

/// Fills the context and the diff text into the prompt.
pub fn render_prompt(context: &str, diff: &str) -> (prompt: String)
    ensures
        prompt@ == prompt_text(context@, diff@),
{
    let mut prompt =
        "Create a conventional commit message for the following changes. Context: ".to_owned();
    prompt.append(context);
    prompt.append(". File changes: ");
    prompt.append(diff);
    prompt
}

/// Takes the answer of the backend as the commit message, unless it is
/// empty.
pub fn accept_completion(answer: String) -> (message: Result<String, RunError>)
    ensures
        match accepted(answer@) {
            Ok(text) => message matches Ok(found) && found@ == text,
            Err(error) => message matches Err(found) && found == error,
        },
{
    if answer.as_str().is_empty() {
        Err(RunError::Backend)
    } else {
        Ok(answer)
    }
}

} // verus!
