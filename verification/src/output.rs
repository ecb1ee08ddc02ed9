//! What goes on the clipboard.
//!
//! The clipboard gets either the commit message as it came, or a whole
//! `git commit -m "..."` command around it. Inside the command every double
//! quote of the message has a backslash in front, so that the shell reads the
//! message as one argument.

use vstd::prelude::*;

verus! {

/// One character of the message as it stands between the quotes of the
/// command: a double quote gets a backslash in front, any other character
/// stays as it is.
pub open spec fn escaped_char(ch: char) -> Seq<char> {
    if ch == '"' {
        seq!['\\', '"']
    } else {
        seq![ch]
    }
}

/// The message with a backslash in front of each of its double quotes.
pub open spec fn escaped(message: Seq<char>) -> Seq<char> {
    message.map_values(|ch: char| escaped_char(ch)).flatten()
}

/// The command that commits with the given message.
pub open spec fn commit_command(message: Seq<char>) -> Seq<char> {
    "git commit -m \""@ + escaped(message) + "\""@
}

/// The text for the clipboard: the command when the git format is asked
/// for, else the message unchanged.
pub open spec fn clipboard_text(message: Seq<char>, git_format: bool) -> Seq<char> {
    if git_format {
        commit_command(message)
    } else {
        message
    }
}

/// Puts a backslash in front of each double quote.
pub fn escape_quotes(message: &str) -> (out: String)
    ensures
        out@ == escaped(message@),
{
    broadcast use vstd::string::group_string_axioms;

    let ghost escape = |ch: char| escaped_char(ch);
    let mut out = String::new();
    let chars = message.chars();
    for ch in it: chars
        invariant
            it.seq() == message@,
            escape == |ch: char| escaped_char(ch),
            out@ == message@.take(it.index()).map_values(escape).flatten(),
    {
        proof {
            let seen = message@.take(it.index());
            assert(message@.take(it.index() + 1).map_values(escape) == seen.map_values(
                escape,
            ).push(escaped_char(ch)));
            seen.map_values(escape).lemma_flatten_push(escaped_char(ch));
        }
        if ch == '"' {
            out.push('\\');
        }
        out.push(ch);
    }
    assert(message@.take(message@.len() as int) == message@);
    out
}

/// Wraps the message in a `git commit -m "..."` command.
pub fn format_commit_command(message: &str) -> (out: String)
    ensures
        out@ == commit_command(message@),
{
    let mut out = "git commit -m \"".to_owned();
    let inner = escape_quotes(message);
    out.append(inner.as_str());
    out.append("\"");
    out
}

/// Makes the text for the clipboard out of the commit message.
pub fn clipboard_payload(message: &str, git_format: bool) -> (out: String)
    ensures
        out@ == clipboard_text(message@, git_format),
        !git_format ==> out@ == message@,
{
    if git_format {
        format_commit_command(message)
    } else {
        message.to_owned()
    }
}

} // verus!
