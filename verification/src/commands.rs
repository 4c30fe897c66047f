//! What a chat client does with one line its user typed: share the file
//! or image at a path, leave, or send the line as a text message. Reading
//! the named file and building the message happen at the edge; the
//! decision is here, exact.

use vstd::prelude::*;

use crate::strutil::{spec_split_first, spec_starts_with, split_at_first_space, starts_with, str_eq};

verus! {

/// What the user asked for.
pub enum InputKind {
    /// Share the file at `path`.
    File { path: String },
    /// Share the image at `path`.
    Image { path: String },
    /// Leave the chat.
    Quit,
    /// Send the line as a text message.
    Text { text: String },
}

/// A share command without a path after it.
#[derive(Debug, Clone, Copy, PartialEq, Eq, Structural)]
pub enum CommandError {
    InvalidFileCommand,
    InvalidImageCommand,
}

/// Reads one typed line. A line opening with the file or image command
/// word shares the path that follows the first space; the quit word ends
/// the session; anything else is said as text.
pub fn classify_input(input: &str) -> (r: Result<InputKind, CommandError>)
    ensures
        spec_starts_with(input@, ".file"@) ==> (match r {
            Ok(k) => k matches InputKind::File { path } && spec_split_first(input@, ' ')
                matches Some(p) && path@ == p.1,
            Err(e) => e == CommandError::InvalidFileCommand && spec_split_first(
                input@,
                ' ',
            ) is None,
        }),
        !spec_starts_with(input@, ".file"@) && spec_starts_with(input@, ".image"@) ==> (match r {
            Ok(k) => k matches InputKind::Image { path } && spec_split_first(input@, ' ')
                matches Some(p) && path@ == p.1,
            Err(e) => e == CommandError::InvalidImageCommand && spec_split_first(
                input@,
                ' ',
            ) is None,
        }),
        !spec_starts_with(input@, ".file"@) && !spec_starts_with(input@, ".image"@) && input@
            == ".quit"@ ==> (r matches Ok(k) && k is Quit),
        !spec_starts_with(input@, ".file"@) && !spec_starts_with(input@, ".image"@) && input@
            != ".quit"@ ==> (r matches Ok(k) && (k matches InputKind::Text { text } && text@
            == input@)),
{
    if starts_with(input, ".file") {
        match split_at_first_space(input) {
            Some(p) => Ok(InputKind::File { path: p.1 }),
            None => Err(CommandError::InvalidFileCommand),
        }
    } else if starts_with(input, ".image") {
        match split_at_first_space(input) {
            Some(p) => Ok(InputKind::Image { path: p.1 }),
            None => Err(CommandError::InvalidImageCommand),
        }
    } else if str_eq(input, ".quit") {
        Ok(InputKind::Quit)
    } else {
        Ok(InputKind::Text { text: input.to_owned() })
    }
}

} // verus!
