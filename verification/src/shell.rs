//! Shell-command checks, and turning a finished command's status and output
//! into the result that the runtime gives.
//!
//! Running the command is the caller's part; this module decides what the
//! command's outcome means.

use vstd::prelude::*;
use vstd::utf8::{decode_utf8, valid_utf8};
use crate::error::RuntimeError;
use crate::text::{all_white_space, i32_to_decimal, int_decimal, is_blank, trim, trimmed};

verus! {

/// A command is accepted when it is not empty after trimming white space.
pub open spec fn spec_is_safe_command(command: Seq<char>) -> bool {
    !all_white_space(command)
}

/// Basic safety check for commands: rejects empty and all-white-space commands.
pub fn is_safe_command(command: &str) -> (b: bool)
    ensures
        b == spec_is_safe_command(command@),
{
    !is_blank(command)
}

/// The text that `String::from_utf8` reports (its error's `Display`) for bytes
/// that are not valid UTF-8.
pub uninterp spec fn utf8_error_text(bytes: Seq<u8>) -> Seq<char>;

/// The text that `String::from_utf8_lossy` makes of `bytes`.
pub uninterp spec fn utf8_lossy_text(bytes: Seq<u8>) -> Seq<char>;

/// Decodes bytes with `String::from_utf8`. Claimed: success exactly for valid
/// UTF-8, with the decoded characters; otherwise the error's text, named
/// `utf8_error_text`.
#[verifier::external_body]
pub(crate) fn utf8_decode(bytes: Vec<u8>) -> (r: Result<String, String>)
    ensures
        match r {
            Ok(s) => valid_utf8(bytes@) && s@ == decode_utf8(bytes@),
            Err(e) => !valid_utf8(bytes@) && e@ == utf8_error_text(bytes@),
        },
{
    match String::from_utf8(bytes) {
        Ok(s) => Ok(s),
        Err(err) => Err(err.to_string()),
    }
}

/// Decodes bytes with `String::from_utf8_lossy`. Claimed: the named text
/// `utf8_lossy_text`, which for valid UTF-8 is the decoded characters.
#[verifier::external_body]
fn utf8_decode_lossy(bytes: &[u8]) -> (s: String)
    ensures
        s@ == utf8_lossy_text(bytes@),
        valid_utf8(bytes@) ==> s@ == decode_utf8(bytes@),
{
    String::from_utf8_lossy(bytes).into_owned()
}

/// The shell that runs commands: the `SHELL` variable's value, or `/bin/sh`.
pub open spec fn spec_shell_program(shell_var: Option<Seq<char>>) -> Seq<char> {
    match shell_var {
        Some(s) => s,
        None => "/bin/sh"@,
    }
}

/// Choose the shell program from the value of the `SHELL` variable, if it is set.
pub fn shell_program(shell_var: Option<String>) -> (s: String)
    ensures
        s@ == spec_shell_program(match shell_var {
            Some(v) => Some(v@),
            None => None,
        }),
{
    match shell_var {
        Some(s) => s,
        None => String::from_str("/bin/sh"),
    }
}

/// The message for a command that could not be started.
pub open spec fn spawn_failure_message(command: Seq<char>, reason: Seq<char>) -> Seq<char> {
    "Failed to execute shell command '"@ + command + "': "@ + reason
}

/// The message for a command that exited unsuccessfully.
pub open spec fn exit_failure_message(command: Seq<char>, exit_code: int, stderr_text: Seq<char>) -> Seq<char> {
    "Shell command '"@ + command + "' failed with exit code "@ + int_decimal(exit_code) + ": "@ + trimmed(stderr_text)
}

/// The message for output that is not valid UTF-8.
pub open spec fn invalid_output_message(error_text: Seq<char>) -> Seq<char> {
    "Shell command output is not valid UTF-8: "@ + error_text
}

/// The output with one trailing newline removed, if it ends with one.
pub open spec fn strip_trailing_newline(s: Seq<char>) -> Seq<char> {
    if s.len() > 0 && s.last() == '\n' {
        s.drop_last()
    } else {
        s
    }
}

/// The error for a command that could not be started, `reason` being the
/// operating system's account of the failure.
pub fn shell_spawn_error(command: &str, reason: &str) -> (e: RuntimeError)
    ensures
        e matches RuntimeError::ShellError { message } && message@ == spawn_failure_message(command@, reason@),
{
    let mut m = String::from_str("Failed to execute shell command '");
    m.append(command);
    m.append("': ");
    m.append(reason);
    RuntimeError::ShellError { message: m }
}

/// The result of a finished shell command: on an unsuccessful exit, a shell
/// error naming the exit code (or -1 when there is none, as for a command ended
/// by a signal) and the trimmed standard error; otherwise standard output as
/// UTF-8, without one trailing newline.
pub fn shell_output_result(
    command: &str,
    success: bool,
    exit_code: Option<i32>,
    stdout: Vec<u8>,
    stderr: &[u8],
) -> (r: Result<String, RuntimeError>)
    ensures
        !success ==> (r matches Err(RuntimeError::ShellError { message })
            && message@ == exit_failure_message(
                command@,
                match exit_code {
                    Some(c) => c as int,
                    None => -1,
                },
                utf8_lossy_text(stderr@),
            )),
        success && valid_utf8(stdout@) ==> (r matches Ok(s) && s@ == strip_trailing_newline(decode_utf8(stdout@))),
        success && !valid_utf8(stdout@) ==> (r matches Err(RuntimeError::ShellError { message })
            && message@ == invalid_output_message(utf8_error_text(stdout@))),
{
    if !success {
        let err_text = utf8_decode_lossy(stderr);
        let code: i32 = match exit_code {
            Some(c) => c,
            None => -1,
        };
        let mut m = String::from_str("Shell command '");
        m.append(command);
        m.append("' failed with exit code ");
        let code_text = i32_to_decimal(code);
        m.append(code_text.as_str());
        m.append(": ");
        m.append(trim(err_text.as_str()));
        return Err(RuntimeError::ShellError { message: m });
    }
    match utf8_decode(stdout) {
        Ok(text) => {
            let n = text.as_str().unicode_len();
            if n > 0 && text.as_str().get_char(n - 1) == '\n' {
                let stripped: &str = text.as_str().substring_char(0, n - 1);
                Ok(String::from_str(stripped))
            } else {
                Ok(text)
            }
        },
        Err(error_text) => {
            let mut m = String::from_str("Shell command output is not valid UTF-8: ");
            m.append(error_text.as_str());
            Err(RuntimeError::ShellError { message: m })
        },
    }
}

} // verus!
