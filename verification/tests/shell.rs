use suji_runtime::error::RuntimeError;
use suji_runtime::shell::{shell_output_result, shell_program, shell_spawn_error};
use suji_runtime::text::{i32_to_decimal, trim};

fn shell_message(r: Result<String, RuntimeError>) -> String {
    match r {
        Err(RuntimeError::ShellError { message }) => message,
        other => panic!("expected a shell error, got {:?}", other),
    }
}

#[test]
fn trailing_newline_is_removed_once() {
    let r = shell_output_result("echo hello", true, Some(0), b"hello\n".to_vec(), b"");
    assert_eq!(r.unwrap(), "hello");
    let r = shell_output_result("printf", true, Some(0), b"hello".to_vec(), b"");
    assert_eq!(r.unwrap(), "hello");
    let r = shell_output_result("printf", true, Some(0), b"a\n\n".to_vec(), b"");
    assert_eq!(r.unwrap(), "a\n");
    let r = shell_output_result("echo -n", true, Some(0), Vec::new(), b"");
    assert_eq!(r.unwrap(), "");
    let r = shell_output_result("echo", true, Some(0), "café 🚀\n".as_bytes().to_vec(), b"");
    assert_eq!(r.unwrap(), "café 🚀");
}

#[test]
fn failed_command_reports_code_and_trimmed_stderr() {
    let r = shell_output_result("false", false, Some(1), Vec::new(), b"  oops\n");
    assert_eq!(shell_message(r), "Shell command 'false' failed with exit code 1: oops");
    let r = shell_output_result("kill", false, None, b"ignored".to_vec(), b"");
    assert_eq!(shell_message(r), "Shell command 'kill' failed with exit code -1: ");
    let r = shell_output_result("x", false, Some(127), Vec::new(), b"sh: x: not found\n");
    assert_eq!(shell_message(r), "Shell command 'x' failed with exit code 127: sh: x: not found");
}

#[test]
fn invalid_utf8_output_is_an_error() {
    let bytes = vec![0x66, 0xff, 0x6f];
    let expected = String::from_utf8(bytes.clone()).unwrap_err().to_string();
    let r = shell_output_result("bin", true, Some(0), bytes, b"");
    assert_eq!(
        shell_message(r),
        format!("Shell command output is not valid UTF-8: {}", expected)
    );
}

#[test]
fn spawn_error_message() {
    match shell_spawn_error("ls", "No such file or directory (os error 2)") {
        RuntimeError::ShellError { message } => assert_eq!(
            message,
            "Failed to execute shell command 'ls': No such file or directory (os error 2)"
        ),
        _ => panic!("expected a shell error"),
    }
}

#[test]
fn shell_defaults_to_bin_sh() {
    assert_eq!(shell_program(None), "/bin/sh");
    assert_eq!(shell_program(Some("/bin/zsh".to_string())), "/bin/zsh");
}

#[test]
fn decimal_numerals() {
    assert_eq!(i32_to_decimal(0), "0");
    assert_eq!(i32_to_decimal(7), "7");
    assert_eq!(i32_to_decimal(-1), "-1");
    assert_eq!(i32_to_decimal(1234), "1234");
    assert_eq!(i32_to_decimal(i32::MAX), "2147483647");
    assert_eq!(i32_to_decimal(i32::MIN), "-2147483648");
}

#[test]
fn trimming_matches_std() {
    for s in ["", "   ", " a ", "\t\nb c\u{3000}", "x", "\u{85}y\u{2028}"] {
        assert_eq!(trim(s), s.trim());
    }
}

#[test]
fn test_trailing_newline_removal() {
    // Most shell commands add a trailing newline: `printf 'hello\n'` prints these bytes
    let result = shell_output_result("printf 'hello\\n'", true, Some(0), b"hello\n".to_vec(), b"");
    assert!(result.is_ok());
    assert_eq!(result.unwrap(), "hello");

    // Commands without trailing newline should be preserved: `printf 'hello'`
    let result = shell_output_result("printf 'hello'", true, Some(0), b"hello".to_vec(), b"");
    assert!(result.is_ok());
    assert_eq!(result.unwrap(), "hello");
}

#[test]
fn test_empty_output() {
    // `echo -n` prints nothing
    let result = shell_output_result("echo -n", true, Some(0), Vec::new(), b"");
    assert!(result.is_ok());
    assert_eq!(result.unwrap(), "");
}

#[test]
fn test_unicode_output() {
    // `echo 'café 🚀'` prints the text and a newline
    let result = shell_output_result("echo 'café 🚀'", true, Some(0), "café 🚀\n".as_bytes().to_vec(), b"");
    assert!(result.is_ok());
    assert_eq!(result.unwrap(), "café 🚀");
}
