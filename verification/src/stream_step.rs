//! The decisions of the stream methods: which errors a call raises before any
//! I/O, and which I/O it then asks for. The I/O itself is the caller's.

use vstd::prelude::*;
use crate::error::RuntimeError;
use crate::text::str_eq;
use crate::shell::utf8_decode;
use crate::str_ops::{chars_of, push_char};
use vstd::utf8::{decode_utf8, valid_utf8};

verus! {

/// An argument of a stream method, as the decisions read it.
#[derive(Debug, Clone, Copy, PartialEq, Eq)]
pub enum StreamArg {
    /// A number, and whether it is finite and above zero.
    Number { positive_finite: bool },
    /// A value of any other kind.
    Other,
}

/// The I/O that a stream method call asks for.
#[derive(Debug, PartialEq)]
pub enum StreamAction {
    /// Read a chunk: of at most the kilobytes given as the argument when
    /// `from_argument`, else of at most 8.
    ReadChunk { from_argument: bool },
    /// Write the text of the argument.
    Write,
    /// Read to the end.
    ReadAll,
    /// Read to the end, as lines.
    ReadLines,
    /// Close the stream.
    Close,
    /// The stream's description, to be returned as a string.
    Describe(String),
}

/// `r` is a stream error with the message `msg`.
pub open spec fn stream_error(r: Result<StreamAction, RuntimeError>, msg: Seq<char>) -> bool {
    r matches Err(RuntimeError::StreamError { message }) && message@ == msg
}

/// `r` is an arity error with the message `msg`.
pub open spec fn stream_arity(r: Result<StreamAction, RuntimeError>, msg: Seq<char>) -> bool {
    r matches Err(RuntimeError::ArityMismatch { message }) && message@ == msg
}

/// A method that reads: the error on a stream that cannot be read, else `ok`.
pub open spec fn reading(r: Result<StreamAction, RuntimeError>, readable: bool, name: Seq<char>, ok: bool) -> bool {
    if !readable {
        stream_error(r, "Cannot read from write-only stream: "@ + name)
    } else {
        ok
    }
}

/// What a call of the stream method `method` with `args` gives on the stream
/// `name`, closed or not, readable or not, writable or not.
pub open spec fn stream_step_gives(
    r: Result<StreamAction, RuntimeError>,
    closed: bool,
    readable: bool,
    writable: bool,
    name: Seq<char>,
    method: Seq<char>,
    args: Seq<StreamArg>,
) -> bool {
    if closed {
        stream_error(r, "Operation on closed stream"@)
    } else if method == "read"@ {
        if args.len() > 1 || (args.len() == 1 && !(args[0] is Number)) {
            stream_arity(r, "stream::read(chunk_kb=8) takes 0 or 1 numeric argument"@)
        } else if args.len() == 1 && !args[0]->positive_finite {
            stream_error(r, "chunk_kb must be a positive finite number"@)
        } else {
            reading(r, readable, name, r matches Ok(StreamAction::ReadChunk { from_argument }) && from_argument == (args.len() == 1))
        }
    } else if method == "write"@ {
        if args.len() != 1 {
            stream_arity(r, "stream::write(text) expects exactly one argument"@)
        } else if !writable {
            stream_error(r, "Cannot write to read-only stream: "@ + name)
        } else {
            r matches Ok(StreamAction::Write)
        }
    } else if method == "read_all"@ {
        if args.len() != 0 {
            stream_arity(r, "stream::read_all() takes no arguments"@)
        } else {
            reading(r, readable, name, r matches Ok(StreamAction::ReadAll))
        }
    } else if method == "read_lines"@ {
        if args.len() != 0 {
            stream_arity(r, "stream::read_lines() takes no arguments"@)
        } else {
            reading(r, readable, name, r matches Ok(StreamAction::ReadLines))
        }
    } else if method == "close"@ {
        if args.len() != 0 {
            stream_arity(r, "stream::close() takes no arguments"@)
        } else {
            r matches Ok(StreamAction::Close)
        }
    } else if method == "to_string"@ {
        if args.len() != 0 {
            stream_arity(r, "to_string() takes no arguments"@)
        } else {
            r matches Ok(StreamAction::Describe(t)) && t@ == "<stream:"@ + name + ">"@
        }
    } else {
        r matches Err(RuntimeError::MethodError { message }) && message@ == "Stream has no method '"@ + method + "'"@
    }
}

/// The names of the stream methods differ from one another.
proof fn distinct_method_names()
    ensures
        "read"@ != "write"@, "read"@ != "read_all"@, "read"@ != "read_lines"@, "read"@ != "close"@, "read"@ != "to_string"@,
        "write"@ != "read_all"@, "write"@ != "read_lines"@, "write"@ != "close"@, "write"@ != "to_string"@,
        "read_all"@ != "read_lines"@, "read_all"@ != "close"@, "read_all"@ != "to_string"@,
        "read_lines"@ != "close"@, "read_lines"@ != "to_string"@, "close"@ != "to_string"@,
{
    reveal_strlit("read");
    reveal_strlit("write");
    reveal_strlit("read_all");
    reveal_strlit("read_lines");
    reveal_strlit("close");
    reveal_strlit("to_string");
    assert("read"@.len() == 4 && "write"@.len() == 5 && "read_all"@.len() == 8);
    assert("read_lines"@.len() == 10 && "close"@.len() == 5 && "to_string"@.len() == 9);
    assert("write"@[0] != "close"@[0]);
    assert("read_all"@[0] != "to_string"@[0]);
}

/// Closing an open stream with no arguments always succeeds, whether the
/// stream can be read, written, or both; on a closed stream every method is
/// refused with "Operation on closed stream".
pub proof fn lemma_close_always_closes(
    readable: bool,
    writable: bool,
    name: Seq<char>,
    method: Seq<char>,
    args: Seq<StreamArg>,
    r: Result<StreamAction, RuntimeError>,
    closed: bool,
)
    requires
        stream_step_gives(r, closed, readable, writable, name, method, args),
    ensures
        !closed && method == "close"@ && args.len() == 0 ==> r matches Ok(StreamAction::Close),
        closed ==> (r matches Err(RuntimeError::StreamError { message }) && message@ == "Operation on closed stream"@),
{
    distinct_method_names();
}

/// Whether a stream can be written never matters to reading, nor whether it
/// can be read to writing: an open stream that can be read is never refused
/// a read for want of writing, and one that can be written is never refused
/// a write for want of reading.
pub proof fn lemma_read_write_independent(
    readable: bool,
    writable: bool,
    name: Seq<char>,
    method: Seq<char>,
    args: Seq<StreamArg>,
    r: Result<StreamAction, RuntimeError>,
)
    requires
        stream_step_gives(r, false, readable, writable, name, method, args),
    ensures
        readable && (method == "read_all"@ || method == "read_lines"@) && args.len() == 0 ==> r is Ok,
        readable && method == "read"@ && args.len() == 0 ==> r matches Ok(StreamAction::ReadChunk { from_argument: false }),
        writable && method == "write"@ && args.len() == 1 ==> r matches Ok(StreamAction::Write),
        method == "to_string"@ && args.len() == 0 ==> (r matches Ok(StreamAction::Describe(t)) && t@ == "<stream:"@ + name + ">"@),
{
    distinct_method_names();
}

fn stream_err(prefix: &str, name: &str) -> (e: RuntimeError)
    ensures
        e matches RuntimeError::StreamError { message } && message@ == prefix@ + name@,
{
    let mut message = prefix.to_owned();
    message.append(name);
    RuntimeError::StreamError { message }
}

fn arity(message: &str) -> (e: RuntimeError)
    ensures
        e matches RuntimeError::ArityMismatch { message: m } && m@ == message@,
{
    RuntimeError::ArityMismatch { message: message.to_owned() }
}

/// Decide a call of the stream method `method` with `args` on the stream
/// `name`: the error it raises, or the I/O it asks for.
pub fn stream_step(
    closed: bool,
    readable: bool,
    writable: bool,
    name: &str,
    method: &str,
    args: &Vec<StreamArg>,
) -> (r: Result<StreamAction, RuntimeError>)
    ensures
        stream_step_gives(r, closed, readable, writable, name@, method@, args@),
{
    if closed {
        return Err(RuntimeError::StreamError { message: "Operation on closed stream".to_owned() });
    }
    let n = args.len();
    if str_eq(method, "read") {
        if n > 1 {
            return Err(arity("stream::read(chunk_kb=8) takes 0 or 1 numeric argument"));
        }
        if n == 1 {
            match args[0] {
                StreamArg::Number { positive_finite } => {
                    if !positive_finite {
                        return Err(RuntimeError::StreamError {
                            message: "chunk_kb must be a positive finite number".to_owned(),
                        });
                    }
                },
                StreamArg::Other => {
                    return Err(arity("stream::read(chunk_kb=8) takes 0 or 1 numeric argument"));
                },
            }
        }
        if !readable {
            return Err(stream_err("Cannot read from write-only stream: ", name));
        }
        Ok(StreamAction::ReadChunk { from_argument: n == 1 })
    } else if str_eq(method, "write") {
        if n != 1 {
            return Err(arity("stream::write(text) expects exactly one argument"));
        }
        if !writable {
            return Err(stream_err("Cannot write to read-only stream: ", name));
        }
        Ok(StreamAction::Write)
    } else if str_eq(method, "read_all") || str_eq(method, "read_lines") {
        let all = str_eq(method, "read_all");
        if n != 0 {
            if all {
                return Err(arity("stream::read_all() takes no arguments"));
            } else {
                return Err(arity("stream::read_lines() takes no arguments"));
            }
        }
        if !readable {
            return Err(stream_err("Cannot read from write-only stream: ", name));
        }
        if all { Ok(StreamAction::ReadAll) } else { Ok(StreamAction::ReadLines) }
    } else if str_eq(method, "close") {
        if n != 0 {
            return Err(arity("stream::close() takes no arguments"));
        }
        Ok(StreamAction::Close)
    } else if str_eq(method, "to_string") {
        if n != 0 {
            return Err(arity("to_string() takes no arguments"));
        }
        let mut t = "<stream:".to_owned();
        t.append(name);
        t.append(">");
        Ok(StreamAction::Describe(t))
    } else {
        let mut m = "Stream has no method '".to_owned();
        m.append(method);
        m.append("'");
        Err(RuntimeError::MethodError { message: m })
    }
}

/// What a read chunk gives: nil at the end of the stream (no bytes), its
/// text when the bytes are UTF-8, else an error.
pub open spec fn chunk_gives(r: Result<Option<String>, RuntimeError>, bytes: Seq<u8>) -> bool {
    if bytes.len() == 0 {
        r matches Ok(None)
    } else if valid_utf8(bytes) {
        r matches Ok(Some(t)) && t@ == decode_utf8(bytes)
    } else {
        stream_error_of(r, "Stream read produced invalid UTF-8"@)
    }
}

/// `r` is a stream error with the message `msg`.
pub open spec fn stream_error_of<T>(r: Result<T, RuntimeError>, msg: Seq<char>) -> bool {
    r matches Err(RuntimeError::StreamError { message }) && message@ == msg
}

/// The value of a chunk of bytes read from a stream.
pub fn chunk_text(bytes: Vec<u8>) -> (r: Result<Option<String>, RuntimeError>)
    ensures
        chunk_gives(r, bytes@),
{
    if bytes.len() == 0 {
        return Ok(None);
    }
    match utf8_decode(bytes) {
        Ok(t) => Ok(Some(t)),
        Err(_) => Err(RuntimeError::StreamError { message: "Stream read produced invalid UTF-8".to_owned() }),
    }
}

/// A line as `read_lines` gives it: without its line feed, and without the
/// carriage return before that line feed.
pub open spec fn line_without_ending(s: Seq<char>) -> Seq<char> {
    if s.len() > 0 && s.last() == '\n' {
        let t = s.drop_last();
        if t.len() > 0 && t.last() == '\r' { t.drop_last() } else { t }
    } else {
        s
    }
}

/// A line read from a stream, without its ending.
pub fn line_text(line: &str) -> (r: String)
    ensures
        r@ == line_without_ending(line@),
{
    let v = chars_of(line);
    let mut end = v.len();
    if end > 0 && v[end - 1] == '\n' {
        end = end - 1;
        if end > 0 && v[end - 1] == '\r' {
            end = end - 1;
        }
    }
    let mut r = String::new();
    let mut i: usize = 0;
    while i < end
        invariant
            end <= v@.len(),
            i <= end,
            v@ == line@,
            r@ == v@.take(i as int),
        decreases end - i,
    {
        push_char(&mut r, v[i]);
        i = i + 1;
        assert(r@ =~= v@.take(i as int));
    }
    assert(line_without_ending(line@) =~= v@.take(end as int));
    r
}

} // verus!
