//! Errors of asynchronous operations, carried as a message.

use crate::ridl::text::push_str;
use crate::ridl_glue::string_from_chars;
use vstd::prelude::*;
use vstd::std_specs::convert::FromSpecImpl;

verus! {

/// A character of a message as a JS string literal writes it: backslash,
/// double quote, newline, carriage return and tab are escaped.
pub open spec fn js_escaped_char(c: char) -> Seq<char> {
    if c == '\\' {
        seq!['\\', '\\']
    } else if c == '"' {
        seq!['\\', '"']
    } else if c == '\n' {
        seq!['\\', 'n']
    } else if c == '\r' {
        seq!['\\', 'r']
    } else if c == '\t' {
        seq!['\\', 't']
    } else {
        seq![c]
    }
}

/// A message as a JS string literal writes it.
pub open spec fn js_escaped(s: Seq<char>) -> Seq<char>
    decreases s.len(),
{
    if s.len() == 0 {
        Seq::empty()
    } else {
        js_escaped(s.drop_last()) + js_escaped_char(s.last())
    }
}

/// The JS source that creates an `Error` with the message.
pub open spec fn js_error_source_text(msg: Seq<char>) -> Seq<char> {
    "new Error(\""@ + js_escaped(msg) + "\")"@
}

/// An asynchronous error.
#[derive(Debug)]
pub enum AsyncError {
    /// An error message.
    Message(String),
}

impl Clone for AsyncError {
    /// An error equal to this one.
    fn clone(&self) -> (r: Self)
        ensures
            r == *self,
    {
        match self {
            AsyncError::Message(msg) => AsyncError::Message(msg.clone()),
        }
    }
}

impl AsyncError {
    /// The error message, as characters.
    pub open spec fn spec_message(&self) -> Seq<char> {
        match self {
            AsyncError::Message(m) => m@,
        }
    }

    /// The error message.
    pub fn message(&self) -> (r: &str)
        ensures
            r@ == self.spec_message(),
    {
        match self {
            AsyncError::Message(msg) => msg.as_str(),
        }
    }

    /// Whether the error is a JS exception; a message never is.
    pub fn is_js_exception(&self) -> (r: bool)
        ensures
            !r,
    {
        false
    }

    /// The JS source that creates the matching JS `Error`: `new Error("…")`
    /// with the message escaped as a string literal.
    pub fn js_error_source(&self) -> (r: String)
        ensures
            r@ == js_error_source_text(self.spec_message()),
    {
        let msg = self.message();
        let ghost src = msg@;
        let mut out: Vec<char> = Vec::new();
        push_str(&mut out, "new Error(\"");
        let ghost start = out@;
        for c in iter: msg.chars()
            invariant
                iter.seq() == src,
                out@ == start + js_escaped(src.take(iter.index() as int)),
        {
            let ghost before = out@;
            if c == '\\' {
                out.push('\\');
                out.push('\\');
            } else if c == '"' {
                out.push('\\');
                out.push('"');
            } else if c == '\n' {
                out.push('\\');
                out.push('n');
            } else if c == '\r' {
                out.push('\\');
                out.push('r');
            } else if c == '\t' {
                out.push('\\');
                out.push('t');
            } else {
                out.push(c);
            }
            proof {
                assert(out@ =~= before + js_escaped_char(c));
                assert(src.take(iter.index() + 1).drop_last() =~= src.take(iter.index() as int));
                assert(src.take(iter.index() + 1).last() == c);
                assert(out@ =~= start + js_escaped(src.take(iter.index() + 1)));
            }
        }
        proof {
            assert(src.take(src.len() as int) =~= src);
        }
        push_str(&mut out, "\")");
        assert(out@ =~= js_error_source_text(self.spec_message()));
        string_from_chars(out)
    }

    /// The error as text: its message.
    pub fn to_string(&self) -> (r: String)
        ensures
            r@ == self.spec_message(),
    {
        match self {
            AsyncError::Message(msg) => msg.clone(),
        }
    }
}

impl From<String> for AsyncError {
    fn from(msg: String) -> (r: Self) {
        AsyncError::Message(msg)
    }
}

impl FromSpecImpl<String> for AsyncError {
    open spec fn obeys_from_spec() -> bool {
        true
    }

    open spec fn from_spec(msg: String) -> Self {
        AsyncError::Message(msg)
    }
}

impl From<&str> for AsyncError {
    fn from(msg: &str) -> (r: Self)
        ensures
            r.spec_message() == msg@,
    {
        AsyncError::Message(msg.to_owned())
    }
}

/// A `&str` has no string value in specifications to build the message from,
/// so `from` states its result through its own `ensures` only.
impl FromSpecImpl<&str> for AsyncError {
    open spec fn obeys_from_spec() -> bool {
        false
    }

    open spec fn from_spec(msg: &str) -> Self {
        arbitrary()
    }
}

} // verus!
