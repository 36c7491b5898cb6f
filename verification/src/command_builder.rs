//! Building one outbound command line from a name and ordered key/value
//! arguments, each value escaped according to its type.

use vstd::prelude::*;
use vstd::string::*;
use crate::text::{
    dec_int, escape_text, escaped_text, hex_encode, hex_of, i64_dec, u64_dec,
};

verus! {

/// A value that can stand on the right of `key=` in a command line.
pub trait CmdArgument {
    /// The wire text this value encodes to.
    spec fn escaped_spec(&self) -> Seq<char>;

    /// Encode the value for the wire.
    fn escaped(&self) -> (r: String)
        ensures
            r@ == self.escaped_spec(),
    ;
}

impl CmdArgument for i16 {
    open spec fn escaped_spec(&self) -> Seq<char> {
        dec_int(*self as int)
    }

    fn escaped(&self) -> (r: String)
        ensures
            r@ == self.escaped_spec(),
    {
        i64_dec(*self as i64)
    }
}

impl CmdArgument for i32 {
    open spec fn escaped_spec(&self) -> Seq<char> {
        dec_int(*self as int)
    }

    fn escaped(&self) -> (r: String)
        ensures
            r@ == self.escaped_spec(),
    {
        i64_dec(*self as i64)
    }
}

impl CmdArgument for i64 {
    open spec fn escaped_spec(&self) -> Seq<char> {
        dec_int(*self as int)
    }

    fn escaped(&self) -> (r: String)
        ensures
            r@ == self.escaped_spec(),
    {
        i64_dec(*self)
    }
}

impl CmdArgument for u32 {
    open spec fn escaped_spec(&self) -> Seq<char> {
        dec_int(*self as int)
    }

    fn escaped(&self) -> (r: String)
        ensures
            r@ == self.escaped_spec(),
    {
        u64_dec(*self as u64)
    }
}

impl CmdArgument for u64 {
    open spec fn escaped_spec(&self) -> Seq<char> {
        dec_int(*self as int)
    }

    fn escaped(&self) -> (r: String)
        ensures
            r@ == self.escaped_spec(),
    {
        u64_dec(*self)
    }
}

impl CmdArgument for bool {
    open spec fn escaped_spec(&self) -> Seq<char> {
        if *self {
            seq!['1']
        } else {
            seq!['0']
        }
    }

    fn escaped(&self) -> (r: String)
        ensures
            r@ == self.escaped_spec(),
    {
        if *self {
            u64_dec(1)
        } else {
            u64_dec(0)
        }
    }
}

impl<'a> CmdArgument for &'a str {
    open spec fn escaped_spec(&self) -> Seq<char> {
        escaped_text(self@)
    }

    fn escaped(&self) -> (r: String)
        ensures
            r@ == self.escaped_spec(),
    {
        escape_text(self)
    }
}

impl<'a> CmdArgument for &'a [u8] {
    open spec fn escaped_spec(&self) -> Seq<char> {
        hex_of(self@)
    }

    fn escaped(&self) -> (r: String)
        ensures
            r@ == self.escaped_spec(),
    {
        hex_encode(self)
    }
}

/// Accumulates one command line: `NAME key1=val1&key2=val2&...` until
/// [`CommandBuilder::build`] appends the final newline.
pub struct CommandBuilder {
    inner: String,
    add_amp: bool,
}

impl CommandBuilder {
    /// The text accumulated so far.
    pub closed spec fn text(&self) -> Seq<char> {
        self.inner@
    }

    /// Whether an argument was already added, so that the next one needs a
    /// `&` separator in front.
    pub closed spec fn has_args(&self) -> bool {
        self.add_amp
    }

    /// Start a command line: the name, then a single space.
    pub fn new(name: &str) -> (r: Self)
        ensures
            r.text() == name@ + " "@,
            !r.has_args(),
    {
        let mut inner = String::from_str(name);
        inner.append(" ");
        CommandBuilder { inner, add_amp: false }
    }

    /// Append one `key=value` argument, escaping the value per its type;
    /// arguments after the first are separated by `&`, in caller order.
    pub fn arg<T: CmdArgument>(self, key: &str, value: T) -> (r: Self)
        ensures
            r.text() == self.text() + (if self.has_args() {
                "&"@
            } else {
                Seq::<char>::empty()
            }) + key@ + "="@ + value.escaped_spec(),
            r.has_args(),
    {
        let mut inner = self.inner;
        if self.add_amp {
            inner.append("&");
        } else {
            proof {
                assert(inner@ + Seq::<char>::empty() =~= inner@);
            }
        }
        inner.append(key);
        inner.append("=");
        let v = value.escaped();
        inner.append(v.as_str());
        CommandBuilder { inner, add_amp: true }
    }

    /// Finish the line with exactly one trailing newline.
    pub fn build(self) -> (r: String)
        ensures
            r@ == self.text() + "\n"@,
    {
        let mut inner = self.inner;
        inner.append("\n");
        inner
    }
}

/// The text of a freshly started command line: the name and one space.
pub open spec fn cmd_start(name: Seq<char>) -> Seq<char> {
    name + " "@
}

/// A command line extended with its first `key=value` argument.
pub open spec fn cmd_arg_first(cmd: Seq<char>, key: Seq<char>, val: Seq<char>) -> Seq<char> {
    cmd + key + "="@ + val
}

/// A command line extended with a further `&key=value` argument.
pub open spec fn cmd_arg_next(cmd: Seq<char>, key: Seq<char>, val: Seq<char>) -> Seq<char> {
    cmd + "&"@ + key + "="@ + val
}

/// A finished command line: exactly one trailing newline.
pub open spec fn cmd_done(cmd: Seq<char>) -> Seq<char> {
    cmd + "\n"@
}

} // verus!
