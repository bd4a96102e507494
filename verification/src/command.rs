//! The host command bridge: a command and its arguments become one call
//! expression for the host's scripting runtime, and the host's reply becomes
//! the result of the command.

use vstd::prelude::*;

verus! {

/// What the host returned for a call expression: a status where it gave a
/// number, the captured output where it gave text, and an error text where
/// the call failed.
pub struct HostReply {
    pub status: Option<i32>,
    pub output: Option<String>,
    pub error: Option<String>,
}

/// A [`HostReply`] as mathematical values.
pub struct HostReplyView {
    pub status: Option<i32>,
    pub output: Option<Seq<char>>,
    pub error: Option<Seq<char>>,
}

impl View for HostReply {
    type V = HostReplyView;

    open spec fn view(&self) -> HostReplyView {
        HostReplyView {
            status: self.status,
            output: match self.output {
                Some(text) => Some(text@),
                None => None,
            },
            error: match self.error {
                Some(text) => Some(text@),
                None => None,
            },
        }
    }
}

impl HostReplyView {
    /// The status of the command: 0 where the host gave none.
    pub open spec fn status_code(self) -> i32 {
        match self.status {
            Some(code) => code,
            None => 0,
        }
    }

    /// The captured output: empty where the host gave none.
    pub open spec fn output_text(self) -> Seq<char> {
        match self.output {
            Some(text) => text,
            None => Seq::empty(),
        }
    }

    /// The result of a command that shares the caller's output: the host's
    /// error as it is, or else the status. The captured output is dropped.
    pub open spec fn inherit_result(self) -> Result<i32, Seq<char>> {
        match self.error {
            Some(error) => Err(error),
            None => Ok(self.status_code()),
        }
    }

    /// The result of a command whose output is captured: the host's error
    /// behind [`host_error_prefix`], or else the status, the captured output
    /// and an empty error stream.
    pub open spec fn capture_result(self) -> Result<(i32, Seq<char>, Seq<char>), Seq<char>> {
        match self.error {
            Some(error) => Err(host_error_prefix() + error),
            None => Ok((self.status_code(), self.output_text(), Seq::empty())),
        }
    }
}

/// The result of a command that shares the caller's output, as
/// mathematical values.
pub open spec fn inherit_view(res: Result<i32, String>) -> Result<i32, Seq<char>> {
    match res {
        Ok(code) => Ok(code),
        Err(message) => Err(message@),
    }
}

/// The result of a command whose output is captured, as mathematical values.
pub open spec fn capture_view(res: Result<(i32, String, String), String>) -> Result<
    (i32, Seq<char>, Seq<char>),
    Seq<char>,
> {
    match res {
        Ok((code, output, errors)) => Ok((code, output@, errors@)),
        Err(message) => Err(message@),
    }
}

/// What marks an error as one of the host's scripting runtime.
pub open spec fn host_error_prefix() -> Seq<char> {
    "Javascript error: "@
}

/// The character sequences of a list of arguments.
pub open spec fn arg_views(args: Seq<&str>) -> Seq<Seq<char>> {
    args.map_values(|arg: &str| arg@)
}

/// `parts` one after the other, with a comma between each two.
pub open spec fn join_with_commas(parts: Seq<Seq<char>>) -> Seq<char>
    decreases parts.len(),
{
    if parts.len() == 0 {
        Seq::empty()
    } else if parts.len() == 1 {
        parts[0]
    } else {
        join_with_commas(parts.drop_last()) + seq![','] + parts.last()
    }
}

/// The call expression for `command` with `args`: the bare command where
/// there are no arguments, else the command followed by the arguments in
/// round brackets, with commas between them. Nothing is quoted or escaped.
pub open spec fn call_expression(command: Seq<char>, args: Seq<Seq<char>>) -> Seq<char> {
    if args.len() > 0 {
        command + seq!['('] + join_with_commas(args) + seq![')']
    } else {
        command
    }
}

/// Builds the call expression for `command` with `args`.
pub fn command_expression(command: &str, args: &[&str]) -> (code: String)
    ensures
        code@ == call_expression(command@, arg_views(args@)),
{
    let mut code = command.to_owned();
    if args.len() == 0 {
        return code;
    }
    code.push('(');
    code.append(args[0]);
    let ghost parts = arg_views(args@);
    assert(join_with_commas(parts.take(1)) == parts[0]);
    let mut i: usize = 1;
    while i < args.len()
        invariant
            1 <= i <= args.len(),
            parts == arg_views(args@),
            code@ == command@ + seq!['('] + join_with_commas(parts.take(i as int)),
        decreases args.len() - i,
    {
        code.push(',');
        code.append(args[i]);
        proof {
            let done = parts.take(i + 1);
            assert(done.drop_last() == parts.take(i as int));
            assert(done.last() == args@[i as int]@);
        }
        i += 1;
    }
    assert(parts.take(args.len() as int) == parts);
    code.push(')');
    code
}

impl HostReply {
    /// The result of a command that shares the caller's output.
    pub fn inherit_result(self) -> (res: Result<i32, String>)
        ensures
            inherit_view(res) == self@.inherit_result(),
    {
        let status = self.status.unwrap_or(0);
        match self.error {
            Some(error) => Err(error),
            None => Ok(status),
        }
    }

    /// The result of a command whose output is captured.
    pub fn capture_result(self) -> (res: Result<(i32, String, String), String>)
        ensures
            capture_view(res) == self@.capture_result(),
    {
        let status = self.status.unwrap_or(0);
        let output = match self.output {
            Some(text) => text,
            None => String::new(),
        };
        match self.error {
            Some(error) => Err(String::from_str("Javascript error: ").concat(error.as_str())),
            None => Ok((status, output, String::new())),
        }
    }
}

} // verus!
