//! Descriptions of external tool invocations and of what they returned.
//!
//! Nothing here starts a process. A [`CommandRunner`] does that; the library
//! decides which command to run and what its exit status and output mean.

use vstd::prelude::*;
use vstd::string::*;
use vstd::utf8::{decode_utf8, valid_utf8};

use crate::error::{app_failure, SyncError};

verus! {

/// One invocation of an external tool.
#[derive(Debug, Clone, PartialEq, Eq)]
pub struct ToolCommand {
    /// The executable to start.
    pub program: String,
    /// Its arguments, in order.
    pub args: Vec<String>,
    /// The directory to start it in, if not the current one.
    pub dir: Option<String>,
}

/// What a finished process left behind.
#[derive(Debug, Clone, PartialEq, Eq)]
pub struct ToolOutput {
    /// Whether the exit status was zero.
    pub success: bool,
    /// Everything written to standard output.
    pub stdout: Vec<u8>,
    /// Everything written to standard error.
    pub stderr: Vec<u8>,
}

/// The mathematical content of a [`ToolCommand`].
pub struct CommandView {
    pub program: Seq<char>,
    pub args: Seq<Seq<char>>,
    pub dir: Option<Seq<char>>,
}

/// The texts held by a sequence of strings.
pub open spec fn texts(items: Seq<String>) -> Seq<Seq<char>> {
    items.map_values(|s: String| s@)
}

impl View for ToolCommand {
    type V = CommandView;

    open spec fn view(&self) -> CommandView {
        CommandView {
            program: self.program@,
            args: texts(self.args@),
            dir: match self.dir {
                Some(d) => Some(d@),
                None => None,
            },
        }
    }
}

/// Starts external tools. An `Err` carries the reason the tool could not be
/// started at all; a tool that ran and failed is an `Ok` whose `success` is false.
pub trait CommandRunner: Sized {
    /// What the runner promises about one invocation: in state `before`,
    /// asked to run `command`, it may answer `answer` and be in state `after`.
    /// A runner that starts real processes promises nothing, which is the default.
    open spec fn performed(
        before: Self,
        command: CommandView,
        after: Self,
        answer: Result<ToolOutput, String>,
    ) -> bool {
        true
    }

    /// Runs `command` to its end.
    fn run(&mut self, command: &ToolCommand) -> (answer: Result<ToolOutput, String>)
        ensures
            Self::performed(*old(self), command@, *final(self), answer),
    ;
}

/// The text that `String::from_utf8_lossy` makes of a byte sequence.
pub uninterp spec fn lossy_text(bytes: Seq<u8>) -> Seq<char>;

/// What is known of the lenient decoding: on valid UTF-8 it is the decoding.
pub open spec fn lossy_known(bytes: Seq<u8>) -> bool {
    valid_utf8(bytes) ==> lossy_text(bytes) == decode_utf8(bytes)
}

/// Calls `String::from_utf8_lossy`. The result is named `lossy_text(bytes@)`;
/// for bytes that are valid UTF-8 it is the text they encode, as the
/// function's documentation says.
#[verifier::external_body]
pub(crate) fn decode_lossy(bytes: &Vec<u8>) -> (r: String)
    ensures
        r@ == lossy_text(bytes@),
        valid_utf8(bytes@) ==> r@ == decode_utf8(bytes@),
{
    String::from_utf8_lossy(bytes).into_owned()
}

/// Calls `core::str::from_utf8`. It succeeds exactly on valid UTF-8 and then
/// yields the decoded text; otherwise the error's own description comes back.
#[verifier::external_body]
pub(crate) fn decode_strict(bytes: &Vec<u8>) -> (r: Result<String, String>)
    ensures
        r is Ok <==> valid_utf8(bytes@),
        r matches Ok(s) ==> s@ == decode_utf8(bytes@),
{
    match core::str::from_utf8(bytes) {
        Ok(s) => Ok(s.to_string()),
        Err(e) => Err(e.to_string()),
    }
}

impl ToolCommand {
    /// A command without arguments.
    pub fn new(program: &str, dir: Option<&str>) -> (r: ToolCommand)
        ensures
            r@.program == program@,
            r@.args == Seq::<Seq<char>>::empty(),
            r@.dir == match dir {
                Some(d) => Some(d@),
                None => None,
            },
    {
        let dir = match dir {
            Some(d) => Some(String::from_str(d)),
            None => None,
        };
        let r = ToolCommand { program: String::from_str(program), args: Vec::new(), dir };
        assert(r@.args =~= Seq::<Seq<char>>::empty());
        r
    }

    /// The same command with one more argument at the end.
    pub fn arg(self, value: &str) -> (r: ToolCommand)
        ensures
            r@.program == self@.program,
            r@.dir == self@.dir,
            r@.args == self@.args.push(value@),
    {
        let mut command = self;
        command.args.push(String::from_str(value));
        assert(command@.args =~= self@.args.push(value@));
        command
    }
}

/// The text shown for a stream of a failed tool: the stream, or `placeholder` if it is empty.
pub open spec fn stream_text(bytes: Seq<u8>, placeholder: Seq<char>) -> Seq<char> {
    if lossy_text(bytes).len() == 0 {
        placeholder
    } else {
        lossy_text(bytes)
    }
}

/// Renders a captured stream for a failure message.
pub fn stream_or(bytes: &Vec<u8>, placeholder: &str) -> (r: String)
    ensures
        r@ == stream_text(bytes@, placeholder@),
        lossy_known(bytes@),
{
    let text = decode_lossy(bytes);
    if text.as_str().unicode_len() == 0 {
        String::from_str(placeholder)
    } else {
        text
    }
}

/// The message for a tool that exited with a failure.
pub open spec fn failure_text(label: Seq<char>, path: Seq<char>, stderr: Seq<u8>) -> Seq<char> {
    label + "，路径: "@ + path + ", 错误: "@ + stream_text(stderr, "无详细信息"@)
}

/// `r` is what the outcome `ran` of an invocation means: a tool that could
/// not be started is an I/O failure, a non-zero exit is an application
/// failure that carries the captured error output, and anything else is
/// handed on.
pub open spec fn command_checked(
    label: Seq<char>,
    path: Seq<char>,
    ran: Result<ToolOutput, String>,
    r: Result<ToolOutput, SyncError>,
) -> bool {
    match ran {
        Err(reason) => r == Err::<ToolOutput, SyncError>(SyncError::Io(reason)),
        Ok(output) => if output.success {
            r == Ok::<ToolOutput, SyncError>(output)
        } else {
            app_failure(r, failure_text(label, path, output.stderr@)) && lossy_known(
                output.stderr@,
            )
        },
    }
}

/// `r` reports whether the invocation with outcome `ran` did its work.
pub open spec fn command_done(
    label: Seq<char>,
    path: Seq<char>,
    ran: Result<ToolOutput, String>,
    r: Result<(), SyncError>,
) -> bool {
    match ran {
        Err(reason) => r == Err::<(), SyncError>(SyncError::Io(reason)),
        Ok(output) => if output.success {
            r is Ok
        } else {
            app_failure(r, failure_text(label, path, output.stderr@)) && lossy_known(
                output.stderr@,
            )
        },
    }
}

/// The tool ran and exited with success.
pub open spec fn succeeded(ran: Result<ToolOutput, String>) -> bool {
    ran matches Ok(output) && output.success
}

/// The runner was asked once, to run `command`, and `meaning` holds of its answer.
pub open spec fn ran_once<R: CommandRunner>(
    before: R,
    command: CommandView,
    after: R,
    meaning: spec_fn(Result<ToolOutput, String>) -> bool,
) -> bool {
    exists|ran: Result<ToolOutput, String>|
        #[trigger] R::performed(before, command, after, ran) && meaning(ran)
}

/// Reads the outcome of one invocation.
pub fn command_result(label: &str, path: &str, ran: Result<ToolOutput, String>) -> (r: Result<
    ToolOutput,
    SyncError,
>)
    ensures
        command_checked(label@, path@, ran, r),
{
    match ran {
        Err(reason) => Err(SyncError::Io(reason)),
        Ok(output) => {
            if output.success {
                Ok(output)
            } else {
                let mut m = String::from_str(label);
                m.append("，路径: ");
                m.append(path);
                m.append(", 错误: ");
                let detail = stream_or(&output.stderr, "无详细信息");
                m.append(detail.as_str());
                Err(SyncError::App(m))
            }
        },
    }
}

/// Reads the outcome of an invocation that is run for its effect.
pub fn command_outcome(label: &str, path: &str, ran: Result<ToolOutput, String>) -> (r: Result<
    (),
    SyncError,
>)
    ensures
        command_done(label@, path@, ran, r),
{
    match command_result(label, path, ran) {
        Ok(_) => Ok(()),
        Err(e) => Err(e),
    }
}

} // verus!
