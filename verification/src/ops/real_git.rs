//! Git driven through the `git` executable.
//!
//! Each operation is a fixed command line and a rule for reading the exit
//! status; the commands are started by the [`CommandRunner`] given at construction.

use vstd::prelude::*;
use vstd::string::*;

use crate::error::{app_failure, SyncError};
use crate::ops::git_operations::{GitAnswer, GitCall, GitOperations};
use crate::ops::process::{
    command_done, command_outcome, command_result, decode_lossy, failure_text, lossy_known,
    lossy_text, ran_once,
    stream_or, stream_text, succeeded, CommandRunner, CommandView, ToolCommand, ToolOutput,
};
use crate::text::{decimal, decimal_string, trim, trimmed};

verus! {

/// `git` started in `path` with `args`.
pub open spec fn git_invocation(args: Seq<Seq<char>>, path: Seq<char>) -> CommandView {
    CommandView { program: "git"@, args, dir: Some(path) }
}

/// The arguments of the history query, with the optional cap on its length.
pub open spec fn log_args(count: Option<usize>) -> Seq<Seq<char>> {
    match count {
        Some(n) => seq!["log"@, "--oneline"@, "-n"@, decimal(n as nat)],
        None => seq!["log"@, "--oneline"@],
    }
}

/// The message for a commit that the tool refused.
pub open spec fn commit_failure_text(
    path: Seq<char>,
    message: Seq<char>,
    stdout: Seq<u8>,
    stderr: Seq<u8>,
) -> Seq<char> {
    "Git commit失败，路径: "@ + path + ", 提交信息: '"@ + message + "', stdout: "@ + stream_text(
        stdout,
        "无输出"@,
    ) + ", stderr: "@ + stream_text(stderr, "无错误信息"@)
}

/// `r` reports whether `git commit` with outcome `ran` made its commit. The
/// refusal message carries both captured streams, since Git reports
/// "nothing to commit" on standard output.
pub open spec fn commit_done(
    path: Seq<char>,
    message: Seq<char>,
    ran: Result<ToolOutput, String>,
    r: Result<(), SyncError>,
) -> bool {
    match ran {
        Err(reason) => r == Err::<(), SyncError>(SyncError::Io(reason)),
        Ok(output) => if output.success {
            r is Ok
        } else {
            &&& app_failure(
                r,
                commit_failure_text(path, message, output.stdout@, output.stderr@),
            )
            &&& lossy_known(output.stdout@)
            &&& lossy_known(output.stderr@)
        },
    }
}

/// `r` reports whether `git --version` with outcome `ran` shows a usable tool.
pub open spec fn availability_read(
    ran: Result<ToolOutput, String>,
    r: Result<(), SyncError>,
) -> bool {
    match ran {
        Err(reason) => app_failure(r, "无法执行Git命令: "@ + reason@),
        Ok(output) => if output.success {
            r is Ok
        } else {
            app_failure(r, "Git命令执行失败"@)
        },
    }
}

/// `r` is the listing that a query with outcome `ran` printed.
pub open spec fn text_read(
    label: Seq<char>,
    path: Seq<char>,
    ran: Result<ToolOutput, String>,
    r: Result<String, SyncError>,
) -> bool {
    match ran {
        Err(reason) => r == Err::<String, SyncError>(SyncError::Io(reason)),
        Ok(output) => if output.success {
            &&& r matches Ok(text)
            &&& text@ == lossy_text(output.stdout@)
            &&& lossy_known(output.stdout@)
        } else {
            app_failure(r, failure_text(label, path, output.stderr@)) && lossy_known(
                output.stderr@,
            )
        },
    }
}

/// `r` says whether the status listing with outcome `ran` shows a clean
/// working tree: one whose listing holds nothing but whitespace.
pub open spec fn cleanliness_read(
    path: Seq<char>,
    ran: Result<ToolOutput, String>,
    r: Result<bool, SyncError>,
) -> bool {
    match ran {
        Err(reason) => r == Err::<bool, SyncError>(SyncError::Io(reason)),
        Ok(output) => if output.success {
            r == Ok::<bool, SyncError>(trimmed(lossy_text(output.stdout@)).len() == 0)
                && lossy_known(output.stdout@)
        } else {
            app_failure(r, failure_text("获取Git状态失败"@, path, output.stderr@))
                && lossy_known(output.stderr@)
        },
    }
}

/// `git --version`, started in the current directory.
pub open spec fn version_invocation() -> CommandView {
    CommandView { program: "git"@, args: seq!["--version"@], dir: None }
}

/// What the real backend does with a request, in terms of what its runner
/// does: which command it has the runner run, and how it reads the outcome.
/// The identity is configured by two commands, the second of which is run
/// only after the first succeeded.
pub open spec fn real_answered<R: CommandRunner>(
    before: R,
    call: GitCall,
    after: R,
    answer: GitAnswer,
) -> bool {
    match call {
        GitCall::Init(path) => {
            &&& answer matches GitAnswer::Done(r)
            &&& ran_once(
                before,
                git_invocation(seq!["init"@], path),
                after,
                |ran: Result<ToolOutput, String>| command_done("Git初始化失败"@, path, ran, r),
            )
        },
        GitCall::ConfigUser(path, name, email) => {
            let set_name = git_invocation(seq!["config"@, "user.name"@, name], path);
            let set_email = git_invocation(seq!["config"@, "user.email"@, email], path);
            &&& answer matches GitAnswer::Done(r)
            &&& exists|first: Result<ToolOutput, String>, mid: R|
                {
                    &&& #[trigger] R::performed(before, set_name, mid, first)
                    &&& if succeeded(first) {
                        ran_once(
                            mid,
                            set_email,
                            after,
                            |ran: Result<ToolOutput, String>|
                                command_done("配置Git邮箱失败"@, path, ran, r),
                        )
                    } else {
                        after == mid && command_done("配置Git用户名失败"@, path, first, r)
                    }
                }
        },
        GitCall::AddAll(path) => {
            &&& answer matches GitAnswer::Done(r)
            &&& ran_once(
                before,
                git_invocation(seq!["add"@, "."@], path),
                after,
                |ran: Result<ToolOutput, String>| command_done("Git add失败"@, path, ran, r),
            )
        },
        GitCall::Commit(path, message) => {
            &&& answer matches GitAnswer::Done(r)
            &&& ran_once(
                before,
                git_invocation(seq!["commit"@, "-m"@, message], path),
                after,
                |ran: Result<ToolOutput, String>| commit_done(path, message, ran, r),
            )
        },
        GitCall::Status(path) => {
            &&& answer matches GitAnswer::Text(r)
            &&& ran_once(
                before,
                git_invocation(seq!["status"@, "--porcelain"@], path),
                after,
                |ran: Result<ToolOutput, String>| text_read("获取Git状态失败"@, path, ran, r),
            )
        },
        GitCall::Log(path, count) => {
            &&& answer matches GitAnswer::Text(r)
            &&& ran_once(
                before,
                git_invocation(log_args(count), path),
                after,
                |ran: Result<ToolOutput, String>| text_read("获取Git日志失败"@, path, ran, r),
            )
        },
        GitCall::IsClean(path) => {
            &&& answer matches GitAnswer::Flag(r)
            &&& ran_once(
                before,
                git_invocation(seq!["status"@, "--porcelain"@], path),
                after,
                |ran: Result<ToolOutput, String>| cleanliness_read(path, ran, r),
            )
        },
    }
}

/// `git init`.
pub fn init_command(path: &str) -> (r: ToolCommand)
    ensures
        r@ == git_invocation(seq!["init"@], path@),
{
    let r = ToolCommand::new("git", Some(path)).arg("init");
    assert(r@.args =~= seq!["init"@]);
    r
}

/// `git config <key> <value>`.
pub fn config_command(path: &str, key: &str, value: &str) -> (r: ToolCommand)
    ensures
        r@ == git_invocation(seq!["config"@, key@, value@], path@),
{
    let r = ToolCommand::new("git", Some(path)).arg("config").arg(key).arg(value);
    assert(r@.args =~= seq!["config"@, key@, value@]);
    r
}

/// `git add .`.
pub fn add_all_command(path: &str) -> (r: ToolCommand)
    ensures
        r@ == git_invocation(seq!["add"@, "."@], path@),
{
    let r = ToolCommand::new("git", Some(path)).arg("add").arg(".");
    assert(r@.args =~= seq!["add"@, "."@]);
    r
}

/// `git commit -m <message>`.
pub fn commit_command(path: &str, message: &str) -> (r: ToolCommand)
    ensures
        r@ == git_invocation(seq!["commit"@, "-m"@, message@], path@),
{
    let r = ToolCommand::new("git", Some(path)).arg("commit").arg("-m").arg(message);
    assert(r@.args =~= seq!["commit"@, "-m"@, message@]);
    r
}

/// `git status --porcelain`.
pub fn status_command(path: &str) -> (r: ToolCommand)
    ensures
        r@ == git_invocation(seq!["status"@, "--porcelain"@], path@),
{
    let r = ToolCommand::new("git", Some(path)).arg("status").arg("--porcelain");
    assert(r@.args =~= seq!["status"@, "--porcelain"@]);
    r
}

/// `git log --oneline`, with `-n <count>` when a count is given.
pub fn log_command(path: &str, count: Option<usize>) -> (r: ToolCommand)
    ensures
        r@ == git_invocation(log_args(count), path@),
{
    let base = ToolCommand::new("git", Some(path)).arg("log").arg("--oneline");
    match count {
        Some(n) => {
            let number = decimal_string(n);
            let r = base.arg("-n").arg(number.as_str());
            assert(r@.args =~= log_args(count));
            r
        },
        None => {
            assert(base@.args =~= log_args(count));
            base
        },
    }
}

/// `git --version`, started in the current directory.
pub fn version_command() -> (r: ToolCommand)
    ensures
        r@ == version_invocation(),
{
    let r = ToolCommand::new("git", None).arg("--version");
    assert(r@.args =~= seq!["--version"@]);
    r
}

/// What the outcome of `git commit` means. The refusal message carries both
/// captured streams, since Git reports "nothing to commit" on standard output.
pub fn commit_result(path: &str, message: &str, ran: Result<ToolOutput, String>) -> (r: Result<
    (),
    SyncError,
>)
    ensures
        commit_done(path@, message@, ran, r),
{
    match ran {
        Err(reason) => Err(SyncError::Io(reason)),
        Ok(output) => {
            if output.success {
                Ok(())
            } else {
                let mut m = String::from_str("Git commit失败，路径: ");
                m.append(path);
                m.append(", 提交信息: '");
                m.append(message);
                m.append("', stdout: ");
                let out = stream_or(&output.stdout, "无输出");
                m.append(out.as_str());
                m.append(", stderr: ");
                let err = stream_or(&output.stderr, "无错误信息");
                m.append(err.as_str());
                Err(SyncError::App(m))
            }
        },
    }
}

/// What the outcome of `git --version` means.
pub fn availability_result(ran: Result<ToolOutput, String>) -> (r: Result<(), SyncError>)
    ensures
        availability_read(ran, r),
{
    match ran {
        Err(reason) => {
            let mut m = String::from_str("无法执行Git命令: ");
            m.append(reason.as_str());
            Err(SyncError::App(m))
        },
        Ok(output) => {
            if output.success {
                Ok(())
            } else {
                Err(SyncError::App(String::from_str("Git命令执行失败")))
            }
        },
    }
}

/// A query whose answer is the tool's standard output.
pub fn output_result(label: &str, path: &str, ran: Result<ToolOutput, String>) -> (r: Result<
    String,
    SyncError,
>)
    ensures
        text_read(label@, path@, ran, r),
{
    match command_result(label, path, ran) {
        Ok(output) => Ok(decode_lossy(&output.stdout)),
        Err(e) => Err(e),
    }
}

/// A working tree is clean when its status listing holds nothing but whitespace.
pub fn listing_is_clean(listing: &str) -> (r: bool)
    ensures
        r == (trimmed(listing@).len() == 0),
{
    let t = trim(listing);
    t.as_str().unicode_len() == 0
}

/// Git operations carried out by the `git` executable.
pub struct RealGitOperations<R: CommandRunner> {
    runner: R,
}

impl<R: CommandRunner> RealGitOperations<R> {
    /// The runner, as a specification sees it.
    pub closed spec fn tools(&self) -> R {
        self.runner
    }

    /// Git operations that start their commands through `runner`.
    pub fn new(runner: R) -> (r: Self)
        ensures
            r.tools() == runner,
    {
        RealGitOperations { runner }
    }

    /// The runner.
    pub fn runner(&self) -> (r: &R)
        ensures
            *r == self.tools(),
    {
        &self.runner
    }

    /// Gives the runner back.
    pub fn into_runner(self) -> (r: R)
        ensures
            r == self.tools(),
    {
        self.runner
    }

    /// Checks that the `git` executable can be started and answers: runs
    /// `git --version` and reads its exit status.
    pub fn check_git_available(&mut self) -> (r: Result<(), SyncError>)
        ensures
            ran_once(
                old(self).tools(),
                version_invocation(),
                final(self).tools(),
                |ran: Result<ToolOutput, String>| availability_read(ran, r),
            ),
    {
        let command = version_command();
        let ran = self.runner.run(&command);
        let ghost answer = ran;
        let r = availability_result(ran);
        assert(R::performed(old(self).tools(), version_invocation(), self.tools(), answer));
        r
    }

    /// Has the runner run `command` and reads the outcome as that of an
    /// operation carried out for its effect.
    fn run_for_effect(&mut self, command: ToolCommand, label: &str, path: &str) -> (r: Result<
        (),
        SyncError,
    >)
        ensures
            ran_once(
                old(self).tools(),
                command@,
                final(self).tools(),
                |ran: Result<ToolOutput, String>| command_done(label@, path@, ran, r),
            ),
    {
        let ran = self.runner.run(&command);
        let ghost answer = ran;
        let r = command_outcome(label, path, ran);
        assert(R::performed(old(self).tools(), command@, self.tools(), answer));
        r
    }

    /// Has the runner run `command` and reads the outcome as a listing.
    fn run_for_text(&mut self, command: ToolCommand, label: &str, path: &str) -> (r: Result<
        String,
        SyncError,
    >)
        ensures
            ran_once(
                old(self).tools(),
                command@,
                final(self).tools(),
                |ran: Result<ToolOutput, String>| text_read(label@, path@, ran, r),
            ),
    {
        let ran = self.runner.run(&command);
        let ghost answer = ran;
        let r = output_result(label, path, ran);
        assert(R::performed(old(self).tools(), command@, self.tools(), answer));
        r
    }
}

impl<R: CommandRunner> GitOperations for RealGitOperations<R> {
    open spec fn answered(before: Self, call: GitCall, after: Self, answer: GitAnswer) -> bool {
        real_answered(before.tools(), call, after.tools(), answer)
    }

    fn init(&mut self, path: &str) -> (r: Result<(), SyncError>) {
        self.run_for_effect(init_command(path), "Git初始化失败", path)
    }

    fn config_user(&mut self, path: &str, name: &str, email: &str) -> (r: Result<(), SyncError>) {
        let name_command = config_command(path, "user.name", name);
        let name_ran = self.runner.run(&name_command);
        let ghost first = name_ran;
        let ghost mid = self.runner;
        assert(R::performed(old(self).tools(), name_command@, mid, first));
        match command_outcome("配置Git用户名失败", path, name_ran) {
            Err(e) => Err(e),
            Ok(_) => self.run_for_effect(
                config_command(path, "user.email", email),
                "配置Git邮箱失败",
                path,
            ),
        }
    }

    fn add_all(&mut self, path: &str) -> (r: Result<(), SyncError>) {
        self.run_for_effect(add_all_command(path), "Git add失败", path)
    }

    fn commit(&mut self, path: &str, message: &str) -> (r: Result<(), SyncError>) {
        let command = commit_command(path, message);
        let ran = self.runner.run(&command);
        let ghost answer = ran;
        let r = commit_result(path, message, ran);
        assert(R::performed(old(self).tools(), command@, self.tools(), answer));
        r
    }

    fn status(&mut self, path: &str) -> (r: Result<String, SyncError>) {
        self.run_for_text(status_command(path), "获取Git状态失败", path)
    }

    fn log(&mut self, path: &str, count: Option<usize>) -> (r: Result<String, SyncError>) {
        self.run_for_text(log_command(path, count), "获取Git日志失败", path)
    }

    fn is_clean(&mut self, path: &str) -> (r: Result<bool, SyncError>) {
        let command = status_command(path);
        let ran = self.runner.run(&command);
        let ghost answer = ran;
        let r = match output_result("获取Git状态失败", path, ran) {
            Ok(listing) => Ok(listing_is_clean(listing.as_str())),
            Err(e) => Err(e),
        };
        assert(R::performed(old(self).tools(), command@, self.tools(), answer));
        r
    }
}

} // verus!
