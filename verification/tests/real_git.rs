use svn2git::ops::real_git::{
    add_all_command, availability_result, commit_command, commit_result, config_command,
    init_command, listing_is_clean, log_command, output_result, status_command, version_command,
};
use svn2git::ops::process::{command_result, stream_or};
use svn2git::test_utils::scripted_runner::ScriptedRunner;
use svn2git::{
    git_commit_real, CommandRunner, GitOperations, RealGitOperations, SyncError, ToolCommand,
    ToolOutput,
};

/// A machine on which no directory exists: every command fails to start.
struct MissingDirectory;

impl CommandRunner for MissingDirectory {
    fn run(&mut self, _command: &ToolCommand) -> Result<ToolOutput, String> {
        Err(String::from("No such file or directory (os error 2)"))
    }
}

fn ok(stdout: &str) -> Result<ToolOutput, String> {
    Ok(ToolOutput { success: true, stdout: stdout.as_bytes().to_vec(), stderr: Vec::new() })
}

fn failed(stdout: &str, stderr: &str) -> Result<ToolOutput, String> {
    Ok(ToolOutput {
        success: false,
        stdout: stdout.as_bytes().to_vec(),
        stderr: stderr.as_bytes().to_vec(),
    })
}

fn git(args: &[&str], dir: Option<&str>) -> ToolCommand {
    ToolCommand {
        program: String::from("git"),
        args: args.iter().map(|a| String::from(*a)).collect(),
        dir: dir.map(String::from),
    }
}

#[test]
fn test_real_git_operations_creation() {
    let _ops = RealGitOperations::new(MissingDirectory);
}

#[test]
fn test_check_git_available() {
    let mut missing = RealGitOperations::new(MissingDirectory);
    assert_eq!(
        missing.check_git_available(),
        Err(SyncError::App(String::from(
            "无法执行Git命令: No such file or directory (os error 2)"
        )))
    );
    let mut present = RealGitOperations::new(ScriptedRunner::new(vec![ok("git version 2.43.0\n")]));
    assert_eq!(present.check_git_available(), Ok(()));
    assert_eq!(present.into_runner().seen(), &vec![git(&["--version"], None)]);
    let mut broken = RealGitOperations::new(ScriptedRunner::new(vec![failed("", "boom")]));
    assert_eq!(
        broken.check_git_available(),
        Err(SyncError::App(String::from("Git命令执行失败")))
    );
}

#[test]
fn test_real_git_status_on_invalid_path() {
    let mut ops = RealGitOperations::new(MissingDirectory);
    let result = ops.status("/不存在的路径");
    assert!(result.is_err(), "在无效路径上获取Git状态应该返回错误");
}

#[test]
fn test_real_git_log_on_invalid_path() {
    let mut ops = RealGitOperations::new(MissingDirectory);
    let result = ops.log("/不存在的路径", Some(5));
    assert!(result.is_err(), "在无效路径上获取Git日志应该返回错误");
}

#[test]
fn test_real_git_config_user_on_invalid_path() {
    let mut ops = RealGitOperations::new(MissingDirectory);
    let result = ops.config_user("/不存在的路径", "测试用户", "test@example.com");
    assert!(result.is_err(), "在无效路径上配置Git用户信息应该返回错误");
}

#[test]
fn test_real_git_commit_on_invalid_path() {
    let mut ops = RealGitOperations::new(MissingDirectory);
    let result = ops.commit("/不存在的路径", "测试提交");
    assert!(result.is_err(), "在无效路径上执行Git提交应该返回错误");
}

#[test]
fn test_real_git_init_on_invalid_path() {
    let mut ops = RealGitOperations::new(MissingDirectory);
    let result = ops.init("/不存在的路径/无法创建");
    assert!(result.is_err(), "在无法创建的路径上初始化Git应该返回错误");
}

#[test]
fn git_commands_are_spelled_as_the_tool_expects() {
    assert_eq!(init_command("/r"), git(&["init"], Some("/r")));
    assert_eq!(
        config_command("/r", "user.name", "Ann"),
        git(&["config", "user.name", "Ann"], Some("/r"))
    );
    assert_eq!(add_all_command("/r"), git(&["add", "."], Some("/r")));
    assert_eq!(commit_command("/r", "SVN: m"), git(&["commit", "-m", "SVN: m"], Some("/r")));
    assert_eq!(status_command("/r"), git(&["status", "--porcelain"], Some("/r")));
    assert_eq!(log_command("/r", None), git(&["log", "--oneline"], Some("/r")));
    assert_eq!(
        log_command("/r", Some(12)),
        git(&["log", "--oneline", "-n", "12"], Some("/r"))
    );
    assert_eq!(version_command(), git(&["--version"], None));
}

#[test]
fn a_failed_command_carries_the_captured_error_output() {
    assert_eq!(
        command_result("Git add失败", "/r", failed("", "fatal: not a git repository")).err(),
        Some(SyncError::App(String::from(
            "Git add失败，路径: /r, 错误: fatal: not a git repository"
        )))
    );
    assert_eq!(
        command_result("Git add失败", "/r", failed("", "")).err(),
        Some(SyncError::App(String::from("Git add失败，路径: /r, 错误: 无详细信息")))
    );
    assert_eq!(
        command_result("x", "/r", Err(String::from("cannot start"))).err(),
        Some(SyncError::Io(String::from("cannot start")))
    );
    assert_eq!(command_result("x", "/r", ok("out")), ok("out").map_err(SyncError::Io));
}

#[test]
fn a_refused_commit_carries_both_streams() {
    assert_eq!(
        commit_result("/r", "m", failed("nothing to commit", "")),
        Err(SyncError::App(String::from(
            "Git commit失败，路径: /r, 提交信息: 'm', stdout: nothing to commit, stderr: 无错误信息"
        )))
    );
    assert_eq!(
        commit_result("/r", "m", failed("", "bad")),
        Err(SyncError::App(String::from(
            "Git commit失败，路径: /r, 提交信息: 'm', stdout: 无输出, stderr: bad"
        )))
    );
    assert_eq!(commit_result("/r", "m", ok("")), Ok(()));
    assert_eq!(
        commit_result("/r", "m", Err(String::from("gone"))),
        Err(SyncError::Io(String::from("gone")))
    );
}

#[test]
fn availability_is_read_from_the_exit_status() {
    assert_eq!(availability_result(ok("git version 2")), Ok(()));
    assert_eq!(
        availability_result(failed("", "")),
        Err(SyncError::App(String::from("Git命令执行失败")))
    );
}

#[test]
fn query_output_is_decoded_leniently() {
    let bytes = vec![b'a', 0xff, b'b'];
    let ran = Ok(ToolOutput { success: true, stdout: bytes.clone(), stderr: Vec::new() });
    assert_eq!(output_result("x", "/r", ran), Ok(String::from("a\u{fffd}b")));
    assert_eq!(stream_or(&bytes, "none"), "a\u{fffd}b");
    assert_eq!(stream_or(&Vec::new(), "none"), "none");
}

#[test]
fn a_listing_of_blanks_is_clean() {
    assert!(listing_is_clean(""));
    assert!(listing_is_clean(" \n\t"));
    assert!(!listing_is_clean("?? a.txt\n"));
}

#[test]
fn config_user_sets_the_name_and_then_the_email() {
    let mut ops = RealGitOperations::new(ScriptedRunner::new(vec![ok(""), ok("")]));
    assert_eq!(ops.config_user("/r", "Ann", "ann@example.com"), Ok(()));
    assert_eq!(
        ops.into_runner().seen(),
        &vec![
            git(&["config", "user.name", "Ann"], Some("/r")),
            git(&["config", "user.email", "ann@example.com"], Some("/r")),
        ]
    );
}

#[test]
fn config_user_stops_after_a_failed_name() {
    let mut ops = RealGitOperations::new(ScriptedRunner::new(vec![failed("", "locked")]));
    assert_eq!(
        ops.config_user("/r", "Ann", "ann@example.com"),
        Err(SyncError::App(String::from("配置Git用户名失败，路径: /r, 错误: locked")))
    );
    assert_eq!(ops.into_runner().seen().len(), 1);
}

#[test]
fn config_user_reports_a_failed_email() {
    let mut ops = RealGitOperations::new(ScriptedRunner::new(vec![ok(""), failed("", "locked")]));
    assert_eq!(
        ops.config_user("/r", "Ann", "ann@example.com"),
        Err(SyncError::App(String::from("配置Git邮箱失败，路径: /r, 错误: locked")))
    );
}

#[test]
fn real_operations_read_status_log_and_cleanliness() {
    let mut ops = RealGitOperations::new(ScriptedRunner::new(vec![
        ok("?? a.txt\n"),
        ok("abc123 first\n"),
        ok("\n"),
        ok(" M b.txt\n"),
        failed("", "fatal"),
    ]));
    assert_eq!(ops.status("/r"), Ok(String::from("?? a.txt\n")));
    assert_eq!(ops.log("/r", Some(1)), Ok(String::from("abc123 first\n")));
    assert_eq!(ops.is_clean("/r"), Ok(true));
    assert_eq!(ops.is_clean("/r"), Ok(false));
    assert_eq!(
        ops.status("/r"),
        Err(SyncError::App(String::from("获取Git状态失败，路径: /r, 错误: fatal")))
    );
}

#[test]
fn real_operations_init_add_and_commit() {
    let mut ops = RealGitOperations::new(ScriptedRunner::new(vec![
        ok(""),
        ok(""),
        ok(""),
        failed("", "exists"),
    ]));
    assert_eq!(ops.init("/r"), Ok(()));
    assert_eq!(ops.add_all("/r"), Ok(()));
    assert_eq!(ops.commit("/r", "m"), Ok(()));
    assert_eq!(
        ops.init("/r"),
        Err(SyncError::App(String::from("Git初始化失败，路径: /r, 错误: exists")))
    );
    let runner = ops.into_runner();
    assert_eq!(runner.seen()[1], git(&["add", "."], Some("/r")));
    assert_eq!(runner.seen()[2], git(&["commit", "-m", "m"], Some("/r")));
    assert_eq!(runner.remaining(), 0);
}

#[test]
fn git_commit_real_stages_before_it_commits() {
    assert_eq!(
        git_commit_real(MissingDirectory, "/r", "m"),
        Err(SyncError::Io(String::from("No such file or directory (os error 2)")))
    );
    assert_eq!(git_commit_real(ScriptedRunner::new(vec![ok(""), ok("")]), "/r", "m"), Ok(()));
    assert_eq!(
        git_commit_real(ScriptedRunner::new(vec![failed("", "no")]), "/r", "m"),
        Err(SyncError::App(String::from("Git add失败，路径: /r, 错误: no")))
    );
}

#[test]
fn the_scripted_runner_hands_out_its_script_and_then_fails() {
    let mut runner = ScriptedRunner::new(vec![ok("one"), Err(String::from("two"))]);
    assert_eq!(runner.remaining(), 2);
    assert_eq!(runner.run(&version_command()), ok("one"));
    assert_eq!(runner.run(&init_command("/r")), Err(String::from("two")));
    assert_eq!(runner.run(&init_command("/s")), Err(String::from("no outcome prepared")));
    assert_eq!(runner.remaining(), 0);
    assert_eq!(
        runner.seen(),
        &vec![version_command(), init_command("/r"), init_command("/s")]
    );
}
