use svn2git::test_utils::helpers::TestHelpers;
use svn2git::test_utils::mock_svn::MockSvnRepo;
use svn2git::test_utils::test_factories::{GitTestHelper, TestFactory};
use svn2git::{
    CommandRunner, GitFileStatus, GitOperations, GitProvider, ProviderType, SvnLog,
    SvnOperations, SyncError, ToolCommand, ToolOutput,
};

struct NoTools;

impl CommandRunner for NoTools {
    fn run(&mut self, _command: &ToolCommand) -> Result<ToolOutput, String> {
        Err(String::from("no tools here"))
    }
}

#[test]
fn test_mock_svn_repo_creation() {
    let repo = MockSvnRepo::new("/test".into());
    assert!(!repo.is_initialized());
}

#[test]
fn test_mock_svn_repo_init() {
    let mut repo = MockSvnRepo::new("/test".into());
    assert!(repo.init().is_ok());
    assert!(repo.is_initialized());
    assert!(repo.init().is_err());
}

#[test]
fn test_test_helpers_create_path() {
    let path = TestHelpers::test_path(&["svn", "repo"]);
    let path_str = path.as_str();
    assert!(path_str.contains("svn"));
    assert!(path_str.contains("repo"));
    assert!(path_str.starts_with("/test"));
}

#[test]
fn test_test_helpers_commit_message() {
    let message = TestHelpers::test_commit_message(42);
    assert_eq!(message, "测试提交 #42");
}

#[test]
fn test_test_helpers_file_content() {
    let content = TestHelpers::test_file_content("test.txt");
    assert!(content.contains("test.txt"));
    assert!(content.contains("2024-07-27"));
}

#[test]
fn test_create_sync_config() {
    let config = TestFactory::create_sync_config(false);
    assert_eq!(config.git_provider, ProviderType::Mock);

    let config = TestFactory::create_sync_config(true);
    assert_eq!(config.git_provider, ProviderType::Real);
}

#[test]
fn test_test_data() {
    let data = TestFactory::create_test_data();
    assert_eq!(data.commits.len(), 3);
    assert_eq!(data.commits[0], ("1", "初始提交"));

    let config = data.create_mock_sync_config();
    assert_eq!(config.git_provider, ProviderType::Mock);
}

#[test]
fn test_git_test_helper() {
    let mut git_ops = GitTestHelper::create_mock_git();
    let repo_path = TestFactory::test_path(&["repo"]);

    GitTestHelper::commit_files(&mut git_ops, &repo_path, &["test.txt", "src/main.rs"], "测试提交");

    let log = git_ops.log(&repo_path, None).expect("获取日志失败");
    assert!(log.contains("测试提交"));
}

#[test]
fn test_paths_are_joined_with_slashes() {
    assert_eq!(TestHelpers::test_path(&[]), "/test");
    assert_eq!(TestHelpers::test_path(&["svn"]), "/test/svn");
    assert_eq!(TestFactory::test_path(&["repo", "git"]), "/test/repo/git");
}

#[test]
fn fixture_texts_are_exact() {
    assert_eq!(TestHelpers::test_commit_message(0), "测试提交 #0");
    assert_eq!(TestHelpers::test_commit_message(1234567890), "测试提交 #1234567890");
    assert_eq!(
        TestHelpers::test_file_content("a.txt"),
        "这是测试文件 a.txt 的内容\n测试时间: 2024-07-27"
    );
}

#[test]
fn provider_fixtures_are_of_their_kind() {
    assert!(matches!(TestHelpers::create_mock_git_provider(NoTools), GitProvider::Mock(_)));
    assert!(matches!(TestHelpers::create_real_git_provider(NoTools), GitProvider::Real(_)));
}

#[test]
fn the_standard_data_set_and_its_configurations() {
    let data = TestFactory::create_test_data();
    assert_eq!(data.svn_dir, "/test/svn");
    assert_eq!(data.git_dir, "/test/git");
    assert_eq!(data.commits, vec![("1", "初始提交"), ("2", "添加功能"), ("3", "修复bug")]);
    let real = data.create_real_sync_config();
    assert_eq!(real.git_provider, ProviderType::Real);
    assert_eq!(real.svn_dir, "/test/svn");
    let config = TestFactory::create_sync_config(false);
    assert_eq!(config.svn_dir, "/test/svn");
    assert_eq!(config.git_dir, "/test/git");
    let provider = config.create_git_operations(NoTools);
    assert!(matches!(provider, GitProvider::Mock(_)));
}

#[test]
fn added_test_files_are_untracked() {
    let mut git_ops = GitTestHelper::create_mock_git();
    GitTestHelper::add_test_files(&mut git_ops, "/repo", &["a.txt", "b.txt"]);
    let repo = git_ops.get_repo_state("/repo").unwrap();
    assert_eq!(repo.get_file_status("a.txt"), Some(GitFileStatus::Untracked));
    assert_eq!(repo.get_file_status("b.txt"), Some(GitFileStatus::Untracked));
    GitTestHelper::add_test_files(&mut git_ops, "/other", &[]);
    assert!(git_ops.get_repo_state("/other").is_none());
}

#[test]
fn commit_files_leaves_one_commit_and_a_clean_tree() {
    let mut git_ops = GitTestHelper::create_mock_git();
    GitTestHelper::commit_files(&mut git_ops, "/repo", &["test.txt", "src/main.rs"], "测试提交");
    assert_eq!(git_ops.log("/repo", None), Ok(String::from("commit1 测试提交\n")));
    assert_eq!(git_ops.is_clean("/repo"), Ok(true));
    let repo = git_ops.get_repo_state("/repo").unwrap();
    assert_eq!(repo.get_file_status("test.txt"), Some(GitFileStatus::Committed));
    assert_eq!(repo.get_file_status("src/main.rs"), Some(GitFileStatus::Committed));
    assert!(repo.is_initialized());
}

#[test]
fn the_svn_double_serves_its_revisions_and_records_updates() {
    let mut svn = MockSvnRepo::new(String::from("/svn"));
    svn.add_revision("1", "m1");
    svn.add_revision("2", "m2");
    let log = svn.fetch_log("/svn").expect("log");
    assert_eq!(
        log,
        vec![
            SvnLog { version: "1".into(), message: "m1".into() },
            SvnLog { version: "2".into(), message: "m2".into() },
        ]
    );
    assert_eq!(svn.update_to_revision("/svn", "2"), Ok(()));
    assert_eq!(
        svn.update_to_revision("/svn", "9"),
        Err(SyncError::App(String::from("SVN 版本 9 不存在")))
    );
    assert_eq!(svn.updates(), &vec![String::from("2")]);
    assert_eq!(svn.revisions().len(), 2);
    assert_eq!(svn.path, "/svn");
}

#[test]
fn the_real_provider_fixture_starts_its_commands_through_the_given_runner() {
    let runner = svn2git::test_utils::scripted_runner::ScriptedRunner::new(vec![Ok(ToolOutput {
        success: true,
        stdout: b"?? a.txt\n".to_vec(),
        stderr: Vec::new(),
    })]);
    let mut provider = TestHelpers::create_real_git_provider(runner);
    assert_eq!(provider.status("/r"), Ok(String::from("?? a.txt\n")));
    match provider {
        GitProvider::Real(ops) => {
            let runner = ops.into_runner();
            assert_eq!(runner.seen().len(), 1);
            assert_eq!(runner.seen()[0].args, vec![String::from("status"), String::from("--porcelain")]);
            assert_eq!(runner.remaining(), 0);
        }
        GitProvider::Mock(_) => panic!("the fixture is the real backend"),
    }
}
