use svn2git::{GitFileStatus, GitOperations, MockGitOperations, MockGitRepo};

#[test]
fn test_mock_git_repo_creation() {
    let repo = MockGitRepo::new(String::from("/test"));
    assert!(!repo.is_initialized());
    assert_eq!(repo.get_branch(), "main");
    assert!(repo.get_commits().is_empty());
}

#[test]
fn test_mock_git_repo_init() {
    let mut repo = MockGitRepo::new(String::from("/test"));

    assert!(repo.init().is_ok());
    assert!(repo.is_initialized());

    assert!(repo.init().is_err());
}

#[test]
fn test_add_file_and_status() {
    let mut repo = MockGitRepo::new(String::from("/test"));
    repo.add_file("test.txt");

    assert_eq!(repo.get_file_status("test.txt"), Some(GitFileStatus::Untracked));
    assert_eq!(repo.get_file_status("nonexistent.txt"), None);
}

#[test]
fn test_add_all_untracked_files() {
    let mut repo = MockGitRepo::new(String::from("/test"));
    repo.init().expect("初始化失败");

    repo.add_file("file1.txt");
    repo.add_file("file2.txt");

    assert!(repo.add_all().is_ok());
    assert_eq!(repo.get_file_status("file1.txt"), Some(GitFileStatus::Staged));
    assert_eq!(repo.get_file_status("file2.txt"), Some(GitFileStatus::Staged));
}

#[test]
fn test_commit_staged_files() {
    let mut repo = MockGitRepo::new(String::from("/test"));
    repo.init().expect("初始化失败");

    repo.add_file("test.txt");
    repo.add_all().expect("添加失败");

    assert!(repo.commit("测试提交").is_ok());
    assert_eq!(repo.get_commits().len(), 1);
    assert_eq!(repo.get_file_status("test.txt"), Some(GitFileStatus::Committed));
    assert!(repo.is_working_directory_clean());
}

#[test]
fn test_modify_committed_file() {
    let mut repo = MockGitRepo::new(String::from("/test"));
    repo.init().expect("初始化失败");

    repo.add_file("test.txt");
    repo.add_all().expect("添加失败");
    repo.commit("初始提交").expect("提交失败");

    assert!(repo.modify_file("test.txt").is_ok());
    assert_eq!(repo.get_file_status("test.txt"), Some(GitFileStatus::Modified));
    assert!(!repo.is_working_directory_clean());
}

#[test]
fn mock_git_test_mock_git_operations() {
    let mut ops = MockGitOperations::new();
    let path = "/test/repo";

    assert!(ops.init(path).is_ok());
    assert!(ops.config_user(path, "测试用户", "test@example.com").is_ok());
    assert!(ops.status(path).is_ok());
    assert!(ops.log(path, None).is_ok());
    assert!(ops.is_clean(path).is_ok());
}

#[test]
fn test_add_file_to_mock() {
    let mut ops = MockGitOperations::new();
    let path = "/test/repo";

    ops.init(path).expect("初始化失败");
    ops.add_file_to_mock(path, "test.txt").expect("添加文件失败");

    let repo_state = ops.get_repo_state(path).unwrap();
    assert_eq!(repo_state.get_file_status("test.txt"), Some(GitFileStatus::Untracked));
}

#[test]
fn commit_without_staged_files_is_refused() {
    let mut repo = MockGitRepo::new(String::from("/test"));
    repo.init().expect("init");
    let refused = repo.commit("nothing");
    assert_eq!(
        refused,
        Err(svn2git::SyncError::App(String::from("没有暂存的文件可以提交")))
    );
    assert!(repo.get_commits().is_empty());
}

#[test]
fn commit_needs_an_initialised_repository() {
    let mut repo = MockGitRepo::new(String::from("/test"));
    repo.add_file("a.txt");
    assert_eq!(
        repo.add_all(),
        Err(svn2git::SyncError::App(String::from("Git仓库未初始化")))
    );
    assert_eq!(
        repo.commit("m"),
        Err(svn2git::SyncError::App(String::from("Git仓库未初始化")))
    );
    assert_eq!(repo.get_file_status("a.txt"), Some(GitFileStatus::Untracked));
}

#[test]
fn second_init_is_refused_with_its_message() {
    let mut repo = MockGitRepo::new(String::from("/test"));
    repo.init().expect("init");
    assert_eq!(
        repo.init(),
        Err(svn2git::SyncError::App(String::from("Git仓库已经初始化")))
    );
}

#[test]
fn staging_leaves_staged_and_committed_files_alone() {
    let mut repo = MockGitRepo::new(String::from("/test"));
    repo.init().expect("init");
    repo.add_file("old.txt");
    repo.add_all().expect("stage");
    repo.commit("first").expect("commit");
    repo.add_file("new.txt");
    repo.add_all().expect("stage");
    assert_eq!(repo.get_file_status("old.txt"), Some(GitFileStatus::Committed));
    assert_eq!(repo.get_file_status("new.txt"), Some(GitFileStatus::Staged));
    repo.add_all().expect("stage again");
    assert_eq!(repo.get_file_status("new.txt"), Some(GitFileStatus::Staged));
}

#[test]
fn commit_records_hash_message_and_files() {
    let mut repo = MockGitRepo::new(String::from("/test"));
    repo.init().expect("init");
    repo.add_file("a.txt");
    repo.add_file("b.txt");
    repo.add_all().expect("stage");
    repo.commit("first").expect("commit");
    repo.add_file("c.txt");
    repo.add_all().expect("stage");
    repo.commit("second").expect("commit");
    let commits = repo.get_commits();
    assert_eq!(commits.len(), 2);
    assert_eq!(commits[0].hash, "commit1");
    assert_eq!(commits[0].message, "first");
    assert_eq!(commits[0].timestamp, "2024-01-01T00:00:00Z");
    assert_eq!(commits[0].files, vec![String::from("a.txt"), String::from("b.txt")]);
    assert_eq!(commits[1].hash, "commit2");
    assert_eq!(commits[1].files, vec![String::from("c.txt")]);
}

#[test]
fn adding_a_known_file_makes_it_untracked_again() {
    let mut repo = MockGitRepo::new(String::from("/test"));
    repo.init().expect("init");
    repo.add_file("a.txt");
    repo.add_all().expect("stage");
    repo.commit("first").expect("commit");
    repo.add_file("a.txt");
    assert_eq!(repo.get_file_status("a.txt"), Some(GitFileStatus::Untracked));
    assert_eq!(repo.status_text(), "?? a.txt\n");
}

#[test]
fn modify_refuses_files_that_are_not_committed() {
    let mut repo = MockGitRepo::new(String::from("/test"));
    repo.init().expect("init");
    repo.add_file("a.txt");
    assert_eq!(
        repo.modify_file("a.txt"),
        Err(svn2git::SyncError::App(String::from("文件 a.txt 不是已提交状态，无法修改")))
    );
    assert_eq!(
        repo.modify_file("b.txt"),
        Err(svn2git::SyncError::App(String::from("文件 b.txt 不存在")))
    );
}

#[test]
fn status_lists_one_line_per_pending_file() {
    let mut ops = MockGitOperations::new();
    let path = "/repo";
    ops.init(path).expect("init");
    assert_eq!(ops.status(path).expect("status"), "");
    ops.add_file_to_mock(path, "done.txt").expect("file");
    ops.add_all(path).expect("stage");
    ops.commit(path, "done").expect("commit");
    ops.add_file_to_mock(path, "new.txt").expect("file");
    ops.add_file_to_mock(path, "staged.txt").expect("file");
    ops.add_all(path).expect("stage");
    ops.add_file_to_mock(path, "later.txt").expect("file");
    assert_eq!(
        ops.status(path).expect("status"),
        "A  new.txt\nA  staged.txt\n?? later.txt\n"
    );
    assert_eq!(ops.is_clean(path), Ok(false));
}

#[test]
fn log_lists_newest_first_and_respects_the_count() {
    let mut ops = MockGitOperations::new();
    let path = "/repo";
    ops.init(path).expect("init");
    for name in ["a", "b", "c"] {
        ops.add_file_to_mock(path, name).expect("file");
        ops.add_all(path).expect("stage");
        ops.commit(path, name).expect("commit");
    }
    assert_eq!(ops.log(path, None).expect("log"), "commit3 c\ncommit2 b\ncommit1 a\n");
    assert_eq!(ops.log(path, Some(2)).expect("log"), "commit3 c\ncommit2 b\n");
    assert_eq!(ops.log(path, Some(0)).expect("log"), "");
    assert_eq!(ops.log(path, Some(9)).expect("log"), "commit3 c\ncommit2 b\ncommit1 a\n");
}

#[test]
fn repositories_are_kept_apart_by_path() {
    let mut ops = MockGitOperations::new();
    ops.init("/one").expect("init");
    ops.add_file_to_mock("/one", "a.txt").expect("file");
    assert_eq!(ops.is_clean("/one"), Ok(false));
    assert_eq!(ops.is_clean("/two"), Ok(true));
    assert!(ops.init("/two").is_ok());
    assert!(ops.init("/one").is_err());
    assert!(ops.get_repo_state("/three").is_none());
}

#[test]
fn update_repo_replaces_the_repository_for_a_path() {
    let mut ops = MockGitOperations::new();
    ops.init("/one").expect("init");
    let mut other = MockGitRepo::new(String::from("/one"));
    other.add_file("x.txt");
    ops.update_repo("/one", other).expect("update");
    let state = ops.get_repo_state("/one").unwrap();
    assert!(!state.is_initialized());
    assert_eq!(state.get_file_status("x.txt"), Some(GitFileStatus::Untracked));
}
