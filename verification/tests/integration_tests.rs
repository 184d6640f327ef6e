use svn2git::test_utils::test_factories::TestFactory;
use svn2git::{git_commit_with_ops, GitOperations, MockGitOperations, ProviderType};

const MOCK_SVN_LOG_XML: &str = r#"<?xml version="1.0" encoding="UTF-8"?>
<log>
<logentry revision="123">
<author>张三</author>
<date>2024-07-27T10:30:00.000Z</date>
<msg>修复了重要bug</msg>
</logentry>
<logentry revision="124">
<author>李四</author>
<date>2024-07-27T14:20:00.000Z</date>
<msg>添加了新功能</msg>
</logentry>
</log>"#;

#[test]
fn test_mock_git_repository_info() {
    let mut git_ops = MockGitOperations::new();
    let config = TestFactory::create_sync_config(false);

    git_ops.init(&config.git_dir).expect("初始化Git仓库失败");
    git_ops
        .config_user(&config.git_dir, "测试用户", "test@example.com")
        .expect("配置Git用户信息失败");

    let status = git_ops.status(&config.git_dir).expect("获取Git状态失败");
    assert!(status.trim().is_empty(), "新仓库的状态应该是空的");
}

#[test]
fn integration_tests_test_mock_git_commit_includes_all_changes() {
    let config = TestFactory::create_sync_config(false);
    let mut git_ops = MockGitOperations::new();

    git_ops.init(&config.git_dir).expect("初始化Git仓库失败");
    git_ops
        .config_user(&config.git_dir, "测试用户", "test@example.com")
        .expect("配置Git用户信息失败");

    git_ops.add_file_to_mock(&config.git_dir, "test.txt").expect("添加文件失败");
    git_ops.add_file_to_mock(&config.git_dir, "src/main.rs").expect("添加文件失败");

    let status_output = git_ops.status(&config.git_dir).expect("获取Git状态失败");
    println!("Mock Git状态输出:\n{}", status_output);

    let commit_result = git_commit_with_ops(&mut git_ops, &config.git_dir, "测试提交");

    assert!(commit_result.is_ok(), "Mock Git提交应该能成功提交更改");

    if let Err(e) = commit_result {
        println!("提交失败，错误信息: {}", e.message());
        panic!("测试失败：Mock Git提交无法提交更改");
    }

    let status_after_commit = git_ops.status(&config.git_dir).expect("获取提交后Git状态失败");

    assert!(
        status_after_commit.trim().is_empty(),
        "提交后工作目录应该是干净的，但实际状态是: {}",
        status_after_commit
    );

    let log_output = git_ops.log(&config.git_dir, Some(1)).expect("获取Git日志失败");

    assert!(!log_output.trim().is_empty(), "应该有提交记录");
    assert!(log_output.contains("测试提交"), "提交信息应该包含我们的消息");
}

#[test]
fn integration_tests_test_mock_git_multiple_commits_flow() {
    let config = TestFactory::create_sync_config(false);
    let mut git_ops = MockGitOperations::new();

    git_ops.init(&config.git_dir).expect("初始化Git仓库失败");
    git_ops
        .config_user(&config.git_dir, "测试用户", "test@example.com")
        .expect("配置Git用户信息失败");

    let commits = vec![("1", "初始提交"), ("2", "添加功能"), ("3", "修复bug")];

    for (version, message) in commits.iter() {
        let file_path = format!("svn_r{}.txt", version);

        git_ops.add_file_to_mock(&config.git_dir, &file_path).expect("添加文件失败");

        let commit_message = format!("SVN: {}", message);
        git_commit_with_ops(&mut git_ops, &config.git_dir, &commit_message)
            .expect(&format!("SVN同步提交失败: r{}", version));
    }

    let all_logs = git_ops.log(&config.git_dir, None).expect("获取提交历史失败");
    let log_lines: Vec<&str> = all_logs.lines().collect();

    assert_eq!(log_lines.len(), 3, "应该有3个提交记录");

    for (expected_version, expected_message) in commits.iter() {
        let expected_commit_message = format!("SVN: {}", expected_message);
        assert!(
            all_logs.contains(&expected_commit_message),
            "同步历史应该包含: r{} - {}",
            expected_version,
            expected_message
        );
    }

    let is_clean = git_ops.is_clean(&config.git_dir).expect("检查工作目录状态失败");
    assert!(is_clean, "所有提交后工作目录应该是干净的");
}

#[test]
fn test_sync_config_with_test_factory() {
    let config = TestFactory::create_sync_config(false);
    assert_eq!(config.git_provider, ProviderType::Mock);

    let config_real = TestFactory::create_sync_config(true);
    assert_eq!(config_real.git_provider, ProviderType::Real);
}

#[test]
fn test_svn_log_xml_format() {
    let mock_xml = MOCK_SVN_LOG_XML.as_bytes();

    let xml_content = String::from_utf8_lossy(mock_xml);
    assert!(xml_content.contains("<log>"));
    assert!(xml_content.contains("</log>"));
    assert!(xml_content.contains("<logentry"));
    assert!(xml_content.contains("<author>"));
    assert!(xml_content.contains("<date>"));
    assert!(xml_content.contains("<msg>"));

    assert!(xml_content.contains("张三"));
    assert!(xml_content.contains("李四"));
    assert!(xml_content.contains("修复了重要bug"));
    assert!(xml_content.contains("添加了新功能"));
}

#[test]
fn the_sample_log_parses_into_its_two_entries() {
    let entries =
        svn2git::parse_svn_log_xml(&MOCK_SVN_LOG_XML.as_bytes().to_vec()).expect("parse");
    assert_eq!(
        entries,
        vec![
            svn2git::SvnLog { version: "123".into(), message: "修复了重要bug".into() },
            svn2git::SvnLog { version: "124".into(), message: "添加了新功能".into() },
        ]
    );
}
