use svn2git::{
    CommandRunner, GitOperations, GitOperationsFactory, GitProvider, ProviderType, ToolCommand,
    ToolOutput,
};

struct NoTools;

impl CommandRunner for NoTools {
    fn run(&mut self, _command: &ToolCommand) -> Result<ToolOutput, String> {
        Err(String::from("no tools here"))
    }
}

#[test]
fn test_git_provider_creation() {
    let real_provider = GitProvider::new(ProviderType::Real, NoTools);
    let mock_provider = GitProvider::new(ProviderType::Mock, NoTools);

    match real_provider {
        GitProvider::Real(_) => {}
        _ => panic!("期望创建Real提供者"),
    }

    match mock_provider {
        GitProvider::Mock(_) => {}
        _ => panic!("期望创建Mock提供者"),
    }
}

#[test]
fn test_factory_create() {
    let real_provider = GitOperationsFactory::create(ProviderType::Real, NoTools);
    let mock_provider = GitOperationsFactory::create(ProviderType::Mock, NoTools);

    assert!(matches!(real_provider, GitProvider::Real(_)));
    assert!(matches!(mock_provider, GitProvider::Mock(_)));
}

#[test]
fn test_factory_create_from_string() {
    let real_result = GitOperationsFactory::create_from_string("real", NoTools);
    let mock_result = GitOperationsFactory::create_from_string("mock", NoTools);
    let upper_result = GitOperationsFactory::create_from_string("REAL", NoTools);

    assert!(real_result.is_ok());
    assert!(mock_result.is_ok());
    assert!(upper_result.is_ok());

    assert!(matches!(real_result.ok().unwrap(), GitProvider::Real(_)));
    assert!(matches!(mock_result.ok().unwrap(), GitProvider::Mock(_)));
    assert!(matches!(upper_result.ok().unwrap(), GitProvider::Real(_)));

    let invalid_result = GitOperationsFactory::create_from_string("invalid", NoTools);
    assert!(invalid_result.is_err());
}

#[test]
fn git_provider_test_mock_git_operations() {
    let mut mock_provider = GitProvider::new(ProviderType::Mock, NoTools);
    let test_path = "/test/repo";

    let init_result = mock_provider.init(test_path);
    assert!(init_result.is_ok(), "Mock Git初始化应该成功");

    let config_result = mock_provider.config_user(test_path, "测试用户", "test@example.com");
    assert!(config_result.is_ok(), "Mock Git用户配置应该成功");

    let status_result = mock_provider.status(test_path);
    assert!(status_result.is_ok(), "Mock Git状态查询应该成功");
}

#[test]
fn test_provider_type_equality() {
    assert_eq!(ProviderType::Real, ProviderType::Real);
    assert_eq!(ProviderType::Mock, ProviderType::Mock);
    assert_ne!(ProviderType::Real, ProviderType::Mock);
}

#[test]
fn unknown_provider_name_is_reported_with_the_name() {
    let refused = GitOperationsFactory::provider_type_from_string("Fake");
    assert_eq!(
        refused,
        Err(String::from("无效的Git提供者类型: Fake。支持的类型: real, mock"))
    );
}

#[test]
fn provider_names_are_read_in_any_letter_case() {
    assert_eq!(GitOperationsFactory::provider_type_from_string("MoCk"), Ok(ProviderType::Mock));
    assert_eq!(GitOperationsFactory::provider_type_from_string("Real"), Ok(ProviderType::Real));
}

#[test]
fn provider_setting_falls_back_to_the_real_backend() {
    assert_eq!(GitOperationsFactory::provider_type_from_setting(None), ProviderType::Real);
    assert_eq!(GitOperationsFactory::provider_type_from_setting(Some("mock")), ProviderType::Mock);
    assert_eq!(GitOperationsFactory::provider_type_from_setting(Some("MOCK")), ProviderType::Mock);
    assert_eq!(GitOperationsFactory::provider_type_from_setting(Some("other")), ProviderType::Real);
}

#[test]
fn provider_reports_its_kind() {
    assert_eq!(GitProvider::auto(NoTools).provider_type(), ProviderType::Real);
    assert_eq!(
        GitProvider::new(ProviderType::Mock, NoTools).provider_type(),
        ProviderType::Mock
    );
}

#[test]
fn real_provider_passes_the_runner_failure_on() {
    let mut provider = GitProvider::new(ProviderType::Real, NoTools);
    assert_eq!(
        provider.status("/anywhere"),
        Err(svn2git::SyncError::Io(String::from("no tools here")))
    );
}
