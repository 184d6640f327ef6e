use svn2git::interactor::helper::{config_from_input, config_from_selection};
use svn2git::{
    confirm_sync, select_or_create_config, DefaultUserInteractor, HistoryManager, HistoryRecord,
    MemoryStorage, ProviderType, SvnLog, SyncError, TestUserInteractor, Timestamp, UserInteractor,
};

fn at(secs: i64) -> Timestamp {
    Timestamp { secs, nanos: 0 }
}

#[test]
fn test_test_user_interactor_select_history_record() {
    let records = vec![
        HistoryRecord::new(1, "svn_dir_1".into(), "git_dir_1".into(), at(1)),
        HistoryRecord::new(2, "svn_dir_2".into(), "git_dir_2".into(), at(2)),
    ];

    let mut interactor = TestUserInteractor::new().with_selected_index(1);
    let selection = interactor.select_history_record(&records).unwrap();
    assert_eq!(selection, 1);
}

#[test]
fn test_test_user_interactor_select_history_record_empty() {
    let records: Vec<HistoryRecord> = vec![];
    let mut interactor = TestUserInteractor::new();

    let result = interactor.select_history_record(&records);
    assert!(result.is_err());
}

#[test]
fn test_test_user_interactor_input_svn_dir() {
    let mut interactor = TestUserInteractor::new().with_svn_dir("test_svn");
    let svn_dir = interactor.input_svn_dir().unwrap();
    assert_eq!(svn_dir, "test_svn");
}

#[test]
fn test_test_user_interactor_input_git_dir() {
    let mut interactor = TestUserInteractor::new().with_git_dir("test_git");
    let git_dir = interactor.input_git_dir().unwrap();
    assert_eq!(git_dir, "test_git");
}

#[test]
fn test_test_user_interactor_confirm_sync() {
    let mut interactor = TestUserInteractor::new().with_confirm_result(false);
    let svn_logs: Vec<SvnLog> = vec![SvnLog { version: "1".into(), message: "message".into() }];

    let result = interactor.confirm_sync(&svn_logs);
    assert!(!result);
}

#[test]
fn test_select_or_create_config() {
    let mut history = HistoryManager::new(MemoryStorage::new()).unwrap();

    let mut interactor = TestUserInteractor::new().with_svn_dir("s").with_git_dir("");

    let config = select_or_create_config(None, None, &mut history, &mut interactor, at(9)).unwrap();
    assert_eq!(config.svn_dir, "s");
    assert_eq!(config.git_dir, "s");
}

#[test]
fn default_answers_of_the_test_operator() {
    let mut interactor = TestUserInteractor::new();
    assert_eq!(interactor.selected_index, 0);
    assert_eq!(interactor.input_svn_dir(), Ok(String::from("svn")));
    assert_eq!(interactor.input_git_dir(), Ok(String::from("git")));
    assert!(interactor.confirm_sync(&Vec::new()));
    assert!(confirm_sync(&Vec::new(), &mut interactor));
}

#[test]
fn selecting_past_the_end_is_refused() {
    let records = vec![HistoryRecord::new(1, "s".into(), "g".into(), at(1))];
    let mut interactor = TestUserInteractor::new().with_selected_index(1);
    assert_eq!(
        interactor.select_history_record(&records),
        Err(SyncError::App(String::from("选择索引超出范围")))
    );
    assert_eq!(
        TestUserInteractor::new().select_history_record(&Vec::new()),
        Err(SyncError::App(String::from("没有历史记录可选择")))
    );
}

#[test]
fn explicit_paths_are_used_without_asking() {
    let stored = vec![HistoryRecord::new_with(1, "old_s".into(), "old_g".into(), at(5))];
    let mut history = HistoryManager::new(MemoryStorage::holding(stored)).unwrap();
    // An operator who would pick a record that does not exist: asking would fail.
    let mut interactor = TestUserInteractor::new().with_selected_index(9);
    let config = select_or_create_config(
        Some(String::from("/s")),
        Some(String::from("/g")),
        &mut history,
        &mut interactor,
        at(9),
    )
    .unwrap();
    assert_eq!(config.svn_dir, "/s");
    assert_eq!(config.git_dir, "/g");
    assert_eq!(config.git_provider, ProviderType::Real);
    assert_eq!(history.records().len(), 2);
    assert!(history.records()[1].path_eq("/s", "/g"));
}

#[test]
fn one_explicit_path_is_not_enough() {
    let mut history = HistoryManager::new(MemoryStorage::new()).unwrap();
    let mut interactor = TestUserInteractor::new().with_svn_dir("a").with_git_dir("b");
    let config =
        select_or_create_config(Some(String::from("/s")), None, &mut history, &mut interactor, at(9))
            .unwrap();
    assert_eq!(config.svn_dir, "a");
    assert_eq!(config.git_dir, "b");
}

#[test]
fn a_remembered_pairing_is_picked_when_there_is_one() {
    let stored = vec![
        HistoryRecord::new_with(1, "s1".into(), "g1".into(), at(5)),
        HistoryRecord::new_with(2, "s2".into(), "g2".into(), at(6)),
    ];
    let mut history = HistoryManager::new(MemoryStorage::holding(stored)).unwrap();
    let mut interactor = TestUserInteractor::new().with_selected_index(0);
    let config = select_or_create_config(None, None, &mut history, &mut interactor, at(9)).unwrap();
    assert_eq!(config.svn_dir, "s1");
    assert_eq!(config.git_dir, "g1");
    // The picked pairing moves to the end of the list; the list keeps its size.
    assert_eq!(history.records().len(), 2);
    assert!(history.records()[0].path_eq("s2", "g2"));
    assert!(history.records()[1].path_eq("s1", "g1"));
    let saved = history.into_storage();
    let reloaded = HistoryManager::new(saved).unwrap();
    assert_eq!(reloaded.records().len(), 2);
    assert!(reloaded.records()[1].path_eq("s1", "g1"));
}

#[test]
fn a_selection_that_names_no_record_is_refused() {
    let stored = vec![HistoryRecord::new_with(1, "s1".into(), "g1".into(), at(5))];
    let mut history = HistoryManager::new(MemoryStorage::holding(stored)).unwrap();
    let mut interactor = TestUserInteractor::new().with_selected_index(3);
    let refused = select_or_create_config(None, None, &mut history, &mut interactor, at(9));
    assert_eq!(refused.err(), Some(SyncError::App(String::from("选择索引超出范围"))));
    assert_eq!(history.records().len(), 1);
    let records = vec![HistoryRecord::new_with(1, "s1".into(), "g1".into(), at(5))];
    assert_eq!(
        config_from_selection(&records, 1).err(),
        Some(SyncError::App(String::from("未找到所选记录")))
    );
    assert_eq!(config_from_selection(&records, 0).unwrap().git_dir, "g1");
}

#[test]
fn a_blank_destination_means_the_source() {
    let same = config_from_input(String::from("/work"), String::new());
    assert_eq!(same.svn_dir, "/work");
    assert_eq!(same.git_dir, "/work");
    let apart = config_from_input(String::from("/work"), String::from("/repo"));
    assert_eq!(apart.git_dir, "/repo");
}

#[test]
fn a_failed_confirmation_counts_as_no() {
    assert!(DefaultUserInteractor::confirmation(Ok(true)));
    assert!(!DefaultUserInteractor::confirmation(Ok(false)));
    assert!(!DefaultUserInteractor::confirmation(Err(String::from("terminal closed"))));
}

#[test]
fn a_failed_path_prompt_is_a_failure() {
    assert_eq!(
        DefaultUserInteractor::path_answer(Err(String::from("terminal closed"))),
        Err(SyncError::Inquire(String::from("terminal closed")))
    );
    assert_eq!(
        DefaultUserInteractor::path_answer(Ok(String::from("/s"))),
        Ok(String::from("/s"))
    );
}

#[test]
fn the_picked_line_is_found_by_its_text() {
    let options = vec![String::from("one"), String::from("two"), String::from("one")];
    assert_eq!(DefaultUserInteractor::selected_index(&options, "two"), Ok(1));
    assert_eq!(DefaultUserInteractor::selected_index(&options, "one"), Ok(0));
    assert_eq!(
        DefaultUserInteractor::selected_index(&options, "three"),
        Err(SyncError::App(String::from("未找到所选记录")))
    );
}

#[test]
fn selection_options_are_the_lines_of_the_records() {
    let records = vec![
        HistoryRecord::new_with(1, "s1".into(), "g1".into(), at(0)),
        HistoryRecord::new_with(12, "s2".into(), "g2".into(), at(86_400)),
    ];
    let options = DefaultUserInteractor::selection_options(&records);
    assert_eq!(
        options,
        vec![
            String::from("1 \ts1 \tg1 \t1970-01-01 00:00:00 UTC"),
            String::from("12 \ts2 \tg2 \t1970-01-02 00:00:00 UTC"),
        ]
    );
    assert_eq!(DefaultUserInteractor::selected_index(&options, &options[1]), Ok(1));
}
