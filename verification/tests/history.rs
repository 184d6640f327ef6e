use std::cmp::Ordering;

use svn2git::{
    cmp_last_used, title_line, DiskStorage, FileStorage, HistoryManager, HistoryRecord,
    MemoryStorage, SyncError, Timestamp,
};

fn at(secs: i64) -> Timestamp {
    Timestamp { secs, nanos: 0 }
}

fn pairs(history: &HistoryManager<MemoryStorage>) -> Vec<(String, String, usize, i64)> {
    history
        .records()
        .iter()
        .map(|r| {
            (String::from(r.svn_path()), String::from(r.git_path()), r.id(), r.last_used().secs)
        })
        .collect()
}

fn row(svn: &str, git: &str, id: usize, secs: i64) -> (String, String, usize, i64) {
    (String::from(svn), String::from(git), id, secs)
}

#[test]
fn test_add_and_list_pairs() {
    let svn_path = String::from("/tmp/work/svn");
    let git_path = String::from("/tmp/work/git");

    let mut config = HistoryManager::new(MemoryStorage::new()).unwrap();
    config.add_record(svn_path.clone(), git_path.clone(), at(1));

    assert_eq!(config.records().len(), 1);
    assert!(config.records()[0].path_eq(&svn_path, &git_path));
}

#[test]
fn test_remove_pair() {
    let mut config = HistoryManager::new(MemoryStorage::new()).unwrap();
    config.add_record(String::from("svn1"), String::from("git1"), at(1));
    config.add_record(String::from("svn2"), String::from("git2"), at(2));

    assert!(config.remove_record(0).is_ok());
    assert_eq!(config.records().len(), 1);
    assert!(config.records()[0].path_eq("svn2", "git2"));
}

#[test]
fn test_list_history() {
    let mut config = HistoryManager::new(MemoryStorage::new()).unwrap();
    config.add_record(String::from("D:\\svn1"), String::from("D:\\git1"), at(1));
    config.add_record(String::from("D:\\svn2"), String::from("D:\\git2"), at(2));

    let lines = config.list();
    assert_eq!(lines.len(), 3);
    assert_eq!(lines[0], "ID \tSVN Path \tGit Path \tLast Used");
    assert!(lines[1].starts_with("1 \tD:\\svn1 \tD:\\git1 \t"));
    assert!(lines[2].starts_with("2 \tD:\\svn2 \tD:\\git2 \t"));
    assert!(lines[2].ends_with(" UTC"));
}

#[test]
fn an_empty_history_lists_a_note() {
    let config = HistoryManager::new(MemoryStorage::new()).unwrap();
    assert!(config.is_empty());
    assert_eq!(config.list(), vec![String::from("还没有记录")]);
    assert_eq!(title_line(), "ID \tSVN Path \tGit Path \tLast Used");
}

#[test]
fn removing_past_the_end_is_refused_and_changes_nothing() {
    let mut config = HistoryManager::new(MemoryStorage::new()).unwrap();
    config.add_record(String::from("s"), String::from("g"), at(1));
    assert_eq!(
        config.remove_record(1),
        Err(SyncError::App(String::from("索引超出范围")))
    );
    assert_eq!(config.records().len(), 1);
    assert_eq!(
        HistoryManager::new(MemoryStorage::new()).unwrap().remove_record(0),
        Err(SyncError::App(String::from("索引超出范围")))
    );
}

#[test]
fn removing_saves_the_shorter_list() {
    let mut config = HistoryManager::new(MemoryStorage::new()).unwrap();
    config.add_record(String::from("s1"), String::from("g1"), at(1));
    config.add_record(String::from("s2"), String::from("g2"), at(2));
    config.add_record(String::from("s3"), String::from("g3"), at(3));
    config.remove_record(1).expect("remove");
    let stored = config.into_storage().load().expect("load");
    assert_eq!(stored.len(), 2);
    assert!(stored[0].path_eq("s1", "g1"));
    assert!(stored[1].path_eq("s3", "g3"));
}

#[test]
fn adding_keeps_the_list_in_order_of_last_use() {
    let mut config = HistoryManager::new(MemoryStorage::new()).unwrap();
    config.add_record(String::from("b"), String::from("b"), at(20));
    config.add_record(String::from("a"), String::from("a"), at(10));
    config.add_record(String::from("c"), String::from("c"), at(15));
    assert_eq!(
        pairs(&config),
        vec![row("a", "a", 2, 10), row("c", "c", 3, 15), row("b", "b", 1, 20)]
    );
}

#[test]
fn records_of_equal_time_keep_their_order() {
    let mut config = HistoryManager::new(MemoryStorage::new()).unwrap();
    config.add_record(String::from("x"), String::from("x"), at(7));
    config.add_record(String::from("y"), String::from("y"), at(7));
    config.add_record(String::from("z"), String::from("z"), at(7));
    assert_eq!(
        pairs(&config),
        vec![row("x", "x", 1, 7), row("y", "y", 2, 7), row("z", "z", 3, 7)]
    );
}

#[test]
fn adding_a_pair_again_only_moves_its_time() {
    let mut config = HistoryManager::new(MemoryStorage::new()).unwrap();
    config.add_record(String::from("a"), String::from("a"), at(10));
    config.add_record(String::from("b"), String::from("b"), at(20));
    config.add_record(String::from("a"), String::from("a"), at(30));
    let once = pairs(&config);
    assert_eq!(once, vec![row("b", "b", 2, 20), row("a", "a", 1, 30)]);
    config.add_record(String::from("a"), String::from("a"), at(40));
    assert_eq!(pairs(&config), vec![row("b", "b", 2, 20), row("a", "a", 1, 40)]);

    let mut direct = HistoryManager::new(MemoryStorage::new()).unwrap();
    direct.add_record(String::from("a"), String::from("a"), at(10));
    direct.add_record(String::from("b"), String::from("b"), at(20));
    direct.add_record(String::from("a"), String::from("a"), at(40));
    assert_eq!(pairs(&direct), pairs(&config));
}

#[test]
fn a_pair_is_the_exact_pair_of_both_paths() {
    let mut config = HistoryManager::new(MemoryStorage::new()).unwrap();
    config.add_record(String::from("s"), String::from("g1"), at(1));
    config.add_record(String::from("s"), String::from("g2"), at(2));
    config.add_record(String::from("s2"), String::from("g1"), at(3));
    assert_eq!(config.records().len(), 3);
}

#[test]
fn adding_orders_a_list_that_was_stored_out_of_order() {
    let stored = vec![
        HistoryRecord::new_with(1, "late".into(), "late".into(), at(90)),
        HistoryRecord::new_with(2, "early".into(), "early".into(), at(10)),
    ];
    let mut config = HistoryManager::new(MemoryStorage::holding(stored)).unwrap();
    config.add_record(String::from("mid"), String::from("mid"), at(50));
    assert_eq!(
        pairs(&config),
        vec![row("early", "early", 2, 10), row("mid", "mid", 3, 50), row("late", "late", 1, 90)]
    );
}

#[test]
fn nanoseconds_decide_between_equal_seconds() {
    let early = HistoryRecord::new_with(1, "a".into(), "a".into(), Timestamp { secs: 5, nanos: 1 });
    let late = HistoryRecord::new_with(2, "b".into(), "b".into(), Timestamp { secs: 5, nanos: 2 });
    let before = HistoryRecord::new_with(3, "c".into(), "c".into(), Timestamp { secs: 4, nanos: 9 });
    assert_eq!(cmp_last_used(&early, &late), Ordering::Less);
    assert_eq!(cmp_last_used(&late, &early), Ordering::Greater);
    assert_eq!(cmp_last_used(&early, &early), Ordering::Equal);
    assert_eq!(cmp_last_used(&before, &early), Ordering::Less);
    assert!(Timestamp { secs: 5, nanos: 1 }.is_not_after(&Timestamp { secs: 5, nanos: 1 }));
    assert!(!Timestamp { secs: 5, nanos: 2 }.is_not_after(&Timestamp { secs: 5, nanos: 1 }));
    assert!(Timestamp { secs: -1, nanos: 9 }.is_not_after(&Timestamp { secs: 0, nanos: 0 }));
}

#[test]
fn saving_and_loading_gives_the_saved_list_back() {
    let records = vec![
        HistoryRecord::new_with(1, "a.txt".into(), "a.txt".into(), at(1_735_732_800)),
        HistoryRecord::new_with(2, "b.txt".into(), "b.txt".into(), at(1_735_732_860)),
    ];
    let mut storage = MemoryStorage::new();
    assert_eq!(storage.load(), Ok(Vec::new()));
    storage.save(&records).unwrap();
    assert_eq!(storage.load(), Ok(records));
    let shorter = vec![HistoryRecord::new_with(7, "c".into(), "c".into(), at(3))];
    storage.save(&shorter).unwrap();
    assert_eq!(storage.load(), Ok(shorter));
}

#[test]
fn a_store_that_does_not_exist_holds_nothing() {
    let config = HistoryManager::new(MemoryStorage::new()).unwrap();
    assert!(config.is_empty());
    assert_eq!(config.records().len(), 0);
}

#[test]
fn records_know_their_number_and_paths() {
    let record = HistoryRecord::new_with(4, "s".into(), "g".into(), at(9));
    assert!(record.id_eq(4));
    assert!(!record.id_eq(5));
    assert!(record.path_eq("s", "g"));
    assert!(!record.path_eq("s", "other"));
    assert!(!record.path_eq("other", "g"));
    let config = record.to_sync_config();
    assert_eq!(config.svn_dir, "s");
    assert_eq!(config.git_dir, "g");
    assert_eq!(record.line_with_time("2025-01-01 12:00:00"), "4 \ts \tg \t2025-01-01 12:00:00");
    assert_eq!(record.clone(), record);
}

#[test]
fn a_new_record_carries_the_time_it_is_given() {
    let record = HistoryRecord::new(1, "s".into(), "g".into(), Timestamp { secs: 7, nanos: 9 });
    assert_eq!(record.last_used(), Timestamp { secs: 7, nanos: 9 });
    assert_eq!(
        record,
        HistoryRecord::new_with(1, "s".into(), "g".into(), Timestamp { secs: 7, nanos: 9 })
    );
}

#[test]
fn the_line_of_a_record_ends_with_its_time_in_utc() {
    let record = HistoryRecord::new_with(3, "s".into(), "g".into(), at(1_735_732_800));
    assert_eq!(record.to_line(), "3 \ts \tg \t2025-01-01 12:00:00 UTC");
    let leap = HistoryRecord::new_with(4, "s".into(), "g".into(), at(951_782_400));
    assert_eq!(leap.to_line(), "4 \ts \tg \t2000-02-29 00:00:00 UTC");
    let early = HistoryRecord::new_with(5, "s".into(), "g".into(), at(-1));
    assert_eq!(early.to_line(), "5 \ts \tg \t1969-12-31 23:59:59 UTC");
}

#[test]
fn an_instant_beyond_the_calendar_is_shown_without_time() {
    let record = HistoryRecord::new_with(3, "s".into(), "g".into(), at(i64::MAX));
    assert_eq!(record.to_line(), "3 \ts \tg \t");
}

#[test]
fn the_disk_store_names_its_file() {
    let storage = DiskStorage::new(String::from("config.json"));
    assert_eq!(storage.path(), "config.json");
}

#[test]
fn a_listing_shows_each_record_with_its_time() {
    let mut config = HistoryManager::new(MemoryStorage::new()).unwrap();
    config.add_record(String::from("s1"), String::from("g1"), at(0));
    config.add_record(String::from("s2"), String::from("g2"), at(86_400));
    assert_eq!(
        config.list(),
        vec![
            String::from("ID \tSVN Path \tGit Path \tLast Used"),
            String::from("1 \ts1 \tg1 \t1970-01-01 00:00:00 UTC"),
            String::from("2 \ts2 \tg2 \t1970-01-02 00:00:00 UTC"),
        ]
    );
}

#[test]
fn using_a_remembered_pair_changes_nothing_but_its_time() {
    let mut config = HistoryManager::new(MemoryStorage::new()).unwrap();
    config.add_record(String::from("a"), String::from("a"), at(10));
    config.add_record(String::from("b"), String::from("b"), at(20));
    config.add_record(String::from("c"), String::from("c"), at(30));
    config.add_record(String::from("b"), String::from("b"), at(25));
    assert_eq!(
        pairs(&config),
        vec![row("a", "a", 1, 10), row("b", "b", 2, 25), row("c", "c", 3, 30)]
    );
    config.add_record(String::from("a"), String::from("a"), at(40));
    assert_eq!(
        pairs(&config),
        vec![row("b", "b", 2, 25), row("c", "c", 3, 30), row("a", "a", 1, 40)]
    );
}

#[test]
fn a_new_pair_is_numbered_one_past_the_list() {
    let mut config = HistoryManager::new(MemoryStorage::new()).unwrap();
    config.add_record(String::from("a"), String::from("a"), at(10));
    config.add_record(String::from("b"), String::from("b"), at(20));
    config.remove_record(0).expect("remove");
    config.add_record(String::from("c"), String::from("c"), at(30));
    assert_eq!(pairs(&config), vec![row("b", "b", 2, 20), row("c", "c", 2, 30)]);
}

#[test]
fn a_listing_takes_the_times_as_the_caller_renders_them() {
    let mut config = HistoryManager::new(MemoryStorage::new()).unwrap();
    assert_eq!(config.list_with_times(&Vec::new()), vec![String::from("还没有记录")]);
    config.add_record(String::from("s1"), String::from("g1"), at(0));
    config.add_record(String::from("s2"), String::from("g2"), at(86_400));
    let times = vec![String::from("08:00"), String::from("yesterday")];
    assert_eq!(
        config.list_with_times(&times),
        vec![
            String::from("ID \tSVN Path \tGit Path \tLast Used"),
            String::from("1 \ts1 \tg1 \t08:00"),
            String::from("2 \ts2 \tg2 \tyesterday"),
        ]
    );
    assert_eq!(
        svn2git::config::manager::record_lines(config.records(), &times),
        vec![String::from("1 \ts1 \tg1 \t08:00"), String::from("2 \ts2 \tg2 \tyesterday")]
    );
}
