use svn2git::ops::svn::{
    empty_message_cautions, entries_from_nodes, svn_log_command, svn_log_result, svn_update_command, svn_update_result,
    XmlNode,
};
use svn2git::test_utils::scripted_runner::ScriptedRunner;
use svn2git::{
    get_svn_logs, parse_svn_log_xml, svn_update_to_rev, RealSvnOperations, SvnLog, SvnOperations,
    SyncError, ToolCommand, ToolOutput,
};

fn ok(stdout: &str) -> Result<ToolOutput, String> {
    Ok(ToolOutput { success: true, stdout: stdout.as_bytes().to_vec(), stderr: Vec::new() })
}

fn failed(stderr: &str) -> Result<ToolOutput, String> {
    Ok(ToolOutput { success: false, stdout: Vec::new(), stderr: stderr.as_bytes().to_vec() })
}

fn parse(xml: &str) -> Result<Vec<SvnLog>, SyncError> {
    parse_svn_log_xml(&xml.as_bytes().to_vec())
}

fn entry(version: &str, message: &str) -> SvnLog {
    SvnLog { version: String::from(version), message: String::from(message) }
}

fn app(text: &str) -> SyncError {
    SyncError::App(String::from(text))
}

#[test]
fn entries_come_out_in_document_order() {
    let xml = "<log><logentry revision=\"7\"><msg>seven</msg></logentry>\
               <logentry revision=\"9\"><msg>nine</msg></logentry>\
               <logentry revision=\"8\"><msg>eight</msg></logentry></log>";
    assert_eq!(
        parse(xml),
        Ok(vec![entry("7", "seven"), entry("9", "nine"), entry("8", "eight")])
    );
}

#[test]
fn an_empty_log_has_no_entries() {
    assert_eq!(parse("<log/>"), Ok(Vec::new()));
    assert_eq!(parse("<?xml version=\"1.0\"?>\n<log>\n</log>\n"), Ok(Vec::new()));
}

#[test]
fn messages_are_trimmed_and_may_be_empty() {
    let xml = "<log>\
               <logentry revision=\"1\"><msg>\n  padded \t</msg></logentry>\
               <logentry revision=\"2\"><msg></msg></logentry>\
               <logentry revision=\"3\"><msg/></logentry>\
               <logentry revision=\"4\"></logentry>\
               <logentry revision=\"5\"><msg>   </msg></logentry>\
               </log>";
    let entries = parse(xml).expect("parse");
    assert_eq!(
        entries,
        vec![entry("1", "padded"), entry("2", ""), entry("3", ""), entry("4", ""), entry("5", "")]
    );
    assert!(!entries[0].has_empty_message());
    assert!(entries[1].has_empty_message());
}

#[test]
fn the_first_msg_child_is_the_message() {
    let xml = "<log><logentry revision=\"1\">\
               <author>ann</author>\
               <paths><path><msg>nested</msg></path></paths>\
               <msg>first</msg><msg>second</msg>\
               </logentry></log>";
    assert_eq!(parse(xml), Ok(vec![entry("1", "first")]));
}

#[test]
fn only_entries_directly_under_the_root_count() {
    let xml = "<log><wrapper><logentry revision=\"1\"><msg>deep</msg></logentry></wrapper>\
               <other revision=\"2\"/>\
               <logentry revision=\"3\"><msg>top</msg></logentry></log>";
    assert_eq!(parse(xml), Ok(vec![entry("3", "top")]));
}

#[test]
fn a_missing_revision_makes_the_log_invalid() {
    let xml = "<log><logentry revision=\"1\"><msg>a</msg></logentry>\
               <logentry><msg>b</msg></logentry></log>";
    assert_eq!(parse(xml), Err(app("日志条目中缺少 revision 属性")));
}

#[test]
fn the_root_must_be_log() {
    assert_eq!(parse("<logs/>"), Err(app("无效的 XML 根，预期是 <log>")));
    assert_eq!(
        parse("<!-- c --><info><log/></info>"),
        Err(app("无效的 XML 根，预期是 <log>"))
    );
}

#[test]
fn malformed_xml_is_a_parse_failure() {
    assert!(matches!(parse("<log><logentry></log>"), Err(SyncError::Roxmltree(_))));
    assert!(matches!(parse(""), Err(SyncError::Roxmltree(_))));
    assert!(matches!(parse("plain text"), Err(SyncError::Roxmltree(_))));
}

#[test]
fn invalid_utf8_is_an_encoding_failure() {
    let bytes = vec![b'<', b'l', b'o', b'g', 0xff, b'/', b'>'];
    assert!(matches!(parse_svn_log_xml(&bytes), Err(SyncError::StrUtf8(_))));
}

#[test]
fn entities_and_cdata_are_resolved_by_the_parser() {
    let xml = "<log><logentry revision=\"1\"><msg>a &amp; b &lt;c&gt;</msg></logentry>\
               <logentry revision=\"2\"><msg><![CDATA[ <raw> ]]></msg></logentry></log>";
    assert_eq!(parse(xml), Ok(vec![entry("1", "a & b <c>"), entry("2", "<raw>")]));
}

#[test]
fn the_log_is_read_from_a_list_of_nodes() {
    let node = |parent: Option<usize>, element: bool, name: &str, attribute: Option<&str>, text: Option<&str>| XmlNode {
        parent,
        element,
        name: String::from(name),
        attribute: attribute.map(String::from),
        text: text.map(String::from),
    };
    let nodes = vec![
        node(None, false, "", None, None),
        node(Some(0), false, "", None, Some(" comment ")),
        node(Some(0), true, "log", None, None),
        node(Some(2), true, "logentry", Some("5"), None),
        node(Some(3), true, "msg", None, Some(" five ")),
        node(Some(4), false, "", None, Some(" five ")),
        node(Some(2), true, "logentry", Some("6"), None),
        node(Some(6), true, "msg", None, None),
    ];
    assert_eq!(entries_from_nodes(&nodes), Ok(vec![entry("5", "five"), entry("6", "")]));
    assert_eq!(entries_from_nodes(&Vec::new()), Err(app("无效的 XML 根，预期是 <log>")));
    let rootless = vec![
        node(None, false, "", None, None),
        node(Some(0), false, "", None, Some(" comment ")),
    ];
    assert_eq!(entries_from_nodes(&rootless), Err(app("无效的 XML 根，预期是 <log>")));
}

#[test]
fn svn_commands_are_spelled_as_the_tool_expects() {
    assert_eq!(
        svn_log_command("/work"),
        ToolCommand {
            program: String::from("svn"),
            args: vec!["log".into(), "--xml".into(), "-r".into(), "BASE:HEAD".into(), "/work".into()],
            dir: None,
        }
    );
    assert_eq!(
        svn_update_command("/work", "42"),
        ToolCommand {
            program: String::from("svn"),
            args: vec!["update".into(), "-r".into(), "42".into()],
            dir: Some(String::from("/work")),
        }
    );
}

#[test]
fn a_failed_log_query_carries_the_error_output() {
    assert_eq!(
        svn_log_result(failed("svn: E155007: not a working copy")),
        Err(app("svn log 命令执行失败，错误信息：svn: E155007: not a working copy"))
    );
    assert_eq!(
        svn_log_result(Err(String::from("svn not found"))),
        Err(SyncError::Io(String::from("svn not found")))
    );
    assert_eq!(
        svn_log_result(ok("<log><logentry revision=\"3\"><msg>m</msg></logentry></log>")),
        Ok(vec![entry("3", "m")])
    );
}

#[test]
fn a_failed_update_carries_the_error_output() {
    assert_eq!(
        svn_update_result("42", failed("svn: E160006: No such revision 42")),
        Err(app("svn 更新到 42 失败，错误信息：svn: E160006: No such revision 42"))
    );
    assert_eq!(svn_update_result("42", ok("At revision 42.")), Ok(()));
    assert_eq!(
        svn_update_result("42", Err(String::from("svn not found"))),
        Err(SyncError::Io(String::from("svn not found")))
    );
}

#[test]
fn the_real_backend_asks_the_tool() {
    let mut runner = ScriptedRunner::new(vec![
        ok("<log><logentry revision=\"3\"><msg>m</msg></logentry></log>"),
        ok(""),
    ]);
    assert_eq!(get_svn_logs(&mut runner, "/work"), Ok(vec![entry("3", "m")]));
    assert_eq!(svn_update_to_rev(&mut runner, "/work", "3"), Ok(()));
    assert_eq!(runner.seen()[0], svn_log_command("/work"));
    assert_eq!(runner.seen()[1], svn_update_command("/work", "3"));

    let mut svn = RealSvnOperations::new(ScriptedRunner::new(vec![failed("no"), failed("never")]));
    assert_eq!(svn.fetch_log("/work"), Err(app("svn log 命令执行失败，错误信息：no")));
    assert_eq!(
        svn.update_to_revision("/work", "1"),
        Err(app("svn 更新到 1 失败，错误信息：never"))
    );
}

#[test]
fn entries_without_a_message_are_cautioned_about() {
    let entries = vec![entry("1", "a"), entry("2", ""), entry("3", "c"), entry("4", "")];
    assert_eq!(
        empty_message_cautions(&entries),
        vec![
            String::from("警告: SVN版本 2 的提交消息为空"),
            String::from("警告: SVN版本 4 的提交消息为空"),
        ]
    );
    assert!(empty_message_cautions(&vec![entry("1", "a")]).is_empty());
}
