//! The source side: reading the revision log of an SVN working copy and
//! moving the working copy to a revision.
//!
//! The `svn` executable produces the log as XML. The XML is parsed by
//! `roxmltree`; which elements and attributes make up a log entry is decided here.

use vstd::prelude::*;
use vstd::string::*;
use vstd::utf8::{decode_utf8, valid_utf8};

use crate::error::{app_failure, SyncError};
use crate::ops::process::{
    decode_lossy, decode_strict, lossy_known, lossy_text, ran_once, CommandRunner, CommandView,
    ToolCommand, ToolOutput,
};
use crate::text::{text_eq, trim, trimmed};

verus! {

/// One entry of the revision log: the revision identifier and its commit message.
///
/// An empty message is legitimate and is kept as it is; the cautions for
/// the operator come from [`empty_message_cautions`].
#[derive(Debug, PartialEq, Eq)]
pub struct SvnLog {
    pub version: String,
    pub message: String,
}

/// A log entry as the specifications see it.
pub struct SvnLogView {
    pub version: Seq<char>,
    pub message: Seq<char>,
}

impl View for SvnLog {
    type V = SvnLogView;

    open spec fn view(&self) -> SvnLogView {
        SvnLogView { version: self.version@, message: self.message@ }
    }
}

/// The views of a sequence of entries.
pub open spec fn entry_views(entries: Seq<SvnLog>) -> Seq<SvnLogView> {
    entries.map_values(|e: SvnLog| e@)
}

impl Clone for SvnLog {
    fn clone(&self) -> (r: Self)
        ensures
            r == *self,
    {
        SvnLog { version: self.version.clone(), message: self.message.clone() }
    }
}

impl SvnLog {
    /// Whether the entry was committed without a message.
    pub fn has_empty_message(&self) -> (r: bool)
        ensures
            r == (self.message@.len() == 0),
    {
        self.message.as_str().unicode_len() == 0
    }
}

/// The caution shown for an entry that was committed without a message.
pub open spec fn caution_text(entry: SvnLogView) -> Seq<char> {
    "警告: SVN版本 "@ + entry.version + " 的提交消息为空"@
}

/// One caution per entry without a message, in the order of the entries.
pub open spec fn cautions(entries: Seq<SvnLogView>) -> Seq<Seq<char>>
    decreases entries.len(),
{
    if entries.len() == 0 {
        Seq::empty()
    } else if entries.last().message.len() == 0 {
        cautions(entries.drop_last()).push(caution_text(entries.last()))
    } else {
        cautions(entries.drop_last())
    }
}

/// The cautions to show for a log: an entry without a message is accepted,
/// and the operator is told about it.
pub fn empty_message_cautions(entries: &Vec<SvnLog>) -> (r: Vec<String>)
    ensures
        r@.map_values(|s: String| s@) == cautions(entry_views(entries@)),
{
    let ghost views = entry_views(entries@);
    let mut out: Vec<String> = Vec::new();
    let mut i: usize = 0;
    assert(out@.map_values(|s: String| s@) =~= cautions(views.take(0)));
    while i < entries.len()
        invariant
            i <= entries.len(),
            views == entry_views(entries@),
            out@.map_values(|s: String| s@) == cautions(views.take(i as int)),
        decreases entries.len() - i,
    {
        assert(views.take(i + 1).drop_last() =~= views.take(i as int));
        assert(views.take(i + 1).last() == entries@[i as int]@);
        if entries[i].has_empty_message() {
            let mut line = String::from_str("警告: SVN版本 ");
            line.append(entries[i].version.as_str());
            line.append(" 的提交消息为空");
            let ghost before = out@.map_values(|s: String| s@);
            out.push(line);
            assert(out@.map_values(|s: String| s@) =~= before.push(
                caution_text(entries@[i as int]@),
            ));
        }
        i = i + 1;
    }
    assert(views.take(entries.len() as int) =~= views);
    out
}

/// One node of a parsed XML document, reduced to what the log reader looks at.
#[derive(Debug, PartialEq, Eq)]
pub struct XmlNode {
    /// The position of the parent node in the document, `None` for the document root.
    pub parent: Option<usize>,
    /// Whether the node is an element.
    pub element: bool,
    /// The local tag name; empty for anything but an element.
    pub name: String,
    /// The value of the attribute that was asked for, if the node carries it.
    pub attribute: Option<String>,
    /// The text of the node: for an element, that of its first child if that is a text node.
    pub text: Option<String>,
}

/// A node as the specifications see it.
pub struct XmlNodeView {
    pub parent: Option<usize>,
    pub element: bool,
    pub name: Seq<char>,
    pub attribute: Option<Seq<char>>,
    pub text: Option<Seq<char>>,
}

impl View for XmlNode {
    type V = XmlNodeView;

    open spec fn view(&self) -> XmlNodeView {
        XmlNodeView {
            parent: self.parent,
            element: self.element,
            name: self.name@,
            attribute: match self.attribute {
                Some(a) => Some(a@),
                None => None,
            },
            text: match self.text {
                Some(t) => Some(t@),
                None => None,
            },
        }
    }
}

/// The views of a sequence of nodes.
pub open spec fn node_views(nodes: Seq<XmlNode>) -> Seq<XmlNodeView> {
    nodes.map_values(|n: XmlNode| n@)
}

/// What `roxmltree` makes of `text`: the nodes of the document in document
/// order, each with the value of its attribute named `attribute`, or the
/// description of the error that made parsing fail.
pub uninterp spec fn xml_nodes(text: Seq<char>, attribute: Seq<char>) -> Result<
    Seq<XmlNodeView>,
    Seq<char>,
>;

/// Parses `text` with `roxmltree::Document::parse` and copies each node of
/// `Document::descendants` into an [`XmlNode`]: the position of `Node::parent`,
/// `Node::is_element`, the local part of `Node::tag_name`, `Node::attribute`
/// for the given name and `Node::text`. The outcome is named
/// `xml_nodes(text@, attribute@)`; nothing is claimed about its shape.
#[verifier::external_body]
pub(crate) fn parse_xml(text: &str, attribute: &str) -> (r: Result<Vec<XmlNode>, String>)
    ensures
        match r {
            Ok(nodes) => xml_nodes(text@, attribute@) == Ok::<Seq<XmlNodeView>, Seq<char>>(
                node_views(nodes@),
            ),
            Err(reason) => xml_nodes(text@, attribute@) == Err::<Seq<XmlNodeView>, Seq<char>>(
                reason@,
            ),
        },
{
    match roxmltree::Document::parse(text) {
        Ok(doc) => Ok(
            doc.descendants().map(
                |n| XmlNode {
                    parent: n.parent().map(|p| p.id().get_usize()),
                    element: n.is_element(),
                    name: n.tag_name().name().to_string(),
                    attribute: n.attribute(attribute).map(|v| v.to_string()),
                    text: n.text().map(|t| t.to_string()),
                },
            ).collect(),
        ),
        Err(e) => Err(e.to_string()),
    }
}

/// Node `i` is an element whose parent is node `parent`.
pub open spec fn element_under(nodes: Seq<XmlNodeView>, i: int, parent: int) -> bool {
    0 <= i < nodes.len() && nodes[i].element && nodes[i].parent == Some(parent as usize)
}

/// Node `i` is the document's root element: the first element directly under node 0.
pub open spec fn is_root_element(nodes: Seq<XmlNodeView>, i: int) -> bool {
    element_under(nodes, i, 0) && forall|j: int| 0 <= j < i ==> !element_under(nodes, j, 0)
}

/// The position of the root element, if there is one.
pub open spec fn root_element(nodes: Seq<XmlNodeView>) -> Option<int> {
    if exists|i: int| is_root_element(nodes, i) {
        Some(choose|i: int| is_root_element(nodes, i))
    } else {
        None
    }
}

/// Node `k` is a `msg` element directly under node `entry`.
pub open spec fn message_under(nodes: Seq<XmlNodeView>, k: int, entry: int) -> bool {
    element_under(nodes, k, entry) && nodes[k].name == "msg"@
}

/// Node `k` is the first `msg` element directly under node `entry`.
pub open spec fn is_message_node(nodes: Seq<XmlNodeView>, k: int, entry: int) -> bool {
    message_under(nodes, k, entry) && forall|j: int|
        0 <= j < k ==> !message_under(nodes, j, entry)
}

/// The commit message of the entry at node `entry`: the trimmed text of its
/// first `msg` element, empty if there is no such element or it has no text.
pub open spec fn message_of(nodes: Seq<XmlNodeView>, entry: int) -> Seq<char> {
    if exists|k: int| is_message_node(nodes, k, entry) {
        let k = choose|k: int| is_message_node(nodes, k, entry);
        match nodes[k].text {
            Some(t) => trimmed(t),
            None => Seq::empty(),
        }
    } else {
        Seq::empty()
    }
}

/// Node `i` is a log entry: a `logentry` element directly under the root element.
pub open spec fn is_entry(nodes: Seq<XmlNodeView>, i: int, root: int) -> bool {
    element_under(nodes, i, root) && nodes[i].name == "logentry"@
}

/// Why a parsed document is not a revision log.
pub enum LogFormatError {
    /// The root element is not `log`.
    WrongRoot,
    /// A `logentry` element has no `revision` attribute.
    MissingRevision,
}

/// The entries among the first `upto` nodes, in document order; the first
/// entry without a revision makes the whole log invalid.
pub open spec fn entries_before(nodes: Seq<XmlNodeView>, root: int, upto: int) -> Result<
    Seq<SvnLogView>,
    LogFormatError,
>
    decreases upto,
{
    if upto <= 0 {
        Ok(Seq::empty())
    } else {
        match entries_before(nodes, root, upto - 1) {
            Err(e) => Err(e),
            Ok(found) => if is_entry(nodes, upto - 1, root) {
                match nodes[upto - 1].attribute {
                    Some(revision) => Ok(
                        found.push(
                            SvnLogView {
                                version: revision,
                                message: message_of(nodes, upto - 1),
                            },
                        ),
                    ),
                    None => Err(LogFormatError::MissingRevision),
                }
            } else {
                Ok(found)
            },
        }
    }
}

/// The revision log that a parsed document holds.
pub open spec fn log_entries(nodes: Seq<XmlNodeView>) -> Result<Seq<SvnLogView>, LogFormatError> {
    match root_element(nodes) {
        Some(root) => if nodes[root].name == "log"@ {
            entries_before(nodes, root, nodes.len() as int)
        } else {
            Err(LogFormatError::WrongRoot)
        },
        None => Err(LogFormatError::WrongRoot),
    }
}

/// The failure reported for a document that is not a revision log.
pub open spec fn format_failure<T>(r: Result<T, SyncError>, e: LogFormatError) -> bool {
    match e {
        LogFormatError::WrongRoot => app_failure(r, "无效的 XML 根，预期是 <log>"@),
        LogFormatError::MissingRevision => app_failure(r, "日志条目中缺少 revision 属性"@),
    }
}

fn is_element_under(node: &XmlNode, parent: usize) -> (r: bool)
    ensures
        r == (node.element && node.parent == Some(parent)),
{
    match node.parent {
        Some(p) => node.element && p == parent,
        None => false,
    }
}

fn find_root_element(nodes: &Vec<XmlNode>) -> (r: Option<usize>)
    ensures
        match r {
            Some(i) => root_element(node_views(nodes@)) == Some(i as int) && i < nodes.len(),
            None => root_element(node_views(nodes@)) is None,
        },
{
    let ghost views = node_views(nodes@);
    let mut i: usize = 0;
    while i < nodes.len()
        invariant
            i <= nodes.len(),
            views == node_views(nodes@),
            forall|j: int| 0 <= j < i ==> !element_under(views, j, 0),
        decreases nodes.len() - i,
    {
        if is_element_under(&nodes[i], 0) {
            proof {
                assert(is_root_element(views, i as int));
                let c = choose|c: int| is_root_element(views, c);
                assert(is_root_element(views, c));
                if c < i {
                    assert(!element_under(views, c, 0));
                }
                if i < c {
                    assert(!element_under(views, i as int, 0));
                }
            }
            return Some(i);
        }
        i = i + 1;
    }
    proof {
        if exists|c: int| is_root_element(views, c) {
            let c = choose|c: int| is_root_element(views, c);
            assert(!element_under(views, c, 0));
        }
    }
    None
}

fn entry_message(nodes: &Vec<XmlNode>, entry: usize) -> (r: String)
    ensures
        r@ == message_of(node_views(nodes@), entry as int),
{
    let ghost views = node_views(nodes@);
    let mut k: usize = 0;
    while k < nodes.len()
        invariant
            k <= nodes.len(),
            views == node_views(nodes@),
            forall|j: int| 0 <= j < k ==> !message_under(views, j, entry as int),
        decreases nodes.len() - k,
    {
        if is_element_under(&nodes[k], entry) && text_eq(nodes[k].name.as_str(), "msg") {
            proof {
                assert(is_message_node(views, k as int, entry as int));
                let c = choose|c: int| is_message_node(views, c, entry as int);
                assert(is_message_node(views, c, entry as int));
                if c < k {
                    assert(!message_under(views, c, entry as int));
                }
                if k < c {
                    assert(!message_under(views, k as int, entry as int));
                }
            }
            return match &nodes[k].text {
                Some(t) => trim(t.as_str()),
                None => String::new(),
            };
        }
        k = k + 1;
    }
    proof {
        if exists|c: int| is_message_node(views, c, entry as int) {
            let c = choose|c: int| is_message_node(views, c, entry as int);
            assert(!message_under(views, c, entry as int));
        }
    }
    String::new()
}

/// Reads the revision log out of a parsed document: the root element must be
/// `log`; each `logentry` element directly under it is an entry, whose
/// revision is its `revision` attribute and whose message is the trimmed text
/// of its first `msg` child.
pub fn entries_from_nodes(nodes: &Vec<XmlNode>) -> (r: Result<Vec<SvnLog>, SyncError>)
    ensures
        match log_entries(node_views(nodes@)) {
            Ok(entries) => r matches Ok(found) && entry_views(found@) == entries,
            Err(e) => format_failure(r, e),
        },
{
    let ghost views = node_views(nodes@);
    let root = match find_root_element(nodes) {
        Some(root) => root,
        None => {
            return Err(SyncError::App(String::from_str("无效的 XML 根，预期是 <log>")));
        },
    };
    if !text_eq(nodes[root].name.as_str(), "log") {
        return Err(SyncError::App(String::from_str("无效的 XML 根，预期是 <log>")));
    }
    let mut logs: Vec<SvnLog> = Vec::new();
    let mut i: usize = 0;
    assert(entry_views(logs@) =~= Seq::<SvnLogView>::empty());
    while i < nodes.len()
        invariant
            i <= nodes.len(),
            root < nodes.len(),
            views == node_views(nodes@),
            root_element(views) == Some(root as int),
            views[root as int].name == "log"@,
            entries_before(views, root as int, i as int) == Ok::<Seq<SvnLogView>, LogFormatError>(
                entry_views(logs@),
            ),
        decreases nodes.len() - i,
    {
        if is_element_under(&nodes[i], root) && text_eq(nodes[i].name.as_str(), "logentry") {
            assert(is_entry(views, i as int, root as int));
            match &nodes[i].attribute {
                Some(revision) => {
                    let message = entry_message(nodes, i);
                    let ghost before = entry_views(logs@);
                    logs.push(SvnLog { version: revision.clone(), message });
                    assert(entry_views(logs@) =~= before.push(
                        SvnLogView {
                            version: views[i as int].attribute->0,
                            message: message_of(views, i as int),
                        },
                    ));
                },
                None => {
                    assert(entries_before(views, root as int, i + 1) == Err::<
                        Seq<SvnLogView>,
                        LogFormatError,
                    >(LogFormatError::MissingRevision));
                    proof {
                        lemma_entries_error_persists(views, root as int, i + 1, nodes.len() as int);
                    }
                    return Err(
                        SyncError::App(String::from_str("日志条目中缺少 revision 属性")),
                    );
                },
            }
        } else {
            assert(!is_entry(views, i as int, root as int));
        }
        i = i + 1;
    }
    Ok(logs)
}

proof fn lemma_entries_error_persists(nodes: Seq<XmlNodeView>, root: int, at: int, upto: int)
    requires
        at <= upto,
        entries_before(nodes, root, at) is Err,
    ensures
        entries_before(nodes, root, upto) == entries_before(nodes, root, at),
    decreases upto - at,
{
    if at < upto {
        lemma_entries_error_persists(nodes, root, at, upto - 1);
    }
}

/// What a log payload turns out to be.
pub enum LogReading {
    /// The payload is not valid UTF-8.
    BadEncoding,
    /// The payload is not well-formed XML; the parser's description comes with it.
    BadXml(Seq<char>),
    /// The payload is XML, but not a revision log.
    BadFormat(LogFormatError),
    /// The payload is a revision log with these entries.
    Entries(Seq<SvnLogView>),
}

/// What the payload `xml` turns out to be.
pub open spec fn log_reading(xml: Seq<u8>) -> LogReading {
    if !valid_utf8(xml) {
        LogReading::BadEncoding
    } else {
        match xml_nodes(decode_utf8(xml), "revision"@) {
            Err(reason) => LogReading::BadXml(reason),
            Ok(nodes) => match log_entries(nodes) {
                Ok(entries) => LogReading::Entries(entries),
                Err(e) => LogReading::BadFormat(e),
            },
        }
    }
}

/// `r` is how the reading is reported: the entries, or the failure that
/// belongs to the kind of defect.
pub open spec fn reports(r: Result<Vec<SvnLog>, SyncError>, reading: LogReading) -> bool {
    match reading {
        LogReading::BadEncoding => r matches Err(SyncError::StrUtf8(_)),
        LogReading::BadXml(reason) => r matches Err(SyncError::Roxmltree(m)) && m@ == reason,
        LogReading::BadFormat(e) => format_failure(r, e),
        LogReading::Entries(entries) => r matches Ok(found) && entry_views(found@) == entries,
    }
}

/// Reads the revision log out of the XML that `svn log --xml` printed.
///
/// The payload must be valid UTF-8 and well-formed XML with a `log` root.
pub fn parse_svn_log_xml(xml: &Vec<u8>) -> (r: Result<Vec<SvnLog>, SyncError>)
    ensures
        reports(r, log_reading(xml@)),
{
    let text = match decode_strict(xml) {
        Ok(text) => text,
        Err(reason) => {
            return Err(SyncError::StrUtf8(reason));
        },
    };
    match parse_xml(text.as_str(), "revision") {
        Ok(nodes) => entries_from_nodes(&nodes),
        Err(reason) => Err(SyncError::Roxmltree(reason)),
    }
}

/// One request to an SVN backend, as a specification sees it.
pub enum SvnCall {
    /// `fetch_log(path)`
    FetchLog(Seq<char>),
    /// `update_to_revision(path, revision)`
    Update(Seq<char>, Seq<char>),
}

/// What an SVN backend answered.
pub enum SvnAnswer {
    /// The answer to the query for the log.
    Log(Result<Vec<SvnLog>, SyncError>),
    /// The answer of an update.
    Done(Result<(), SyncError>),
}

/// The two things the synchronisation needs from the source working copy.
pub trait SvnOperations: Sized {
    /// In state `before`, the backend may answer `call` with `answer` and be
    /// in state `after`. A backend that promises nothing keeps the default.
    open spec fn answered(before: Self, call: SvnCall, after: Self, answer: SvnAnswer) -> bool {
        true
    }

    /// The revisions that the working copy at `path` has not caught up with,
    /// oldest first.
    fn fetch_log(&mut self, path: &str) -> (r: Result<Vec<SvnLog>, SyncError>)
        ensures
            Self::answered(*old(self), SvnCall::FetchLog(path@), *final(self), SvnAnswer::Log(r)),
    ;

    /// Moves the working copy at `path` to `revision`.
    fn update_to_revision(&mut self, path: &str, revision: &str) -> (r: Result<(), SyncError>)
        ensures
            Self::answered(
                *old(self),
                SvnCall::Update(path@, revision@),
                *final(self),
                SvnAnswer::Done(r),
            ),
    ;
}

/// `svn log --xml -r BASE:HEAD <path>`, started in the current directory.
pub open spec fn svn_log_invocation(path: Seq<char>) -> CommandView {
    CommandView {
        program: "svn"@,
        args: seq!["log"@, "--xml"@, "-r"@, "BASE:HEAD"@, path],
        dir: None,
    }
}

/// `svn update -r <revision>`, started in `path`.
pub open spec fn svn_update_invocation(path: Seq<char>, revision: Seq<char>) -> CommandView {
    CommandView { program: "svn"@, args: seq!["update"@, "-r"@, revision], dir: Some(path) }
}

/// `r` is what the outcome `ran` of the log query means: a tool that could
/// not be started is an I/O failure, a non-zero exit an application failure
/// that carries the tool's error output, and a zero exit the parsed payload.
pub open spec fn svn_log_read(
    ran: Result<ToolOutput, String>,
    r: Result<Vec<SvnLog>, SyncError>,
) -> bool {
    match ran {
        Err(reason) => r == Err::<Vec<SvnLog>, SyncError>(SyncError::Io(reason)),
        Ok(output) => if output.success {
            reports(r, log_reading(output.stdout@))
        } else {
            app_failure(r, "svn log 命令执行失败，错误信息："@ + lossy_text(output.stderr@))
                && lossy_known(output.stderr@)
        },
    }
}

/// `r` is what the outcome `ran` of an update means. A refusal carries the
/// tool's error output as it was printed.
pub open spec fn svn_update_read(
    revision: Seq<char>,
    ran: Result<ToolOutput, String>,
    r: Result<(), SyncError>,
) -> bool {
    match ran {
        Err(reason) => r == Err::<(), SyncError>(SyncError::Io(reason)),
        Ok(output) => if output.success {
            r is Ok
        } else {
            app_failure(
                r,
                "svn 更新到 "@ + revision + " 失败，错误信息："@ + lossy_text(output.stderr@),
            ) && lossy_known(output.stderr@)
        },
    }
}

/// What the real backend does with a request, in terms of what its runner
/// does: which command it has the runner run, and how it reads the outcome.
pub open spec fn real_svn_answered<R: CommandRunner>(
    before: R,
    call: SvnCall,
    after: R,
    answer: SvnAnswer,
) -> bool {
    match call {
        SvnCall::FetchLog(path) => {
            &&& answer matches SvnAnswer::Log(r)
            &&& ran_once(
                before,
                svn_log_invocation(path),
                after,
                |ran: Result<ToolOutput, String>| svn_log_read(ran, r),
            )
        },
        SvnCall::Update(path, revision) => {
            &&& answer matches SvnAnswer::Done(r)
            &&& ran_once(
                before,
                svn_update_invocation(path, revision),
                after,
                |ran: Result<ToolOutput, String>| svn_update_read(revision, ran, r),
            )
        },
    }
}

/// `svn log --xml -r BASE:HEAD <path>`.
pub fn svn_log_command(path: &str) -> (r: ToolCommand)
    ensures
        r@ == svn_log_invocation(path@),
{
    let r = ToolCommand::new("svn", None).arg("log").arg("--xml").arg("-r").arg("BASE:HEAD").arg(
        path,
    );
    assert(r@.args =~= seq!["log"@, "--xml"@, "-r"@, "BASE:HEAD"@, path@]);
    r
}

/// `svn update -r <revision>`, started in `path`.
pub fn svn_update_command(path: &str, revision: &str) -> (r: ToolCommand)
    ensures
        r@ == svn_update_invocation(path@, revision@),
{
    let r = ToolCommand::new("svn", Some(path)).arg("update").arg("-r").arg(revision);
    assert(r@.args =~= seq!["update"@, "-r"@, revision@]);
    r
}

/// Reads the outcome of the log query.
pub fn svn_log_result(ran: Result<ToolOutput, String>) -> (r: Result<Vec<SvnLog>, SyncError>)
    ensures
        svn_log_read(ran, r),
{
    match ran {
        Err(reason) => Err(SyncError::Io(reason)),
        Ok(output) => {
            if output.success {
                parse_svn_log_xml(&output.stdout)
            } else {
                let mut m = String::from_str("svn log 命令执行失败，错误信息：");
                let detail = decode_lossy(&output.stderr);
                m.append(detail.as_str());
                Err(SyncError::App(m))
            }
        },
    }
}

/// Reads the outcome of an update.
pub fn svn_update_result(revision: &str, ran: Result<ToolOutput, String>) -> (r: Result<
    (),
    SyncError,
>)
    ensures
        svn_update_read(revision@, ran, r),
{
    match ran {
        Err(reason) => Err(SyncError::Io(reason)),
        Ok(output) => {
            if output.success {
                Ok(())
            } else {
                let mut m = String::from_str("svn 更新到 ");
                m.append(revision);
                m.append(" 失败，错误信息：");
                let detail = decode_lossy(&output.stderr);
                m.append(detail.as_str());
                Err(SyncError::App(m))
            }
        },
    }
}

/// Asks `svn` for the revisions between the working copy's base and the head.
pub fn get_svn_logs<R: CommandRunner>(runner: &mut R, path: &str) -> (r: Result<
    Vec<SvnLog>,
    SyncError,
>)
    ensures
        ran_once(
            *old(runner),
            svn_log_invocation(path@),
            *final(runner),
            |ran: Result<ToolOutput, String>| svn_log_read(ran, r),
        ),
{
    let command = svn_log_command(path);
    let ran = runner.run(&command);
    let ghost answer = ran;
    let r = svn_log_result(ran);
    assert(R::performed(*old(runner), command@, *runner, answer));
    r
}

/// Moves the working copy at `path` to revision `rev`.
pub fn svn_update_to_rev<R: CommandRunner>(runner: &mut R, path: &str, rev: &str) -> (r: Result<
    (),
    SyncError,
>)
    ensures
        ran_once(
            *old(runner),
            svn_update_invocation(path@, rev@),
            *final(runner),
            |ran: Result<ToolOutput, String>| svn_update_read(rev@, ran, r),
        ),
{
    let command = svn_update_command(path, rev);
    let ran = runner.run(&command);
    let ghost answer = ran;
    let r = svn_update_result(rev, ran);
    assert(R::performed(*old(runner), command@, *runner, answer));
    r
}

/// SVN operations carried out by the `svn` executable.
pub struct RealSvnOperations<R: CommandRunner> {
    runner: R,
}

impl<R: CommandRunner> RealSvnOperations<R> {
    /// The runner, as a specification sees it.
    pub closed spec fn tools(&self) -> R {
        self.runner
    }

    /// SVN operations that start their commands through `runner`.
    pub fn new(runner: R) -> (r: Self)
        ensures
            r.tools() == runner,
    {
        RealSvnOperations { runner }
    }

    /// Gives the runner back.
    pub fn into_runner(self) -> (r: R)
        ensures
            r == self.tools(),
    {
        self.runner
    }
}

impl<R: CommandRunner> SvnOperations for RealSvnOperations<R> {
    open spec fn answered(before: Self, call: SvnCall, after: Self, answer: SvnAnswer) -> bool {
        real_svn_answered(before.tools(), call, after.tools(), answer)
    }

    fn fetch_log(&mut self, path: &str) -> (r: Result<Vec<SvnLog>, SyncError>) {
        get_svn_logs(&mut self.runner, path)
    }

    fn update_to_revision(&mut self, path: &str, revision: &str) -> (r: Result<(), SyncError>) {
        svn_update_to_rev(&mut self.runner, path, revision)
    }
}

} // verus!
