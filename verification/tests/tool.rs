use gearbox::json::Json;
use gearbox::tool::{reply, CanonicalPath, FileTool, ToolError, ToolEvent, ToolStep};
use serde::de::{Deserialize, Deserializer, Error, MapAccess, Visitor};
use std::collections::BTreeMap;

struct ReadFileArguments {
    path: String,
}

struct ArgumentsVisitor;

impl<'de> Visitor<'de> for ArgumentsVisitor {
    type Value = ReadFileArguments;

    fn expecting(&self, formatter: &mut std::fmt::Formatter<'_>) -> std::fmt::Result {
        formatter.write_str("an object with a path")
    }

    fn visit_map<A: MapAccess<'de>>(self, mut map: A) -> Result<ReadFileArguments, A::Error> {
        let mut path = None;
        while let Some(key) = map.next_key::<String>()? {
            if key != "path" || path.is_some() {
                return Err(A::Error::custom("unexpected field"));
            }
            path = Some(map.next_value::<String>()?);
        }
        path.map(|path| ReadFileArguments { path })
            .ok_or_else(|| A::Error::custom("missing field"))
    }
}

impl<'de> Deserialize<'de> for ReadFileArguments {
    fn deserialize<D: Deserializer<'de>>(deserializer: D) -> Result<Self, D::Error> {
        deserializer.deserialize_map(ArgumentsVisitor)
    }
}

#[derive(Clone)]
enum Entry {
    Directory,
    File { bytes: Vec<u8>, identity: u32 },
    Link(String),
}

/// A file system in memory, below `/tmp`.
struct Disk {
    entries: BTreeMap<String, Entry>,
    last_identity: u32,
}

impl Disk {
    fn resolve(&self, start: &str, path: &str) -> Option<String> {
        let mut at = start.to_owned();
        for part in path.split('/') {
            match part {
                "" | "." => {}
                ".." => at.truncate(at.rfind('/')?),
                name => {
                    at = format!("{at}/{name}");
                    if let Entry::Link(target) = self.entries.get(&at)? {
                        at = target.clone();
                    }
                }
            }
        }
        self.entries.get(&at)?;
        Some(at)
    }
}

fn canonical(path: &str) -> CanonicalPath {
    CanonicalPath {
        components: path.split('/').map(|part| part.as_bytes().to_vec()).collect(),
    }
}

fn written(path: &CanonicalPath) -> String {
    let parts: Vec<String> = path
        .components
        .iter()
        .map(|part| String::from_utf8(part.clone()).unwrap())
        .collect();
    parts.join("/")
}

struct Fixture {
    disk: Disk,
    tool: FileTool,
    opened: Vec<String>,
}

const WORKSPACE: &str = "/tmp/work";
const CONFIG: &str = "/tmp/work/config.toml";

fn tool(max_file_bytes: u64, alternate_streams: bool) -> FileTool {
    FileTool::new(canonical(WORKSPACE), canonical(CONFIG), max_file_bytes, alternate_streams)
}

impl Fixture {
    fn new(max_file_bytes: u64) -> Self {
        let mut fixture = Self {
            disk: Disk {
                entries: BTreeMap::new(),
                last_identity: 0,
            },
            tool: tool(max_file_bytes, false),
            opened: Vec::new(),
        };
        fixture.add("/tmp", Entry::Directory);
        fixture.add(WORKSPACE, Entry::Directory);
        fixture.write(CONFIG, b"secret configuration");
        fixture
    }

    fn add(&mut self, path: &str, entry: Entry) {
        self.disk.entries.insert(path.to_owned(), entry);
    }

    fn write(&mut self, path: &str, bytes: &[u8]) {
        self.disk.last_identity += 1;
        let identity = self.disk.last_identity;
        self.add(
            path,
            Entry::File {
                bytes: bytes.to_vec(),
                identity,
            },
        );
    }

    fn write_in_workspace(&mut self, name: &str, bytes: &[u8]) {
        self.write(&format!("{WORKSPACE}/{name}"), bytes);
    }

    fn identity(&self, path: &str) -> Option<u32> {
        match self.disk.entries.get(path)? {
            Entry::File { identity, .. } => Some(*identity),
            _ => None,
        }
    }

    fn outcome(&mut self, name: &str, arguments: &str) -> Result<String, ToolError> {
        let mut step = self.tool.execute(name, arguments);
        loop {
            let event = match &step {
                ToolStep::Parse => ToolEvent::Parsed(
                    serde_json::from_str::<ReadFileArguments>(arguments)
                        .ok()
                        .map(|arguments| arguments.path),
                ),
                ToolStep::Resolve { path } => ToolEvent::Resolved(
                    self.disk.resolve(WORKSPACE, path).map(|path| canonical(&path)),
                ),
                ToolStep::Inspect { resolved } => ToolEvent::Inspected(
                    self.disk
                        .entries
                        .get(&written(resolved))
                        .map(|entry| matches!(entry, Entry::File { .. })),
                ),
                ToolStep::Compare { resolved } => ToolEvent::Compared(
                    self.identity(&written(resolved)).and_then(|identity| {
                        self.identity(CONFIG).map(|protected| protected == identity)
                    }),
                ),
                ToolStep::Open { resolved } => {
                    self.opened.push(written(resolved));
                    ToolEvent::Opened(true)
                }
                ToolStep::Read { resolved } => {
                    match self.disk.entries.get(&written(resolved)) {
                        Some(Entry::File { bytes, .. }) => {
                            let limit = self.tool.read_limit() as usize;
                            ToolEvent::Contents(Some(bytes[..bytes.len().min(limit)].to_vec()))
                        }
                        _ => ToolEvent::Contents(None),
                    }
                }
                ToolStep::Finished { .. } => break,
            };
            step = self.tool.advance(step, event);
        }
        match step {
            ToolStep::Finished { result } => result,
            _ => unreachable!(),
        }
    }

    fn call(&mut self, name: &str, arguments: &str) -> Json {
        let result = self.outcome(name, arguments);
        Json::parse(reply(&result).as_bytes()).unwrap()
    }

    fn read(&mut self, path: &str) -> Json {
        let arguments = Json::object().with("path", Json::text(path)).to_text();
        self.call("read_file", &arguments)
    }
}

fn success(content: &str) -> String {
    Json::object()
        .with("ok", Json::Bool(true))
        .with("content", Json::text(content))
        .to_text()
}

fn assert_error(result: &Json, message: &str) {
    assert_eq!(result.get("ok"), Some(&Json::Bool(false)), "{result:?}");
    assert!(result.text_at("error").unwrap().contains(message), "{result:?}");
    assert!(result.get("content").is_none());
}

#[test]
fn reads_utf8_empty_files_and_exact_size_limit() {
    let mut fixture = Fixture::new(6);
    fixture.write_in_workspace("name with spaces.txt", "你好".as_bytes());
    fixture.write_in_workspace("empty.txt", b"");
    assert_eq!(fixture.read("name with spaces.txt").to_text(), success("你好"));
    assert_eq!(fixture.read("empty.txt").to_text(), success(""));
    fixture.write_in_workspace("too-big.txt", "你好!".as_bytes());
    assert_error(&fixture.read("too-big.txt"), "max_file_bytes");
}

#[test]
fn file_size_and_tool_description_use_configured_limit() {
    let mut fixture = Fixture::new(3);
    fixture.write_in_workspace("file.txt", b"four");
    assert_error(&fixture.read("file.txt"), "max_file_bytes");
    fixture.tool = tool(4, false);
    let result = fixture.call("read_file", r#"{"path":"file.txt"}"#);
    assert_eq!(result.to_text(), success("four"));
    assert!(fixture
        .tool
        .definition()
        .text_at("description")
        .unwrap()
        .contains("4 bytes"));
}

#[test]
fn rejects_unknown_tools_and_invalid_argument_shapes() {
    let mut fixture = Fixture::new(100);
    assert_error(&fixture.call("write_file", "{}"), "unknown tool");
    for arguments in [
        "not json",
        "null",
        "[]",
        r#"["file.txt"]"#,
        "{}",
        r#"{"path":null}"#,
        r#"{"path":1}"#,
        r#"{"path":true}"#,
        r#"{"path":{}}"#,
        r#"{"path":"file.txt","extra":true}"#,
        r#"{"path":"a","path":"b"}"#,
    ] {
        assert_error(&fixture.call("read_file", arguments), "only a string path");
    }
    for path in ["", " ", "\t\n"] {
        assert_error(&fixture.read(path), "must not be empty");
    }
}

#[test]
fn rejects_unreadable_kinds_and_invalid_utf8() {
    let mut fixture = Fixture::new(100);
    assert_error(&fixture.read("missing.txt"), "does not exist");
    assert_error(&fixture.read("."), "regular file");
    fixture.write_in_workspace("binary", &[0xff, 0xfe]);
    assert_error(&fixture.read("binary"), "not valid UTF-8");
}

#[test]
fn rejects_rooted_and_drive_relative_paths() {
    let mut fixture = Fixture::new(100);
    for path in [
        "/etc/passwd",
        "\\file",
        "C:\\file",
        "C:/file",
        "C:file",
        "\\\\server\\share\\file",
        "\\\\?\\C:\\file",
    ] {
        assert_error(&fixture.read(path), "must be relative");
    }
    assert_error(&fixture.read(CONFIG), "must be relative");
}

#[test]
fn checks_real_path_boundary_and_protects_configuration() {
    let mut fixture = Fixture::new(100);
    fixture.write("/tmp/outside.txt", b"external content");
    assert_error(&fixture.read("../outside.txt"), "outside the working directory");
    assert_error(&fixture.read("config.toml"), "configuration file is forbidden");
    // A shared textual prefix must not count as containment.
    fixture.add("/tmp/work-extra", Entry::Directory);
    fixture.write("/tmp/work-extra/file", b"external content");
    assert_error(&fixture.read("../work-extra/file"), "outside the working directory");
    let error = fixture.read("../outside.txt").to_text();
    assert!(!error.contains("external content"));
    assert!(!error.contains("/tmp"));
    assert!(fixture.opened.is_empty());
}

#[test]
fn rejects_configuration_hard_links() {
    let mut fixture = Fixture::new(100);
    let config = fixture.disk.entries[CONFIG].clone();
    fixture.add("/tmp/work/config-alias.txt", config);
    assert_error(&fixture.read("config-alias.txt"), "configuration file is forbidden");
    assert!(fixture.opened.is_empty());
}

#[test]
fn rejects_windows_alternate_data_streams() {
    let mut fixture = Fixture::new(100);
    fixture.tool = tool(100, true);
    for path in ["config.toml::$DATA", "config.toml:secret", "dir/file:stream"] {
        assert_error(&fixture.read(path), "alternate data stream");
    }
    fixture.tool = tool(100, false);
    fixture.write_in_workspace("a file:name", b"allowed");
    assert_eq!(fixture.read("a file:name").to_text(), success("allowed"));
}

#[test]
fn rejects_directory_links_outside_workspace_and_to_configuration() {
    let mut fixture = Fixture::new(100);
    fixture.add("/tmp/outside", Entry::Directory);
    fixture.write("/tmp/outside/file", b"external content");
    fixture.add("/tmp/work/outside-link", Entry::Link("/tmp/outside".to_owned()));
    assert_error(&fixture.read("outside-link/file"), "outside the working directory");
    fixture.add("/tmp/work/inside-link", Entry::Link(WORKSPACE.to_owned()));
    assert_error(
        &fixture.read("inside-link/config.toml"),
        "configuration file is forbidden",
    );
    fixture.write_in_workspace("readable", b"allowed");
    assert_eq!(fixture.read("inside-link/readable").to_text(), success("allowed"));
    assert_eq!(fixture.opened, ["/tmp/work/readable"]);
}

#[test]
fn the_definition_is_what_the_model_is_given() {
    let expected = Json::parse(
        br#"{
            "type": "function",
            "name": "read_file",
            "description": "Read a UTF-8 file inside the working directory, up to 16384 bytes. The active configuration file cannot be read.",
            "strict": true,
            "parameters": {
                "type": "object",
                "properties": {
                    "path": {
                        "type": "string",
                        "description": "A relative path inside the working directory."
                    }
                },
                "required": ["path"],
                "additionalProperties": false
            }
        }"#,
    )
    .unwrap();
    assert_eq!(tool(16384, false).definition().to_text(), expected.to_text());
}

#[test]
fn every_failed_step_ends_the_call_with_its_error() {
    let tool = tool(4, false);
    let inside = || canonical("/tmp/work/file");
    let cases = [
        (ToolStep::Parse, ToolEvent::Parsed(None), ToolError::Arguments),
        (
            ToolStep::Resolve { path: "file".to_owned() },
            ToolEvent::Resolved(None),
            ToolError::NotFound,
        ),
        (
            ToolStep::Resolve { path: "file".to_owned() },
            ToolEvent::Resolved(Some(canonical("/tmp"))),
            ToolError::Outside,
        ),
        (
            ToolStep::Inspect { resolved: inside() },
            ToolEvent::Inspected(None),
            ToolError::Inspection,
        ),
        (
            ToolStep::Inspect { resolved: inside() },
            ToolEvent::Inspected(Some(false)),
            ToolError::NotRegular,
        ),
        (
            ToolStep::Inspect { resolved: canonical(CONFIG) },
            ToolEvent::Inspected(Some(true)),
            ToolError::Protected,
        ),
        (
            ToolStep::Compare { resolved: inside() },
            ToolEvent::Compared(None),
            ToolError::Identity,
        ),
        (
            ToolStep::Compare { resolved: inside() },
            ToolEvent::Compared(Some(true)),
            ToolError::Protected,
        ),
        (
            ToolStep::Open { resolved: inside() },
            ToolEvent::Opened(false),
            ToolError::Opening,
        ),
        (
            ToolStep::Read { resolved: inside() },
            ToolEvent::Contents(None),
            ToolError::Reading,
        ),
        (
            ToolStep::Read { resolved: inside() },
            ToolEvent::Contents(Some(vec![b'a'; 5])),
            ToolError::TooLarge,
        ),
        (
            ToolStep::Read { resolved: inside() },
            ToolEvent::Contents(Some(vec![0xc3, 0x28])),
            ToolError::NotUtf8,
        ),
    ];
    for (step, event, error) in cases {
        assert_eq!(tool.advance(step, event), ToolStep::Finished { result: Err(error) });
    }
}

#[test]
fn an_event_that_no_step_asked_for_changes_nothing() {
    let tool = tool(4, false);
    assert_eq!(
        tool.advance(ToolStep::Parse, ToolEvent::Opened(true)),
        ToolStep::Parse
    );
    let finished = || ToolStep::Finished { result: Ok("done".to_owned()) };
    assert_eq!(
        tool.advance(finished(), ToolEvent::Contents(Some(Vec::new()))),
        finished()
    );
}

#[test]
fn the_workspace_itself_and_what_lies_below_are_inside() {
    let workspace = canonical(WORKSPACE);
    assert!(canonical(WORKSPACE).starts_with(&workspace));
    assert!(canonical("/tmp/work/a/b").starts_with(&workspace));
    assert!(!canonical("/tmp/work-extra/file").starts_with(&workspace));
    assert!(!canonical("/tmp").starts_with(&workspace));
    assert!(canonical(WORKSPACE).equals(&workspace));
    assert!(!canonical("/tmp/work/a").equals(&workspace));
}

#[test]
fn one_byte_more_than_allowed_is_read() {
    assert_eq!(tool(1, false).read_limit(), 2);
    assert_eq!(tool(u64::MAX - 1, false).read_limit(), u64::MAX);
}

#[test]
fn content_is_the_whole_file_or_none_of_it() {
    let mut fixture = Fixture::new(4);
    for contents in ["", "abc", "abcd"] {
        fixture.write_in_workspace("file.txt", contents.as_bytes());
        assert_eq!(
            fixture.outcome("read_file", r#"{"path":"file.txt"}"#),
            Ok(contents.to_owned())
        );
    }
    for contents in ["abcde", "abcdef", "abcd\u{4f60}"] {
        fixture.write_in_workspace("file.txt", contents.as_bytes());
        assert_eq!(
            fixture.outcome("read_file", r#"{"path":"file.txt"}"#),
            Err(ToolError::TooLarge)
        );
    }
}
