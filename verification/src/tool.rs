//! The one tool of the agent: it reads a file of the workspace.
//!
//! A call is carried out in steps. Each step names one thing to do outside the crate, and the
//! event it brings leads to the next. The first check that fails ends the call.

use crate::json::{document_in, is_plain, text_of, views, Json, JsonView};
use crate::text::{
    blank, contains_char, decimal, decimal_digits, is_blank, is_white_space,
    law_decimal_digits_tell_numbers_apart, leading, leads_with, same, same_bytes,
};
use vstd::prelude::*;
use vstd::string::*;
use vstd::utf8::*;

verus! {

/// The error type of `String::from_utf8`.
#[verifier::external_type_specification]
#[verifier::external_body]
pub struct ExFromUtf8Error(std::string::FromUtf8Error);

/// `String::from_utf8`: bytes that are UTF-8 become the text that they encode, and others are
/// refused.
pub assume_specification[ String::from_utf8 ](vec: Vec<u8>) -> (r: Result<
    String,
    std::string::FromUtf8Error,
>)
    ensures
        match r {
            Ok(s) => valid_utf8(vec@) && s@ == decode_utf8(vec@),
            Err(_) => !valid_utf8(vec@),
        },
;

/// An absolute path without links, component by component, each as the system writes it.
#[derive(Debug, PartialEq, Eq)]
pub struct CanonicalPath {
    pub components: Vec<Vec<u8>>,
}

impl View for CanonicalPath {
    type V = Seq<Seq<u8>>;

    open spec fn view(&self) -> Seq<Seq<u8>> {
        self.components@.map_values(|component: Vec<u8>| component@)
    }
}

/// Whether a path is a directory or lies below it. Only whole components count.
pub open spec fn is_inside(path: Seq<Seq<u8>>, directory: Seq<Seq<u8>>) -> bool {
    directory.len() <= path.len() && path.take(directory.len() as int) == directory
}

impl CanonicalPath {
    /// Tells whether this path is a directory or lies below it.
    pub fn starts_with(&self, directory: &CanonicalPath) -> (r: bool)
        ensures
            r == is_inside(self@, directory@),
    {
        if directory.components.len() > self.components.len() {
            return false;
        }
        let ghost front = self@.take(directory@.len() as int);
        for i in 0..directory.components.len()
            invariant
                directory@.len() <= self@.len(),
                front == self@.take(directory@.len() as int),
                forall|j: int| 0 <= j < i ==> front[j] == directory@[j],
        {
            let ours: &Vec<u8> = &self.components[i];
            let theirs: &Vec<u8> = &directory.components[i];
            assert(front[i as int] == ours@);
            assert(directory@[i as int] == theirs@);
            if !same_bytes(ours.as_slice(), theirs.as_slice()) {
                return false;
            }
        }
        assert(front =~= directory@);
        true
    }

    /// Tells whether two paths are the same.
    pub fn equals(&self, other: &CanonicalPath) -> (r: bool)
        ensures
            r == (self@ == other@),
    {
        assert(self@.len() == self.components@.len());
        assert(other@.len() == other.components@.len());
        if self.components.len() != other.components.len() {
            return false;
        }
        assert(self@.take(other@.len() as int) =~= self@);
        self.starts_with(other)
    }
}

/// Why a call brought no content.
#[derive(Debug, Clone, Copy, PartialEq, Eq)]
pub enum ToolError {
    UnknownTool,
    Arguments,
    BlankPath,
    NotRelative,
    AlternateStream,
    NotFound,
    Outside,
    Inspection,
    NotRegular,
    Identity,
    Protected,
    Opening,
    Reading,
    TooLarge,
    NotUtf8,
}

impl ToolError {
    /// What the model is told.
    pub open spec fn text(self) -> Seq<char> {
        match self {
            ToolError::UnknownTool => "unknown tool; only read_file is supported"@,
            ToolError::Arguments => "read_file requires an object containing only a string path"@,
            ToolError::BlankPath => "path must not be empty or whitespace"@,
            ToolError::NotRelative => "path must be relative, without a root or drive prefix"@,
            ToolError::AlternateStream => "Windows alternate data stream paths are not supported"@,
            ToolError::NotFound => "file does not exist or cannot be accessed"@,
            ToolError::Outside => "path resolves outside the working directory"@,
            ToolError::Inspection => "cannot inspect file"@,
            ToolError::NotRegular => "path must refer to a regular file"@,
            ToolError::Identity => "cannot verify file identity against the active configuration"@,
            ToolError::Protected => "reading the active configuration file is forbidden"@,
            ToolError::Opening => "cannot open file for reading"@,
            ToolError::Reading => "cannot read file"@,
            ToolError::TooLarge => "file exceeds the configured max_file_bytes limit"@,
            ToolError::NotUtf8 => "file is not valid UTF-8"@,
        }
    }

    /// Returns what the model is told.
    pub fn message(&self) -> (r: &'static str)
        ensures
            r@ == self.text(),
    {
        match self {
            ToolError::UnknownTool => "unknown tool; only read_file is supported",
            ToolError::Arguments => "read_file requires an object containing only a string path",
            ToolError::BlankPath => "path must not be empty or whitespace",
            ToolError::NotRelative => "path must be relative, without a root or drive prefix",
            ToolError::AlternateStream => "Windows alternate data stream paths are not supported",
            ToolError::NotFound => "file does not exist or cannot be accessed",
            ToolError::Outside => "path resolves outside the working directory",
            ToolError::Inspection => "cannot inspect file",
            ToolError::NotRegular => "path must refer to a regular file",
            ToolError::Identity => "cannot verify file identity against the active configuration",
            ToolError::Protected => "reading the active configuration file is forbidden",
            ToolError::Opening => "cannot open file for reading",
            ToolError::Reading => "cannot read file",
            ToolError::TooLarge => "file exceeds the configured max_file_bytes limit",
            ToolError::NotUtf8 => "file is not valid UTF-8",
        }
    }
}

/// The tool: the directory it may read, the file it must not, and the most it reads of one.
pub struct FileTool {
    workspace: CanonicalPath,
    protected_config: CanonicalPath,
    max_file_bytes: u64,
    alternate_streams: bool,
}

/// What a tool is allowed.
pub struct ToolView {
    pub workspace: Seq<Seq<u8>>,
    pub protected_config: Seq<Seq<u8>>,
    pub max_file_bytes: nat,
    pub alternate_streams: bool,
}

impl View for FileTool {
    type V = ToolView;

    closed spec fn view(&self) -> ToolView {
        ToolView {
            workspace: self.workspace@,
            protected_config: self.protected_config@,
            max_file_bytes: self.max_file_bytes as nat,
            alternate_streams: self.alternate_streams,
        }
    }
}

/// What to do next for a call.
#[derive(Debug, PartialEq, Eq)]
pub enum ToolStep {
    /// Parse the arguments as an object that has a text `path`, once, and nothing else.
    Parse,
    /// Resolve this path from the workspace, following links.
    Resolve { path: String },
    /// See whether this path is a regular file.
    Inspect { resolved: CanonicalPath },
    /// See whether this path is the same file as the protected one.
    Compare { resolved: CanonicalPath },
    /// Open this path for reading.
    Open { resolved: CanonicalPath },
    /// Read the opened file up to the read limit.
    Read { resolved: CanonicalPath },
    /// Nothing; this is the outcome.
    Finished { result: Result<String, ToolError> },
}

/// What a step brought. Nothing stands for a failure.
#[derive(Debug, PartialEq, Eq)]
pub enum ToolEvent {
    Parsed(Option<String>),
    Resolved(Option<CanonicalPath>),
    /// Whether it is a regular file.
    Inspected(Option<bool>),
    /// Whether it is the same file.
    Compared(Option<bool>),
    /// Whether it could be opened.
    Opened(bool),
    Contents(Option<Vec<u8>>),
}

/// What a step says.
pub enum StepView {
    Parse,
    Resolve { path: Seq<char> },
    Inspect { resolved: Seq<Seq<u8>> },
    Compare { resolved: Seq<Seq<u8>> },
    Open { resolved: Seq<Seq<u8>> },
    Read { resolved: Seq<Seq<u8>> },
    Finished { result: Result<Seq<char>, ToolError> },
}

/// What an event says.
pub enum EventView {
    Parsed(Option<Seq<char>>),
    Resolved(Option<Seq<Seq<u8>>>),
    Inspected(Option<bool>),
    Compared(Option<bool>),
    Opened(bool),
    Contents(Option<Seq<u8>>),
}

/// What the outcome of a call says.
pub open spec fn result_view(result: Result<String, ToolError>) -> Result<Seq<char>, ToolError> {
    match result {
        Ok(content) => Ok(content@),
        Err(error) => Err(error),
    }
}

impl View for ToolStep {
    type V = StepView;

    open spec fn view(&self) -> StepView {
        match self {
            ToolStep::Parse => StepView::Parse,
            ToolStep::Resolve { path } => StepView::Resolve { path: path@ },
            ToolStep::Inspect { resolved } => StepView::Inspect { resolved: resolved@ },
            ToolStep::Compare { resolved } => StepView::Compare { resolved: resolved@ },
            ToolStep::Open { resolved } => StepView::Open { resolved: resolved@ },
            ToolStep::Read { resolved } => StepView::Read { resolved: resolved@ },
            ToolStep::Finished { result } => StepView::Finished { result: result_view(*result) },
        }
    }
}

impl View for ToolEvent {
    type V = EventView;

    open spec fn view(&self) -> EventView {
        match self {
            ToolEvent::Parsed(Some(path)) => EventView::Parsed(Some(path@)),
            ToolEvent::Parsed(None) => EventView::Parsed(None),
            ToolEvent::Resolved(Some(path)) => EventView::Resolved(Some(path@)),
            ToolEvent::Resolved(None) => EventView::Resolved(None),
            ToolEvent::Inspected(is_file) => EventView::Inspected(*is_file),
            ToolEvent::Compared(same_file) => EventView::Compared(*same_file),
            ToolEvent::Opened(opened) => EventView::Opened(*opened),
            ToolEvent::Contents(Some(bytes)) => EventView::Contents(Some(bytes@)),
            ToolEvent::Contents(None) => EventView::Contents(None),
        }
    }
}

/// The step at which a call ends with an error.
pub open spec fn failed(error: ToolError) -> StepView {
    StepView::Finished { result: Err(error) }
}

/// Whether `c` is an ASCII letter.
pub open spec fn is_ascii_letter(c: char) -> bool {
    'a' <= c <= 'z' || 'A' <= c <= 'Z'
}

/// Whether a path starts at a root or names a drive, by the rules of any system.
pub open spec fn is_rooted(path: Seq<char>) -> bool {
    ||| path.len() >= 1 && (path[0] == '/' || path[0] == '\\')
    ||| path.len() >= 2 && is_ascii_letter(path[0]) && path[1] == ':'
}

/// What is wrong with the path that a call names, if anything.
pub open spec fn path_check(tool: ToolView, path: Seq<char>) -> Option<ToolError> {
    if is_blank(path) {
        Some(ToolError::BlankPath)
    } else if is_rooted(path) {
        Some(ToolError::NotRelative)
    } else if tool.alternate_streams && path.contains(':') {
        Some(ToolError::AlternateStream)
    } else {
        None
    }
}

/// What bytes read from a file come to.
pub open spec fn content_of(tool: ToolView, bytes: Seq<u8>) -> Result<Seq<char>, ToolError> {
    if bytes.len() > tool.max_file_bytes {
        Err(ToolError::TooLarge)
    } else if !valid_utf8(bytes) {
        Err(ToolError::NotUtf8)
    } else {
        Ok(decode_utf8(bytes))
    }
}

/// The first step of a call.
pub open spec fn first_step(name: Seq<char>, arguments: Seq<char>) -> StepView {
    if name != "read_file"@ {
        failed(ToolError::UnknownTool)
    } else if !leads_with(arguments, '{') {
        failed(ToolError::Arguments)
    } else {
        StepView::Parse
    }
}

/// The step that an event leads to. One of another kind than the step asks for changes nothing.
pub open spec fn next_step(tool: ToolView, step: StepView, event: EventView) -> StepView {
    match (step, event) {
        (StepView::Parse, EventView::Parsed(None)) => failed(ToolError::Arguments),
        (StepView::Parse, EventView::Parsed(Some(path))) => match path_check(tool, path) {
            Some(error) => failed(error),
            None => StepView::Resolve { path },
        },
        (StepView::Resolve { .. }, EventView::Resolved(None)) => failed(ToolError::NotFound),
        (StepView::Resolve { .. }, EventView::Resolved(Some(resolved))) => if is_inside(
            resolved,
            tool.workspace,
        ) {
            StepView::Inspect { resolved }
        } else {
            failed(ToolError::Outside)
        },
        (StepView::Inspect { .. }, EventView::Inspected(None)) => failed(ToolError::Inspection),
        (StepView::Inspect { resolved }, EventView::Inspected(Some(is_file))) => if !is_file {
            failed(ToolError::NotRegular)
        } else if resolved == tool.protected_config {
            failed(ToolError::Protected)
        } else {
            StepView::Compare { resolved }
        },
        (StepView::Compare { .. }, EventView::Compared(None)) => failed(ToolError::Identity),
        (StepView::Compare { resolved }, EventView::Compared(Some(same_file))) => if same_file {
            failed(ToolError::Protected)
        } else {
            StepView::Open { resolved }
        },
        (StepView::Open { resolved }, EventView::Opened(opened)) => if opened {
            StepView::Read { resolved }
        } else {
            failed(ToolError::Opening)
        },
        (StepView::Read { .. }, EventView::Contents(None)) => failed(ToolError::Reading),
        (StepView::Read { .. }, EventView::Contents(Some(bytes))) => StepView::Finished {
            result: content_of(tool, bytes),
        },
        _ => step,
    }
}

/// The definition of the tool that the model is given.
pub open spec fn definition_view(max_file_bytes: nat) -> JsonView {
    JsonView::object().with("type"@, JsonView::Text("function"@)).with(
        "name"@,
        JsonView::Text("read_file"@),
    ).with("description"@, JsonView::Text(description(max_file_bytes))).with(
        "strict"@,
        JsonView::Bool(true),
    ).with(
        "parameters"@,
        JsonView::object().with("type"@, JsonView::Text("object"@)).with(
            "properties"@,
            JsonView::object().with(
                "path"@,
                JsonView::object().with("type"@, JsonView::Text("string"@)).with(
                    "description"@,
                    JsonView::Text("A relative path inside the working directory."@),
                ),
            ),
        ).with("required"@, JsonView::Array(seq![JsonView::Text("path"@)])).with(
            "additionalProperties"@,
            JsonView::Bool(false),
        ),
    )
}

/// What the model is told of the tool.
pub open spec fn description(max_file_bytes: nat) -> Seq<char> {
    "Read a UTF-8 file inside the working directory, up to "@ + decimal_digits(max_file_bytes)
        + " bytes. The active configuration file cannot be read."@
}

/// What the model is told of the outcome of a call.
pub open spec fn reply_view(result: Result<Seq<char>, ToolError>) -> JsonView {
    match result {
        Ok(content) => JsonView::object().with("ok"@, JsonView::Bool(true)).with(
            "content"@,
            JsonView::Text(content),
        ),
        Err(error) => JsonView::object().with("ok"@, JsonView::Bool(false)).with(
            "error"@,
            JsonView::Text(error.text()),
        ),
    }
}

/// Tells whether a path starts at a root or names a drive. These two tests cover every root
/// and prefix that `std::path` knows on any system.
fn rooted(path: &str) -> (r: bool)
    ensures
        r == is_rooted(path@),
{
    let mut chars = path.chars();
    match chars.next() {
        None => false,
        Some(first) => if first == '/' || first == '\\' {
            true
        } else {
            match chars.next() {
                None => false,
                Some(second) => ((first >= 'a' && first <= 'z') || (first >= 'A' && first <= 'Z'))
                    && second == ':',
            }
        },
    }
}

impl FileTool {
    #[verifier::type_invariant]
    spec fn leaves_room(self) -> bool {
        0 < self.max_file_bytes < u64::MAX
    }

    /// Sets the tool up. The limit is positive and leaves room for one byte more, by which a
    /// file that is too large is told. `alternate_streams` says whether the system reads a
    /// colon in a path as the name of a stream.
    pub fn new(
        workspace: CanonicalPath,
        protected_config: CanonicalPath,
        max_file_bytes: u64,
        alternate_streams: bool,
    ) -> (r: FileTool)
        requires
            0 < max_file_bytes < u64::MAX,
        ensures
            r@ == (ToolView {
                workspace: workspace@,
                protected_config: protected_config@,
                max_file_bytes: max_file_bytes as nat,
                alternate_streams,
            }),
    {
        FileTool { workspace, protected_config, max_file_bytes, alternate_streams }
    }

    /// Returns how many bytes of a file are read: one more than are allowed.
    pub fn read_limit(&self) -> (r: u64)
        ensures
            r == self@.max_file_bytes + 1,
    {
        proof {
            use_type_invariant(self);
        }
        self.max_file_bytes + 1
    }

    /// Makes the definition of the tool that the model is given.
    pub fn definition(&self) -> (r: Json)
        ensures
            r@ == definition_view(self@.max_file_bytes),
    {
        let mut text: String = "Read a UTF-8 file inside the working directory, up to ".to_owned();
        text.append(decimal(self.max_file_bytes as u128).as_str());
        text.append(" bytes. The active configuration file cannot be read.");
        let mut required: Vec<Json> = Vec::new();
        required.push(Json::text("path"));
        assert(views(required@) =~= seq![JsonView::Text("path"@)]);
        Json::object().with("type", Json::text("function")).with(
            "name",
            Json::text("read_file"),
        ).with("description", Json::Text(text)).with("strict", Json::Bool(true)).with(
            "parameters",
            Json::object().with("type", Json::text("object")).with(
                "properties",
                Json::object().with(
                    "path",
                    Json::object().with("type", Json::text("string")).with(
                        "description",
                        Json::text("A relative path inside the working directory."),
                    ),
                ),
            ).with("required", Json::array(required)).with(
                "additionalProperties",
                Json::Bool(false),
            ),
        )
    }

    /// Begins a call.
    pub fn execute(&self, name: &str, arguments: &str) -> (r: ToolStep)
        ensures
            r@ == first_step(name@, arguments@),
    {
        if !same(name, "read_file") {
            return ToolStep::Finished { result: Err(ToolError::UnknownTool) };
        }
        if !leading(arguments, '{') {
            return ToolStep::Finished { result: Err(ToolError::Arguments) };
        }
        ToolStep::Parse
    }

    /// Checks the path that a call names, before anything is looked up.
    fn check_path(&self, path: &str) -> (r: Result<(), ToolError>)
        ensures
            match r {
                Ok(()) => path_check(self@, path@) is None,
                Err(error) => path_check(self@, path@) == Some(error),
            },
    {
        if blank(path) {
            return Err(ToolError::BlankPath);
        }
        if rooted(path) {
            return Err(ToolError::NotRelative);
        }
        if self.alternate_streams && contains_char(path, ':') {
            return Err(ToolError::AlternateStream);
        }
        Ok(())
    }

    /// Turns the bytes of a file into its content.
    fn read_content(&self, bytes: Vec<u8>) -> (r: Result<String, ToolError>)
        ensures
            result_view(r) == content_of(self@, bytes@),
    {
        if bytes.len() as u64 > self.max_file_bytes {
            return Err(ToolError::TooLarge);
        }
        match String::from_utf8(bytes) {
            Ok(content) => Ok(content),
            Err(_) => Err(ToolError::NotUtf8),
        }
    }

    /// Carries a call on with what its last step brought. An event of another kind than the step
    /// asks for changes nothing.
    pub fn advance(&self, step: ToolStep, event: ToolEvent) -> (r: ToolStep)
        ensures
            r@ == next_step(self@, step@, event@),
    {
        let result: Result<String, ToolError> = match (step, event) {
            (ToolStep::Parse, ToolEvent::Parsed(None)) => Err(ToolError::Arguments),
            (ToolStep::Parse, ToolEvent::Parsed(Some(path))) => match self.check_path(
                path.as_str(),
            ) {
                Err(error) => Err(error),
                Ok(()) => {
                    return ToolStep::Resolve { path };
                },
            },
            (ToolStep::Resolve { .. }, ToolEvent::Resolved(None)) => Err(ToolError::NotFound),
            (ToolStep::Resolve { .. }, ToolEvent::Resolved(Some(resolved))) => {
                if resolved.starts_with(&self.workspace) {
                    return ToolStep::Inspect { resolved };
                }
                Err(ToolError::Outside)
            },
            (ToolStep::Inspect { .. }, ToolEvent::Inspected(None)) => Err(ToolError::Inspection),
            (ToolStep::Inspect { resolved }, ToolEvent::Inspected(Some(is_file))) => {
                if !is_file {
                    Err(ToolError::NotRegular)
                } else if resolved.equals(&self.protected_config) {
                    Err(ToolError::Protected)
                } else {
                    return ToolStep::Compare { resolved };
                }
            },
            (ToolStep::Compare { .. }, ToolEvent::Compared(None)) => Err(ToolError::Identity),
            (ToolStep::Compare { resolved }, ToolEvent::Compared(Some(same_file))) => {
                if !same_file {
                    return ToolStep::Open { resolved };
                }
                Err(ToolError::Protected)
            },
            (ToolStep::Open { resolved }, ToolEvent::Opened(opened)) => {
                if opened {
                    return ToolStep::Read { resolved };
                }
                Err(ToolError::Opening)
            },
            (ToolStep::Read { .. }, ToolEvent::Contents(None)) => Err(ToolError::Reading),
            (ToolStep::Read { .. }, ToolEvent::Contents(Some(bytes))) => self.read_content(bytes),
            (step, _) => {
                return step;
            },
        };
        ToolStep::Finished { result }
    }
}

/// Writes the outcome of a call for the model.
pub fn reply(result: &Result<String, ToolError>) -> (r: String)
    ensures
        r@ == text_of(reply_view(result_view(*result))),
        document_in(encode_utf8(r@)) == Some(reply_view(result_view(*result))),
{
    let json: Json = match result {
        Ok(content) => Json::object().with("ok", Json::Bool(true)).with(
            "content",
            Json::text(content.as_str()),
        ),
        Err(error) => Json::object().with("ok", Json::Bool(false)).with(
            "error",
            Json::text(error.message()),
        ),
    };
    proof {
        lemma_reply_is_plain(result_view(*result));
    }
    json.to_text()
}

proof fn lemma_reply_is_plain(result: Result<Seq<char>, ToolError>)
    ensures
        is_plain(reply_view(result), 127),
{
    reveal_with_fuel(is_plain, 2);
}

/// What the steps of a call find, each if it is taken.
pub struct Findings {
    /// The path that the arguments name.
    pub parsed: Option<Seq<char>>,
    /// Where that path leads.
    pub resolved: Option<Seq<Seq<u8>>>,
    /// Whether that is a regular file.
    pub is_file: Option<bool>,
    /// Whether it is the protected file under another name.
    pub same_file: Option<bool>,
    /// Whether it can be opened.
    pub opened: bool,
    /// What is read of it.
    pub contents: Option<Seq<u8>>,
}

/// The event that a step brings.
pub open spec fn finding(step: StepView, found: Findings) -> EventView {
    match step {
        StepView::Parse => EventView::Parsed(found.parsed),
        StepView::Resolve { .. } => EventView::Resolved(found.resolved),
        StepView::Inspect { .. } => EventView::Inspected(found.is_file),
        StepView::Compare { .. } => EventView::Compared(found.same_file),
        StepView::Open { .. } => EventView::Opened(found.opened),
        _ => EventView::Contents(found.contents),
    }
}

/// The step of a call after `count` more steps were taken.
pub open spec fn step_after(
    tool: ToolView,
    step: StepView,
    found: Findings,
    count: nat,
) -> StepView
    decreases count,
{
    if count == 0 {
        step
    } else {
        step_after(
            tool,
            next_step(tool, step, finding(step, found)),
            found,
            (count - 1) as nat,
        )
    }
}

/// Whether nothing that a call finds forbids it to read.
pub open spec fn may_read(
    tool: ToolView,
    name: Seq<char>,
    arguments: Seq<char>,
    found: Findings,
) -> bool {
    &&& name == "read_file"@
    &&& leads_with(arguments, '{')
    &&& found.parsed is Some
    &&& path_check(tool, found.parsed->0) is None
    &&& found.resolved is Some
    &&& is_inside(found.resolved->0, tool.workspace)
    &&& found.is_file == Some(true)
    &&& found.resolved->0 != tool.protected_config
    &&& found.same_file == Some(false)
}

/// Every call ends, whatever its steps find, after six steps at most, and its outcome stays.
pub proof fn law_call_ends(
    tool: ToolView,
    name: Seq<char>,
    arguments: Seq<char>,
    found: Findings,
    count: nat,
)
    requires
        count >= 6,
    ensures
        step_after(tool, first_step(name, arguments), found, count) is Finished,
        step_after(tool, first_step(name, arguments), found, count) == step_after(
            tool,
            first_step(name, arguments),
            found,
            6,
        ),
{
    reveal_with_fuel(step_after, 7);
    let sixth = step_after(tool, first_step(name, arguments), found, 6);
    lemma_step_after_splits(tool, first_step(name, arguments), found, 6, (count - 6) as nat);
    lemma_finished_stays(tool, sixth, found, (count - 6) as nat);
}

proof fn lemma_step_after_splits(
    tool: ToolView,
    step: StepView,
    found: Findings,
    first: nat,
    second: nat,
)
    ensures
        step_after(tool, step, found, first + second) == step_after(
            tool,
            step_after(tool, step, found, first),
            found,
            second,
        ),
    decreases first,
{
    if first > 0 {
        lemma_step_after_splits(
            tool,
            next_step(tool, step, finding(step, found)),
            found,
            (first - 1) as nat,
            second,
        );
    }
}

proof fn lemma_finished_stays(tool: ToolView, step: StepView, found: Findings, count: nat)
    requires
        step is Finished,
    ensures
        step_after(tool, step, found, count) == step,
    decreases count,
{
    if count > 0 {
        lemma_finished_stays(tool, step, found, (count - 1) as nat);
    }
}

/// A call brings content exactly where it names a relative path that leads to a regular file
/// inside the workspace, which is not the protected file under any name, can be read, and of
/// which no more is read than the limit allows, in UTF-8; and the content is what was read.
pub proof fn law_content_is_allowed(
    tool: ToolView,
    name: Seq<char>,
    arguments: Seq<char>,
    found: Findings,
)
    ensures
        ({
            let last = step_after(tool, first_step(name, arguments), found, 6);
            &&& last is Finished
            &&& last->result is Ok <==> {
                &&& may_read(tool, name, arguments, found)
                &&& found.opened
                &&& found.contents is Some
                &&& found.contents->0.len() <= tool.max_file_bytes
                &&& valid_utf8(found.contents->0)
            }
            &&& last->result is Ok ==> encode_utf8(last->result->Ok_0) == found.contents->0
        }),
{
    reveal_with_fuel(step_after, 7);
    if found.contents is Some && valid_utf8(found.contents->0) {
        decode_utf8_encode_utf8(found.contents->0);
    }
}

/// What is read of a file: all of it, or what comes before the read limit, which is one byte
/// more than the tool allows.
pub open spec fn read_of(tool: ToolView, file: Seq<u8>) -> Seq<u8> {
    if file.len() <= tool.max_file_bytes + 1 {
        file
    } else {
        file.take((tool.max_file_bytes + 1) as int)
    }
}

/// Content is the whole file, never a part of it: a call that reads a file up to the read limit
/// brings content exactly where it may read and the file itself is not over the limit and is
/// UTF-8, and a file over the limit is reported as such.
pub proof fn law_content_is_the_whole_file(
    tool: ToolView,
    name: Seq<char>,
    arguments: Seq<char>,
    found: Findings,
    file: Seq<u8>,
)
    requires
        found.contents == Some(read_of(tool, file)),
    ensures
        ({
            let last = step_after(tool, first_step(name, arguments), found, 6);
            &&& last is Finished
            &&& last->result is Ok <==> {
                &&& may_read(tool, name, arguments, found)
                &&& found.opened
                &&& file.len() <= tool.max_file_bytes
                &&& valid_utf8(file)
            }
            &&& last->result is Ok ==> last->result->Ok_0 == decode_utf8(file) && encode_utf8(
                last->result->Ok_0,
            ) == file
            &&& may_read(tool, name, arguments, found) && found.opened && file.len()
                > tool.max_file_bytes ==> last->result == Err::<Seq<char>, ToolError>(
                ToolError::TooLarge,
            )
        }),
{
    law_content_is_allowed(tool, name, arguments, found);
    reveal_with_fuel(step_after, 7);
}

/// No file is opened unless the call may read it: not one outside the workspace, and not the
/// protected one.
pub proof fn law_nothing_forbidden_is_opened(
    tool: ToolView,
    name: Seq<char>,
    arguments: Seq<char>,
    found: Findings,
    count: nat,
)
    requires
        ({
            let step = step_after(tool, first_step(name, arguments), found, count);
            step is Open || step is Read
        }),
    ensures
        may_read(tool, name, arguments, found),
        ({
            let step = step_after(tool, first_step(name, arguments), found, count);
            &&& step is Open ==> step->Open_resolved == found.resolved->0
            &&& step is Read ==> step->Read_resolved == found.resolved->0
        }),
{
    if count >= 6 {
        law_call_ends(tool, name, arguments, found, count);
    }
    reveal_with_fuel(step_after, 7);
}

/// A directory next to the workspace is outside of it, whatever their names have in common.
pub proof fn law_sibling_is_outside(
    parent: Seq<Seq<u8>>,
    name: Seq<u8>,
    other: Seq<u8>,
    below: Seq<Seq<u8>>,
)
    requires
        name != other,
    ensures
        !is_inside(parent.push(other) + below, parent.push(name)),
        is_inside(parent.push(name) + below, parent.push(name)),
{
    let workspace = parent.push(name);
    let n = workspace.len() as int;
    assert((parent.push(other) + below).take(n)[n - 1] == other);
    assert(workspace[n - 1] == name);
    assert((workspace + below).take(n) =~= workspace);
}

/// What the model is told of a call tells the outcome: content and error are never both there.
pub proof fn law_reply_tells_the_outcome(result: Result<Seq<char>, ToolError>)
    ensures
        reply_view(result).get("ok"@) == Some(JsonView::Bool(result is Ok)),
        result matches Ok(content) ==> {
            &&& reply_view(result).get("content"@) == Some(JsonView::Text(content))
            &&& reply_view(result).get("error"@) is None
        },
        result matches Err(error) ==> {
            &&& reply_view(result).get("error"@) == Some(JsonView::Text(error.text()))
            &&& reply_view(result).get("content"@) is None
        },
{
    reveal_strlit("ok");
    reveal_strlit("content");
    reveal_strlit("error");
    assert("ok"@.len() == 2);
    assert("content"@.len() == 7);
    assert("error"@.len() == 5);
}

/// A path is looked up, as it was written, exactly where it has a character that is not white
/// space, does not start with a slash of either kind or with a letter and a colon, and, where a
/// colon would name a stream, has none. Otherwise the first of this that fails is reported.
pub proof fn law_relative_path_is_looked_up(tool: ToolView, path: Seq<char>)
    ensures
        ({
            let next = next_step(tool, StepView::Parse, EventView::Parsed(Some(path)));
            let says = exists|i: int| 0 <= i < path.len() && !is_white_space(#[trigger] path[i]);
            let slash = path.len() > 0 && (path[0] == '/' || path[0] == '\\');
            let drive = path.len() > 1 && path[1] == ':' && (65 <= path[0] as int <= 90 || 97
                <= path[0] as int <= 122);
            let stream = tool.alternate_streams && exists|i: int|
                0 <= i < path.len() && #[trigger] path[i] == ':';
            &&& says && !slash && !drive && !stream <==> next == (StepView::Resolve { path })
            &&& next is Resolve || next is Finished
            &&& !says ==> next == (StepView::Finished { result: Err(ToolError::BlankPath) })
            &&& says && (slash || drive) ==> next == (StepView::Finished {
                result: Err(ToolError::NotRelative),
            })
            &&& says && !slash && !drive && stream ==> next == (StepView::Finished {
                result: Err(ToolError::AlternateStream),
            })
        }),
{
}

/// A path is inside a directory exactly where it is the directory with more names behind it, if
/// any; each name counts whole.
pub proof fn law_inside_is_below(path: Seq<Seq<u8>>, directory: Seq<Seq<u8>>)
    ensures
        is_inside(path, directory) <==> directory.len() <= path.len() && forall|i: int|
            0 <= i < directory.len() ==> #[trigger] path[i] == directory[i],
        is_inside(directory + path, directory),
        is_inside(directory, directory),
{
    assert((directory + path).take(directory.len() as int) =~= directory);
    assert(directory.take(directory.len() as int) =~= directory);
    if directory.len() <= path.len() {
        let front = path.take(directory.len() as int);
        if forall|i: int| 0 <= i < directory.len() ==> #[trigger] path[i] == directory[i] {
            assert forall|i: int| 0 <= i < directory.len() implies front[i]
                == #[trigger] directory[i] by {
                assert(path[i] == directory[i]);
            }
            assert(front =~= directory);
        } else if front == directory {
            assert forall|i: int| 0 <= i < directory.len() implies #[trigger] path[i]
                == directory[i] by {
                assert(front[i] == path[i]);
            }
        }
    }
}

/// From end to end, the outcome of a call is decided by what its steps find, in this order: the
/// tool is `read_file`, the arguments start as an object and hold a path and nothing else, the
/// path is one to look up, it leads somewhere, to a place whose names begin with those of the
/// workspace, to a regular file, which is not the protected one by its path or under any other
/// name, which can be opened and read, is not over the limit and is UTF-8. The outcome is the
/// text that was read, or the error of the first of this that fails.
pub proof fn law_outcome_is_decided_in_order(
    tool: ToolView,
    name: Seq<char>,
    arguments: Seq<char>,
    found: Findings,
)
    ensures
        ({
            let last = step_after(tool, first_step(name, arguments), found, 6);
            let object = exists|i: int|
                0 <= i < arguments.len() && #[trigger] arguments[i] == '{' && forall|j: int|
                    0 <= j < i ==> is_white_space(#[trigger] arguments[j]);
            let checked = next_step(tool, StepView::Parse, EventView::Parsed(found.parsed));
            let place = found.resolved->0;
            let inside = tool.workspace.len() <= place.len() && forall|i: int|
                0 <= i < tool.workspace.len() ==> #[trigger] place[i] == tool.workspace[i];
            let bytes = found.contents->0;
            &&& last is Finished
            &&& last->result == (if name != "read_file"@ {
                Err::<Seq<char>, ToolError>(ToolError::UnknownTool)
            } else if !object || found.parsed is None {
                Err(ToolError::Arguments)
            } else if !(checked is Resolve) {
                checked->result
            } else if found.resolved is None {
                Err(ToolError::NotFound)
            } else if !inside {
                Err(ToolError::Outside)
            } else if found.is_file is None {
                Err(ToolError::Inspection)
            } else if found.is_file == Some(false) {
                Err(ToolError::NotRegular)
            } else if place == tool.protected_config {
                Err(ToolError::Protected)
            } else if found.same_file is None {
                Err(ToolError::Identity)
            } else if found.same_file == Some(true) {
                Err(ToolError::Protected)
            } else if !found.opened {
                Err(ToolError::Opening)
            } else if found.contents is None {
                Err(ToolError::Reading)
            } else if bytes.len() > tool.max_file_bytes {
                Err(ToolError::TooLarge)
            } else if !valid_utf8(bytes) {
                Err(ToolError::NotUtf8)
            } else {
                Ok(decode_utf8(bytes))
            })
        }),
{
    reveal_with_fuel(step_after, 7);
    law_relative_path_is_looked_up(tool, found.parsed->0);
    law_inside_is_below(found.resolved->0, tool.workspace);
    lemma_leads_with_brace(arguments);
}

proof fn lemma_leads_with_brace(s: Seq<char>)
    ensures
        leads_with(s, '{') <==> exists|i: int|
            0 <= i < s.len() && #[trigger] s[i] == '{' && forall|j: int|
                0 <= j < i ==> is_white_space(#[trigger] s[j]),
{
    if leads_with(s, '{') {
        let i = choose|i: int| 0 <= i < s.len() && #[trigger] s[i] == '{' && is_blank(s.take(i));
        assert forall|j: int| 0 <= j < i implies is_white_space(#[trigger] s[j]) by {
            assert(s.take(i)[j] == s[j]);
        }
    }
    if exists|i: int|
        0 <= i < s.len() && #[trigger] s[i] == '{' && forall|j: int|
            0 <= j < i ==> is_white_space(#[trigger] s[j]) {
        let i = choose|i: int|
            0 <= i < s.len() && #[trigger] s[i] == '{' && forall|j: int|
                0 <= j < i ==> is_white_space(#[trigger] s[j]);
        assert(is_blank(s.take(i)));
    }
}

/// Content is the whole file. What is read is a front part of the file, all of it unless it
/// fills the read limit, which is one byte over the limit; the text that a call brings of it
/// encodes as the file, to the last byte, and a file within the limit is never too large.
pub proof fn law_read_text_is_the_file(
    tool: ToolView,
    name: Seq<char>,
    arguments: Seq<char>,
    found: Findings,
    file: Seq<u8>,
)
    requires
        found.contents is Some,
        found.contents->0.len() <= file.len(),
        found.contents->0 == file.take(found.contents->0.len() as int),
        found.contents->0.len() == file.len() || found.contents->0.len() == tool.max_file_bytes
            + 1,
    ensures
        ({
            let last = step_after(tool, first_step(name, arguments), found, 6);
            &&& last->result is Ok ==> file.len() <= tool.max_file_bytes && encode_utf8(
                last->result->Ok_0,
            ) == file
            &&& last->result == Err::<Seq<char>, ToolError>(ToolError::TooLarge) ==> file.len()
                > tool.max_file_bytes
        }),
{
    law_outcome_is_decided_in_order(tool, name, arguments, found);
    law_relative_path_is_looked_up(tool, found.parsed->0);
    assert(file.take(file.len() as int) =~= file);
    if valid_utf8(file) {
        decode_utf8_encode_utf8(file);
    }
}

/// Whatever is inspected, compared, opened or read is where the path of the arguments led, and
/// its names begin with those of the workspace. What is opened or read is, besides, a regular
/// file and not the protected one, by its path or under any other name.
pub proof fn law_only_the_workspace_is_touched(
    tool: ToolView,
    name: Seq<char>,
    arguments: Seq<char>,
    found: Findings,
    count: nat,
)
    ensures
        ({
            let step = step_after(tool, first_step(name, arguments), found, count);
            let place = found.resolved->0;
            let inside = tool.workspace.len() <= place.len() && forall|i: int|
                0 <= i < tool.workspace.len() ==> #[trigger] place[i] == tool.workspace[i];
            &&& step is Resolve ==> Some(step->path) == found.parsed
            &&& step is Inspect ==> step->Inspect_resolved == place && inside
            &&& step is Compare ==> step->Compare_resolved == place && inside && place
                != tool.protected_config
            &&& step is Open ==> step->Open_resolved == place
            &&& step is Read ==> step->Read_resolved == place
            &&& step is Open || step is Read ==> {
                &&& name == "read_file"@
                &&& inside
                &&& found.is_file == Some(true)
                &&& place != tool.protected_config
                &&& found.same_file == Some(false)
            }
        }),
{
    if count >= 6 {
        law_call_ends(tool, name, arguments, found, count);
    }
    reveal_with_fuel(step_after, 7);
    law_inside_is_below(found.resolved->0, tool.workspace);
}

/// An event that a step did not ask for changes nothing, and neither does any event after the
/// end.
pub proof fn law_unasked_event_is_ignored(tool: ToolView, step: StepView, event: EventView)
    requires
        match step {
            StepView::Parse => !(event is Parsed),
            StepView::Resolve { .. } => !(event is Resolved),
            StepView::Inspect { .. } => !(event is Inspected),
            StepView::Compare { .. } => !(event is Compared),
            StepView::Open { .. } => !(event is Opened),
            StepView::Read { .. } => !(event is Contents),
            StepView::Finished { .. } => true,
        },
    ensures
        next_step(tool, step, event) == step,
{
}

/// What the model is told of a call has no field but those that tell the outcome.
pub proof fn law_reply_has_two_fields(result: Result<Seq<char>, ToolError>, name: Seq<char>)
    ensures
        reply_view(result) is Object,
        reply_view(result).get(name) is Some ==> {
            ||| name == "ok"@
            ||| name == "content"@
            ||| name == "error"@
        },
{
}

/// The definition of the tool gives its name, the limit in decimal digits, and one required
/// argument, a text `path`; nothing else may be passed. Tools with different limits are
/// described differently and are otherwise the same.
pub proof fn law_definition_tells_the_limit(max_file_bytes: nat, other: nat, name: Seq<char>)
    ensures
        ({
            let tool = definition_view(max_file_bytes);
            let parameters = tool.field("parameters"@);
            let path = parameters.field("properties"@).field("path"@);
            &&& tool is Object
            &&& tool.get("type"@) == Some(JsonView::Text("function"@))
            &&& tool.get("name"@) == Some(JsonView::Text("read_file"@))
            &&& tool.get("strict"@) == Some(JsonView::Bool(true))
            &&& tool.get("description"@) == Some(
                JsonView::Text(
                    "Read a UTF-8 file inside the working directory, up to "@ + decimal_digits(
                        max_file_bytes,
                    ) + " bytes. The active configuration file cannot be read."@,
                ),
            )
            &&& parameters.get("type"@) == Some(JsonView::Text("object"@))
            &&& parameters.get("additionalProperties"@) == Some(JsonView::Bool(false))
            &&& parameters.field("required"@) is Array
            &&& parameters.field("required"@)->Array_0.len() == 1
            &&& parameters.field("required"@)->Array_0[0] == JsonView::Text("path"@)
            &&& parameters.field("properties"@) is Object
            &&& name != "path"@ ==> parameters.field("properties"@).get(name) is None
            &&& path.get("type"@) == Some(JsonView::Text("string"@))
            &&& path.get("description"@) == Some(
                JsonView::Text("A relative path inside the working directory."@),
            )
            &&& name != "type"@ && name != "description"@ ==> path.get(name) is None
            &&& name != "description"@ ==> definition_view(other).get(name) == tool.get(name)
            &&& definition_view(other).get("description"@) == tool.get("description"@) ==> other
                == max_file_bytes
            &&& tool.get(name) is Some ==> {
                ||| name == "type"@
                ||| name == "name"@
                ||| name == "description"@
                ||| name == "strict"@
                ||| name == "parameters"@
            }
            &&& parameters.get(name) is Some ==> {
                ||| name == "type"@
                ||| name == "properties"@
                ||| name == "required"@
                ||| name == "additionalProperties"@
            }
        }),
{
    reveal_strlit("type");
    reveal_strlit("name");
    reveal_strlit("description");
    reveal_strlit("strict");
    reveal_strlit("parameters");
    reveal_strlit("properties");
    reveal_strlit("required");
    reveal_strlit("additionalProperties");
    assert("type"@[0] == 't' && "type"@.len() == 4);
    assert("name"@[0] == 'n' && "name"@.len() == 4);
    assert("description"@.len() == 11);
    assert("strict"@.len() == 6);
    assert("parameters"@.len() == 10 && "parameters"@[1] == 'a');
    assert("properties"@.len() == 10 && "properties"@[1] == 'r');
    assert("required"@.len() == 8);
    assert("additionalProperties"@.len() == 20);
    if definition_view(other).get("description"@) == definition_view(max_file_bytes).get(
        "description"@,
    ) {
        let before = "Read a UTF-8 file inside the working directory, up to "@;
        let after = " bytes. The active configuration file cannot be read."@;
        let n = before.len() as int;
        let ours = decimal_digits(max_file_bytes);
        let theirs = decimal_digits(other);
        assert(before + ours + after == before + theirs + after);
        assert(ours =~= (before + ours + after).subrange(n, n + ours.len()));
        assert(theirs =~= (before + theirs + after).subrange(n, n + theirs.len()));
        law_decimal_digits_tell_numbers_apart(max_file_bytes, other);
    }
}

/// The definition of the tool nests four levels.
pub proof fn law_definition_is_plain(max_file_bytes: nat)
    ensures
        is_plain(definition_view(max_file_bytes), 4),
{
    reveal_with_fuel(is_plain, 5);
    let required = seq![JsonView::Text("path"@)];
    assert(is_plain(JsonView::Array(required), 2));
    let path = JsonView::object().with("type"@, JsonView::Text("string"@)).with(
        "description"@,
        JsonView::Text("A relative path inside the working directory."@),
    );
    assert(is_plain(path, 1));
    let properties = JsonView::object().with("path"@, path);
    assert(is_plain(properties, 2));
    let parameters = JsonView::object().with("type"@, JsonView::Text("object"@)).with(
        "properties"@,
        properties,
    ).with("required"@, JsonView::Array(required)).with(
        "additionalProperties"@,
        JsonView::Bool(false),
    );
    assert(is_plain(parameters, 3));
}

/// The model is told what to mend: the words for an error start with what was wrong.
pub proof fn law_error_says_what_was_wrong(error: ToolError)
    ensures
        ({
            let start = match error {
                ToolError::UnknownTool => "unknown tool"@,
                ToolError::Arguments => "read_file requires an object containing only a string path"@,
                ToolError::BlankPath => "path must not be empty"@,
                ToolError::NotRelative => "path must be relative"@,
                ToolError::AlternateStream => "Windows alternate data stream"@,
                ToolError::NotFound => "file does not exist"@,
                ToolError::Outside => "path resolves outside the working directory"@,
                ToolError::Inspection => "cannot inspect file"@,
                ToolError::NotRegular => "path must refer to a regular file"@,
                ToolError::Identity => "cannot verify file identity"@,
                ToolError::Protected => "reading the active configuration file is forbidden"@,
                ToolError::Opening => "cannot open file"@,
                ToolError::Reading => "cannot read file"@,
                ToolError::TooLarge => "file exceeds the configured max_file_bytes limit"@,
                ToolError::NotUtf8 => "file is not valid UTF-8"@,
            };
            start.is_prefix_of(error.text())
        }),
{
    match error {
        ToolError::UnknownTool => {
            reveal_strlit("unknown tool");
            reveal_strlit("unknown tool; only read_file is supported");
        },
        ToolError::BlankPath => {
            reveal_strlit("path must not be empty");
            reveal_strlit("path must not be empty or whitespace");
        },
        ToolError::NotRelative => {
            reveal_strlit("path must be relative");
            reveal_strlit("path must be relative, without a root or drive prefix");
        },
        ToolError::AlternateStream => {
            reveal_strlit("Windows alternate data stream");
            reveal_strlit("Windows alternate data stream paths are not supported");
        },
        ToolError::NotFound => {
            reveal_strlit("file does not exist");
            reveal_strlit("file does not exist or cannot be accessed");
        },
        ToolError::Identity => {
            reveal_strlit("cannot verify file identity");
            reveal_strlit("cannot verify file identity against the active configuration");
        },
        ToolError::Opening => {
            reveal_strlit("cannot open file");
            reveal_strlit("cannot open file for reading");
        },
        _ => {},
    }
}

/// A step, an event and an outcome say what they carry, and all of it.
pub proof fn law_views_keep_what_they_carry(
    step: ToolStep,
    event: ToolEvent,
    result: Result<String, ToolError>,
    place: CanonicalPath,
)
    ensures
        match step {
            ToolStep::Parse => step@ is Parse,
            ToolStep::Resolve { path } => step@ is Resolve && step@->path == path@,
            ToolStep::Inspect { resolved } => step@ is Inspect && step@->Inspect_resolved
                == resolved@,
            ToolStep::Compare { resolved } => step@ is Compare && step@->Compare_resolved
                == resolved@,
            ToolStep::Open { resolved } => step@ is Open && step@->Open_resolved == resolved@,
            ToolStep::Read { resolved } => step@ is Read && step@->Read_resolved == resolved@,
            ToolStep::Finished { result } => step@ is Finished && step@->result == result_view(
                result,
            ),
        },
        match event {
            ToolEvent::Parsed(path) => event@ is Parsed && event@->Parsed_0 is Some == path is Some
                && (path is Some ==> event@->Parsed_0->0 == path->0@),
            ToolEvent::Resolved(path) => event@ is Resolved && event@->Resolved_0 is Some == path
                is Some && (path is Some ==> event@->Resolved_0->0 == path->0@),
            ToolEvent::Inspected(is_file) => event@ == EventView::Inspected(is_file),
            ToolEvent::Compared(same_file) => event@ == EventView::Compared(same_file),
            ToolEvent::Opened(opened) => event@ == EventView::Opened(opened),
            ToolEvent::Contents(bytes) => event@ is Contents && event@->Contents_0 is Some == bytes
                is Some && (bytes is Some ==> event@->Contents_0->0 == bytes->0@),
        },
        result is Ok == result_view(result) is Ok,
        result is Ok ==> result_view(result)->Ok_0 == result->Ok_0@,
        result is Err ==> result_view(result)->Err_0 == result->Err_0,
        place@.len() == place.components@.len(),
        forall|i: int| 0 <= i < place@.len() ==> #[trigger] place@[i] == place.components@[i]@,
{
}

} // verus!
