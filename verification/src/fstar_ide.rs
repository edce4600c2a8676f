//! The interactive protocol of F* as a single module: queries, replies and
//! progress messages, the conversion of positions between F* (lines from
//! one) and the editor (lines from zero), and which reply ends a query.

use vstd::prelude::*;
use crate::fstar::editor_line;
use crate::lsp::types::{LspPosition, LspRange};
use crate::text::{decimal, push_char, push_decimal};

verus! {

/// A query together with the identifier that its replies will carry.
#[derive(PartialEq, Clone, Debug)]
pub struct FullQuery {
    pub query_id: String,
    pub query: Query,
}

/// A query of the interactive protocol.
#[derive(PartialEq, Clone, Debug)]
pub enum Query {
    Exit {},
    DescribeProtocol {},
    DescribeRepl {},
    Segment(String),
    Pop {},
    Push(PushQuery),
    VfsAdd(VfsAddQuery),
    AutoComplete(AutoCompleteQuery),
    Lookup(LookupQuery),
    Compute(ComputeQuery),
    Search(String),
    FullBuffer(FullBufferQuery),
    Format(String),
    RestartSolver {},
    /// F* reads the position of a cancel query as given; there is no
    /// "cancel everything" form.
    Cancel(CancelPosition),
}

#[derive(PartialEq, Eq, Structural, Clone, Copy, Debug)]
pub enum PushKind {
    Syntax,
    Lax,
    Full,
}

#[derive(PartialEq, Clone, Debug)]
pub struct PushQuery {
    pub kind: PushKind,
    pub line: u32,
    pub column: u32,
    pub code: String,
}

#[derive(PartialEq, Clone, Debug)]
pub struct VfsAddQuery {
    pub filename: Option<String>,
    pub contents: String,
}

#[derive(PartialEq, Eq, Structural, Clone, Copy, Debug)]
pub enum AutoCompleteContext {
    Code,
}

#[derive(PartialEq, Clone, Debug)]
pub struct AutoCompleteQuery {
    pub partial_symbol: String,
    pub context: AutoCompleteContext,
}

#[derive(PartialEq, Eq, Structural, Clone, Copy, Debug)]
pub enum LookupContext {
    SymbolOnly,
    Code,
    SetOptions,
    ResetOptions,
    Open,
    LetOpen,
    Include,
    ModuleAlias,
}

#[derive(PartialEq, Eq, Structural, Clone, Copy, Debug)]
pub enum LookupRequest {
    DefinedAt,
    Type,
    Documentation,
    Definition,
}

#[derive(PartialEq, Clone, Debug)]
pub struct LookupQuery {
    pub context: LookupContext,
    pub symbol: String,
    pub requested_info: Vec<LookupRequest>,
    pub location: Option<Position>,
}

#[derive(PartialEq, Clone, Debug)]
pub struct ComputeQuery {
    pub term: String,
    pub rules: Vec<String>,
}

#[derive(PartialEq, Clone, Debug)]
pub enum FullBufferKind {
    Full,
    Lax,
    Cache,
    ReloadDeps,
    VerifyToPosition(Position),
    LaxToPosition(Position),
}

#[derive(PartialEq, Clone, Debug)]
pub struct FullBufferQuery {
    pub code: String,
    pub kind: FullBufferKind,
    pub with_symbols: bool,
}

/// A position in a named file as F* counts it: lines from one, columns
/// from zero.
#[derive(PartialEq, Clone, Debug)]
pub struct Position {
    pub filename: String,
    pub line: u32,
    pub column: u32,
}

#[derive(PartialEq, Eq, Structural, Clone, Copy, Debug)]
pub struct CancelPosition {
    pub cancel_line: u32,
    pub cancel_column: u32,
}

/// A line that F* prints: a reply or a message, tagged with the query it belongs to.
#[derive(PartialEq, Debug)]
pub struct FullResponseOrMessage {
    pub query_id: String,
    pub response_or_message: ResponseOrMessage,
}

#[derive(PartialEq, Debug)]
pub enum ResponseOrMessage {
    Response(Response),
    Message(Message),
}

#[derive(PartialEq, Eq, Structural, Clone, Copy, Debug)]
pub enum ResponseStatus {
    Success,
    Failure,
    ProtocolViolation,
}

/// The reply to a query; its payload is read according to the query asked.
#[derive(PartialEq, Debug)]
pub struct Response {
    pub status: ResponseStatus,
    pub response: serde_json::Value,
}

/// The payload of a successful lookup.
#[derive(PartialEq, Clone, Debug)]
pub struct LookupResponse {
    pub kind: String,
    pub name: String,
    pub defined_at: Option<Range>,
    pub type_: Option<String>,
    pub documentation: Option<String>,
    pub definition: Option<String>,
}

/// One completion candidate: match length, annotation, candidate.
#[derive(PartialEq, Clone, Debug)]
pub struct AutoCompleteResponseItem(pub u32, pub String, pub String);

pub type AutoCompleteResponse = Vec<AutoCompleteResponseItem>;

#[derive(PartialEq, Eq, Structural, Clone, Copy, Debug)]
pub enum VerificationFailureLevel {
    Info,
    Warning,
    Error,
}

#[derive(PartialEq, Clone, Debug)]
pub struct VerificationFailureResponseItem {
    pub level: VerificationFailureLevel,
    pub number: u32,
    pub message: String,
    pub ranges: Vec<Range>,
}

pub type VerificationFailureResponse = Vec<VerificationFailureResponseItem>;

#[derive(PartialEq, Debug)]
pub enum Message {
    Info(InfoMessage),
    Progress(ProgressMessageOrNull),
    ProofState(ProofStateMessage),
}

#[derive(PartialEq, Clone, Debug)]
pub struct InfoMessage(pub String);

#[derive(PartialEq, Clone, Debug)]
pub enum ProgressMessage {
    FullBufferStarted,
    FullBufferFragmentStarted { ranges: Range },
    FullBufferFragmentLaxOk(FullBufferFragmentOk),
    FullBufferFragmentOk(FullBufferFragmentOk),
    FullBufferFragmentFailed { ranges: Range },
    LoadingDependency { modname: String },
    FullBufferFinished,
}

/// A progress message, or one whose stage is null (F* sends both).
#[derive(PartialEq, Clone, Debug)]
pub enum ProgressMessageOrNull {
    Known(ProgressMessage),
    Null { stage: Option<()> },
}

#[derive(PartialEq, Clone, Debug)]
pub struct FullBufferFragmentOk {
    pub ranges: Range,
    pub code_fragment: CodeFragment,
}

/// A range in a named file, as F* counts it: `(line, column)` pairs with
/// lines from one.
#[derive(PartialEq, Debug)]
pub struct Range {
    pub fname: String,
    pub beg: (u32, u32),
    pub end: (u32, u32),
}

#[derive(PartialEq, Clone, Debug)]
pub struct CodeFragment {
    pub range: Range,
    pub code_digest: String,
}

#[derive(PartialEq, Debug)]
pub struct ProofStateMessage(pub serde_json::Value);

fn editor_line_of(fstar_line: u32) -> (l: u32)
    ensures
        l == editor_line(fstar_line),
{
    if fstar_line > 0 {
        fstar_line - 1
    } else {
        fstar_line
    }
}

impl Position {
    /// The F* position, in `filename`, of an editor position.
    pub fn from(filename: String, pos: LspPosition) -> (r: Self)
        requires
            pos.line < u32::MAX,
        ensures
            r.filename == filename,
            r.line == pos.line + 1,
            r.column == pos.character,
    {
        Position { filename, line: pos.line + 1, column: pos.character }
    }

    /// The editor position of this position (its file name is dropped).
    pub fn into(self) -> (r: LspPosition)
        ensures
            r.line == editor_line(self.line),
            r.character == self.column,
    {
        LspPosition::new(editor_line_of(self.line), self.column)
    }
}

/// The editor range of an F* range: lines shifted down by one (line 0
/// stays 0), columns unchanged.
pub open spec fn lsp_range_of(r: Range) -> LspRange {
    LspRange {
        start: LspPosition { line: editor_line(r.beg.0), character: r.beg.1 },
        end: LspPosition { line: editor_line(r.end.0), character: r.end.1 },
    }
}

impl Range {
    /// The F* range, in `filename`, of an editor range.
    pub fn from(filename: String, range: LspRange) -> (r: Self)
        requires
            range.start.line < u32::MAX,
            range.end.line < u32::MAX,
        ensures
            r.fname == filename,
            r.beg.0 == range.start.line + 1,
            r.beg.1 == range.start.character,
            r.end.0 == range.end.line + 1,
            r.end.1 == range.end.character,
    {
        Range {
            fname: filename,
            beg: (range.start.line + 1, range.start.character),
            end: (range.end.line + 1, range.end.character),
        }
    }

    /// The editor range of this range (its file name is dropped).
    pub fn into(self) -> (r: LspRange)
        ensures
            r == lsp_range_of(self),
    {
        LspRange {
            start: LspPosition::new(editor_line_of(self.beg.0), self.beg.1),
            end: LspPosition::new(editor_line_of(self.end.0), self.end.1),
        }
    }

    /// `fname(line,column-line,column)`, as the range is shown to the user.
    pub fn to_display_string(&self) -> (s: String)
        ensures
            s@ == range_text(*self),
    {
        let mut s = String::new();
        s.append(self.fname.as_str());
        push_char(&mut s, '(');
        push_decimal(&mut s, self.beg.0 as u64);
        push_char(&mut s, ',');
        push_decimal(&mut s, self.beg.1 as u64);
        push_char(&mut s, '-');
        push_decimal(&mut s, self.end.0 as u64);
        push_char(&mut s, ',');
        push_decimal(&mut s, self.end.1 as u64);
        push_char(&mut s, ')');
        assert(s@ =~= range_text(*self));
        s
    }
}

impl Clone for Range {
    fn clone(&self) -> (r: Self)
        ensures
            r == *self,
    {
        Range { fname: self.fname.clone(), beg: self.beg, end: self.end }
    }
}

/// How a range is shown to the user: `fname(line,column-line,column)`.
pub open spec fn range_text(r: Range) -> Seq<char> {
    r.fname@ + seq!['('] + decimal(r.beg.0 as nat) + seq![','] + decimal(r.beg.1 as nat) + seq!['-']
        + decimal(r.end.0 as nat) + seq![','] + decimal(r.end.1 as nat) + seq![')']
}

/// Which reply ends the exchange of a query.
#[derive(PartialEq, Eq, Structural, Clone, Copy, Debug)]
pub enum LastMessageDecider {
    /// A full-buffer query ends with the "full-buffer-finished" progress message.
    FullBuffer,
    /// Any other query ends with its response.
    Other,
}

/// The decider for a query: full-buffer queries end on their finishing
/// message, all others on their response.
pub open spec fn decider_for(query: Query) -> LastMessageDecider {
    match query {
        Query::FullBuffer(_) => LastMessageDecider::FullBuffer,
        _ => LastMessageDecider::Other,
    }
}

/// Whether `msg` is the last line that F* prints for a query with decider `d`.
pub open spec fn ends_exchange(d: LastMessageDecider, msg: ResponseOrMessage) -> bool {
    match d {
        LastMessageDecider::Other => msg is Response,
        LastMessageDecider::FullBuffer => msg matches ResponseOrMessage::Message(
            Message::Progress(ProgressMessageOrNull::Known(ProgressMessage::FullBufferFinished)),
        ),
    }
}

impl LastMessageDecider {
    pub fn new(query: &Query) -> (d: Self)
        ensures
            d == decider_for(*query),
    {
        match query {
            Query::FullBuffer(_) => LastMessageDecider::FullBuffer,
            _ => LastMessageDecider::Other,
        }
    }

    pub fn decide(&self, resp_or_msg: &ResponseOrMessage) -> (last: bool)
        ensures
            last == ends_exchange(*self, *resp_or_msg),
    {
        match self {
            LastMessageDecider::Other => match resp_or_msg {
                ResponseOrMessage::Response(_) => true,
                _ => false,
            },
            LastMessageDecider::FullBuffer => match resp_or_msg {
                ResponseOrMessage::Message(
                    Message::Progress(ProgressMessageOrNull::Known(ProgressMessage::FullBufferFinished)),
                ) => true,
                _ => false,
            },
        }
    }
}

} // verus!
