//! The values of the F* interactive protocol: the queries sent to
//! `fstar.exe --ide`, the replies and progress messages it prints back, and
//! the conversion between its positions (lines from one) and the editor's
//! (lines from zero).

pub mod bare_ide;
pub mod ide;

use vstd::prelude::*;
use crate::lsp::types::{LspPosition, LspRange};
use crate::text::{decimal, push_char, push_decimal};

verus! {

/// Declares `serde_json::Value` (the payload of a reply) so that replies can
/// carry it; nothing is read from it here.
#[verifier::external_type_specification]
#[verifier::external_body]
pub struct ExJsonValue(serde_json::Value);

/// A query of the interactive protocol.
#[derive(PartialEq, Clone, Debug)]
pub enum Query {
    Exit {},
    DescribeProtocol {},
    DescribeRepl {},
    Segment(String),
    Pop {},
    Push(PushQuery),
    VfsAdd(VfsAddQuery),
    AutoComplete(AutoCompleteQuery),
    Lookup(LookupQuery),
    Compute(ComputeQuery),
    Search(String),
    FullBuffer(FullBufferQuery),
    Format(String),
    RestartSolver {},
    /// F* reads the position of a cancel query as given; there is no
    /// "cancel everything" form.
    Cancel(CancelPosition),
}

#[derive(PartialEq, Eq, Structural, Clone, Copy, Debug)]
pub enum PushKind {
    Syntax,
    Lax,
    Full,
}

#[derive(PartialEq, Clone, Debug)]
pub struct PushQuery {
    pub kind: PushKind,
    pub line: u32,
    pub column: u32,
    pub code: String,
}

#[derive(PartialEq, Clone, Debug)]
pub struct VfsAddQuery {
    pub filename: Option<String>,
    pub contents: String,
}

#[derive(PartialEq, Eq, Structural, Clone, Copy, Debug)]
pub enum AutoCompleteContext {
    Code,
}

#[derive(PartialEq, Clone, Debug)]
pub struct AutoCompleteQuery {
    pub partial_symbol: String,
    pub context: AutoCompleteContext,
}

#[derive(PartialEq, Eq, Structural, Clone, Copy, Debug)]
pub enum LookupContext {
    SymbolOnly,
    Code,
    SetOptions,
    ResetOptions,
    Open,
    LetOpen,
    Include,
    ModuleAlias,
}

#[derive(PartialEq, Eq, Structural, Clone, Copy, Debug)]
pub enum LookupRequest {
    DefinedAt,
    Type,
    Documentation,
    Definition,
}

#[derive(PartialEq, Clone, Debug)]
pub struct LookupQuery {
    pub context: LookupContext,
    pub symbol: String,
    pub requested_info: Vec<LookupRequest>,
    pub location: Option<Position>,
}

#[derive(PartialEq, Clone, Debug)]
pub struct ComputeQuery {
    pub term: String,
    pub rules: Vec<String>,
}

#[derive(PartialEq, Eq, Structural, Clone, Copy, Debug)]
pub enum FullBufferKind {
    Full,
    Lax,
    Cache,
    ReloadDeps,
    VerifyToPosition(BarePosition),
    LaxToPosition(BarePosition),
}

#[derive(PartialEq, Clone, Debug)]
pub struct FullBufferQuery {
    pub code: String,
    pub kind: FullBufferKind,
    pub with_symbols: bool,
}

/// A position as F* counts it: lines from one, columns from zero.
#[derive(PartialEq, Eq, Structural, Clone, Copy, Debug)]
pub struct BarePosition {
    pub line: u32,
    pub column: u32,
}

/// A position in a named file, as F* counts it.
#[derive(PartialEq, Clone, Debug)]
pub struct Position {
    pub filename: String,
    pub position: BarePosition,
}

#[derive(PartialEq, Eq, Structural, Clone, Copy, Debug)]
pub struct CancelPosition {
    pub cancel_line: u32,
    pub cancel_column: u32,
}

/// A line that F* prints: a reply or a message, tagged with the query it belongs to.
#[derive(PartialEq, Debug)]
pub struct FullResponseOrMessage {
    pub query_id: String,
    pub response_or_message: ResponseOrMessage,
}

#[derive(PartialEq, Debug)]
pub enum ResponseOrMessage {
    Response(Response),
    Message(Message),
}

#[derive(PartialEq, Eq, Structural, Clone, Copy, Debug)]
pub enum ResponseStatus {
    Success,
    Failure,
    ProtocolViolation,
}

/// The reply to a query; its payload is read according to the query asked.
#[derive(PartialEq, Debug)]
pub struct Response {
    pub status: ResponseStatus,
    pub response: serde_json::Value,
}

/// The payload of a successful lookup.
#[derive(PartialEq, Clone, Debug)]
pub struct LookupResponse {
    pub kind: String,
    pub name: String,
    pub defined_at: Option<Range>,
    pub type_: Option<String>,
    pub documentation: Option<String>,
    pub definition: Option<String>,
}

/// One completion candidate: match length, annotation, candidate.
#[derive(PartialEq, Clone, Debug)]
pub struct AutoCompleteResponseItem(pub u32, pub String, pub String);

pub type AutoCompleteResponse = Vec<AutoCompleteResponseItem>;

#[derive(PartialEq, Eq, Structural, Clone, Copy, Debug)]
pub enum VerificationFailureLevel {
    Info,
    Warning,
    Error,
}

#[derive(PartialEq, Clone, Debug)]
pub struct VerificationFailureResponseItem {
    pub level: VerificationFailureLevel,
    pub number: u32,
    pub message: String,
    pub ranges: Vec<Range>,
}

pub type VerificationFailureResponse = Vec<VerificationFailureResponseItem>;

#[derive(PartialEq, Debug)]
pub enum Message {
    Info(InfoMessage),
    Progress(ProgressMessageOrNull),
    ProofState(ProofStateMessage),
}

#[derive(PartialEq, Clone, Debug)]
pub struct InfoMessage(pub String);

#[derive(PartialEq, Clone, Debug)]
pub enum ProgressMessage {
    FullBufferStarted,
    FullBufferFragmentStarted { ranges: Range },
    FullBufferFragmentLaxOk(FullBufferFragmentOk),
    FullBufferFragmentOk(FullBufferFragmentOk),
    FullBufferFragmentFailed { ranges: Range },
    LoadingDependency { modname: String },
    FullBufferFinished,
}

/// The value of a `"stage": null` field.
#[derive(PartialEq, Eq, Structural, Clone, Copy, Debug)]
pub struct Null {}

/// A progress message, or one whose stage is null (F* sends both).
#[derive(PartialEq, Clone, Debug)]
pub enum ProgressMessageOrNull {
    Known(ProgressMessage),
    Null { stage: Null },
}

#[derive(PartialEq, Clone, Debug)]
pub struct FullBufferFragmentOk {
    pub ranges: Range,
    pub code_fragment: CodeFragment,
}

/// A range in a named file, as F* counts it: `(line, column)` pairs with
/// lines from one.
#[derive(PartialEq, Debug)]
pub struct Range {
    pub fname: String,
    pub beg: (u32, u32),
    pub end: (u32, u32),
}

#[derive(PartialEq, Clone, Debug)]
pub struct CodeFragment {
    pub range: Range,
    pub code_digest: String,
}

#[derive(PartialEq, Debug)]
pub struct ProofStateMessage(pub serde_json::Value);

/// The editor's line of an F* line: one less, except that line 0 stays 0.
pub open spec fn editor_line(fstar_line: u32) -> u32 {
    if fstar_line > 0 {
        (fstar_line - 1) as u32
    } else {
        fstar_line
    }
}

fn editor_line_of(fstar_line: u32) -> (l: u32)
    ensures
        l == editor_line(fstar_line),
{
    if fstar_line > 0 {
        fstar_line - 1
    } else {
        fstar_line
    }
}

/// The editor range of an F* range: lines shifted down by one (line 0
/// stays 0), columns unchanged.
pub open spec fn lsp_range_of(r: Range) -> LspRange {
    LspRange {
        start: LspPosition { line: editor_line(r.beg.0), character: r.beg.1 },
        end: LspPosition { line: editor_line(r.end.0), character: r.end.1 },
    }
}

/// The F* position of an editor position: one line further, same column.
pub open spec fn fstar_position_of(pos: LspPosition) -> BarePosition {
    BarePosition { line: (pos.line + 1) as u32, column: pos.character }
}

/// The editor position of an F* position.
pub open spec fn lsp_position_of(pos: BarePosition) -> LspPosition {
    LspPosition { line: editor_line(pos.line), character: pos.column }
}

/// The F* range, in `filename`, of an editor range.
pub open spec fn fstar_range_of(filename: Seq<char>, range: LspRange, r: Range) -> bool {
    &&& r.fname@ == filename
    &&& r.beg == (fstar_position_of(range.start).line, range.start.character)
    &&& r.end == (fstar_position_of(range.end).line, range.end.character)
}

impl BarePosition {
    /// The F* position of an editor position.
    pub fn from(pos: LspPosition) -> (r: Self)
        requires
            pos.line < u32::MAX,
        ensures
            r == fstar_position_of(pos),
    {
        BarePosition { line: pos.line + 1, column: pos.character }
    }

    /// The editor position of an F* position.
    pub fn into(self) -> (r: LspPosition)
        ensures
            r == lsp_position_of(self),
    {
        LspPosition::new(editor_line_of(self.line), self.column)
    }
}

impl Position {
    /// The F* position, in `filename`, of an editor position.
    pub fn from(filename: String, pos: LspPosition) -> (r: Self)
        requires
            pos.line < u32::MAX,
        ensures
            r.filename == filename,
            r.position == fstar_position_of(pos),
    {
        Position { filename, position: BarePosition::from(pos) }
    }

    /// The editor position of this position (its file name is dropped).
    pub fn into(self) -> (r: LspPosition)
        ensures
            r == lsp_position_of(self.position),
    {
        self.position.into()
    }
}

impl Range {
    /// The F* range, in `filename`, of an editor range.
    pub fn from(filename: String, range: LspRange) -> (r: Self)
        requires
            range.start.line < u32::MAX,
            range.end.line < u32::MAX,
        ensures
            fstar_range_of(filename@, range, r),
            r.fname == filename,
    {
        Range {
            fname: filename,
            beg: (range.start.line + 1, range.start.character),
            end: (range.end.line + 1, range.end.character),
        }
    }

    /// The editor range of this range (its file name is dropped).
    pub fn into(self) -> (r: LspRange)
        ensures
            r == lsp_range_of(self),
    {
        LspRange {
            start: LspPosition::new(editor_line_of(self.beg.0), self.beg.1),
            end: LspPosition::new(editor_line_of(self.end.0), self.end.1),
        }
    }

    /// The editor range of this range, leaving the range in place.
    pub fn to_lsp_range(&self) -> (r: LspRange)
        ensures
            r == lsp_range_of(*self),
    {
        LspRange {
            start: LspPosition::new(editor_line_of(self.beg.0), self.beg.1),
            end: LspPosition::new(editor_line_of(self.end.0), self.end.1),
        }
    }

    /// `fname(line,column-line,column)`, as the range is shown to the user.
    pub fn to_display_string(&self) -> (s: String)
        ensures
            s@ == range_text(*self),
    {
        let mut s = String::new();
        s.append(self.fname.as_str());
        push_char(&mut s, '(');
        push_decimal(&mut s, self.beg.0 as u64);
        push_char(&mut s, ',');
        push_decimal(&mut s, self.beg.1 as u64);
        push_char(&mut s, '-');
        push_decimal(&mut s, self.end.0 as u64);
        push_char(&mut s, ',');
        push_decimal(&mut s, self.end.1 as u64);
        push_char(&mut s, ')');
        assert(s@ =~= range_text(*self));
        s
    }
}

impl Clone for Range {
    fn clone(&self) -> (r: Self)
        ensures
            r == *self,
    {
        Range { fname: self.fname.clone(), beg: self.beg, end: self.end }
    }
}

/// How a range is shown to the user: `fname(line,column-line,column)`.
pub open spec fn range_text(r: Range) -> Seq<char> {
    r.fname@ + seq!['('] + decimal(r.beg.0 as nat) + seq![','] + decimal(r.beg.1 as nat) + seq!['-']
        + decimal(r.end.0 as nat) + seq![','] + decimal(r.end.1 as nat) + seq![')']
}

/// Going to F* and back gives the editor position that was given.
pub proof fn law_position_round_trip(pos: LspPosition)
    requires
        pos.line < u32::MAX,
    ensures
        lsp_position_of(fstar_position_of(pos)) == pos,
{
}

/// Coming from F* and going back gives the F* position, for every line
/// from one on (F* counts lines from one).
pub proof fn law_bare_position_round_trip(pos: BarePosition)
    requires
        pos.line >= 1,
    ensures
        fstar_position_of(lsp_position_of(pos)) == pos,
{
}

/// Going to F* and back gives the editor range that was given.
pub proof fn law_range_round_trip(filename: Seq<char>, range: LspRange, r: Range)
    requires
        range.start.line < u32::MAX,
        range.end.line < u32::MAX,
        fstar_range_of(filename, range, r),
    ensures
        lsp_range_of(r) == range,
{
}

} // verus!
