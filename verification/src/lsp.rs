//! The server's decisions for each open document: the diagnostics it
//! publishes and the verification status it shows, as F*'s full-buffer
//! messages arrive.

pub mod types;
pub mod file_backend;

use vstd::prelude::*;
use itertools::Itertools;
use crate::fstar::{range_text, Range, VerificationFailureLevel, VerificationFailureResponseItem};
use crate::lsp::file_backend::{
    FragmentStatus, FragmentStatusUpdate, FullBufferMessage, HoverResultText, IdeFullBufferMessage,
    IdeType,
};
use crate::lsp::types::{document_start_range, LspPosition, LspRange};

verus! {

#[derive(PartialEq, Eq, Structural, Clone, Copy, Debug)]
pub enum DiagnosticSeverity {
    Error,
    Warning,
    Information,
}

/// A diagnostic as the editor shows it; its code is F*'s error number.
#[derive(Debug)]
pub struct Diagnostic {
    pub range: LspRange,
    pub severity: DiagnosticSeverity,
    pub code: i32,
    pub message: String,
}

impl Clone for Diagnostic {
    fn clone(&self) -> (r: Self)
        ensures
            r == *self,
    {
        Diagnostic {
            range: self.range,
            severity: self.severity,
            code: self.code,
            message: self.message.clone(),
        }
    }
}

/// The severity shown for an F* failure level.
pub open spec fn severity_of(level: VerificationFailureLevel) -> DiagnosticSeverity {
    match level {
        VerificationFailureLevel::Error => DiagnosticSeverity::Error,
        VerificationFailureLevel::Warning => DiagnosticSeverity::Warning,
        VerificationFailureLevel::Info => DiagnosticSeverity::Information,
    }
}

/// The file name F* gives to the document it was handed as text.
pub open spec fn is_input_file(fname: Seq<char>) -> bool {
    fname == "<input>"@
}

/// The first line of a diagnostic: the message itself when the error lies
/// in the document, else the message prefixed by the range in the dependency.
pub open spec fn headline(error: VerificationFailureResponseItem) -> Seq<char> {
    let range0 = error.ranges@[0];
    if is_input_file(range0.fname@) {
        error.message@
    } else {
        "In dependency "@ + range_text(range0) + ": "@ + error.message@
    }
}

/// One `See also` line for each of `ranges`, each preceded by a line break.
pub open spec fn see_also_lines(ranges: Seq<Range>) -> Seq<char>
    decreases ranges.len(),
{
    if ranges.len() == 0 {
        Seq::empty()
    } else {
        see_also_lines(ranges.drop_last()) + "\n"@ + "See also: "@ + range_text(ranges.last())
    }
}

/// The range of a diagnostic: the error's first range when it lies in the
/// document, else the top of the document.
pub open spec fn diagnostic_range(error: VerificationFailureResponseItem) -> LspRange {
    let range0 = error.ranges@[0];
    if is_input_file(range0.fname@) {
        crate::fstar::lsp_range_of(range0)
    } else {
        LspRange { start: LspPosition { line: 0, character: 0 }, end: LspPosition { line: 0, character: 0 } }
    }
}

/// The diagnostic shown for an F* error.
pub open spec fn is_diagnostic_of(d: Diagnostic, error: VerificationFailureResponseItem) -> bool {
    &&& d.range == diagnostic_range(error)
    &&& d.severity == severity_of(error.level)
    &&& d.code == error.number as i32
    &&& d.message@ == headline(error) + see_also_lines(error.ranges@.skip(1))
}

/// The diagnostic shown for an F* error (whose list of ranges is not empty).
pub fn diagnostic_of(error: &VerificationFailureResponseItem) -> (d: Diagnostic)
    requires
        error.ranges@.len() > 0,
    ensures
        is_diagnostic_of(d, *error),
{
    let severity = match error.level {
        VerificationFailureLevel::Error => DiagnosticSeverity::Error,
        VerificationFailureLevel::Warning => DiagnosticSeverity::Warning,
        VerificationFailureLevel::Info => DiagnosticSeverity::Information,
    };
    let range0 = &error.ranges[0];
    let input = String::from_str("<input>");
    let (range, mut message) = if range0.fname == input {
        (range0.to_lsp_range(), error.message.clone())
    } else {
        let mut m = String::from_str("In dependency ");
        let shown = range0.to_display_string();
        m.append(shown.as_str());
        m.append(": ");
        m.append(error.message.as_str());
        (document_start_range(), m)
    };
    assert(message@ =~= headline(*error));
    let mut i: usize = 1;
    while i < error.ranges.len()
        invariant
            1 <= i <= error.ranges@.len(),
            message@ == headline(*error) + see_also_lines(error.ranges@.subrange(1, i as int)),
        decreases error.ranges@.len() - i,
    {
        let shown = error.ranges[i].to_display_string();
        message.append("\n");
        message.append("See also: ");
        message.append(shown.as_str());
        proof {
            let rs = error.ranges@.subrange(1, i + 1);
            assert(rs.drop_last() =~= error.ranges@.subrange(1, i as int));
            assert(rs.last() == error.ranges@[i as int]);
            assert(message@ =~= headline(*error) + see_also_lines(rs));
        }
        i = i + 1;
    }
    assert(error.ranges@.subrange(1, error.ranges@.len() as int) =~= error.ranges@.skip(1));
    Diagnostic { range, severity, code: error.number as i32, message }
}

/// The key by which published diagnostics are told apart: range and message.
pub open spec fn diagnostic_key(d: Diagnostic) -> (u32, u32, u32, u32, Seq<char>) {
    (d.range.start.line, d.range.start.character, d.range.end.line, d.range.end.character, d.message@)
}

pub fn diagnostic_identity(d: &Diagnostic) -> (k: (u32, u32, u32, u32, String))
    ensures
        (k.0, k.1, k.2, k.3, k.4@) == diagnostic_key(*d),
{
    (d.range.start.line, d.range.start.character, d.range.end.line, d.range.end.character, d.message.clone())
}

/// The diagnostics of `ds` whose key no earlier diagnostic of `ds` has, in order.
pub open spec fn first_of_each_key(ds: Seq<Diagnostic>) -> Seq<Diagnostic>
    decreases ds.len(),
{
    if ds.len() == 0 {
        Seq::empty()
    } else {
        let earlier = ds.drop_last();
        let d = ds.last();
        if has_key_of(earlier, d) {
            first_of_each_key(earlier)
        } else {
            first_of_each_key(earlier).push(d)
        }
    }
}

/// Some diagnostic of `ds` has the key of `d`.
pub open spec fn has_key_of(ds: Seq<Diagnostic>, d: Diagnostic) -> bool {
    exists|j: int| 0 <= j < ds.len() && diagnostic_key(#[trigger] ds[j]) == diagnostic_key(d)
}

proof fn lemma_first_of_each_key_from_input(ds: Seq<Diagnostic>)
    ensures
        forall|j: int| 0 <= j < first_of_each_key(ds).len() ==>
            exists|i: int| 0 <= i < ds.len() && #[trigger] first_of_each_key(ds)[j] == #[trigger] ds[i],
    decreases ds.len(),
{
    if ds.len() > 0 {
        let earlier = ds.drop_last();
        lemma_first_of_each_key_from_input(earlier);
        let prev = first_of_each_key(earlier);
        let out = first_of_each_key(ds);
        assert forall|j: int| 0 <= j < out.len() implies
            exists|i: int| 0 <= i < ds.len() && #[trigger] out[j] == #[trigger] ds[i] by {
            if j < prev.len() {
                assert(out[j] == prev[j]);
                let i = choose|i: int| 0 <= i < earlier.len() && prev[j] == #[trigger] earlier[i];
                assert(ds[i] == earlier[i]);
            } else {
                assert(out[j] == ds[ds.len() - 1]);
            }
        }
    }
}

proof fn lemma_first_of_each_key_covers(ds: Seq<Diagnostic>)
    ensures
        forall|i: int| 0 <= i < ds.len() ==> has_key_of(first_of_each_key(ds), #[trigger] ds[i]),
    decreases ds.len(),
{
    if ds.len() > 0 {
        let earlier = ds.drop_last();
        let d = ds.last();
        lemma_first_of_each_key_covers(earlier);
        let prev = first_of_each_key(earlier);
        let out = first_of_each_key(ds);
        assert forall|i: int| 0 <= i < ds.len() implies has_key_of(out, #[trigger] ds[i]) by {
            if has_key_of(earlier, d) {
                assert(out == prev);
                if i < earlier.len() {
                    assert(ds[i] == earlier[i]);
                    assert(has_key_of(prev, earlier[i]));
                } else {
                    let k = choose|k: int| 0 <= k < earlier.len() && diagnostic_key(#[trigger] earlier[k]) == diagnostic_key(d);
                    assert(has_key_of(prev, earlier[k]));
                }
            } else {
                assert(out == prev.push(d));
                if i < earlier.len() {
                    assert(ds[i] == earlier[i]);
                    assert(has_key_of(prev, earlier[i]));
                    let j = choose|j: int| 0 <= j < prev.len() && diagnostic_key(#[trigger] prev[j]) == diagnostic_key(earlier[i]);
                    assert(out[j] == prev[j]);
                } else {
                    assert(out[out.len() - 1] == ds[i]);
                }
            }
        }
    }
}

proof fn lemma_first_of_each_key_distinct(ds: Seq<Diagnostic>)
    ensures
        forall|i: int, j: int| 0 <= i < j < first_of_each_key(ds).len() ==>
            diagnostic_key(#[trigger] first_of_each_key(ds)[i]) != diagnostic_key(#[trigger] first_of_each_key(ds)[j]),
    decreases ds.len(),
{
    if ds.len() > 0 {
        let earlier = ds.drop_last();
        let d = ds.last();
        lemma_first_of_each_key_distinct(earlier);
        lemma_first_of_each_key_from_input(earlier);
        let prev = first_of_each_key(earlier);
        let out = first_of_each_key(ds);
        if !has_key_of(earlier, d) {
            assert(out == prev.push(d));
            assert forall|i: int, j: int| 0 <= i < j < out.len() implies
                diagnostic_key(#[trigger] out[i]) != diagnostic_key(#[trigger] out[j]) by {
                assert(out[i] == prev[i]);
                if j == out.len() - 1 {
                    let k = choose|k: int| 0 <= k < earlier.len() && prev[i] == #[trigger] earlier[k];
                    assert(diagnostic_key(earlier[k]) != diagnostic_key(d));
                } else {
                    assert(out[j] == prev[j]);
                }
            }
        }
    }
}

/// The diagnostics published after a check never repeat a range and
/// message, lose none, and invent none.
pub proof fn law_published_diagnostics_unique(ds: Seq<Diagnostic>)
    ensures
        ({
            let out = first_of_each_key(ds);
            &&& forall|i: int, j: int|
                0 <= i < j < out.len() ==> diagnostic_key(#[trigger] out[i]) != diagnostic_key(#[trigger] out[j])
            &&& forall|i: int| 0 <= i < ds.len() ==> has_key_of(out, #[trigger] ds[i])
            &&& forall|j: int| 0 <= j < out.len() ==>
                exists|i: int| 0 <= i < ds.len() && #[trigger] out[j] == #[trigger] ds[i]
        }),
{
    lemma_first_of_each_key_distinct(ds);
    lemma_first_of_each_key_covers(ds);
    lemma_first_of_each_key_from_input(ds);
}

/// Keeps the first diagnostic of each key by `Itertools::unique_by`, keyed by
/// `diagnostic_identity`; what is claimed of it: the result holds, in their
/// order, exactly the diagnostics whose key no earlier diagnostic of `ds` has
/// (keys are compared by equality, so two messages match when their texts do).
#[verifier::external_body]
fn unique_by_identity(ds: Vec<Diagnostic>) -> (r: Vec<Diagnostic>)
    ensures
        r@ == first_of_each_key(ds@),
{
    ds.into_iter().unique_by(|d| diagnostic_identity(d)).collect()
}

/// The diagnostics of a document, from its quick process and from its
/// checking process.
pub struct DiagnosticsStateMachine {
    pub lax_diagnostics: Vec<Diagnostic>,
    pub full_diagnostics: Vec<Diagnostic>,
}

impl DiagnosticsStateMachine {
    pub fn new() -> (m: Self)
        ensures
            m.lax_diagnostics@.len() == 0,
            m.full_diagnostics@.len() == 0,
    {
        DiagnosticsStateMachine { lax_diagnostics: Vec::new(), full_diagnostics: Vec::new() }
    }

    /// A new check starts: forgets the diagnostics of that process.
    pub fn start(&mut self, ide_type: IdeType)
        ensures
            ide_type == IdeType::Lax ==> final(self).lax_diagnostics@.len() == 0
                && final(self).full_diagnostics@ == old(self).full_diagnostics@,
            ide_type == IdeType::Full ==> final(self).full_diagnostics@.len() == 0
                && final(self).lax_diagnostics@ == old(self).lax_diagnostics@,
    {
        match ide_type {
            IdeType::Lax => self.lax_diagnostics.clear(),
            IdeType::Full => self.full_diagnostics.clear(),
        }
    }

    /// Records the diagnostic of an error reported by one process.
    pub fn process_error(&mut self, ide_type: IdeType, error: VerificationFailureResponseItem)
        requires
            error.ranges@.len() > 0,
        ensures
            ide_type == IdeType::Lax ==> final(self).lax_diagnostics@.len() == old(self).lax_diagnostics@.len() + 1
                && final(self).lax_diagnostics@.drop_last() == old(self).lax_diagnostics@
                && is_diagnostic_of(final(self).lax_diagnostics@.last(), error)
                && final(self).full_diagnostics@ == old(self).full_diagnostics@,
            ide_type == IdeType::Full ==> final(self).full_diagnostics@.len() == old(self).full_diagnostics@.len() + 1
                && final(self).full_diagnostics@.drop_last() == old(self).full_diagnostics@
                && is_diagnostic_of(final(self).full_diagnostics@.last(), error)
                && final(self).lax_diagnostics@ == old(self).lax_diagnostics@,
    {
        let diagnostic = diagnostic_of(&error);
        match ide_type {
            IdeType::Lax => self.lax_diagnostics.push(diagnostic),
            IdeType::Full => self.full_diagnostics.push(diagnostic),
        }
        assert(self.lax_diagnostics@.drop_last() =~= old(self).lax_diagnostics@ || ide_type == IdeType::Full);
        assert(self.full_diagnostics@.drop_last() =~= old(self).full_diagnostics@ || ide_type == IdeType::Lax);
    }

    /// The diagnostics to publish: those of the quick process, then those of
    /// the checking process, keeping the first of each range and message.
    pub fn finish(&self) -> (ds: Vec<Diagnostic>)
        ensures
            ds@ == first_of_each_key(self.lax_diagnostics@ + self.full_diagnostics@),
    {
        let mut all: Vec<Diagnostic> = Vec::new();
        let mut i: usize = 0;
        while i < self.lax_diagnostics.len()
            invariant
                i <= self.lax_diagnostics@.len(),
                all@ == self.lax_diagnostics@.take(i as int),
            decreases self.lax_diagnostics@.len() - i,
        {
            all.push(self.lax_diagnostics[i].clone());
            i = i + 1;
            assert(all@ =~= self.lax_diagnostics@.take(i as int));
        }
        let mut j: usize = 0;
        while j < self.full_diagnostics.len()
            invariant
                j <= self.full_diagnostics@.len(),
                all@ == self.lax_diagnostics@ + self.full_diagnostics@.take(j as int),
            decreases self.full_diagnostics@.len() - j,
        {
            all.push(self.full_diagnostics[j].clone());
            j = j + 1;
            assert(all@ =~= self.lax_diagnostics@ + self.full_diagnostics@.take(j as int));
        }
        assert(self.lax_diagnostics@.take(self.lax_diagnostics@.len() as int) =~= self.lax_diagnostics@);
        assert(self.full_diagnostics@.take(self.full_diagnostics@.len() as int) =~= self.full_diagnostics@);
        unique_by_identity(all)
    }
}

/// A notification of the verification status of a document.
#[derive(PartialEq, Eq, Structural, Clone, Copy, Debug)]
pub enum StatusNotification {
    /// All fragments lose their status.
    ClearStatus,
    /// A fragment gets a status.
    SetStatus(FragmentStatusUpdate),
}

/// The verification status of a document, as last notified.
pub struct StatusStateMachine {
    pub last_status: Option<FragmentStatusUpdate>,
}

impl StatusStateMachine {
    pub fn new() -> (m: Self)
        ensures
            m.last_status is None,
    {
        StatusStateMachine { last_status: None }
    }

    /// A new check starts: every status is cleared.
    pub fn start(&mut self) -> (n: StatusNotification)
        ensures
            final(self).last_status is None,
            n == StatusNotification::ClearStatus,
    {
        self.last_status = None;
        StatusNotification::ClearStatus
    }

    /// A fragment changes status: the change is notified and remembered.
    pub fn process_fragment_status_update(&mut self, msg: FragmentStatusUpdate) -> (n: StatusNotification)
        ensures
            final(self).last_status == Some(msg),
            n == StatusNotification::SetStatus(msg),
    {
        self.last_status = Some(msg);
        StatusNotification::SetStatus(msg)
    }

    /// The check ends: a fragment still in progress is shown as canceled.
    pub fn finish(&self) -> (n: Option<StatusNotification>)
        ensures
            n == (match self.last_status {
                Some(last) => if last.status_type == FragmentStatus::InProgress {
                    Some(StatusNotification::SetStatus(FragmentStatusUpdate { status_type: FragmentStatus::Canceled, range: last.range }))
                } else {
                    None
                },
                None => None,
            }),
    {
        match self.last_status {
            Some(last) => {
                if last.status_type == FragmentStatus::InProgress {
                    Some(StatusNotification::SetStatus(FragmentStatusUpdate { status_type: FragmentStatus::Canceled, range: last.range }))
                } else {
                    None
                }
            },
            None => None,
        }
    }
}

/// The diagnostics of `ds` after those of `errors` are appended, in order.
pub open spec fn appends_diagnostics_of(
    before: Seq<Diagnostic>,
    after: Seq<Diagnostic>,
    errors: Seq<VerificationFailureResponseItem>,
) -> bool {
    &&& after.len() == before.len() + errors.len()
    &&& after.take(before.len() as int) == before
    &&& forall|i: int| 0 <= i < errors.len() ==> is_diagnostic_of(#[trigger] after[before.len() + i], errors[i])
}

/// Every error of the list names at least one range.
pub open spec fn errors_have_ranges(errors: Seq<VerificationFailureResponseItem>) -> bool {
    forall|i: int| 0 <= i < errors.len() ==> (#[trigger] errors[i]).ranges@.len() > 0
}

/// Whether every error of the list names at least one range (a diagnostic
/// is shown only for such errors).
pub fn all_errors_have_ranges(errors: &Vec<VerificationFailureResponseItem>) -> (b: bool)
    ensures
        b == errors_have_ranges(errors@),
{
    let mut i: usize = 0;
    while i < errors.len()
        invariant
            i <= errors@.len(),
            forall|j: int| 0 <= j < i ==> (#[trigger] errors@[j]).ranges@.len() > 0,
        decreases errors@.len() - i,
    {
        if errors[i].ranges.len() == 0 {
            return false;
        }
        i = i + 1;
    }
    true
}

fn push_diagnostics(ds: &mut Vec<Diagnostic>, errors: &Vec<VerificationFailureResponseItem>)
    requires
        errors_have_ranges(errors@),
    ensures
        appends_diagnostics_of(old(ds)@, final(ds)@, errors@),
{
    let ghost before = ds@;
    let mut i: usize = 0;
    while i < errors.len()
        invariant
            i <= errors@.len(),
            errors_have_ranges(errors@),
            ds@.len() == before.len() + i,
            ds@.take(before.len() as int) == before,
            forall|j: int| 0 <= j < i ==> is_diagnostic_of(#[trigger] ds@[before.len() + j], errors@[j]),
        decreases errors@.len() - i,
    {
        let d = diagnostic_of(&errors[i]);
        ds.push(d);
        assert(ds@.take(before.len() as int) =~= before);
        i = i + 1;
    }
}

/// A notification that the server sends to the editor.
#[derive(Debug)]
pub enum ClientNotification {
    /// The diagnostics of the document, replacing those published before.
    PublishDiagnostics(Vec<Diagnostic>),
    /// A change of the verification status.
    Status(StatusNotification),
}

/// The status notifications of a message from the checking process.
pub open spec fn status_notifications(last: Option<FragmentStatusUpdate>, message: FullBufferMessage) -> Seq<StatusNotification> {
    match message {
        FullBufferMessage::Started => seq![StatusNotification::ClearStatus],
        FullBufferMessage::FragmentStatusUpdate(upd) => seq![StatusNotification::SetStatus(upd)],
        FullBufferMessage::Finished => match last {
            Some(l) => if l.status_type == FragmentStatus::InProgress {
                seq![StatusNotification::SetStatus(FragmentStatusUpdate { status_type: FragmentStatus::Canceled, range: l.range })]
            } else {
                Seq::empty()
            },
            None => Seq::empty(),
        },
        FullBufferMessage::Error(_) => Seq::empty(),
    }
}

/// `ns` holds `published` notifications, then exactly the status changes
/// `statuses`, in order.
pub open spec fn status_notifications_follow(
    ns: Seq<ClientNotification>,
    published: int,
    statuses: Seq<StatusNotification>,
) -> bool {
    &&& ns.len() == published + statuses.len()
    &&& forall|i: int| 0 <= i < statuses.len() ==> (#[trigger] ns[published + i]) == ClientNotification::Status(statuses[i])
}

/// One message handled: `before` becomes `after` and `ns` are the
/// notifications sent. A start forgets the diagnostics of its process, an
/// error adds its diagnostics to those of its process, and a finished check
/// publishes the diagnostics of both; the status of the checking process
/// follows its own messages only.
pub open spec fn handles(
    before: FullBufferMessageLoop,
    msg: IdeFullBufferMessage,
    after: FullBufferMessageLoop,
    ns: Seq<ClientNotification>,
) -> bool {
    let old_lax = before.diagnostics.lax_diagnostics@;
    let old_full = before.diagnostics.full_diagnostics@;
    let lax = after.diagnostics.lax_diagnostics@;
    let full = after.diagnostics.full_diagnostics@;
    let is_lax = msg.ide_type == IdeType::Lax;
    &&& match msg.message {
        FullBufferMessage::Started => {
            &&& (if is_lax { lax.len() == 0 } else { lax == old_lax })
            &&& (if is_lax { full == old_full } else { full.len() == 0 })
        },
        FullBufferMessage::Error(errors) => {
            &&& (if is_lax { appends_diagnostics_of(old_lax, lax, errors@) } else { lax == old_lax })
            &&& (if is_lax { full == old_full } else { appends_diagnostics_of(old_full, full, errors@) })
        },
        _ => lax == old_lax && full == old_full,
    }
    &&& after.status.last_status == (if is_lax { before.status.last_status } else {
        match msg.message {
            FullBufferMessage::Started => None,
            FullBufferMessage::FragmentStatusUpdate(upd) => Some(upd),
            _ => before.status.last_status,
        }
    })
    &&& {
        let published: int = if msg.message is Finished { 1 } else { 0 };
        let statuses = if is_lax { Seq::empty() } else {
            status_notifications(before.status.last_status, msg.message)
        };
        &&& status_notifications_follow(ns, published, statuses)
        &&& msg.message is Finished ==> (ns[0] matches ClientNotification::PublishDiagnostics(ds)
            && ds@ == first_of_each_key(lax + full))
    }
}

/// What the server keeps of the full-buffer messages of one document.
pub struct FullBufferMessageLoop {
    pub diagnostics: DiagnosticsStateMachine,
    pub status: StatusStateMachine,
}

impl FullBufferMessageLoop {
    pub fn new() -> (l: Self)
        ensures
            l.diagnostics.lax_diagnostics@.len() == 0,
            l.diagnostics.full_diagnostics@.len() == 0,
            l.status.last_status is None,
    {
        FullBufferMessageLoop { diagnostics: DiagnosticsStateMachine::new(), status: StatusStateMachine::new() }
    }

    /// Takes one message of either process and gives the notifications to
    /// send, in order: the diagnostics (when a check finishes), then, for the
    /// checking process only, the status changes.
    pub fn handle(&mut self, msg: IdeFullBufferMessage) -> (ns: Vec<ClientNotification>)
        requires
            msg.message matches FullBufferMessage::Error(errors) ==> errors_have_ranges(errors@),
        ensures
            handles(*old(self), msg, *final(self), ns@),
    {
        let mut ns: Vec<ClientNotification> = Vec::new();
        let ide_type = msg.ide_type;
        match &msg.message {
            FullBufferMessage::Started => {
                self.diagnostics.start(ide_type);
            },
            FullBufferMessage::Error(errors) => {
                match ide_type {
                    IdeType::Lax => push_diagnostics(&mut self.diagnostics.lax_diagnostics, errors),
                    IdeType::Full => push_diagnostics(&mut self.diagnostics.full_diagnostics, errors),
                }
            },
            FullBufferMessage::Finished => {
                ns.push(ClientNotification::PublishDiagnostics(self.diagnostics.finish()));
            },
            FullBufferMessage::FragmentStatusUpdate(_) => {},
        }
        let ghost published = ns@;
        if ide_type == IdeType::Full {
            match msg.message {
                FullBufferMessage::Started => {
                    let n = self.status.start();
                    ns.push(ClientNotification::Status(n));
                },
                FullBufferMessage::FragmentStatusUpdate(upd) => {
                    let n = self.status.process_fragment_status_update(upd);
                    ns.push(ClientNotification::Status(n));
                },
                FullBufferMessage::Finished => {
                    match self.status.finish() {
                        Some(n) => ns.push(ClientNotification::Status(n)),
                        None => {},
                    }
                },
                FullBufferMessage::Error(_) => {},
            }
        }
        ns
    }
}

/// `ds` are the diagnostics of `errors`, one for each, in order.
pub open spec fn diagnostics_of_errors(ds: Seq<Diagnostic>, errors: Seq<VerificationFailureResponseItem>) -> bool {
    &&& ds.len() == errors.len()
    &&& forall|i: int| 0 <= i < ds.len() ==> is_diagnostic_of(#[trigger] ds[i], errors[i])
}

/// The errors that process `t` reported in `msgs` since its last check
/// started (all of them when none started).
pub open spec fn errors_since_start(msgs: Seq<IdeFullBufferMessage>, t: IdeType) -> Seq<VerificationFailureResponseItem>
    decreases msgs.len(),
{
    if msgs.len() == 0 {
        Seq::empty()
    } else {
        let earlier = errors_since_start(msgs.drop_last(), t);
        let m = msgs.last();
        if m.ide_type == t {
            match m.message {
                FullBufferMessage::Started => Seq::empty(),
                FullBufferMessage::Error(errors) => earlier + errors@,
                _ => earlier,
            }
        } else {
            earlier
        }
    }
}

/// The status of the checking process after `msgs`: none after its last
/// start, else the last fragment status it reported.
pub open spec fn status_after(msgs: Seq<IdeFullBufferMessage>) -> Option<FragmentStatusUpdate>
    decreases msgs.len(),
{
    if msgs.len() == 0 {
        None
    } else {
        let earlier = status_after(msgs.drop_last());
        let m = msgs.last();
        if m.ide_type == IdeType::Full {
            match m.message {
                FullBufferMessage::Started => None,
                FullBufferMessage::FragmentStatusUpdate(upd) => Some(upd),
                _ => earlier,
            }
        } else {
            earlier
        }
    }
}

/// The state of a loop that began empty and took the messages `prior`.
pub open spec fn state_after(s: FullBufferMessageLoop, prior: Seq<IdeFullBufferMessage>) -> bool {
    &&& diagnostics_of_errors(s.diagnostics.lax_diagnostics@, errors_since_start(prior, IdeType::Lax))
    &&& diagnostics_of_errors(s.diagnostics.full_diagnostics@, errors_since_start(prior, IdeType::Full))
    &&& s.status.last_status == status_after(prior)
}

/// The notifications `ns` sent for message `msg` by a loop in state `s`
/// after the messages `prior`: when a check finishes, the diagnostics of both
/// processes (those of the quick one first, the first of each range and
/// message kept); then, for the checking process only, its status changes.
pub open spec fn notified_after(
    s: FullBufferMessageLoop,
    prior: Seq<IdeFullBufferMessage>,
    msg: IdeFullBufferMessage,
    ns: Seq<ClientNotification>,
) -> bool {
    let published: int = if msg.message is Finished { 1 } else { 0 };
    let statuses = if msg.ide_type == IdeType::Lax {
        Seq::empty()
    } else {
        status_notifications(status_after(prior), msg.message)
    };
    &&& status_notifications_follow(ns, published, statuses)
    &&& msg.message is Finished ==> (ns[0] matches ClientNotification::PublishDiagnostics(ds)
        && ds@ == first_of_each_key(s.diagnostics.lax_diagnostics@ + s.diagnostics.full_diagnostics@))
}

proof fn lemma_appended_diagnostics(
    before: Seq<Diagnostic>,
    after: Seq<Diagnostic>,
    earlier: Seq<VerificationFailureResponseItem>,
    errors: Seq<VerificationFailureResponseItem>,
)
    requires
        diagnostics_of_errors(before, earlier),
        appends_diagnostics_of(before, after, errors),
    ensures
        diagnostics_of_errors(after, earlier + errors),
{
    let all = earlier + errors;
    assert forall|i: int| 0 <= i < after.len() implies is_diagnostic_of(#[trigger] after[i], all[i]) by {
        if i < before.len() {
            assert(after[i] == after.take(before.len() as int)[i]);
        } else {
            let j = i - before.len();
            assert(is_diagnostic_of(after[before.len() + j], errors[j]));
        }
    }
}

proof fn lemma_message_stream_prefix(
    states: Seq<FullBufferMessageLoop>,
    msgs: Seq<IdeFullBufferMessage>,
    nss: Seq<Seq<ClientNotification>>,
    n: int,
)
    requires
        states.len() == msgs.len() + 1,
        nss.len() == msgs.len(),
        states[0].diagnostics.lax_diagnostics@.len() == 0,
        states[0].diagnostics.full_diagnostics@.len() == 0,
        states[0].status.last_status is None,
        forall|i: int| 0 <= i < msgs.len() ==> #[trigger] handles(states[i], msgs[i], states[i + 1], nss[i]),
        0 <= n <= msgs.len(),
    ensures
        state_after(states[n], msgs.take(n)),
    decreases n,
{
    if n == 0 {
        assert(msgs.take(0) =~= Seq::<IdeFullBufferMessage>::empty());
    } else {
        let i = n - 1;
        lemma_message_stream_prefix(states, msgs, nss, i);
        assert(handles(states[i], msgs[i], states[i + 1], nss[i]));
        let prior = msgs.take(i);
        let now = msgs.take(n);
        assert(now.drop_last() =~= prior);
        assert(now.last() == msgs[i]);
        let m = msgs[i];
        let b = states[i];
        let a = states[n];
        if let FullBufferMessage::Error(errors) = m.message {
            if m.ide_type == IdeType::Lax {
                lemma_appended_diagnostics(b.diagnostics.lax_diagnostics@, a.diagnostics.lax_diagnostics@,
                    errors_since_start(prior, IdeType::Lax), errors@);
            } else {
                lemma_appended_diagnostics(b.diagnostics.full_diagnostics@, a.diagnostics.full_diagnostics@,
                    errors_since_start(prior, IdeType::Full), errors@);
            }
        }
    }
}

/// The loop over a document's full-buffer messages: when a loop that began
/// empty has handled messages `msgs` one by one (going through `states`
/// and sending `nss[i]` for `msgs[i]`), then after every prefix of the
/// messages each process holds exactly the diagnostics of the errors it
/// reported since its last check started, and the status is that of the
/// checking process's last start or fragment; so each finished check
/// publishes exactly those diagnostics (the quick process's first, the first
/// of each range and message kept), and status changes are sent for the
/// checking process alone, following its own messages.
pub proof fn law_message_stream(
    states: Seq<FullBufferMessageLoop>,
    msgs: Seq<IdeFullBufferMessage>,
    nss: Seq<Seq<ClientNotification>>,
)
    requires
        states.len() == msgs.len() + 1,
        nss.len() == msgs.len(),
        states[0].diagnostics.lax_diagnostics@.len() == 0,
        states[0].diagnostics.full_diagnostics@.len() == 0,
        states[0].status.last_status is None,
        forall|i: int| 0 <= i < msgs.len() ==> #[trigger] handles(states[i], msgs[i], states[i + 1], nss[i]),
    ensures
        forall|n: int| 0 <= n <= msgs.len() ==> #[trigger] state_after(states[n], msgs.take(n)),
        forall|i: int| 0 <= i < msgs.len() ==> #[trigger] notified_after(states[i], msgs.take(i), msgs[i], nss[i]),
{
    assert forall|n: int| 0 <= n <= msgs.len() implies #[trigger] state_after(states[n], msgs.take(n)) by {
        lemma_message_stream_prefix(states, msgs, nss, n);
    }
    assert forall|i: int| 0 <= i < msgs.len() implies #[trigger] notified_after(states[i], msgs.take(i), msgs[i], nss[i]) by {
        lemma_message_stream_prefix(states, msgs, nss, i);
        assert(handles(states[i], msgs[i], states[i + 1], nss[i]));
        assert(state_after(states[i], msgs.take(i)));
    }
}

/// The text shown when hovering a symbol: `name: type`. Hovers that carry
/// documentation are not shown.
pub fn hover_text(result: &HoverResultText) -> (s: String)
    requires
        result is NoDocumentation,
    ensures
        match result {
            HoverResultText::NoDocumentation { full_name, type_ } => s@ == full_name@ + ": "@ + type_@,
            _ => false,
        },
{
    match result {
        HoverResultText::NoDocumentation { full_name, type_ } => {
            let mut s = full_name.clone();
            s.append(": ");
            s.append(type_.as_str());
            s
        },
        HoverResultText::WithDocumentation { .. } => {
            assert(false);
            String::new()
        },
    }
}


/// Each F* failure level keeps its own severity: errors are shown as errors,
/// warnings as warnings and informational messages as information, so no two
/// levels share a severity.
pub proof fn law_severity_per_level(a: VerificationFailureLevel, b: VerificationFailureLevel)
    ensures
        severity_of(VerificationFailureLevel::Error) == DiagnosticSeverity::Error,
        severity_of(VerificationFailureLevel::Warning) == DiagnosticSeverity::Warning,
        severity_of(VerificationFailureLevel::Info) == DiagnosticSeverity::Information,
        severity_of(a) == severity_of(b) ==> a == b,
{
}

/// Diagnostics are told apart by their whole range and their message: two
/// diagnostics share a key exactly when their ranges and their messages are
/// equal, so diagnostics at different places, or with different messages,
/// are never merged when published.
pub proof fn law_diagnostic_key_identifies_range_and_message(a: Diagnostic, b: Diagnostic)
    ensures
        diagnostic_key(a) == diagnostic_key(b) <==> (a.range == b.range && a.message@ == b.message@),
{
    if diagnostic_key(a) == diagnostic_key(b) {
        assert(a.range.start == b.range.start);
        assert(a.range.end == b.range.end);
    }
}

} // verus!
