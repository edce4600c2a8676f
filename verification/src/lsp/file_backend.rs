//! The per-document logic of the server: what lies under the cursor, which
//! queries the document sends to its F* processes, and how their replies
//! become answers for the editor.

use vstd::prelude::*;
use crate::fstar::{
    fstar_position_of, lsp_range_of, AutoCompleteContext, AutoCompleteQuery, AutoCompleteResponse, BarePosition,
    CancelPosition, FullBufferKind, FullBufferQuery, LookupContext, LookupQuery, LookupRequest,
    LookupResponse, Message, Position, ProgressMessage, ProgressMessageOrNull, Query,
    ResponseOrMessage, ResponseStatus, VerificationFailureResponse, VfsAddQuery,
};
use crate::lsp::types::{LspPosition, LspRange};
use crate::paths::{join_paths, parent_of, path_joined, path_parent};
use crate::text::{
    chars_of, char_len_utf8, lemma_utf8_len_encoding, lemma_utf8_len_subrange,
    lemma_utf8_len_take_step, lines_of, nth_line_bounds, push_char, utf8_len,
};

verus! {

/// Characters that may occur in an F* identifier: ASCII letters and digits,
/// `_`, `.` and `'`.
pub open spec fn is_ident_char(c: char) -> bool {
    ||| 48 <= (c as u32) <= 57
    ||| 65 <= (c as u32) <= 90
    ||| 97 <= (c as u32) <= 122
    ||| c == '_'
    ||| c == '.'
    ||| c == '\''
}

fn ident_char(c: char) -> (b: bool)
    ensures
        b == is_ident_char(c),
{
    let v: u32 = c as u32;
    (48 <= v && v <= 57) || (65 <= v && v <= 90) || (97 <= v && v <= 122) || c == '_' || c == '.'
        || c == '\''
}

/// The outcome of a hover on a symbol.
#[derive(Debug)]
pub enum HoverResultText {
    NoDocumentation { full_name: String, type_: String },
    WithDocumentation { full_name: String, type_: String, documentation: String },
}

#[derive(Debug)]
pub struct HoverResult {
    pub result: HoverResultText,
    pub range: LspRange,
}

/// The file of a definition: the document itself, or another file by path.
#[derive(Debug)]
pub enum GotoDefinitionResultFile {
    ThisFile,
    OtherFile(String),
}

#[derive(Debug)]
pub struct GotoDefinitionResult {
    pub file: GotoDefinitionResultFile,
    pub range: LspRange,
}

#[derive(Debug)]
pub struct CompleteResultItem {
    pub match_length: u32,
    pub annotation: String,
    pub candidate: String,
}

pub type CompleteResult = Vec<CompleteResultItem>;

/// The verification status of a fragment of the document.
#[derive(PartialEq, Eq, Structural, Copy, Clone, Debug)]
pub enum FragmentStatus {
    InProgress,
    LaxOk,
    Verified,
    Failed,
    Canceled,
}

#[derive(PartialEq, Eq, Structural, Copy, Clone, Debug)]
pub struct FragmentStatusUpdate {
    pub status_type: FragmentStatus,
    pub range: LspRange,
}

/// What a full-buffer query reports, as the server reads it.
#[derive(Debug)]
pub enum FullBufferMessage {
    Started,
    FragmentStatusUpdate(FragmentStatusUpdate),
    Finished,
    Error(VerificationFailureResponse),
}

/// The two F* processes of a document: one that admits every proof
/// obligation (quick feedback) and one that checks them.
#[derive(PartialEq, Eq, Structural, Copy, Clone, Debug)]
pub enum IdeType {
    Lax,
    Full,
}

#[derive(Debug)]
pub struct IdeFullBufferMessage {
    pub ide_type: IdeType,
    pub message: FullBufferMessage,
}

/// `line[a..b]` is a word: a maximal non-empty run of identifier characters.
pub open spec fn is_word(line: Seq<char>, a: int, b: int) -> bool {
    &&& 0 <= a < b <= line.len()
    &&& forall|j: int| a <= j < b ==> is_ident_char(#[trigger] line[j])
    &&& (a == 0 || !is_ident_char(line[a - 1]))
    &&& (b == line.len() || !is_ident_char(line[b]))
}

/// The byte offset of the `k`th character of `line`.
pub open spec fn byte_offset(line: Seq<char>, k: int) -> nat {
    utf8_len(line.take(k))
}

/// The word `line[a..b]` holds the cursor at byte `p`: from its first byte to
/// just after its last.
pub open spec fn word_covers(line: Seq<char>, a: int, b: int, p: nat) -> bool {
    byte_offset(line, a) <= p <= byte_offset(line, b)
}

/// The text given for the word `line[a..b]`: the characters from index
/// "byte offset of its start" to index "byte offset of its end" (the two
/// agree on ASCII text).
pub open spec fn word_symbol(line: Seq<char>, a: int, b: int) -> Seq<char> {
    let s = byte_offset(line, a);
    let e = byte_offset(line, b);
    let len = line.len();
    line.subrange(if s < len { s as int } else { len as int }, if e < len { e as int } else { len as int })
}

/// The editor range given for the word `line[a..b]` on line `line_no`:
/// its byte offsets as columns.
pub open spec fn word_range(line: Seq<char>, a: int, b: int, line_no: u32) -> LspRange {
    LspRange {
        start: LspPosition { line: line_no, character: byte_offset(line, a) as u32 },
        end: LspPosition { line: line_no, character: byte_offset(line, b) as u32 },
    }
}

/// A symbol under the cursor and where it stands.
pub struct SymbolInfo {
    pub symbol: String,
    pub range: LspRange,
}

/// Two words of a line never both hold the same cursor byte.
pub proof fn law_covering_word_unique(line: Seq<char>, a1: int, b1: int, a2: int, b2: int, p: nat)
    requires
        is_word(line, a1, b1),
        is_word(line, a2, b2),
        word_covers(line, a1, b1, p),
        word_covers(line, a2, b2, p),
    ensures
        a1 == a2 && b1 == b2,
{
    if a1 != a2 {
        if a1 < a2 {
            lemma_words_apart(line, a1, b1, a2, b2);
        } else {
            lemma_words_apart(line, a2, b2, a1, b1);
        }
    }
    lemma_word_start_unique(line, a1, b1, a2, b2);
}

/// Words that overlap are the same word.
proof fn lemma_word_start_unique(line: Seq<char>, a1: int, b1: int, a2: int, b2: int)
    requires
        is_word(line, a1, b1),
        is_word(line, a2, b2),
        a1 == a2 || b1 == b2,
    ensures
        a1 == a2 && b1 == b2,
{
    if a1 == a2 {
        if b1 < b2 {
            assert(is_ident_char(line[b1]));
        } else if b2 < b1 {
            assert(is_ident_char(line[b2]));
        }
    } else {
        if a1 < a2 {
            assert(is_ident_char(line[a2 - 1]));
        } else {
            assert(is_ident_char(line[a1 - 1]));
        }
    }
}

/// A word that starts before another ends at least one byte before it starts.
proof fn lemma_words_apart(line: Seq<char>, a1: int, b1: int, a2: int, b2: int)
    requires
        is_word(line, a1, b1),
        is_word(line, a2, b2),
        a1 < a2,
    ensures
        byte_offset(line, b1) < byte_offset(line, a2),
{
    if a2 < b1 {
        assert(is_ident_char(line[a2 - 1]));
    }
    assert(b1 < a2) by {
        if b1 == a2 {
            assert(!is_ident_char(line[b1]));
        }
    }
    lemma_utf8_len_take_step(line, b1);
    assert(line.take(a2) =~= line.take(b1 + 1) + line.subrange(b1 + 1, a2));
    crate::text::lemma_utf8_len_concat(line.take(b1 + 1), line.subrange(b1 + 1, a2));
}

/// Every character of `s` is ASCII.
pub open spec fn is_ascii_line(s: Seq<char>) -> bool {
    forall|j: int| 0 <= j < s.len() ==> (#[trigger] s[j] as u32) < 0x80
}

proof fn lemma_ascii_byte_offset(s: Seq<char>, k: int)
    requires
        is_ascii_line(s),
        0 <= k <= s.len(),
    ensures
        byte_offset(s, k) == k,
    decreases k,
{
    if k > 0 {
        lemma_ascii_byte_offset(s, k - 1);
        lemma_utf8_len_take_step(s, k - 1);
    } else {
        assert(s.take(0) =~= Seq::<char>::empty());
    }
}

/// On an ASCII line, byte offsets are character indices: the symbol given
/// for a word is exactly that word, and its range spans exactly its columns.
pub proof fn law_ascii_word_is_symbol(line: Seq<char>, a: int, b: int, line_no: u32)
    requires
        is_ascii_line(line),
        is_word(line, a, b),
    ensures
        word_symbol(line, a, b) == line.subrange(a, b),
        byte_offset(line, a) == a,
        byte_offset(line, b) == b,
{
    lemma_ascii_byte_offset(line, a);
    lemma_ascii_byte_offset(line, b);
}

/// The word of line `pos.line` of `text` that holds the cursor, with the
/// cursor's column read as a byte offset into the line.
pub fn get_symbol_at(text: &str, pos: LspPosition) -> (r: Option<SymbolInfo>)
    requires
        (pos.line as int) < lines_of(text@).len(),
    ensures
        ({
            let line = lines_of(text@)[pos.line as int];
            match r {
                Some(info) => exists|a: int, b: int|
                    {
                        &&& #[trigger] is_word(line, a, b)
                        &&& word_covers(line, a, b, pos.character as nat)
                        &&& info.symbol@ == word_symbol(line, a, b)
                        &&& info.range == word_range(line, a, b, pos.line)
                    },
                None => forall|a: int, b: int|
                    #[trigger] is_word(line, a, b) ==> !word_covers(line, a, b, pos.character as nat),
            }
        }),
{
    let chars = chars_of(text);
    let nbytes = text.as_bytes().len();
    proof {
        lemma_utf8_len_encoding(text@);
    }
    let bounds = nth_line_bounds(&chars, pos.line as usize);
    let (start, end) = match bounds {
        Some(b) => b,
        None => {
            assert(false);
            return None;
        },
    };
    let ghost line = chars@.subrange(start as int, end as int);
    proof {
        lemma_utf8_len_subrange(chars@, start as int, end as int);
    }
    let len: usize = end - start;
    let p: usize = pos.character as usize;
    let mut k: usize = 0;
    let mut i: usize = 0;
    let mut run: Option<(usize, usize)> = None;
    assert(line.take(0) =~= Seq::<char>::empty());
    loop
        invariant
            line == chars@.subrange(start as int, end as int),
            line == lines_of(text@)[pos.line as int],
            start <= end <= chars@.len(),
            len == end - start,
            p == pos.character,
            utf8_len(line) <= nbytes,
            k <= len,
            i == byte_offset(line, k as int),
            match run {
                None => k == 0 || !is_ident_char(line[k - 1]),
                Some((a, ab)) => {
                    &&& a < k
                    &&& ab == byte_offset(line, a as int)
                    &&& forall|j: int| a <= j < k ==> is_ident_char(#[trigger] line[j])
                    &&& (a == 0 || !is_ident_char(line[a - 1]))
                },
            },
            forall|a: int, b: int|
                #[trigger] is_word(line, a, b) && b < k ==> !word_covers(line, a, b, p as nat),
        decreases len + 1 - k,
    {
        let c_is_ident = k < len && ident_char(chars[start + k]);
        assert(k < len ==> chars@[start + k] == line[k as int]);
        if let Some((a, ab)) = run {
            if !c_is_ident && ab <= p && p <= i {
                assert(is_word(line, a as int, k as int));
                let sym_start: usize = if ab < len { ab } else { len };
                let sym_end: usize = if i < len { i } else { len };
                let mut symbol = String::new();
                let mut j: usize = sym_start;
                while j < sym_end
                    invariant
                        sym_start <= j <= sym_end <= len,
                        len == end - start,
                        end <= chars@.len(),
                        line == chars@.subrange(start as int, end as int),
                        symbol@ == line.subrange(sym_start as int, j as int),
                    decreases sym_end - j,
                {
                    push_char(&mut symbol, chars[start + j]);
                    j = j + 1;
                    assert(symbol@ =~= line.subrange(sym_start as int, j as int));
                }
                let range = LspRange {
                    start: LspPosition { line: pos.line, character: ab as u32 },
                    end: LspPosition { line: pos.line, character: i as u32 },
                };
                assert(symbol@ == word_symbol(line, a as int, k as int));
                assert(range == word_range(line, a as int, k as int, pos.line));
                return Some(SymbolInfo { symbol, range });
            }
        }
        proof {
            if !c_is_ident {
                assert forall|a: int, b: int|
                    #[trigger] is_word(line, a, b) && b < k + 1 implies !word_covers(line, a, b, p as nat) by {
                    if b == k {
                        assert(is_ident_char(line[k - 1]));
                        match run {
                            Some((a2, ab2)) => {
                                assert(is_word(line, a2 as int, k as int));
                                lemma_word_start_unique(line, a, b, a2 as int, k as int);
                            },
                            None => {},
                        }
                    }
                }
            }
        }
        if k == len {
            proof {
                assert forall|a: int, b: int| #[trigger] is_word(line, a, b) implies !word_covers(line, a, b, p as nat) by {
                    assert(b < k + 1);
                }
            }
            return None;
        }
        if run.is_none() && c_is_ident {
            run = Some((k, i));
        }
        if !c_is_ident {
            run = None;
        }
        let w = char_len_utf8(chars[start + k]);
        proof {
            lemma_utf8_len_take_step(line, k as int);
            lemma_utf8_len_subrange(line, 0, k + 1);
        }
        i = i + w;
        k = k + 1;
    }
}


/// Whether `text` has a line `line` (from zero): whether a symbol can be
/// looked up on it.
pub fn document_has_line(text: &str, line: u32) -> (b: bool)
    ensures
        b == ((line as int) < lines_of(text@).len()),
{
    let chars = chars_of(text);
    nth_line_bounds(&chars, line as usize).is_some()
}

/// A query for one of the two F* processes of a document.
pub struct IdeRequest {
    pub ide_type: IdeType,
    pub query: Query,
}

/// `q` is the full-buffer query of `code` with `kind`, without symbols.
pub open spec fn is_full_buffer_query(q: Query, code: Seq<char>, kind: FullBufferKind) -> bool {
    q matches Query::FullBuffer(fb) && fb.code@ == code && fb.kind == kind && !fb.with_symbols
}

/// `r` asks process `ide_type` for the full-buffer query of `code` with `kind`.
pub open spec fn is_full_buffer_request(r: IdeRequest, ide_type: IdeType, code: Seq<char>, kind: FullBufferKind) -> bool {
    r.ide_type == ide_type && is_full_buffer_query(r.query, code, kind)
}

/// `q` hands F* the document text `text` (under no file name).
pub open spec fn is_vfs_add_query(q: Query, text: Seq<char>) -> bool {
    q matches Query::VfsAdd(v) && v.filename is None && v.contents@ == text
}

/// The F* side of an open document: its path, its current text, whether it
/// has a quick (lax) process beside the checking one, the working directory
/// of those processes and the arguments each is started with.
pub struct FileBackend {
    pub path: String,
    pub text: String,
    pub has_lax_ide: bool,
    pub working_dir: String,
    pub full_ide_args: Vec<String>,
    pub lax_ide_args: Vec<String>,
}

/// The configuration of a configuration file found for a document.
pub open spec fn found_config(found: Option<(Config, String)>) -> Option<Config> {
    match found {
        None => None,
        Some((c, _)) => Some(c),
    }
}

/// The working directory of the F* processes of the document at `path`, given
/// the configuration file found for it and the directory holding that file:
/// without one, the document's directory (`.` when the path has no parent);
/// with one, its `cwd` resolved against that directory, or the directory
/// itself when it sets none.
pub open spec fn working_dir_of(path: Seq<char>, found: Option<(Config, String)>) -> Seq<char> {
    match found {
        None => match path_parent(path) {
            Some(parent) => parent,
            None => "."@,
        },
        Some((c, dir)) => match c.cwd {
            None => dir@,
            Some(cwd) => path_joined(dir@, cwd@),
        },
    }
}

/// Two states of one document: everything but the text agrees.
pub open spec fn same_document(a: FileBackend, b: FileBackend) -> bool {
    &&& a.path == b.path
    &&& a.has_lax_ide == b.has_lax_ide
    &&& a.working_dir == b.working_dir
    &&& a.full_ide_args == b.full_ide_args
    &&& a.lax_ide_args == b.lax_ide_args
}

impl FileBackend {
    /// A document at `path` with no text yet, given the configuration file
    /// found for it (with the directory holding that file). It has both
    /// processes; each is started on the document with the options of the
    /// configuration, the quick one admitting every proof obligation.
    pub fn new(path: String, found: Option<(Config, String)>) -> (b: Self)
        ensures
            b.path == path,
            b.text@ == Seq::<char>::empty(),
            b.has_lax_ide,
            b.working_dir@ == working_dir_of(path@, found),
            strings_of(b.full_ide_args@) == seq![path@] + additional_args(found_config(found)),
            strings_of(b.lax_ide_args@) == seq![path@, "--admit_smt_queries"@, "true"@]
                + additional_args(found_config(found)),
    {
        let ghost found_view = found;
        let (config, working_dir) = match found {
            None => {
                let wd = match parent_of(path.as_str()) {
                    Some(parent) => parent,
                    None => String::from_str("."),
                };
                (None, wd)
            },
            Some((c, dir)) => {
                let wd = match &c.cwd {
                    None => dir,
                    Some(cwd) => join_paths(dir.as_str(), cwd.as_str()),
                };
                (Some(c), wd)
            },
        };
        assert(config == found_config(found_view));
        let additional = additional_options(&config);
        let full_ide_args = full_ide_arguments(path.as_str(), &additional);
        let lax_ide_args = lax_ide_arguments(path.as_str(), &additional);
        FileBackend { path, text: String::new(), has_lax_ide: true, working_dir, full_ide_args, lax_ide_args }
    }

    /// The process that answers lookups and completions: the quick one when
    /// there is one, else the checking one.
    pub open spec fn flycheck_ide(&self) -> IdeType {
        if self.has_lax_ide { IdeType::Lax } else { IdeType::Full }
    }

    pub fn get_flycheck_ide(&self) -> (t: IdeType)
        ensures
            t == self.flycheck_ide(),
    {
        if self.has_lax_ide { IdeType::Lax } else { IdeType::Full }
    }

    /// The full-buffer query of the current text with `kind` for process
    /// `ide_type`; none when that process is the quick one and there is none.
    pub fn send_full_buffer_query(&self, ide_type: IdeType, kind: FullBufferKind) -> (r: Option<IdeRequest>)
        ensures
            match r {
                None => ide_type == IdeType::Lax && !self.has_lax_ide,
                Some(req) => is_full_buffer_request(req, ide_type, self.text@, kind)
                    && (ide_type == IdeType::Lax ==> self.has_lax_ide),
            },
    {
        if ide_type == IdeType::Lax && !self.has_lax_ide {
            return None;
        }
        let query = Query::FullBuffer(FullBufferQuery { code: self.text.clone(), kind, with_symbols: false });
        Some(IdeRequest { ide_type, query })
    }

    /// The queries that open the document with `text`: the text handed to the
    /// checking process and then to the quick one (each waited for), then the
    /// queries of the change to that text, which the document keeps.
    pub fn init(&mut self, text: &str) -> (rs: Vec<IdeRequest>)
        ensures
            final(self).text@ == text@,
            same_document(*final(self), *old(self)),
            ({
                let k: int = if old(self).has_lax_ide { 2 } else { 1 };
                &&& rs@.len() == 2 * k
                &&& rs@[0].ide_type == IdeType::Full && is_vfs_add_query(rs@[0].query, text@)
                &&& old(self).has_lax_ide ==> rs@[1].ide_type == IdeType::Lax
                    && is_vfs_add_query(rs@[1].query, text@)
                &&& is_full_buffer_request(rs@[k], IdeType::Full, text@, FullBufferKind::Cache)
                &&& old(self).has_lax_ide ==> is_full_buffer_request(rs@[k + 1], IdeType::Lax, text@,
                    FullBufferKind::Full)
            }),
    {
        let mut rs: Vec<IdeRequest> = Vec::new();
        rs.push(IdeRequest {
            ide_type: IdeType::Full,
            query: Query::VfsAdd(VfsAddQuery { filename: None, contents: text.to_owned() }),
        });
        if self.has_lax_ide {
            rs.push(IdeRequest {
                ide_type: IdeType::Lax,
                query: Query::VfsAdd(VfsAddQuery { filename: None, contents: text.to_owned() }),
            });
        }
        let ghost opened = rs@;
        let mut change = self.handle_full_buffer_change(text);
        let ghost changed = change@;
        rs.append(&mut change);
        assert(rs@ == opened + changed);
        rs
    }

    /// The document's text changed: it is kept, the checking process loads
    /// its verified prefix from the cache, and the quick one checks it all.
    pub fn handle_full_buffer_change(&mut self, text: &str) -> (rs: Vec<IdeRequest>)
        ensures
            final(self).text@ == text@,
            same_document(*final(self), *old(self)),
            rs@.len() == if old(self).has_lax_ide { 2int } else { 1int },
            is_full_buffer_request(rs@[0], IdeType::Full, text@, FullBufferKind::Cache),
            old(self).has_lax_ide ==> is_full_buffer_request(rs@[1], IdeType::Lax, text@, FullBufferKind::Full),
    {
        self.text = text.to_owned();
        let mut rs: Vec<IdeRequest> = Vec::new();
        if let Some(r) = self.send_full_buffer_query(IdeType::Full, FullBufferKind::Cache) {
            rs.push(r);
        }
        if let Some(r) = self.send_full_buffer_query(IdeType::Lax, FullBufferKind::Full) {
            rs.push(r);
        }
        rs
    }

    /// Verifies the whole document with the checking process.
    pub fn verify_full_buffer(&self) -> (r: IdeRequest)
        ensures
            is_full_buffer_request(r, IdeType::Full, self.text@, FullBufferKind::Full),
    {
        let query = Query::FullBuffer(FullBufferQuery { code: self.text.clone(), kind: FullBufferKind::Full, with_symbols: false });
        IdeRequest { ide_type: IdeType::Full, query }
    }

    /// Verifies the document up to an editor position, with the checking process.
    pub fn verify_to_position(&self, pos: LspPosition) -> (r: IdeRequest)
        requires
            pos.line < u32::MAX,
        ensures
            is_full_buffer_request(r, IdeType::Full, self.text@,
                FullBufferKind::VerifyToPosition(fstar_position_of(pos))),
    {
        let kind = FullBufferKind::VerifyToPosition(BarePosition::from(pos));
        let query = Query::FullBuffer(FullBufferQuery { code: self.text.clone(), kind, with_symbols: false });
        IdeRequest { ide_type: IdeType::Full, query }
    }

    /// Checks the document up to an editor position admitting all proof
    /// obligations, with the checking process.
    pub fn lax_to_position(&self, pos: LspPosition) -> (r: IdeRequest)
        requires
            pos.line < u32::MAX,
        ensures
            is_full_buffer_request(r, IdeType::Full, self.text@,
                FullBufferKind::LaxToPosition(fstar_position_of(pos))),
    {
        let kind = FullBufferKind::LaxToPosition(BarePosition::from(pos));
        let query = Query::FullBuffer(FullBufferQuery { code: self.text.clone(), kind, with_symbols: false });
        IdeRequest { ide_type: IdeType::Full, query }
    }

    /// Cancels the work of the checking process (F* sends nothing back).
    pub fn cancel_all(&self) -> (r: IdeRequest)
        ensures
            r.ide_type == IdeType::Full,
            r.query == Query::Cancel(CancelPosition { cancel_line: 1, cancel_column: 0 }),
    {
        IdeRequest { ide_type: IdeType::Full, query: Query::Cancel(CancelPosition { cancel_line: 1, cancel_column: 0 }) }
    }

    /// Reloads the dependencies of the document in both processes, the quick
    /// one first.
    pub fn reload_dependencies(&self) -> (rs: Vec<IdeRequest>)
        ensures
            rs@.len() == if self.has_lax_ide { 2int } else { 1int },
            self.has_lax_ide ==> is_full_buffer_request(rs@[0], IdeType::Lax, self.text@, FullBufferKind::ReloadDeps),
            is_full_buffer_request(rs@.last(), IdeType::Full, self.text@, FullBufferKind::ReloadDeps),
    {
        let mut rs: Vec<IdeRequest> = Vec::new();
        if let Some(r) = self.send_full_buffer_query(IdeType::Lax, FullBufferKind::ReloadDeps) {
            rs.push(r);
        }
        if let Some(r) = self.send_full_buffer_query(IdeType::Full, FullBufferKind::ReloadDeps) {
            rs.push(r);
        }
        rs
    }

    /// Restarts the solver of the checking process (F* sends nothing back).
    pub fn restart_z3(&self) -> (r: IdeRequest)
        ensures
            r.ide_type == IdeType::Full,
            r.query == (Query::RestartSolver {}),
    {
        IdeRequest { ide_type: IdeType::Full, query: Query::RestartSolver {} }
    }

    /// The lookup of the symbol under the cursor, asking for `info`, and the
    /// range of that symbol; none when no word holds the cursor. F* counts
    /// lines from one, so a word found on the last line that a `u32` counts
    /// has no F* position.
    pub fn lookup_query(&self, info: Vec<LookupRequest>, pos: LspPosition) -> (r: Option<(IdeRequest, LspRange)>)
        requires
            (pos.line as int) < lines_of(self.text@).len(),
            pos.line < u32::MAX || ({
                let line = lines_of(self.text@)[pos.line as int];
                forall|a: int, b: int| #[trigger] is_word(line, a, b) ==> !word_covers(line, a, b, pos.character as nat)
            }),
        ensures
            ({
                let line = lines_of(self.text@)[pos.line as int];
                match r {
                    None => forall|a: int, b: int|
                        #[trigger] is_word(line, a, b) ==> !word_covers(line, a, b, pos.character as nat),
                    Some((req, range)) => exists|a: int, b: int|
                        {
                            &&& #[trigger] is_word(line, a, b)
                            &&& word_covers(line, a, b, pos.character as nat)
                            &&& range == word_range(line, a, b, pos.line)
                            &&& req.ide_type == self.flycheck_ide()
                            &&& req.query matches Query::Lookup(lq)
                            &&& lq.context == LookupContext::Code
                            &&& lq.symbol@ == word_symbol(line, a, b)
                            &&& lq.requested_info@ == info@
                            &&& lq.location matches Some(loc)
                            &&& loc.filename@ == self.path@
                            &&& loc.position == fstar_position_of(pos)
                        },
                }
            }),
    {
        let symbol = match get_symbol_at(self.text.as_str(), pos) {
            None => return None,
            Some(s) => s,
        };
        let location = Position::from(self.path.clone(), pos);
        let query = Query::Lookup(LookupQuery {
            context: LookupContext::Code,
            symbol: symbol.symbol,
            requested_info: info,
            location: Some(location),
        });
        Some((IdeRequest { ide_type: self.get_flycheck_ide(), query }, symbol.range))
    }

    /// The completion query for the word under the cursor; none when no
    /// word holds the cursor.
    pub fn complete(&self, pos: LspPosition) -> (r: Option<IdeRequest>)
        requires
            (pos.line as int) < lines_of(self.text@).len(),
        ensures
            ({
                let line = lines_of(self.text@)[pos.line as int];
                match r {
                    None => forall|a: int, b: int|
                        #[trigger] is_word(line, a, b) ==> !word_covers(line, a, b, pos.character as nat),
                    Some(req) => exists|a: int, b: int|
                        {
                            &&& #[trigger] is_word(line, a, b)
                            &&& word_covers(line, a, b, pos.character as nat)
                            &&& req.ide_type == self.flycheck_ide()
                            &&& req.query matches Query::AutoComplete(q)
                            &&& q.context == AutoCompleteContext::Code
                            &&& q.partial_symbol@ == word_symbol(line, a, b)
                        },
                }
            }),
    {
        let symbol = match get_symbol_at(self.text.as_str(), pos) {
            None => return None,
            Some(s) => s,
        };
        let query = Query::AutoComplete(AutoCompleteQuery { context: AutoCompleteContext::Code, partial_symbol: symbol.symbol });
        Some(IdeRequest { ide_type: self.get_flycheck_ide(), query })
    }
}

/// The answer to a lookup: the payload of a successful reply whose kind is
/// `symbol`, with the range of the symbol looked up. `status` is that of the
/// first reply (none when the first line was not a reply) and `parsed` its
/// payload read as a lookup answer (none when it could not be read).
pub fn lookup_outcome(status: Option<ResponseStatus>, parsed: Option<LookupResponse>, symbol_range: LspRange) -> (r: Option<(LookupResponse, LspRange)>)
    ensures
        match r {
            None => !(status == Some(ResponseStatus::Success) && (parsed matches Some(p) && p.kind@ == "symbol"@)),
            Some((resp, range)) => {
                &&& status == Some(ResponseStatus::Success)
                &&& parsed == Some(resp)
                &&& resp.kind@ == "symbol"@
                &&& range == symbol_range
            },
        },
{
    match status {
        Some(ResponseStatus::Success) => {},
        _ => return None,
    }
    let response = match parsed {
        Some(p) => p,
        None => return None,
    };
    let symbol_kind = String::from_str("symbol");
    if response.kind != symbol_kind {
        return None;
    }
    Some((response, symbol_range))
}

/// The hover of a looked-up symbol: its name and type; none without a type.
pub fn hover_result(response: LookupResponse, range: LspRange) -> (r: Option<HoverResult>)
    ensures
        match r {
            None => response.type_ is None,
            Some(h) => {
                &&& response.type_ matches Some(t)
                &&& h.result matches HoverResultText::NoDocumentation { full_name, type_ }
                &&& full_name == response.name
                &&& type_ == t
                &&& h.range == range
            },
        },
{
    let response_type = match response.type_ {
        Some(x) => x,
        None => return None,
    };
    Some(HoverResult { result: HoverResultText::NoDocumentation { full_name: response.name, type_: response_type }, range })
}

/// Where a looked-up symbol is defined: the document itself when F* names
/// the input, else the named file; none without a definition site.
pub fn goto_definition_result(response: LookupResponse) -> (r: Option<GotoDefinitionResult>)
    ensures
        match r {
            None => response.defined_at is None,
            Some(g) => {
                &&& response.defined_at matches Some(d)
                &&& g.range == lsp_range_of(d)
                &&& (if d.fname@ == "<input>"@ {
                    g.file is ThisFile
                } else {
                    g.file matches GotoDefinitionResultFile::OtherFile(f) && f == d.fname
                })
            },
        },
{
    let defined_at = match response.defined_at {
        Some(x) => x,
        None => return None,
    };
    let input = String::from_str("<input>");
    let file = if defined_at.fname == input {
        GotoDefinitionResultFile::ThisFile
    } else {
        GotoDefinitionResultFile::OtherFile(defined_at.fname.clone())
    };
    Some(GotoDefinitionResult { file, range: defined_at.into() })
}

/// The completion candidates of the items, in order, without the one whose
/// annotation is `<search term>` (F* echoes the searched word that way).
pub open spec fn completion_candidates(items: Seq<crate::fstar::AutoCompleteResponseItem>) -> Seq<crate::fstar::AutoCompleteResponseItem> {
    items.filter(|item: crate::fstar::AutoCompleteResponseItem| item.1@ != "<search term>"@)
}

/// The completions of a reply: `status` is that of the first reply (none
/// when the first line was not a reply) and `parsed` its payload read as a
/// completion list (none when it could not be read).
pub fn complete_result(status: Option<ResponseStatus>, parsed: Option<AutoCompleteResponse>) -> (r: Option<CompleteResult>)
    ensures
        match r {
            None => !(status == Some(ResponseStatus::Success) && parsed is Some),
            Some(items) => {
                &&& status == Some(ResponseStatus::Success)
                &&& parsed matches Some(p)
                &&& items@.len() == completion_candidates(p@).len()
                &&& forall|i: int| 0 <= i < items@.len() ==> {
                    let c = #[trigger] completion_candidates(p@)[i];
                    &&& items@[i].match_length == c.0
                    &&& items@[i].annotation == c.1
                    &&& items@[i].candidate == c.2
                }
            },
        },
{
    match status {
        Some(ResponseStatus::Success) => {},
        _ => return None,
    }
    let response = match parsed {
        Some(p) => p,
        None => return None,
    };
    let search_term = String::from_str("<search term>");
    let mut items: Vec<CompleteResultItem> = Vec::new();
    let mut i: usize = 0;
    let ghost f = |item: crate::fstar::AutoCompleteResponseItem| item.1@ != "<search term>"@;
    while i < response.len()
        invariant
            i <= response@.len(),
            search_term@ == "<search term>"@,
            f == (|item: crate::fstar::AutoCompleteResponseItem| item.1@ != "<search term>"@),
            items@.len() == response@.take(i as int).filter(f).len(),
            forall|j: int| 0 <= j < items@.len() ==> {
                let c = #[trigger] response@.take(i as int).filter(f)[j];
                &&& items@[j].match_length == c.0
                &&& items@[j].annotation == c.1
                &&& items@[j].candidate == c.2
            },
        decreases response@.len() - i,
    {
        let item = &response[i];
        proof {
            reveal_with_fuel(Seq::filter, 1);
            assert(response@.take(i + 1).drop_last() =~= response@.take(i as int));
        }
        if item.1 != search_term {
            items.push(CompleteResultItem { match_length: item.0, annotation: item.1.clone(), candidate: item.2.clone() });
        }
        i = i + 1;
    }
    assert(response@.take(response@.len() as int) =~= response@);
    Some(items)
}

/// The full-buffer message that a line from F* stands for: progress stages
/// become status changes (a fragment checked by the quick process counts as
/// admitted, not verified), the reply becomes the list of errors (`failures`
/// is its payload read as such, none when it could not be read), other lines
/// stand for nothing.
pub fn full_buffer_message(resp_or_msg: ResponseOrMessage, ide_type: IdeType, failures: Option<VerificationFailureResponse>) -> (r: Option<FullBufferMessage>)
    ensures
        match resp_or_msg {
            ResponseOrMessage::Response(_) => match failures {
                Some(f) => r == Some(FullBufferMessage::Error(f)),
                None => r is None,
            },
            ResponseOrMessage::Message(Message::Progress(ProgressMessageOrNull::Known(data))) => match data {
                ProgressMessage::FullBufferFragmentStarted { ranges } => r == Some(FullBufferMessage::FragmentStatusUpdate(
                    FragmentStatusUpdate { status_type: FragmentStatus::InProgress, range: lsp_range_of(ranges) })),
                ProgressMessage::FullBufferFragmentFailed { ranges } => r == Some(FullBufferMessage::FragmentStatusUpdate(
                    FragmentStatusUpdate { status_type: FragmentStatus::Failed, range: lsp_range_of(ranges) })),
                ProgressMessage::FullBufferFragmentLaxOk(fragment) => r == Some(FullBufferMessage::FragmentStatusUpdate(
                    FragmentStatusUpdate { status_type: FragmentStatus::LaxOk, range: lsp_range_of(fragment.ranges) })),
                ProgressMessage::FullBufferFragmentOk(fragment) => r == Some(FullBufferMessage::FragmentStatusUpdate(
                    FragmentStatusUpdate {
                        status_type: if ide_type == IdeType::Lax { FragmentStatus::LaxOk } else { FragmentStatus::Verified },
                        range: lsp_range_of(fragment.ranges),
                    })),
                ProgressMessage::FullBufferStarted => r == Some(FullBufferMessage::Started),
                ProgressMessage::FullBufferFinished => r == Some(FullBufferMessage::Finished),
                ProgressMessage::LoadingDependency { .. } => r is None,
            },
            _ => r is None,
        },
{
    match resp_or_msg {
        ResponseOrMessage::Message(Message::Progress(ProgressMessageOrNull::Known(data))) => {
            match data {
                ProgressMessage::FullBufferFragmentStarted { ranges } => Some(FullBufferMessage::FragmentStatusUpdate(
                    FragmentStatusUpdate { status_type: FragmentStatus::InProgress, range: ranges.into() })),
                ProgressMessage::FullBufferFragmentFailed { ranges } => Some(FullBufferMessage::FragmentStatusUpdate(
                    FragmentStatusUpdate { status_type: FragmentStatus::Failed, range: ranges.into() })),
                ProgressMessage::FullBufferFragmentLaxOk(fragment) => Some(FullBufferMessage::FragmentStatusUpdate(
                    FragmentStatusUpdate { status_type: FragmentStatus::LaxOk, range: fragment.ranges.into() })),
                ProgressMessage::FullBufferFragmentOk(fragment) => Some(FullBufferMessage::FragmentStatusUpdate(
                    FragmentStatusUpdate {
                        status_type: if ide_type == IdeType::Lax { FragmentStatus::LaxOk } else { FragmentStatus::Verified },
                        range: fragment.ranges.into(),
                    })),
                ProgressMessage::FullBufferStarted => Some(FullBufferMessage::Started),
                ProgressMessage::FullBufferFinished => Some(FullBufferMessage::Finished),
                _ => None,
            }
        },
        ResponseOrMessage::Response(_) => match failures {
            Some(x) => Some(FullBufferMessage::Error(x)),
            None => None,
        },
        _ => None,
    }
}


/// The project configuration found beside a document (`*.fst.config.json`).
#[derive(Debug)]
pub struct Config {
    pub fstar_exe: Option<String>,
    pub options: Option<Vec<String>>,
    pub include_dirs: Option<Vec<String>>,
    pub cwd: Option<String>,
}

/// The characters of each string.
pub open spec fn strings_of(v: Seq<String>) -> Seq<Seq<char>> {
    v.map_values(|s: String| s@)
}

proof fn lemma_strings_of_push(v: Seq<String>, s: String)
    ensures
        strings_of(v.push(s)) == strings_of(v).push(s@),
{
    assert(strings_of(v.push(s)) =~= strings_of(v).push(s@));
}

proof fn lemma_strings_of_take_step(v: Seq<String>, i: int)
    requires
        0 <= i < v.len(),
    ensures
        strings_of(v.take(i + 1)) == strings_of(v.take(i)).push(v[i]@),
{
    assert(v.take(i + 1) =~= v.take(i).push(v[i]));
    lemma_strings_of_push(v.take(i), v[i]);
}

/// `--include dir` for each directory, in order.
pub open spec fn include_args(dirs: Seq<String>) -> Seq<Seq<char>>
    decreases dirs.len(),
{
    if dirs.len() == 0 {
        Seq::empty()
    } else {
        include_args(dirs.drop_last()) + seq!["--include"@, dirs.last()@]
    }
}

/// The options that a configuration adds to every F* process: its options,
/// then `--include dir` for each of its include directories.
pub open spec fn additional_args(config: Option<Config>) -> Seq<Seq<char>> {
    match config {
        None => Seq::empty(),
        Some(c) => {
            let options = match c.options {
                None => Seq::empty(),
                Some(opts) => strings_of(opts@),
            };
            let includes = match c.include_dirs {
                None => Seq::empty(),
                Some(dirs) => include_args(dirs@),
            };
            options + includes
        },
    }
}

pub fn additional_options(config: &Option<Config>) -> (r: Vec<String>)
    ensures
        strings_of(r@) == additional_args(*config),
{
    let mut r: Vec<String> = Vec::new();
    match config {
        None => {},
        Some(c) => {
            match &c.options {
                None => {},
                Some(opts) => {
                    let mut i: usize = 0;
                    while i < opts.len()
                        invariant
                            i <= opts@.len(),
                            strings_of(r@) == strings_of(opts@.take(i as int)),
                        decreases opts@.len() - i,
                    {
                        let ghost prev = r@;
                        r.push(opts[i].clone());
                        proof {
                            lemma_strings_of_push(prev, opts@[i as int]);
                            lemma_strings_of_take_step(opts@, i as int);
                        }
                        i = i + 1;
                    }
                    assert(opts@.take(opts@.len() as int) =~= opts@);
                },
            }
            let ghost options = strings_of(r@);
            match &c.include_dirs {
                None => {
                    assert(strings_of(r@) =~= options + Seq::<Seq<char>>::empty());
                },
                Some(dirs) => {
                    let mut i: usize = 0;
                    assert(strings_of(r@) =~= options + include_args(dirs@.take(0)));
                    while i < dirs.len()
                        invariant
                            i <= dirs@.len(),
                            strings_of(r@) == options + include_args(dirs@.take(i as int)),
                        decreases dirs@.len() - i,
                    {
                        let ghost prev = r@;
                        let flag = String::from_str("--include");
                        r.push(flag);
                        let ghost mid = r@;
                        r.push(dirs[i].clone());
                        proof {
                            lemma_strings_of_push(prev, flag);
                            lemma_strings_of_push(mid, dirs@[i as int]);
                            let t = dirs@.take(i + 1);
                            assert(t.drop_last() =~= dirs@.take(i as int));
                            assert(t.last() == dirs@[i as int]);
                            assert(include_args(t) == include_args(dirs@.take(i as int)) + seq!["--include"@, dirs@[i as int]@]);
                            assert(strings_of(r@) =~= options + include_args(t));
                        }
                        i = i + 1;
                    }
                    assert(dirs@.take(dirs@.len() as int) =~= dirs@);
                },
            }
        },
    }
    assert(strings_of(r@) =~= additional_args(*config));
    r
}

fn append_strings(r: &mut Vec<String>, more: &Vec<String>)
    ensures
        strings_of(final(r)@) == strings_of(old(r)@) + strings_of(more@),
{
    let ghost before = strings_of(r@);
    let mut i: usize = 0;
    while i < more.len()
        invariant
            i <= more@.len(),
            strings_of(r@) == before + strings_of(more@.take(i as int)),
        decreases more@.len() - i,
    {
        let ghost prev = r@;
        r.push(more[i].clone());
        proof {
            lemma_strings_of_push(prev, more@[i as int]);
            lemma_strings_of_take_step(more@, i as int);
            assert(strings_of(r@) =~= before + strings_of(more@.take(i + 1)));
        }
        i = i + 1;
    }
    assert(more@.take(more@.len() as int) =~= more@);
}

/// The arguments of the quick process of a document: the document, the
/// option that admits every proof obligation, then the additional options.
pub fn lax_ide_arguments(path: &str, additional: &Vec<String>) -> (r: Vec<String>)
    ensures
        strings_of(r@) == seq![path@, "--admit_smt_queries"@, "true"@] + strings_of(additional@),
{
    let mut r: Vec<String> = Vec::new();
    r.push(path.to_owned());
    r.push(String::from_str("--admit_smt_queries"));
    r.push(String::from_str("true"));
    assert(strings_of(r@) =~= seq![path@, "--admit_smt_queries"@, "true"@]);
    append_strings(&mut r, additional);
    r
}

/// The arguments of the checking process of a document: the document, then
/// the additional options.
pub fn full_ide_arguments(path: &str, additional: &Vec<String>) -> (r: Vec<String>)
    ensures
        strings_of(r@) == seq![path@] + strings_of(additional@),
{
    let mut r: Vec<String> = Vec::new();
    r.push(path.to_owned());
    assert(strings_of(r@) =~= seq![path@]);
    append_strings(&mut r, additional);
    r
}

/// A file of a directory holds a project configuration when its name ends
/// with `.fst.config.json`.
pub open spec fn is_config_file_name_spec(name: Seq<char>) -> bool {
    let suffix = ".fst.config.json"@;
    name.len() >= suffix.len() && name.subrange(name.len() - suffix.len(), name.len() as int) == suffix
}

pub fn is_config_file_name(name: &str) -> (b: bool)
    ensures
        b == is_config_file_name_spec(name@),
{
    let n = chars_of(name);
    let suffix = chars_of(".fst.config.json");
    if n.len() < suffix.len() {
        return false;
    }
    let offset = n.len() - suffix.len();
    let mut i: usize = 0;
    while i < suffix.len()
        invariant
            i <= suffix@.len(),
            suffix@ == ".fst.config.json"@,
            n@ == name@,
            offset + suffix@.len() == n@.len(),
            n@.len() <= usize::MAX,
            forall|j: int| 0 <= j < i ==> n@[offset + j] == suffix@[j],
        decreases suffix@.len() - i,
    {
        if n[offset + i] != suffix[i] {
            assert(n@.subrange(offset as int, n@.len() as int)[i as int] != suffix@[i as int]);
            assert(n@.subrange(offset as int, n@.len() as int) != suffix@);
            return false;
        }
        i = i + 1;
    }
    assert(n@.subrange(offset as int, n@.len() as int) =~= suffix@);
    true
}


/// Whether an entry of a directory listing names a configuration file (an
/// entry whose name is not text names none).
pub open spec fn names_config_file(entry: Option<String>) -> bool {
    entry matches Some(name) && is_config_file_name_spec(name@)
}

/// The search for the configuration of a document: the directory holding the
/// document, then each parent up to the root; in each, the first file of its
/// listing whose name marks a configuration.
pub struct ConfigSearch {
    /// The directory to look in next; none once the root has been searched.
    pub dir: Option<String>,
}

impl ConfigSearch {
    /// Starts at the directory of the document at `path` (no search at all
    /// when the path has no parent).
    pub fn new(path: &str) -> (s: Self)
        ensures
            match s.dir {
                None => path_parent(path@) is None,
                Some(d) => path_parent(path@) == Some(d@),
            },
    {
        ConfigSearch { dir: parent_of(path) }
    }

    /// Takes the listing of the current directory (the file names in order,
    /// none for a name that is not text; an unreadable directory lists
    /// nothing). Gives the first entry that names a configuration file, and
    /// the search stays at this directory; when there is none, the search
    /// moves on to the parent directory.
    pub fn look_in_listing(&mut self, names: &Vec<Option<String>>) -> (r: Option<usize>)
        requires
            old(self).dir is Some,
        ensures
            match r {
                Some(i) => {
                    &&& i < names@.len()
                    &&& names_config_file(names@[i as int])
                    &&& forall|j: int| 0 <= j < i ==> !names_config_file(#[trigger] names@[j])
                    &&& final(self).dir == old(self).dir
                },
                None => {
                    &&& forall|j: int| 0 <= j < names@.len() ==> !names_config_file(#[trigger] names@[j])
                    &&& match final(self).dir {
                        None => path_parent(old(self).dir->0@) is None,
                        Some(d) => path_parent(old(self).dir->0@) == Some(d@),
                    }
                },
            },
    {
        let mut i: usize = 0;
        while i < names.len()
            invariant
                i <= names@.len(),
                forall|j: int| 0 <= j < i ==> !names_config_file(#[trigger] names@[j]),
            decreases names@.len() - i,
        {
            match &names[i] {
                Some(name) => {
                    if is_config_file_name(name.as_str()) {
                        return Some(i);
                    }
                },
                None => {},
            }
            i = i + 1;
        }
        let next = match &self.dir {
            Some(d) => parent_of(d.as_str()),
            None => None,
        };
        self.dir = next;
        None
    }

    /// The outcome once a configuration file was found in the current
    /// directory: its configuration with that directory, or none when the
    /// file could not be read as a configuration (the search stops there).
    pub fn found(&self, config: Option<Config>) -> (r: Option<(Config, String)>)
        requires
            self.dir is Some,
        ensures
            match config {
                None => r is None,
                Some(c) => r matches Some((rc, rd)) && rc == c && rd@ == self.dir->0@,
            },
    {
        match (config, &self.dir) {
            (Some(c), Some(d)) => Some((c, d.clone())),
            _ => None,
        }
    }
}


/// The identifier characters are exactly the ASCII letters of both cases, the
/// ASCII digits, `_`, `.` and `'`.
pub proof fn law_ident_chars(c: char)
    ensures
        is_ident_char(c) <==> (('A' <= c && c <= 'Z') || ('a' <= c && c <= 'z') || ('0' <= c && c <= '9')
            || c == '_' || c == '.' || c == '\''),
{
}

/// `args` holds `--include` then `dir` at `at`.
pub open spec fn includes_at(args: Seq<Seq<char>>, at: int, dir: String) -> bool {
    &&& args[at] == "--include"@
    &&& args[at + 1] == dir@
}

proof fn lemma_include_args_layout(dirs: Seq<String>)
    ensures
        include_args(dirs).len() == 2 * dirs.len(),
        forall|j: int| 0 <= j < dirs.len() ==> includes_at(include_args(dirs), 2 * j, #[trigger] dirs[j]),
    decreases dirs.len(),
{
    if dirs.len() > 0 {
        let earlier = dirs.drop_last();
        lemma_include_args_layout(earlier);
        let n = dirs.len() - 1;
        let prev = include_args(earlier);
        let all = include_args(dirs);
        assert(all == prev + seq!["--include"@, dirs.last()@]);
        assert forall|j: int| 0 <= j < dirs.len() implies includes_at(all, 2 * j, #[trigger] dirs[j]) by {
            if j < n {
                assert(earlier[j] == dirs[j]);
                assert(includes_at(prev, 2 * j, earlier[j]));
            }
        }
    }
}

/// The arguments a configuration adds: none without a configuration; with
/// one, each of its options in order, then `--include dir` for each of its
/// include directories in order. The two parts are independent: the include
/// arguments are there whether or not the configuration has options, and are
/// all the arguments when it has none.
pub proof fn law_additional_args_layout(config: Config)
    ensures
        additional_args(None) == Seq::<Seq<char>>::empty(),
        ({
            let a = additional_args(Some(config));
            let opts: Seq<String> = match config.options { None => Seq::empty(), Some(v) => v@ };
            let dirs: Seq<String> = match config.include_dirs { None => Seq::empty(), Some(v) => v@ };
            &&& a.len() == opts.len() + 2 * dirs.len()
            &&& forall|i: int| 0 <= i < opts.len() ==> a[i] == (#[trigger] opts[i])@
            &&& forall|j: int| 0 <= j < dirs.len() ==> includes_at(a, opts.len() + 2 * j, #[trigger] dirs[j])
        }),
{
    let opts: Seq<String> = match config.options { None => Seq::empty(), Some(v) => v@ };
    let dirs: Seq<String> = match config.include_dirs { None => Seq::empty(), Some(v) => v@ };
    lemma_include_args_layout(dirs);
    let a = additional_args(Some(config));
    let o = strings_of(opts);
    let inc = include_args(dirs);
    assert(o.len() == opts.len());
    assert(include_args(Seq::<String>::empty()) =~= Seq::<Seq<char>>::empty());
    let o_part: Seq<Seq<char>> = match config.options { None => Seq::empty(), Some(v) => strings_of(v@) };
    let i_part: Seq<Seq<char>> = match config.include_dirs { None => Seq::empty(), Some(v) => include_args(v@) };
    assert(a == o_part + i_part);
    assert(o_part =~= o);
    assert(i_part =~= inc);
    assert(a =~= o + inc);
    assert forall|i: int| 0 <= i < opts.len() implies a[i] == (#[trigger] opts[i])@ by {
        assert(a[i] == o[i]);
    }
    assert forall|j: int| 0 <= j < dirs.len() implies includes_at(a, opts.len() + 2 * j, #[trigger] dirs[j]) by {
        assert(includes_at(inc, 2 * j, dirs[j]));
        assert(a[opts.len() + 2 * j] == inc[2 * j]);
        assert(a[opts.len() + 2 * j + 1] == inc[2 * j + 1]);
    }
}

} // verus!
