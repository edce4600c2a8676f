use fstar_lsp::fstar::{
    AutoCompleteResponseItem, FullBufferFragmentOk, CodeFragment, FullBufferKind, LookupContext,
    LookupRequest, LookupResponse, Message, ProgressMessage, ProgressMessageOrNull, Query, Range,
    Response, ResponseOrMessage, ResponseStatus, VerificationFailureLevel, VerificationFailureResponseItem,
};
use fstar_lsp::logging::{log_with_level, set_log_level, LogLevel};
use fstar_lsp::lsp::file_backend::{
    additional_options, complete_result, document_has_line, full_buffer_message, full_ide_arguments,
    get_symbol_at, goto_definition_result, hover_result, is_config_file_name, lax_ide_arguments, lookup_outcome,
    Config, ConfigSearch, FileBackend, FragmentStatus, FragmentStatusUpdate, FullBufferMessage, GotoDefinitionResultFile,
    HoverResultText, IdeFullBufferMessage, IdeType,
};
use fstar_lsp::lsp::types::{LspPosition, LspRange};
use fstar_lsp::paths::{definition_file_url, definition_path};
use fstar_lsp::lsp::{
    all_errors_have_ranges, diagnostic_of, hover_text, ClientNotification, DiagnosticSeverity,
    DiagnosticsStateMachine, FullBufferMessageLoop, StatusNotification, StatusStateMachine,
};

fn pos(line: u32, character: u32) -> LspPosition {
    LspPosition { line, character }
}

fn range(fname: &str, beg: (u32, u32), end: (u32, u32)) -> Range {
    Range { fname: fname.to_string(), beg, end }
}

fn error(message: &str, ranges: Vec<Range>) -> VerificationFailureResponseItem {
    VerificationFailureResponseItem { level: VerificationFailureLevel::Error, number: 19, message: message.to_string(), ranges }
}

fn lookup_response(kind: &str, type_: Option<&str>, defined_at: Option<Range>) -> LookupResponse {
    LookupResponse {
        kind: kind.to_string(),
        name: "Test.f".to_string(),
        defined_at,
        type_: type_.map(|t| t.to_string()),
        documentation: None,
        definition: None,
    }
}

#[test]
fn symbol_under_cursor_is_the_word_holding_it() {
    let text = "module Test\nlet foo_bar = x.y + 1\n";
    let s = get_symbol_at(text, pos(1, 6)).unwrap();
    assert_eq!(s.symbol, "foo_bar");
    assert_eq!(s.range, LspRange { start: pos(1, 4), end: pos(1, 11) });
    // The column just after a word still counts as on it.
    let s = get_symbol_at(text, pos(1, 11)).unwrap();
    assert_eq!(s.symbol, "foo_bar");
    // Dots and digits belong to identifiers.
    let s = get_symbol_at(text, pos(1, 15)).unwrap();
    assert_eq!(s.symbol, "x.y");
    let s = get_symbol_at(text, pos(1, 20)).unwrap();
    assert_eq!(s.symbol, "1");
    assert_eq!(s.range, LspRange { start: pos(1, 20), end: pos(1, 21) });
}

#[test]
fn no_symbol_between_words() {
    let text = "a  +  b";
    assert!(get_symbol_at(text, pos(0, 3)).is_none());
    assert!(get_symbol_at(text, pos(0, 100)).is_none());
}

#[test]
fn symbol_columns_are_byte_offsets() {
    // 'é' takes two bytes: the word "ab" starts at byte 3.
    let text = "é ab";
    let s = get_symbol_at(text, pos(0, 3)).unwrap();
    assert_eq!(s.range, LspRange { start: pos(0, 3), end: pos(0, 5) });
    // The symbol is read by characters from those byte offsets.
    assert_eq!(s.symbol, "b");
}

#[test]
fn lines_of_a_document() {
    assert!(document_has_line("a\nb", 1));
    assert!(!document_has_line("a\nb", 2));
    assert!(!document_has_line("a\n", 1));
    assert!(!document_has_line("", 0));
}

#[test]
fn diagnostic_of_an_error_in_the_document() {
    let e = error("Subtyping check failed", vec![range("<input>", (3, 4), (3, 9)), range("Other.fst", (10, 0), (10, 2))]);
    let d = diagnostic_of(&e);
    assert_eq!(d.range, LspRange { start: pos(2, 4), end: pos(2, 9) });
    assert_eq!(d.severity, DiagnosticSeverity::Error);
    assert_eq!(d.code, 19);
    assert_eq!(d.message, "Subtyping check failed\nSee also: Other.fst(10,0-10,2)");
}

#[test]
fn diagnostic_of_an_error_in_a_dependency() {
    let mut e = error("boom", vec![range("Dep.fst", (1, 0), (1, 5))]);
    e.level = VerificationFailureLevel::Warning;
    e.number = 3_000_000_000;
    let d = diagnostic_of(&e);
    assert_eq!(d.range, LspRange { start: pos(0, 0), end: pos(0, 0) });
    assert_eq!(d.severity, DiagnosticSeverity::Warning);
    assert_eq!(d.code, 3_000_000_000u32 as i32);
    assert_eq!(d.message, "In dependency Dep.fst(1,0-1,5): boom");
}

#[test]
fn errors_without_ranges_are_detected() {
    assert!(all_errors_have_ranges(&vec![error("x", vec![range("<input>", (1, 0), (1, 1))])]));
    assert!(!all_errors_have_ranges(&vec![error("x", vec![])]));
}

#[test]
fn published_diagnostics_keep_first_of_each_range_and_message() {
    let mut m = DiagnosticsStateMachine::new();
    let e1 = error("a", vec![range("<input>", (1, 0), (1, 1))]);
    let e2 = error("b", vec![range("<input>", (2, 0), (2, 1))]);
    m.process_error(IdeType::Lax, e1.clone());
    m.process_error(IdeType::Full, e1.clone());
    m.process_error(IdeType::Full, e2.clone());
    let published = m.finish();
    assert_eq!(published.len(), 2);
    assert_eq!(published[0].message, "a");
    assert_eq!(published[1].message, "b");
    m.start(IdeType::Full);
    assert_eq!(m.full_diagnostics.len(), 0);
    assert_eq!(m.lax_diagnostics.len(), 1);
}

#[test]
fn status_in_progress_is_canceled_at_finish() {
    let r = LspRange { start: pos(0, 0), end: pos(3, 0) };
    let mut s = StatusStateMachine::new();
    assert_eq!(s.start(), StatusNotification::ClearStatus);
    let upd = FragmentStatusUpdate { status_type: FragmentStatus::InProgress, range: r };
    assert_eq!(s.process_fragment_status_update(upd), StatusNotification::SetStatus(upd));
    assert_eq!(
        s.finish(),
        Some(StatusNotification::SetStatus(FragmentStatusUpdate { status_type: FragmentStatus::Canceled, range: r }))
    );
    s.process_fragment_status_update(FragmentStatusUpdate { status_type: FragmentStatus::Verified, range: r });
    assert_eq!(s.finish(), None);
}

#[test]
fn full_buffer_loop_publishes_and_tracks_status() {
    let r = LspRange { start: pos(0, 0), end: pos(1, 0) };
    let mut l = FullBufferMessageLoop::new();
    let ns = l.handle(IdeFullBufferMessage { ide_type: IdeType::Full, message: FullBufferMessage::Started });
    assert!(matches!(ns.as_slice(), [ClientNotification::Status(StatusNotification::ClearStatus)]));
    let upd = FragmentStatusUpdate { status_type: FragmentStatus::InProgress, range: r };
    let ns = l.handle(IdeFullBufferMessage { ide_type: IdeType::Full, message: FullBufferMessage::FragmentStatusUpdate(upd) });
    assert!(matches!(ns.as_slice(), [ClientNotification::Status(StatusNotification::SetStatus(_))]));
    let ns = l.handle(IdeFullBufferMessage {
        ide_type: IdeType::Lax,
        message: FullBufferMessage::Error(vec![error("lax error", vec![range("<input>", (1, 0), (1, 3))])]),
    });
    assert!(ns.is_empty());
    // The quick process's messages change no status.
    let ns = l.handle(IdeFullBufferMessage { ide_type: IdeType::Lax, message: FullBufferMessage::Started });
    assert!(ns.is_empty());
    let ns = l.handle(IdeFullBufferMessage {
        ide_type: IdeType::Lax,
        message: FullBufferMessage::Error(vec![error("lax error", vec![range("<input>", (1, 0), (1, 3))])]),
    });
    assert!(ns.is_empty());
    let ns = l.handle(IdeFullBufferMessage { ide_type: IdeType::Full, message: FullBufferMessage::Finished });
    assert_eq!(ns.len(), 2);
    match &ns[0] {
        ClientNotification::PublishDiagnostics(ds) => {
            assert_eq!(ds.len(), 1);
            assert_eq!(ds[0].message, "lax error");
        }
        other => panic!("unexpected {:?}", other),
    }
    match &ns[1] {
        ClientNotification::Status(StatusNotification::SetStatus(u)) => {
            assert_eq!(u.status_type, FragmentStatus::Canceled);
            assert_eq!(u.range, r);
        }
        other => panic!("unexpected {:?}", other),
    }
}

#[test]
fn progress_messages_become_status_updates() {
    let fragment = || FullBufferFragmentOk {
        ranges: range("<input>", (2, 0), (4, 1)),
        code_fragment: CodeFragment { range: range("<input>", (2, 0), (4, 1)), code_digest: "d".to_string() },
    };
    let editor = LspRange { start: pos(1, 0), end: pos(3, 1) };
    let progress = |p| ResponseOrMessage::Message(Message::Progress(ProgressMessageOrNull::Known(p)));
    match full_buffer_message(progress(ProgressMessage::FullBufferFragmentOk(fragment())), IdeType::Full, None) {
        Some(FullBufferMessage::FragmentStatusUpdate(u)) => {
            assert_eq!(u, FragmentStatusUpdate { status_type: FragmentStatus::Verified, range: editor })
        }
        other => panic!("unexpected {:?}", other),
    }
    match full_buffer_message(progress(ProgressMessage::FullBufferFragmentOk(fragment())), IdeType::Lax, None) {
        Some(FullBufferMessage::FragmentStatusUpdate(u)) => assert_eq!(u.status_type, FragmentStatus::LaxOk),
        other => panic!("unexpected {:?}", other),
    }
    match full_buffer_message(
        progress(ProgressMessage::FullBufferFragmentStarted { ranges: range("<input>", (2, 0), (4, 1)) }),
        IdeType::Full,
        None,
    ) {
        Some(FullBufferMessage::FragmentStatusUpdate(u)) => assert_eq!(u.status_type, FragmentStatus::InProgress),
        other => panic!("unexpected {:?}", other),
    }
    assert!(matches!(full_buffer_message(progress(ProgressMessage::FullBufferStarted), IdeType::Full, None), Some(FullBufferMessage::Started)));
    assert!(matches!(full_buffer_message(progress(ProgressMessage::FullBufferFinished), IdeType::Lax, None), Some(FullBufferMessage::Finished)));
    assert!(full_buffer_message(progress(ProgressMessage::LoadingDependency { modname: "M".to_string() }), IdeType::Full, None).is_none());
    let reply = || ResponseOrMessage::Response(Response { status: ResponseStatus::Failure, response: serde_json::Value::Null });
    assert!(full_buffer_message(reply(), IdeType::Full, None).is_none());
    match full_buffer_message(reply(), IdeType::Full, Some(vec![error("e", vec![])])) {
        Some(FullBufferMessage::Error(es)) => assert_eq!(es.len(), 1),
        other => panic!("unexpected {:?}", other),
    }
}

#[test]
fn document_changes_send_full_buffer_queries() {
    let mut b = FileBackend::new("/p/Test.fst".to_string(), None);
    let rs = b.handle_full_buffer_change("module Test");
    assert_eq!(b.text, "module Test");
    assert_eq!(rs.len(), 2);
    assert_eq!(rs[0].ide_type, IdeType::Full);
    match &rs[0].query {
        Query::FullBuffer(q) => {
            assert_eq!(q.kind, FullBufferKind::Cache);
            assert_eq!(q.code, "module Test");
            assert!(!q.with_symbols);
        }
        other => panic!("unexpected {:?}", other),
    }
    assert_eq!(rs[1].ide_type, IdeType::Lax);
    assert!(matches!(&rs[1].query, Query::FullBuffer(q) if q.kind == FullBufferKind::Full));
    let rs = b.reload_dependencies();
    assert_eq!(rs.iter().map(|r| r.ide_type).collect::<Vec<_>>(), vec![IdeType::Lax, IdeType::Full]);
    let r = b.verify_to_position(pos(4, 2));
    assert!(matches!(&r.query, Query::FullBuffer(q) if q.kind == FullBufferKind::VerifyToPosition(fstar_lsp::fstar::BarePosition { line: 5, column: 2 })));
    let mut solo = without_quick_process("/p/Test.fst");
    assert_eq!(solo.handle_full_buffer_change("x").len(), 1);
    assert!(solo.send_full_buffer_query(IdeType::Lax, FullBufferKind::Full).is_none());
}

fn without_quick_process(path: &str) -> FileBackend {
    let mut b = FileBackend::new(path.to_string(), None);
    b.has_lax_ide = false;
    b
}

#[test]
fn opening_a_document_loads_it_then_checks_it() {
    let mut b = FileBackend::new("/p/Test.fst".to_string(), None);
    let rs = b.init("module Test");
    assert_eq!(b.text, "module Test");
    assert_eq!(rs.iter().map(|r| r.ide_type).collect::<Vec<_>>(), vec![IdeType::Full, IdeType::Lax, IdeType::Full, IdeType::Lax]);
    for r in &rs[..2] {
        match &r.query {
            Query::VfsAdd(q) => {
                assert_eq!(q.filename, None);
                assert_eq!(q.contents, "module Test");
            }
            other => panic!("unexpected {:?}", other),
        }
    }
    assert!(matches!(&rs[2].query, Query::FullBuffer(q) if q.kind == FullBufferKind::Cache && q.code == "module Test"));
    assert!(matches!(&rs[3].query, Query::FullBuffer(q) if q.kind == FullBufferKind::Full && q.code == "module Test"));
    let mut solo = without_quick_process("/p/Test.fst");
    let rs = solo.init("x");
    assert_eq!(rs.len(), 2);
    assert!(matches!(&rs[0].query, Query::VfsAdd(q) if q.contents == "x"));
    assert!(matches!(&rs[1].query, Query::FullBuffer(q) if q.kind == FullBufferKind::Cache));
    assert_eq!(solo.text, "x");
}

#[test]
fn a_new_document_runs_where_its_configuration_says() {
    let b = FileBackend::new("/p/src/Test.fst".to_string(), None);
    assert_eq!(b.path, "/p/src/Test.fst");
    assert_eq!(b.text, "");
    assert!(b.has_lax_ide);
    assert_eq!(b.working_dir, "/p/src");
    assert_eq!(b.full_ide_args, vec!["/p/src/Test.fst"]);
    assert_eq!(b.lax_ide_args, vec!["/p/src/Test.fst", "--admit_smt_queries", "true"]);
    assert_eq!(FileBackend::new("Test.fst".to_string(), None).working_dir, "");
    assert_eq!(FileBackend::new("/".to_string(), None).working_dir, ".");
    let config = |cwd: Option<&str>| Config {
        fstar_exe: None,
        options: Some(vec!["--z3version".to_string(), "4.13.3".to_string()]),
        include_dirs: Some(vec!["lib".to_string()]),
        cwd: cwd.map(|c| c.to_string()),
    };
    let b = FileBackend::new("/p/src/Test.fst".to_string(), Some((config(None), "/p".to_string())));
    assert_eq!(b.working_dir, "/p");
    assert_eq!(b.full_ide_args, vec!["/p/src/Test.fst", "--z3version", "4.13.3", "--include", "lib"]);
    assert_eq!(
        b.lax_ide_args,
        vec!["/p/src/Test.fst", "--admit_smt_queries", "true", "--z3version", "4.13.3", "--include", "lib"]
    );
    let b = FileBackend::new("/p/src/Test.fst".to_string(), Some((config(Some("build")), "/p".to_string())));
    assert_eq!(b.working_dir, "/p/build");
    let b = FileBackend::new("/p/src/Test.fst".to_string(), Some((config(Some("/elsewhere")), "/p".to_string())));
    assert_eq!(b.working_dir, "/elsewhere");
}

#[test]
fn definitions_elsewhere_get_file_urls() {
    assert_eq!(definition_path("/p", "/lib/Prims.fst"), "/lib/Prims.fst");
    assert_eq!(definition_path("/p", "lib/A.fst"), "/p/lib/A.fst");
    assert_eq!(definition_file_url("/p", "/lib/Prims.fst"), Some("file:///lib/Prims.fst".to_string()));
    assert_eq!(definition_file_url("/p/src", "A B.fst"), Some("file:///p/src/A%20B.fst".to_string()));
    assert_eq!(definition_file_url(".", "A.fst"), None);
}

#[test]
fn lookup_asks_the_quick_process_about_the_word() {
    let mut b = FileBackend::new("/p/Test.fst".to_string(), None);
    b.handle_full_buffer_change("let x = foo 1");
    let (req, r) = b.lookup_query(vec![LookupRequest::Type], pos(0, 9)).unwrap();
    assert_eq!(req.ide_type, IdeType::Lax);
    assert_eq!(r, LspRange { start: pos(0, 8), end: pos(0, 11) });
    match req.query {
        Query::Lookup(q) => {
            assert_eq!(q.context, LookupContext::Code);
            assert_eq!(q.symbol, "foo");
            assert_eq!(q.requested_info, vec![LookupRequest::Type]);
            let loc = q.location.unwrap();
            assert_eq!(loc.filename, "/p/Test.fst");
            assert_eq!(loc.position, fstar_lsp::fstar::BarePosition { line: 1, column: 9 });
        }
        other => panic!("unexpected {:?}", other),
    }
    assert!(b.lookup_query(vec![LookupRequest::Type], pos(0, 7)).is_none());
    let req = b.complete(pos(0, 10)).unwrap();
    assert!(matches!(req.query, Query::AutoComplete(q) if q.partial_symbol == "foo"));
}

#[test]
fn lookup_answers_need_success_and_symbol_kind() {
    let r = LspRange { start: pos(0, 1), end: pos(0, 2) };
    let ok = lookup_outcome(Some(ResponseStatus::Success), Some(lookup_response("symbol", Some("int"), None)), r);
    assert!(ok.is_some());
    assert!(lookup_outcome(Some(ResponseStatus::Failure), Some(lookup_response("symbol", None, None)), r).is_none());
    assert!(lookup_outcome(Some(ResponseStatus::Success), Some(lookup_response("module", None, None)), r).is_none());
    assert!(lookup_outcome(Some(ResponseStatus::Success), None, r).is_none());
    assert!(lookup_outcome(None, Some(lookup_response("symbol", None, None)), r).is_none());
    let (resp, range) = ok.unwrap();
    assert_eq!(range, r);
    let h = hover_result(resp, range).unwrap();
    match &h.result {
        HoverResultText::NoDocumentation { full_name, type_ } => {
            assert_eq!(full_name, "Test.f");
            assert_eq!(type_, "int");
        }
        other => panic!("unexpected {:?}", other),
    }
    assert_eq!(hover_text(&h.result), "Test.f: int");
    assert!(hover_result(lookup_response("symbol", None, None), r).is_none());
}

#[test]
fn definitions_in_the_document_or_elsewhere() {
    let g = goto_definition_result(lookup_response("symbol", None, Some(range("<input>", (3, 4), (3, 8))))).unwrap();
    assert!(matches!(g.file, GotoDefinitionResultFile::ThisFile));
    assert_eq!(g.range, LspRange { start: pos(2, 4), end: pos(2, 8) });
    let g = goto_definition_result(lookup_response("symbol", None, Some(range("/lib/Prims.fst", (1, 0), (1, 3))))).unwrap();
    assert!(matches!(g.file, GotoDefinitionResultFile::OtherFile(ref f) if f == "/lib/Prims.fst"));
    assert!(goto_definition_result(lookup_response("symbol", None, None)).is_none());
}

#[test]
fn completions_drop_the_search_term() {
    let items = vec![
        AutoCompleteResponseItem(3, "<search term>".to_string(), "foo".to_string()),
        AutoCompleteResponseItem(3, "Test".to_string(), "foo_bar".to_string()),
        AutoCompleteResponseItem(2, "Prims".to_string(), "fo".to_string()),
    ];
    let r = complete_result(Some(ResponseStatus::Success), Some(items)).unwrap();
    assert_eq!(r.len(), 2);
    assert_eq!((r[0].match_length, r[0].annotation.as_str(), r[0].candidate.as_str()), (3, "Test", "foo_bar"));
    assert_eq!(r[1].candidate, "fo");
    assert!(complete_result(Some(ResponseStatus::ProtocolViolation), Some(vec![])).is_none());
    assert!(complete_result(None, None).is_none());
    assert_eq!(complete_result(Some(ResponseStatus::Success), Some(vec![])).unwrap().len(), 0);
}

#[test]
fn configuration_options_and_process_arguments() {
    let config = Some(Config {
        fstar_exe: None,
        options: Some(vec!["--cache_checked_modules".to_string()]),
        include_dirs: Some(vec!["lib".to_string(), "/abs".to_string()]),
        cwd: None,
    });
    let extra = additional_options(&config);
    assert_eq!(extra, vec!["--cache_checked_modules", "--include", "lib", "--include", "/abs"]);
    assert_eq!(additional_options(&None), Vec::<String>::new());
    assert_eq!(lax_ide_arguments("A.fst", &extra)[..3], ["A.fst", "--admit_smt_queries", "true"]);
    assert_eq!(lax_ide_arguments("A.fst", &extra).len(), 8);
    assert_eq!(full_ide_arguments("A.fst", &extra)[0], "A.fst");
    assert_eq!(full_ide_arguments("A.fst", &vec![]), vec!["A.fst"]);
    assert!(is_config_file_name("proj.fst.config.json"));
    assert!(is_config_file_name(".fst.config.json"));
    assert!(!is_config_file_name("proj.fst.config.jsonx"));
    assert!(!is_config_file_name("config.json"));
}

#[test]
fn log_lines_pass_the_configured_level() {
    let mut configured = None;
    assert_eq!(log_with_level("hi", LogLevel::Log, configured), Some("[log] hi".to_string()));
    set_log_level(&mut configured, LogLevel::Warning);
    assert_eq!(configured, Some(LogLevel::Warning));
    assert_eq!(log_with_level("hi", LogLevel::Info, configured), None);
    assert_eq!(log_with_level("bad", LogLevel::Error, configured), Some("[error] bad".to_string()));
    assert_eq!(log_with_level("w", LogLevel::Warning, configured), Some("[warning] w".to_string()));
}

#[test]
fn each_finished_check_publishes_the_errors_since_each_start() {
    let msg = |ide_type, message| IdeFullBufferMessage { ide_type, message };
    let err = |m: &str, line: u32| FullBufferMessage::Error(vec![error(m, vec![range("<input>", (line, 0), (line, 1))])]);
    let mut l = FullBufferMessageLoop::new();
    let stream = vec![
        msg(IdeType::Full, err("stale", 1)),
        msg(IdeType::Lax, err("quick", 2)),
        msg(IdeType::Full, FullBufferMessage::Started),
        msg(IdeType::Full, err("full one", 3)),
        msg(IdeType::Full, err("full two", 4)),
        msg(IdeType::Lax, FullBufferMessage::Finished),
    ];
    let mut sent = Vec::new();
    for m in stream {
        sent.push(l.handle(m));
    }
    let kinds: Vec<usize> = sent.iter().map(|ns| ns.len()).collect();
    assert_eq!(kinds, vec![0, 0, 1, 0, 0, 1]);
    match &sent[5][0] {
        ClientNotification::PublishDiagnostics(ds) => {
            let messages: Vec<&str> = ds.iter().map(|d| d.message.as_str()).collect();
            assert_eq!(messages, vec!["quick", "full one", "full two"]);
        }
        other => panic!("unexpected {:?}", other),
    }
}

#[test]
fn the_configuration_search_climbs_to_the_root() {
    let mut search = ConfigSearch::new("/p/src/Test.fst");
    assert_eq!(search.dir.as_deref(), Some("/p/src"));
    assert_eq!(search.look_in_listing(&vec![Some("Test.fst".to_string()), None]), None);
    assert_eq!(search.dir.as_deref(), Some("/p"));
    let listing = vec![
        Some("README".to_string()),
        Some("a.fst.config.json".to_string()),
        Some("b.fst.config.json".to_string()),
    ];
    assert_eq!(search.look_in_listing(&listing), Some(1));
    assert_eq!(search.dir.as_deref(), Some("/p"));
    let config = Config { fstar_exe: None, options: None, include_dirs: None, cwd: Some("x".to_string()) };
    let (found, dir) = search.found(Some(config)).unwrap();
    assert_eq!(dir, "/p");
    assert_eq!(found.cwd.as_deref(), Some("x"));
    assert!(search.found(None).is_none());
    let mut search = ConfigSearch::new("/p");
    assert_eq!(search.dir.as_deref(), Some("/"));
    assert_eq!(search.look_in_listing(&vec![]), None);
    assert_eq!(search.dir, None);
    assert_eq!(ConfigSearch::new("/").dir, None);
}
