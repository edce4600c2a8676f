use fstar_lsp::fstar_ide::{
    FullBufferKind, FullBufferQuery, LastMessageDecider, Message, Position, ProgressMessage,
    ProgressMessageOrNull, Query, Range, Response, ResponseOrMessage, ResponseStatus,
};
use fstar_lsp::lsp::types::{LspPosition, LspRange};

#[test]
fn single_module_positions_shift_lines() {
    let p = Position::from("A.fst".to_string(), LspPosition { line: 9, character: 1 });
    assert_eq!((p.line, p.column), (10, 1));
    assert_eq!(p.into(), LspPosition { line: 9, character: 1 });
    let r = Range::from("A.fst".to_string(), LspRange { start: LspPosition { line: 0, character: 0 }, end: LspPosition { line: 1, character: 2 } });
    assert_eq!(r.to_display_string(), "A.fst(1,0-2,2)");
    assert_eq!(r.into(), LspRange { start: LspPosition { line: 0, character: 0 }, end: LspPosition { line: 1, character: 2 } });
}

#[test]
fn single_module_decider() {
    let fb = Query::FullBuffer(FullBufferQuery {
        code: String::new(),
        kind: FullBufferKind::VerifyToPosition(Position { filename: "A.fst".to_string(), line: 1, column: 0 }),
        with_symbols: false,
    });
    let d = LastMessageDecider::new(&fb);
    assert_eq!(d, LastMessageDecider::FullBuffer);
    let done = ResponseOrMessage::Message(Message::Progress(ProgressMessageOrNull::Known(ProgressMessage::FullBufferFinished)));
    let null = ResponseOrMessage::Message(Message::Progress(ProgressMessageOrNull::Null { stage: None }));
    let reply = ResponseOrMessage::Response(Response { status: ResponseStatus::Success, response: serde_json::Value::Null });
    assert!(d.decide(&done));
    assert!(!d.decide(&null));
    assert!(!d.decide(&reply));
    let other = LastMessageDecider::new(&Query::Pop {});
    assert!(other.decide(&reply));
    assert!(!other.decide(&done));
}
