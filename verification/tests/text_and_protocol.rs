use fstar_lsp::fstar::ide::{normalize_query_id, LastMessageDecider, QueryNumbering, RouteTable};
use fstar_lsp::fstar::{
    BarePosition, CancelPosition, FullBufferKind, FullBufferQuery, InfoMessage, Message, Position,
    ProgressMessage, ProgressMessageOrNull, Query, Range, Response, ResponseOrMessage, ResponseStatus,
};
use fstar_lsp::lsp::types::{LspPosition, LspRange};
use fstar_lsp::text::{chars_of, nth_line_bounds, prefix_before_char, u64_to_decimal};

fn lsp_pos(line: u32, character: u32) -> LspPosition {
    LspPosition { line, character }
}

fn response() -> ResponseOrMessage {
    ResponseOrMessage::Response(Response { status: ResponseStatus::Success, response: serde_json::Value::Null })
}

fn finished() -> ResponseOrMessage {
    ResponseOrMessage::Message(Message::Progress(ProgressMessageOrNull::Known(ProgressMessage::FullBufferFinished)))
}

fn full_buffer_query() -> Query {
    Query::FullBuffer(FullBufferQuery { code: "module A".to_string(), kind: FullBufferKind::Full, with_symbols: false })
}

#[test]
fn decimal_rendering_matches_to_string() {
    for n in [0u64, 7, 10, 99, 100, 1234567890, u64::MAX] {
        assert_eq!(u64_to_decimal(n), n.to_string());
    }
}

#[test]
fn prefix_before_char_stops_at_first_delimiter() {
    assert_eq!(prefix_before_char("a.b", '.'), "a");
    assert_eq!(prefix_before_char("ab", '.'), "ab");
    assert_eq!(prefix_before_char("12.3.4", '.'), "12");
}

#[test]
fn chars_of_keeps_every_character() {
    assert_eq!(chars_of("aé€𝄞"), vec!['a', 'é', '€', '𝄞']);
    assert_eq!(chars_of(""), Vec::<char>::new());
}

#[test]
fn lines_split_like_str_lines() {
    let texts = ["a\nbc\r\nd", "a\n", "", "x\r", "\n\n", "one line", "a\r\nb\r\n"];
    for text in texts {
        let chars = chars_of(text);
        let expected: Vec<&str> = text.lines().collect();
        for (n, line) in expected.iter().enumerate() {
            let (s, e) = nth_line_bounds(&chars, n).unwrap();
            let got: String = chars[s..e].iter().collect();
            assert_eq!(&got, line, "line {} of {:?}", n, text);
        }
        assert_eq!(nth_line_bounds(&chars, expected.len()), None, "{:?}", text);
    }
}

#[test]
fn bare_position_from_and_into_shift_lines() {
    let b = BarePosition::from(lsp_pos(3, 5));
    assert_eq!(b, BarePosition { line: 4, column: 5 });
    assert_eq!(b.into(), lsp_pos(3, 5));
    assert_eq!(BarePosition { line: 0, column: 2 }.into(), lsp_pos(0, 2));
}

#[test]
fn position_from_keeps_filename() {
    let p = Position::from("A.fst".to_string(), lsp_pos(0, 7));
    assert_eq!(p.filename, "A.fst");
    assert_eq!(p.position, BarePosition { line: 1, column: 7 });
    assert_eq!(p.into(), lsp_pos(0, 7));
}

#[test]
fn range_round_trip_and_display() {
    let editor = LspRange { start: lsp_pos(0, 2), end: lsp_pos(4, 9) };
    let r = Range::from("Test.fst".to_string(), editor);
    assert_eq!(r.beg, (1, 2));
    assert_eq!(r.end, (5, 9));
    assert_eq!(r.to_display_string(), "Test.fst(1,2-5,9)");
    assert_eq!(r.to_lsp_range(), editor);
    assert_eq!(r.clone().into(), editor);
    let top = Range { fname: "<input>".to_string(), beg: (0, 0), end: (0, 1) };
    assert_eq!(top.into(), LspRange { start: lsp_pos(0, 0), end: lsp_pos(0, 1) });
}

#[test]
fn decider_of_full_buffer_waits_for_finished() {
    let d = LastMessageDecider::new(&full_buffer_query());
    assert_eq!(d, LastMessageDecider::FullBuffer);
    assert!(!d.decide(&response()));
    assert!(d.decide(&finished()));
    let info = ResponseOrMessage::Message(Message::Info(InfoMessage("hello".to_string())));
    assert!(!d.decide(&info));
}

#[test]
fn decider_of_other_queries_ends_on_response() {
    let d = LastMessageDecider::new(&Query::Cancel(CancelPosition { cancel_line: 1, cancel_column: 0 }));
    assert_eq!(d, LastMessageDecider::Other);
    assert!(d.decide(&response()));
    assert!(!d.decide(&finished()));
}

#[test]
fn query_ids_normalize_to_prefix_before_dot() {
    assert_eq!(normalize_query_id("12.3"), "12");
    assert_eq!(normalize_query_id("12"), "12");
    assert_eq!(normalize_query_id(".1"), "");
    assert_eq!(normalize_query_id(""), "");
}

#[test]
fn queries_are_numbered_from_zero() {
    let mut numbering = QueryNumbering::new();
    let (q0, d0) = numbering.number_query(full_buffer_query());
    let (q1, d1) = numbering.number_query(Query::RestartSolver {});
    assert_eq!(q0.query_id, "0");
    assert_eq!(q1.query_id, "1");
    assert_eq!(d0, LastMessageDecider::FullBuffer);
    assert_eq!(d1, LastMessageDecider::Other);
    assert_eq!(q1.query, Query::RestartSolver {});
    assert_eq!(numbering.current_query_id, 2);
}

#[test]
fn replies_reach_the_route_of_their_query() {
    let mut table: RouteTable<u32> = RouteTable::new();
    table.insert("3".to_string(), 30, LastMessageDecider::Other);
    table.insert("4".to_string(), 40, LastMessageDecider::FullBuffer);
    assert_eq!(table.dispatch("3", &response()), Some((&30, true)));
    assert_eq!(table.dispatch("3.1", &finished()), Some((&30, false)));
    assert_eq!(table.dispatch("4.2", &finished()), Some((&40, true)));
    assert_eq!(table.dispatch("5", &response()), None);
    // A tag with a suffix names no route of its own: nothing is removed.
    table.remove("4.2");
    assert_eq!(table.dispatch("4", &response()), Some((&40, false)));
    table.remove("4");
    assert_eq!(table.dispatch("4", &response()), None);
    assert_eq!(table.dispatch("3", &response()), Some((&30, true)));
}

#[test]
fn inserting_an_existing_id_replaces_its_route() {
    let mut table: RouteTable<&str> = RouteTable::new();
    table.insert("7".to_string(), "first", LastMessageDecider::Other);
    table.insert("7".to_string(), "second", LastMessageDecider::FullBuffer);
    assert_eq!(table.dispatch("7", &finished()), Some((&"second", true)));
    table.remove("7");
    assert_eq!(table.dispatch("7", &finished()), None);
}

#[test]
fn fstar_positions_survive_a_trip_through_the_editor() {
    for (line, column) in [(1u32, 0u32), (2, 5), (u32::MAX, 3)] {
        let b = BarePosition { line, column };
        assert_eq!(BarePosition::from(b.into()), b);
    }
}
