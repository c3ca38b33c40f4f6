use juniper_relay::connection::{
    check_argument, leq_zero, PaginationError, RelayConnection, RelayConnectionNode, RelayConnectionPageInfo,
    RelayError,
};
use juniper_relay::cursor::{decimal_text, parse_decimal, RelayCursor};
use juniper_relay::id_node::IdNode;

fn nodes(ids: &[i32]) -> Vec<IdNode> {
    ids.iter().map(|&id| IdNode { id }).collect()
}

fn ids(c: &RelayConnection<IdNode>) -> Vec<i32> {
    c.edges.iter().map(|e| e.node.id).collect()
}

fn cursors(c: &RelayConnection<IdNode>) -> Vec<String> {
    c.edges.iter().map(|e| e.cursor.clone()).collect()
}

fn build(first: Option<i64>, last: Option<i64>, list: &[i32]) -> RelayConnection<IdNode> {
    RelayConnection::<IdNode>::build_connection(first, last, nodes(list)).unwrap()
}

#[test]
fn closure_args_smoke_test() {
    assert_eq!(
        RelayConnection::<IdNode>::closure_args(Some(42), Some("8".into()), None),
        Ok((Some(8), None, Some(43)))
    );
    assert_eq!(
        RelayConnection::<IdNode>::closure_args(None, None, Some("95".into())),
        Ok((None, Some(95), None))
    );
    assert!(RelayConnection::<IdNode>::closure_args(None, Some("foo".to_string()), None).is_err());
}

#[test]
fn cursor_round_trip_on_i32() {
    for c in [0, 1, -1, 9, 10, 95, -4096, 123456789, i32::MAX, i32::MIN] {
        let text = c.to_text();
        assert_eq!(text, c.to_string());
        assert_eq!(i32::parse_text(&text), Ok(c));
    }
}

#[test]
fn decimal_text_values() {
    assert_eq!(decimal_text(0), "0");
    assert_eq!(decimal_text(-12), "-12");
    assert_eq!(decimal_text(i64::MIN), "-9223372036854775808");
    assert_eq!(decimal_text(i64::MAX), "9223372036854775807");
}

#[test]
fn parse_decimal_values() {
    assert_eq!(parse_decimal("42", -100, 100), Some(42));
    assert_eq!(parse_decimal("+42", -100, 100), Some(42));
    assert_eq!(parse_decimal("-100", -100, 100), Some(-100));
    assert_eq!(parse_decimal("-101", -100, 100), None);
    assert_eq!(parse_decimal("101", -100, 100), None);
    assert_eq!(parse_decimal("007", -100, 100), Some(7));
    assert_eq!(parse_decimal("", -100, 100), None);
    assert_eq!(parse_decimal("-", -100, 100), None);
    assert_eq!(parse_decimal("+", -100, 100), None);
    assert_eq!(parse_decimal("4a", -100, 100), None);
    assert_eq!(parse_decimal(" 4", -100, 100), None);
    assert_eq!(parse_decimal("99999999999999999999999", i64::MIN, i64::MAX), None);
}

#[test]
fn i32_cursor_parse_matches_std() {
    for s in ["", "-", "+7", "-0", "2147483647", "2147483648", "-2147483648", "-2147483649", "1e3", "foo", "٣"] {
        let expected: Result<i32, _> = s.parse::<i32>();
        assert_eq!(i32::parse_text(s).ok(), expected.ok(), "on {:?}", s);
    }
}

#[test]
fn leq_zero_rejects_negatives() {
    assert_eq!(leq_zero(0), Ok(0));
    assert_eq!(leq_zero(7), Ok(7));
    assert_eq!(leq_zero(-1), Err("Pagination argument must be positive"));
}

#[test]
fn empty_connection() {
    let c = RelayConnection::<IdNode>::empty();
    assert!(c.edges.is_empty());
    assert_eq!(
        c.page_info,
        RelayConnectionPageInfo {
            has_previous_page: false,
            has_next_page: false,
            start_cursor: None,
            end_cursor: None,
        }
    );
}

#[test]
fn forward_only_page() {
    let c = build(Some(2), None, &[1, 2, 3]);
    assert_eq!(ids(&c), vec![1, 2]);
    assert_eq!(cursors(&c), vec!["1".to_string(), "2".to_string()]);
    assert!(c.page_info.has_next_page);
    assert!(!c.page_info.has_previous_page);
    assert_eq!(c.page_info.start_cursor, Some("1".to_string()));
    assert_eq!(c.page_info.end_cursor, Some("2".to_string()));
}

#[test]
fn backward_only_page() {
    let c = build(None, Some(2), &[1, 2, 3]);
    assert_eq!(ids(&c), vec![2, 3]);
    assert!(c.page_info.has_previous_page);
    assert!(!c.page_info.has_next_page);
    assert_eq!(c.page_info.start_cursor, Some("2".to_string()));
    assert_eq!(c.page_info.end_cursor, Some("3".to_string()));
}

#[test]
fn combined_first_and_last_page() {
    let c = build(Some(2), Some(1), &[1, 2, 3, 4]);
    assert_eq!(ids(&c), vec![2]);
    assert!(c.page_info.has_next_page);
    assert!(c.page_info.has_previous_page);
    assert_eq!(c.page_info.start_cursor, Some("2".to_string()));
    assert_eq!(c.page_info.end_cursor, Some("2".to_string()));
}

#[test]
fn first_zero_gives_no_edges() {
    let c = build(Some(0), None, &[1, 2]);
    assert!(c.edges.is_empty());
    assert!(c.page_info.has_next_page);
    assert_eq!(c.page_info.start_cursor, None);
    assert_eq!(c.page_info.end_cursor, None);
}

#[test]
fn last_zero_gives_no_edges() {
    let c = build(None, Some(0), &[1, 2]);
    assert!(c.edges.is_empty());
    assert!(c.page_info.has_previous_page);
    assert!(!c.page_info.has_next_page);
}

#[test]
fn no_bounds_return_everything() {
    let c = build(None, None, &[5, 6, 7]);
    assert_eq!(ids(&c), vec![5, 6, 7]);
    assert!(!c.page_info.has_next_page);
    assert!(!c.page_info.has_previous_page);
    assert_eq!(c.page_info.start_cursor, Some("5".to_string()));
    assert_eq!(c.page_info.end_cursor, Some("7".to_string()));
}

#[test]
fn bounds_equal_to_length_show_no_more_pages() {
    let c = build(Some(3), Some(3), &[-3, -2, -1]);
    assert_eq!(ids(&c), vec![-3, -2, -1]);
    assert_eq!(cursors(&c), vec!["-3".to_string(), "-2".to_string(), "-1".to_string()]);
    assert!(!c.page_info.has_next_page);
    assert!(!c.page_info.has_previous_page);
}

#[test]
fn empty_candidates_give_empty_page() {
    for first in [None, Some(0), Some(1), Some(5)] {
        for last in [None, Some(0), Some(1), Some(5)] {
            let c = build(first, last, &[]);
            assert!(c.edges.is_empty());
            assert!(!c.page_info.has_next_page);
            assert!(!c.page_info.has_previous_page);
            assert_eq!(c.page_info.start_cursor, None);
            assert_eq!(c.page_info.end_cursor, None);
        }
    }
}

#[test]
fn building_twice_gives_the_same_page() {
    let a = build(Some(2), Some(1), &[1, 2, 3, 4]);
    let b = build(Some(2), Some(1), &[1, 2, 3, 4]);
    assert_eq!(ids(&a), ids(&b));
    assert_eq!(cursors(&a), cursors(&b));
    assert_eq!(a.page_info, b.page_info);
}

#[test]
fn new_passes_decoded_bounds_and_limit() {
    let mut seen = None;
    let c = RelayConnection::<IdNode>::new(
        Some(2),
        Some("1".to_string()),
        None,
        Some("9".to_string()),
        |after, before, limit| -> Result<Vec<IdNode>, String> {
            seen = Some((after, before, limit));
            Ok(nodes(&[2, 3, 4]))
        },
    )
    .unwrap();
    assert_eq!(seen, Some((Some(1), Some(9), Some(3))));
    assert_eq!(ids(&c), vec![2, 3]);
    assert!(c.page_info.has_next_page);
}

#[test]
fn limit_is_one_more_than_first() {
    let mut seen = None;
    let _ = RelayConnection::<IdNode>::new(Some(42), None, Some(3), None, |_, _, limit| -> Result<Vec<IdNode>, String> {
        seen = Some(limit);
        Ok(vec![])
    });
    assert_eq!(seen, Some(Some(43)));
}

#[test]
fn no_limit_without_first() {
    let mut seen = None;
    let _ = RelayConnection::<IdNode>::new(None, None, Some(3), None, |_, _, limit| -> Result<Vec<IdNode>, String> {
        seen = Some(limit);
        Ok(vec![])
    });
    assert_eq!(seen, Some(None));
}

#[test]
fn negative_first_is_rejected_before_loading() {
    let mut called = false;
    let r = RelayConnection::<IdNode>::new(Some(-1), None, None, None, |_, _, _| -> Result<Vec<IdNode>, String> {
        called = true;
        Ok(vec![])
    });
    assert!(!called);
    assert_eq!(
        r.unwrap_err(),
        RelayError::Pagination(PaginationError::InvalidArgument(
            "Pagination argument must be positive".to_string()
        ))
    );
}

#[test]
fn negative_last_is_rejected_before_loading() {
    let mut called = false;
    let r = RelayConnection::<IdNode>::new(Some(3), None, Some(-5), None, |_, _, _| -> Result<Vec<IdNode>, String> {
        called = true;
        Ok(vec![])
    });
    assert!(!called);
    assert!(matches!(r, Err(RelayError::Pagination(PaginationError::InvalidArgument(_)))));
}

#[test]
fn malformed_cursor_is_rejected_before_loading() {
    let mut called = false;
    let r = RelayConnection::<IdNode>::new(None, Some("foo".to_string()), None, None, |_, _, _| -> Result<Vec<IdNode>, String> {
        called = true;
        Ok(vec![])
    });
    assert!(!called);
    assert!(matches!(r, Err(RelayError::Pagination(PaginationError::CursorFormat(_)))));
}

#[test]
fn malformed_before_cursor_is_a_format_error() {
    let r = RelayConnection::<IdNode>::closure_args(Some(1), None, Some("12x".to_string()));
    assert!(matches!(r, Err(PaginationError::CursorFormat(_))));
}

#[test]
fn limit_overflow_is_reported() {
    let r = RelayConnection::<IdNode>::closure_args(Some(i64::MAX), None, None);
    assert_eq!(r, Err(PaginationError::ConversionOverflow));
}

#[test]
fn loader_error_is_passed_through() {
    let r = RelayConnection::<IdNode>::new(Some(1), None, None, None, |_, _, _| -> Result<Vec<IdNode>, String> {
        Err("backend down".to_string())
    });
    assert_eq!(r.unwrap_err(), RelayError::Loader("backend down".to_string()));
}

#[test]
fn node_type_names() {
    assert_eq!(IdNode::connection_type_name(), "IdNodeConnection");
    assert_eq!(IdNode::edge_type_name(), "IdNodeConnectionEdge");
    assert_eq!(IdNode { id: 4 }.cursor(), 4);
}

#[test]
fn cursor_round_trip_on_i64() {
    for c in [0i64, -7, 1 << 40, i64::MAX, i64::MIN] {
        let text = c.to_text();
        assert_eq!(text, c.to_string());
        assert_eq!(i64::parse_text(&text), Ok(c));
    }
    assert!(i64::parse_text("9223372036854775808").is_err());
    assert!(i64::parse_text("-9223372036854775809").is_err());
}

#[test]
fn check_argument_widens_or_rejects() {
    assert_eq!(check_argument(None), Ok(None));
    assert_eq!(check_argument(Some(0)), Ok(Some(0)));
    assert_eq!(check_argument(Some(i32::MAX)), Ok(Some(i32::MAX as i64)));
    assert_eq!(
        check_argument(Some(i32::MIN)),
        Err(PaginationError::InvalidArgument("Pagination argument must be positive".to_string()))
    );
}
