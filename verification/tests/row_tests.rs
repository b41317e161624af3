use kilo_rs::row::row_cx_to_rx;
use kilo_rs::row::Row;

#[test]
fn tab_advances_to_next_tab_stop() {
    let row = Row::new(b"a\tb".to_vec());
    assert_eq!(row_cx_to_rx(&row, 0), 0);
    assert_eq!(row_cx_to_rx(&row, 1), 1);
    assert_eq!(row_cx_to_rx(&row, 2), 8);
    assert_eq!(row_cx_to_rx(&row, 3), 9);
}

#[test]
fn mapping_is_identity_without_tabs() {
    let row = Row::new(b"plain text".to_vec());
    for cx in 0..=10 {
        assert_eq!(row_cx_to_rx(&row, cx), cx);
    }
}

#[test]
fn mapping_is_monotonic_with_tabs() {
    let row = Row::new(b"\ta\tbc\t\td".to_vec());
    let mut prev = 0;
    for cx in 0..=8 {
        let rx = row_cx_to_rx(&row, cx);
        assert!(rx >= prev);
        prev = rx;
    }
}

#[test]
fn render_expands_tabs_with_spaces() {
    let row = Row::new(b"a\tb".to_vec());
    assert_eq!(row.render, b"a       b".to_vec());
    let lead = Row::new(b"\tx".to_vec());
    assert_eq!(lead.render, b"        x".to_vec());
    let aligned = Row::new(b"12345678\t!".to_vec());
    assert_eq!(aligned.render, b"12345678        !".to_vec());
}

#[test]
fn render_of_plain_row_is_the_row() {
    let row = Row::new(b"hello".to_vec());
    assert_eq!(row.render, b"hello".to_vec());
    let empty = Row::new(Vec::new());
    assert_eq!(empty.render, Vec::<u8>::new());
}
