use theca::item::{Status, ThecaItem};
use theca::layout::{console_width, format_field, LineFormat, Winsize};
use theca::profile::ThecaProfile;

fn item(id: usize, title: &str, status: Status, body: &str) -> ThecaItem {
    ThecaItem {
        id,
        title: title.to_string(),
        status,
        body: body.to_string(),
        last_touched: "2015-01-22 20:05:51".to_string(),
    }
}

#[test]
fn title_width_is_longest_title() {
    let items = vec![
        item(1, "abc", Status::NoStatus, ""),
        item(2, "abcdefghij", Status::NoStatus, ""),
        item(3, "a", Status::NoStatus, ""),
    ];
    let lf = LineFormat::new(&items, false, 0);
    assert_eq!(lf.title_width, 10);
    let mut with_body = items.clone();
    with_body[2].body = "x".to_string();
    let lf2 = LineFormat::new(&with_body, false, 0);
    assert_eq!(lf2.title_width, 14);
}

#[test]
fn expanded_floors_short_columns() {
    let items = vec![item(1, "ab", Status::NoStatus, "")];
    let lf = LineFormat::new(&items, false, 0);
    assert_eq!(lf.title_width, 5);
    assert_eq!(lf.id_width, 2);
    assert_eq!(lf.colsep, 2);
    assert_eq!(lf.status_width, 0);
    assert_eq!(lf.touched_width, 19);
    assert_eq!(lf.line_width(), 2 + 5 + 0 + 19 + 6);
    let c = LineFormat::new(&items, true, 0);
    assert_eq!(c.title_width, 2);
    assert_eq!(c.id_width, 1);
}

#[test]
fn id_width_is_longest_rendered_id() {
    let items = vec![item(9, "a", Status::NoStatus, ""), item(100, "b", Status::NoStatus, "")];
    let lf = LineFormat::new(&items, true, 0);
    assert_eq!(lf.id_width, 3);
}

#[test]
fn condensed_status_and_separator() {
    let items = vec![item(1, "a", Status::Started, ""), item(2, "b", Status::Urgent, "")];
    let c = LineFormat::new(&items, true, 0);
    assert_eq!(c.colsep, 1);
    assert_eq!(c.status_width, 1);
    assert_eq!(c.touched_width, 10);
    let e = LineFormat::new(&items, false, 0);
    assert_eq!(e.status_width, 7);
    let u = LineFormat::new(&vec![item(1, "a", Status::Urgent, "")], false, 0);
    assert_eq!(u.status_width, 6);
}

#[test]
fn unknown_width_never_shrinks() {
    let title = "x".repeat(480);
    let items = vec![item(1, &title, Status::NoStatus, "")];
    let lf = LineFormat::new(&items, false, 0);
    assert_eq!(lf.title_width, 480);
}

#[test]
fn known_width_shrinks_title() {
    let title = "x".repeat(100);
    let items = vec![item(1, &title, Status::NoStatus, "")];
    let lf = LineFormat::new(&items, false, 80);
    // natural width 2 + 100 + 0 + 19 + 6 = 127, overflow 47
    assert_eq!(lf.title_width, 53);
    assert_eq!(lf.line_width(), 80);
}

#[test]
fn shrink_skipped_when_title_would_vanish() {
    let items = vec![item(1, "abcdef", Status::NoStatus, "")];
    let lf = LineFormat::new(&items, false, 10);
    assert_eq!(lf.title_width, 6);
}

#[test]
fn format_field_pads_and_truncates() {
    assert_eq!(format_field(&"ab".to_string(), 5, false), "ab   ");
    assert_eq!(format_field(&"abcdefgh".to_string(), 5, false), "abcde");
    assert_eq!(format_field(&"abcdefgh".to_string(), 5, true), "ab...");
    assert_eq!(format_field(&"abcd".to_string(), 3, true), "abc");
    assert_eq!(format_field(&"Started".to_string(), 1, false), "S");
    assert_eq!(format_field(&"".to_string(), 0, true), "");
}

#[test]
fn console_width_needs_both_dimensions() {
    assert_eq!(console_width(&Winsize { ws_row: 24, ws_col: 80 }), 80);
    assert_eq!(console_width(&Winsize { ws_row: 0, ws_col: 80 }), 0);
    assert_eq!(console_width(&Winsize { ws_row: 24, ws_col: 0 }), 0);
}

#[test]
fn row_and_header_text() {
    let items = vec![item(1, "milk", Status::Started, "b"), item(2, "bread", Status::NoStatus, "")];
    let lf = LineFormat::new(&items, false, 0);
    assert_eq!(lf.title_width, 9);
    assert_eq!(lf.header(), "id  title      status   last touched       ");
    assert_eq!(lf.rule(), "-".repeat(2 + 9 + 7 + 19 + 6));
    assert_eq!(items[0].row(&lf, false), "1   (+) milk   Started  2015-01-22 20:05:51");
    assert_eq!(items[0].row(&lf, true), "1   milk       Started  2015-01-22 20:05:51");
    assert_eq!(items[1].row(&lf, false), "2   bread               2015-01-22 20:05:51");
}

#[test]
fn list_items_lines() {
    let p = ThecaProfile {
        encrypted: false,
        notes: vec![item(1, "a", Status::NoStatus, ""), item(2, "b", Status::NoStatus, ""), item(3, "c", Status::NoStatus, "")],
    };
    let lines = p.list_items(0, false, true, 0);
    assert_eq!(lines, vec!["1 a  2015-01-22", "2 b  2015-01-22", "3 c  2015-01-22"]);
    let rev = p.list_items(2, true, true, 0);
    assert_eq!(rev, vec!["2 b  2015-01-22", "1 a  2015-01-22"]);
    let all = p.list_items(10, false, true, 0);
    assert_eq!(all.len(), 3);
    let expanded = p.list_items(1, false, false, 0);
    assert_eq!(expanded.len(), 3);
    assert_eq!(expanded[0], "id  title    last touched       ");
    assert_eq!(expanded[2], "1   a        2015-01-22 20:05:51");
    let empty = ThecaProfile::new_empty(false);
    assert!(empty.list_items(0, false, false, 80).is_empty());
}

#[test]
fn list_layout_uses_shown_notes_only() {
    let long = "y".repeat(30);
    let p = ThecaProfile {
        encrypted: false,
        notes: vec![item(1, "ab", Status::NoStatus, ""), item(2, &long, Status::Urgent, "body")],
    };
    let lines = p.list_items(1, false, true, 0);
    assert_eq!(lines, vec!["1 ab  2015-01-22"]);
    let both = p.list_items(0, false, true, 0);
    assert_eq!(both[0], format!("1 {:<34} {:<1} 2015-01-22", "ab", ""));
}
