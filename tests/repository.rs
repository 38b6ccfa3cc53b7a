use theca::error::ErrorKind;
use theca::item::{Status, ThecaItem};
use theca::profile::{Change, ThecaProfile};

fn item(id: usize, title: &str, status: Status, body: &str) -> ThecaItem {
    ThecaItem {
        id,
        title: title.to_string(),
        status,
        body: body.to_string(),
        last_touched: "2015-01-22 20:05:51".to_string(),
    }
}

fn profile(notes: Vec<ThecaItem>) -> ThecaProfile {
    ThecaProfile { encrypted: false, notes }
}

#[test]
fn add_ids_increase_from_one() {
    let mut p = ThecaProfile::new_empty(false);
    for k in 0..5 {
        p.add_item_at(&format!("note {}", k), Status::NoStatus, String::new(), "t".to_string());
    }
    let ids: Vec<usize> = p.notes.iter().map(|n| n.id).collect();
    assert_eq!(ids, vec![1, 2, 3, 4, 5]);
}

#[test]
fn add_with_clock_sets_timestamp() {
    let mut p = ThecaProfile::new_empty(false);
    assert!(p.add_item("first", Status::Started, String::new()).is_ok());
    assert!(p.add_item("second", Status::NoStatus, "b".to_string()).is_ok());
    assert_eq!(p.notes[0].id, 1);
    assert_eq!(p.notes[1].id, 2);
    let t = &p.notes[0].last_touched;
    assert_eq!(t.len(), 19);
    assert_eq!(&t[4..5], "-");
    assert_eq!(&t[10..11], " ");
    assert_eq!(&t[13..14], ":");
}

#[test]
fn add_strips_newlines_from_title() {
    let mut p = ThecaProfile::new_empty(false);
    p.add_item("Fix bug\nnow", Status::Urgent, String::new()).unwrap();
    assert_eq!(p.notes.len(), 1);
    let n = &p.notes[0];
    assert_eq!(n.id, 1);
    assert_eq!(n.title, "Fix bugnow");
    assert_eq!(n.status, Status::Urgent);
    assert_eq!(n.status.as_str(), "Urgent");
    assert_eq!(n.body, "");
    assert_eq!(n.last_touched.len(), 19);
}

#[test]
fn add_after_delete_reuses_last_id_rule() {
    let mut p = profile(vec![item(1, "a", Status::NoStatus, ""), item(5, "b", Status::NoStatus, ""), item(2, "c", Status::NoStatus, "")]);
    p.add_item_at("d", Status::NoStatus, String::new(), "t".to_string());
    assert_eq!(p.notes[3].id, 3);
    assert!(p.can_add());
    let full = profile(vec![item(usize::MAX, "a", Status::NoStatus, "")]);
    assert!(!full.can_add());
}

#[test]
fn delete_twice_reports_false_second_time() {
    let mut p = profile(vec![item(1, "a", Status::NoStatus, ""), item(2, "b", Status::Started, "")]);
    assert!(p.delete_item(2));
    assert_eq!(p.notes.len(), 1);
    assert!(!p.delete_item(2));
    assert_eq!(p.notes.len(), 1);
    assert_eq!(p.notes[0].id, 1);
}

#[test]
fn delete_missing_id_changes_nothing() {
    let mut p = profile(vec![item(1, "a", Status::NoStatus, "")]);
    assert!(!p.delete_item(7));
    assert_eq!(p.notes.len(), 1);
}

#[test]
fn delete_removes_first_of_equal_ids() {
    let mut p = profile(vec![item(3, "a", Status::NoStatus, ""), item(3, "b", Status::NoStatus, "")]);
    assert!(p.delete_item(3));
    assert_eq!(p.notes.len(), 1);
    assert_eq!(p.notes[0].title, "b");
}

#[test]
fn edit_missing_id_fails_and_keeps_profile() {
    let mut p = profile(vec![item(1, "a", Status::Started, "x")]);
    let e = p.edit_item(5, Change::Title("new".to_string())).unwrap_err();
    assert_eq!(e.kind, ErrorKind::GenericError);
    assert_eq!(e.desc, "note id#5 doesn't exist.");
    assert!(e.detail.is_none());
    let e2 = p.edit_item_at(5, Change::Touch, "t".to_string()).unwrap_err();
    assert_eq!(e2.desc, "note id#5 doesn't exist.");
    assert_eq!(p.notes.len(), 1);
    assert_eq!(p.notes[0].title, "a");
    assert_eq!(p.notes[0].last_touched, "2015-01-22 20:05:51");
}

#[test]
fn edit_title_keeps_status_and_body() {
    let mut p = profile(vec![item(1, "a", Status::Started, "body text")]);
    p.edit_item_at(1, Change::Title("new\ntitle".to_string()), "2020-02-02 02:02:02".to_string()).unwrap();
    let n = &p.notes[0];
    assert_eq!(n.title, "newtitle");
    assert_eq!(n.status, Status::Started);
    assert_eq!(n.body, "body text");
    assert_eq!(n.last_touched, "2020-02-02 02:02:02");
    p.edit_item(1, Change::Title("again".to_string())).unwrap();
    assert_eq!(p.notes[0].title, "again");
    assert_eq!(p.notes[0].status, Status::Started);
    assert_eq!(p.notes[0].body, "body text");
    assert_ne!(p.notes[0].last_touched, "2020-02-02 02:02:02");
    assert_eq!(p.notes[0].last_touched.len(), 19);
    assert_eq!(&p.notes[0].last_touched[13..14], ":");
}

#[test]
fn edit_status_body_and_touch() {
    let mut p = profile(vec![item(1, "a", Status::Started, "x"), item(2, "b", Status::NoStatus, "")]);
    p.edit_item_at(2, Change::Status(Status::Urgent), "t1".to_string()).unwrap();
    assert_eq!(p.notes[1].status, Status::Urgent);
    p.edit_item_at(2, Change::Body("new body".to_string()), "t2".to_string()).unwrap();
    assert_eq!(p.notes[1].body, "new body");
    assert_eq!(p.notes[1].title, "b");
    p.edit_item_at(1, Change::Touch, "t3".to_string()).unwrap();
    assert_eq!(p.notes[0].title, "a");
    assert_eq!(p.notes[0].body, "x");
    assert_eq!(p.notes[0].status, Status::Started);
    assert_eq!(p.notes[0].last_touched, "t3");
}

#[test]
fn stats_count_statuses() {
    let p = ThecaProfile {
        encrypted: true,
        notes: vec![
            item(1, "a", Status::NoStatus, ""),
            item(2, "b", Status::Started, ""),
            item(3, "c", Status::Urgent, ""),
            item(4, "d", Status::Urgent, ""),
        ],
    };
    let s = p.stats();
    assert!(s.encrypted);
    assert_eq!(s.notes, 4);
    assert_eq!(s.no_status, 1);
    assert_eq!(s.started, 1);
    assert_eq!(s.urgent, 2);
}

#[test]
fn search_title_and_body() {
    let p = profile(vec![item(1, "Buy milk", Status::NoStatus, "")]);
    let found = p.search_items("milk", false).unwrap();
    assert_eq!(found.len(), 1);
    assert_eq!(found[0].id, 1);
    assert_eq!(found[0].title, "Buy milk");
    let in_body = p.search_items("milk", true).unwrap();
    assert!(in_body.is_empty());
}

#[test]
fn search_keeps_order_and_matches_regex() {
    let p = profile(vec![
        item(1, "alpha", Status::NoStatus, "one"),
        item(2, "beta", Status::NoStatus, "two"),
        item(3, "alpine", Status::NoStatus, "three"),
    ]);
    let found = p.search_items("^al", false).unwrap();
    let ids: Vec<usize> = found.iter().map(|n| n.id).collect();
    assert_eq!(ids, vec![1, 3]);
    let body = p.search_items("t.o", true).unwrap();
    assert_eq!(body.len(), 1);
    assert_eq!(body[0].id, 2);
}

#[test]
fn search_bad_pattern_is_regex_error() {
    let p = profile(vec![item(1, "a", Status::NoStatus, "")]);
    let e = p.search_items("(", false).unwrap_err();
    assert_eq!(e.kind, ErrorKind::GenericError);
    let message = regex::Regex::new("(").unwrap_err().to_string();
    assert_eq!(e.desc, format!("Regex error: {}", message));
    assert!(e.detail.is_none());
}

#[test]
fn view_expanded_and_condensed() {
    let p = profile(vec![item(12, "Title", Status::Started, "Body")]);
    let v = p.view_item(12, false).unwrap();
    let expected: Vec<(String, String)> = vec![
        ("id\n--\n".to_string(), "12\n\n".to_string()),
        ("title\n-----\n".to_string(), "Title\n\n".to_string()),
        ("status\n------\n".to_string(), "Started\n\n".to_string()),
        ("last touched\n------------\n".to_string(), "2015-01-22 20:05:51\n\n".to_string()),
        ("body\n----\n".to_string(), "Body\n\n".to_string()),
    ];
    assert_eq!(v, expected);
    let c = p.view_item(12, true).unwrap();
    assert_eq!(c[0], ("id: ".to_string(), "12\n".to_string()));
    assert_eq!(c[2], ("status: ".to_string(), "Started\n".to_string()));
    assert_eq!(c.len(), 5);
}

#[test]
fn view_without_status_or_body() {
    let p = profile(vec![item(1, "T", Status::NoStatus, "")]);
    let c = p.view_item(1, true).unwrap();
    assert_eq!(c.len(), 3);
    assert_eq!(c[2].0, "last touched: ");
}

#[test]
fn view_missing_id_fails() {
    let p = profile(vec![item(1, "T", Status::NoStatus, "")]);
    let e = p.view_item(9, false).unwrap_err();
    assert_eq!(e.desc, "Note #9 doesn't exist.");
}
