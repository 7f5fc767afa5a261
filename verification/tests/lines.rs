use fedit::types::line::step_column;
use fedit::types::Status;
use fedit::{Line, Point};

fn line(text: &str) -> Line {
    Line::from_string(text.to_string())
}

#[test]
fn new_line_is_empty() {
    let line = Line::new();
    assert_eq!(line.len(), 0);
    assert_eq!(line.width_to(0), 0);
    assert_eq!(line.width_to(5), 0);
    assert_eq!(line.x_at_width(0), None);
}

#[test]
fn from_string_splits_into_grapheme_clusters() {
    let line = line("e\u{301}x\u{1F1F7}\u{1F1FA}\r\n");
    assert_eq!(line.graphemes, vec!["e\u{301}", "x", "\u{1F1F7}\u{1F1FA}", "\r\n"]);
    assert_eq!(line.len(), 4);
    assert_eq!(Line::from_string(String::new()).len(), 0);
}

#[test]
fn line_clone_keeps_the_graphemes() {
    let line = line("a\tb");
    assert_eq!(line.clone().graphemes, vec!["a", "\t", "b"]);
}

#[test]
fn width_counts_display_columns() {
    let line = line("a\u{4E16}e\u{301}b");
    assert_eq!(line.len(), 4);
    assert_eq!(line.width_to(0), 0);
    assert_eq!(line.width_to(1), 1);
    assert_eq!(line.width_to(2), 3);
    assert_eq!(line.width_to(3), 4);
    assert_eq!(line.width_to(4), 5);
    assert_eq!(line.width_to(100), 5);
}

#[test]
fn tab_width_depends_on_the_column_it_starts_at() {
    let line = line("ab\tc\t\td");
    assert_eq!(line.width_to(2), 2);
    assert_eq!(line.width_to(3), 4);
    assert_eq!(line.width_to(4), 5);
    assert_eq!(line.width_to(5), 8);
    assert_eq!(line.width_to(6), 12);
    assert_eq!(line.width_to(7), 13);
}

#[test]
fn x_at_width_finds_the_grapheme_under_a_column() {
    let line = line("a\t\u{4E16}b");
    // widths of the prefixes: 0, 1, 4, 6, 7
    assert_eq!(line.x_at_width(0), Some(0));
    assert_eq!(line.x_at_width(1), Some(1));
    assert_eq!(line.x_at_width(3), Some(1));
    assert_eq!(line.x_at_width(4), Some(2));
    assert_eq!(line.x_at_width(5), Some(2));
    assert_eq!(line.x_at_width(6), Some(3));
    assert_eq!(line.x_at_width(7), None);
    assert_eq!(line.x_at_width(usize::MAX), None);
}

#[test]
fn x_at_width_inverts_width_to() {
    let line = line("\tab\u{4E16}\u{4E16}\tc e\u{301}\t");
    let total = line.width_to(line.len());
    for goal in 0..total {
        let i = line.x_at_width(goal).unwrap();
        assert!(line.width_to(i) <= goal);
        assert!(goal < line.width_to(i + 1));
        for j in 0..i {
            assert!(line.width_to(j + 1) <= goal);
        }
    }
    assert_eq!(line.x_at_width(total), None);
}

#[test]
fn x_at_width_skips_graphemes_without_width() {
    let line = Line { graphemes: vec!["a".to_string(), "\u{301}".to_string(), "b".to_string()] };
    assert_eq!(line.width_to(2), 1);
    assert_eq!(line.x_at_width(1), Some(2));
}

#[test]
fn cells_draw_tabs_as_blanks_and_mark_the_highlight() {
    let line = line("a\tbc");
    let cells = line.cells(None, Some([1, 2]));
    assert_eq!(
        cells,
        vec![
            ("a".to_string(), false),
            ("    ".to_string(), true),
            ("b".to_string(), true),
            ("c".to_string(), false),
        ]
    );
    let cells = line.cells(Some(2), None);
    assert_eq!(cells, vec![("b".to_string(), false), ("c".to_string(), false)]);
    assert_eq!(line.cells(Some(9), Some([0, 9])), vec![]);
    assert_eq!(line.cells(Some(3), Some([3, 3])), vec![("c".to_string(), true)]);
}

#[test]
fn points_are_ordered_by_row_then_column() {
    assert!(Point::new(5, 0) < Point::new(0, 1));
    assert!(Point::new(1, 2) < Point::new(2, 2));
    assert!(Point::new(2, 2) <= Point::new(2, 2));
    assert!(Point::new(0, 3) > Point::new(9, 2));
    assert!(!(Point::new(2, 2) < Point::new(2, 2)));
    assert_eq!(Point::new(2, 2), Point::new(2, 2));
    assert_ne!(Point::new(2, 1), Point::new(1, 2));
    assert_eq!(Point::zero(), Point::new(0, 0));
    assert_eq!(
        Point::new(1, 1).partial_cmp(&Point::new(1, 1)),
        Some(std::cmp::Ordering::Equal)
    );
    assert_eq!(
        Point::new(0, 2).partial_cmp(&Point::new(7, 1)),
        Some(std::cmp::Ordering::Greater)
    );
}

#[test]
fn points_sort_by_row_then_column() {
    let mut points = vec![
        Point::new(3, 1),
        Point::new(0, 2),
        Point::new(9, 0),
        Point::new(1, 1),
        Point::new(0, 0),
    ];
    points.sort();
    assert_eq!(
        points,
        vec![
            Point::new(0, 0),
            Point::new(9, 0),
            Point::new(1, 1),
            Point::new(3, 1),
            Point::new(0, 2),
        ]
    );
    for a in &points {
        for b in &points {
            assert_eq!(Some(a.cmp(b)), a.partial_cmp(b));
        }
    }
    assert_eq!(Point::new(4, 0).max(Point::new(0, 1)), Point::new(0, 1));
}

#[test]
fn status_is_fresh_for_three_seconds() {
    let status = Status::new("saved".to_string());
    assert_eq!(status.text, "saved");
    assert!(status.is_fresh());
    assert!(Status::is_fresh_after(0));
    assert!(Status::is_fresh_after(2));
    assert!(!Status::is_fresh_after(3));
    assert!(!Status::is_fresh_after(u64::MAX));
}

#[test]
fn step_column_moves_to_tab_stops_and_adds_widths() {
    assert_eq!(step_column(0, true, 0), Some(4));
    assert_eq!(step_column(5, true, 9), Some(8));
    assert_eq!(step_column(4, true, 0), Some(8));
    assert_eq!(step_column(7, true, 0), Some(8));
    assert_eq!(step_column(3, false, 2), Some(5));
    assert_eq!(step_column(3, false, 0), Some(3));
    assert_eq!(step_column(usize::MAX, false, 0), Some(usize::MAX));
    assert_eq!(step_column(usize::MAX, false, 1), None);
    assert_eq!(step_column(usize::MAX - 1, true, 0), None);
}
