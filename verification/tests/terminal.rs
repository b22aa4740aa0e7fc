use voxrs::ui::rect::IVec2;
use voxrs::ui::region::WidgetPlacementInfo;
use voxrs::ui::rect::Rect2;
use voxrs::ui::terminal::{render_terminal, TerminalInfo, TerminalWidget};

fn new_terminal() -> TerminalWidget {
    let info = TerminalInfo {
        placement: WidgetPlacementInfo {
            pos: IVec2::new(0, 0),
            h_anchor: None,
            v_anchor: None,
            size: IVec2::new(100, 100),
        },
        font_size: 10,
        contents: Vec::new(),
    };
    TerminalWidget::new(&info)
}

#[test]
fn test_create() {
    let mut term = new_terminal();

    // test add input
    for c in "hello, world".chars() {
        term.add_input(c);
    }
    term.enter();

    assert_eq!(term.contents[0], "hello, world");

    // backspace
    "hello, world".chars().for_each(|c| term.add_input(c));
    term.remove_left();
    assert_eq!(term.input, "hello, worl");

    // remove comma using left key and backspace
    (0..5).for_each(|_| term.left());
    term.remove_left();
    assert_eq!(term.input, "hello worl");
    assert_eq!(term.cursor, 5);

    // remove space using remove right
    term.remove_right();
    assert_eq!(term.input, "helloworl");
    assert_eq!(term.cursor, 5);

    // test prev
    term.enter();

    term.prev();
    assert_eq!(term.input, "helloworl");
    assert_eq!(term.cursor, 9);

    term.prev();
    assert_eq!(term.input, "hello, world");
    assert_eq!(term.cursor, 12);

    // test next
    term.next();
    assert_eq!(term.input, "helloworl");
    assert_eq!(term.cursor, 9);
}

#[test]
fn type_then_backspace_restores() {
    let mut term = new_terminal();
    for c in "abc".chars() {
        term.add_input(c);
    }
    term.left();
    term.add_input('X');
    assert_eq!(term.input, "abXc");
    term.remove_left();
    assert_eq!(term.input, "abc");
    assert_eq!(term.cursor, 2);
}

#[test]
fn cursor_stops_at_ends() {
    let mut term = new_terminal();
    term.left();
    assert_eq!(term.cursor, 0);
    term.add_input('a');
    term.right();
    term.right();
    assert_eq!(term.cursor, 1);
    term.remove_right();
    assert_eq!(term.input, "a");
}

#[test]
fn unicode_input_is_per_char() {
    let mut term = new_terminal();
    for c in "가나다".chars() {
        term.add_input(c);
    }
    term.left();
    term.remove_left();
    assert_eq!(term.input, "가다");
    assert_eq!(term.cursor, 1);
}

#[test]
fn prev_on_empty_history_does_nothing() {
    let mut term = new_terminal();
    term.add_input('z');
    term.prev();
    term.next();
    assert_eq!(term.input, "z");
    assert_eq!(term.cursor, 1);
}

#[test]
fn enter_returns_line() {
    let mut term = new_terminal();
    term.add_input('o');
    term.add_input('k');
    let line = term.enter();
    assert_eq!(line, "ok");
    assert_eq!(term.input, "");
    assert_eq!(term.cursor, 0);
    assert_eq!(term.contents, vec!["ok".to_string()]);
}

#[test]
fn terminal_rows_newest_first_from_bottom() {
    let mut t = new_terminal();
    t.contents = vec!["a".to_string(), "b".to_string(), "c".to_string()];
    t.input = "ls".to_string();
    let rect = Rect2::new(IVec2::new(5, 10), IVec2::new(100, 50));

    let layout = render_terminal(&t, &rect, 50);
    assert_eq!(layout.panel, rect);
    let rows = layout.rows;
    let texts: Vec<&str> = rows.iter().map(|r| r.text.as_str()).collect();
    assert_eq!(texts, vec!["> ls", "c", "b", "a"]);
    let ys: Vec<i64> = rows.iter().map(|r| r.y).collect();
    assert_eq!(ys, vec![48, 36, 24, 12]);
    assert!(rows.iter().all(|r| r.height == 12 && r.x == 5 && r.width == 100));

    // room for one line above the input line
    let rows = render_terminal(&t, &rect, 30).rows;
    let texts: Vec<&str> = rows.iter().map(|r| r.text.as_str()).collect();
    assert_eq!(texts, vec!["> ls", "c"]);

    // no room at all
    let rows = render_terminal(&t, &rect, 12).rows;
    assert_eq!(rows.len(), 1);
}
