use status_bar::canvas::StatusCanvas;
use status_bar::status_bar::{
    branch_label, file_name_label, line_status, position_label, progress_position,
};
use status_bar::text::{decimal, pad_left_to};
use status_bar::{
    Anchor, CellStyle, Colour, Fragment, ModifiedStatus, Properties, Rect, ShouldRender,
    StatusBar, Theme,
};

fn style(n: u8) -> CellStyle {
    CellStyle {
        background: Colour { red: n, green: 0, blue: 0 },
        foreground: Colour { red: 0, green: n, blue: 255 },
        bold: n % 2 == 0,
        underline: false,
    }
}

fn theme() -> Theme {
    Theme {
        base: style(1),
        frame_id_focused: style(2),
        frame_id_unfocused: style(3),
        is_modified: style(4),
        is_not_modified: style(5),
        file_name: style(6),
        file_size: style(7),
        position_in_file: style(8),
        mode: style(9),
    }
}

fn properties() -> Properties {
    Properties {
        theme: theme(),
        current_line_index: 0,
        file_path: Some("a/b.txt".to_string()),
        focused: true,
        frame_id: 1,
        has_unsaved_changes: ModifiedStatus::Unchanged,
        mode_name: "Normal".to_string(),
        num_lines: 100,
        branch: None,
        size_bytes: 2048,
        visual_cursor_x: 0,
    }
}

fn frame(width: usize) -> Rect {
    Rect { x: 0, y: 0, width, height: 1 }
}

fn row(canvas: &StatusCanvas, width: usize) -> String {
    let mut out = String::new();
    for x in 0..width {
        if let Some(textel) = canvas.canvas().textel(x, 0) {
            out.push_str(textel.grapheme.as_str());
        }
    }
    out
}

fn cell_style(canvas: &StatusCanvas, x: usize) -> zi::Style {
    canvas.canvas().textel(x, 0).as_ref().unwrap().style
}

fn zi_style(s: CellStyle) -> zi::Style {
    zi::Style {
        background: zi::Colour::rgb(s.background.red, s.background.green, s.background.blue),
        foreground: zi::Colour::rgb(s.foreground.red, s.foreground.green, s.foreground.blue),
        bold: s.bold,
        underline: s.underline,
    }
}

#[test]
fn scenario_forty_columns() {
    let bar = StatusBar::create(properties(), frame(40));
    let canvas = bar.render();
    assert_eq!(row(&canvas, 40), " 1  -  2.0Ki b.txt  Normal   0: 0  Top ▇");
    assert!(row(&canvas, 40).starts_with(" 1  -  2.0Ki b.txt"));
    assert_eq!(canvas.remaining_space(), 0);
    assert_eq!(cell_style(&canvas, 0), zi_style(style(2)));
    assert_eq!(cell_style(&canvas, 4), zi_style(style(5)));
    assert_eq!(cell_style(&canvas, 7), zi_style(style(7)));
    assert_eq!(cell_style(&canvas, 13), zi_style(style(6)));
    assert_eq!(cell_style(&canvas, 20), zi_style(style(9)));
    assert_eq!(cell_style(&canvas, 30), zi_style(style(5)));
    assert_eq!(cell_style(&canvas, 35), zi_style(style(8)));
    assert_eq!(cell_style(&canvas, 39), zi_style(style(2)));
}

#[test]
fn fragments_come_in_fixed_order() {
    let bar = StatusBar::create(properties(), frame(40));
    let fragments = bar.fragments();
    let texts: Vec<&str> = fragments.iter().map(|f| f.text.as_str()).collect();
    assert_eq!(
        texts,
        vec![" 1 ", " - ", "▇", " 2.0Ki", " b.txt", " Top ", "   0: 0 ", "  Normal", ""]
    );
    let anchors: Vec<Anchor> = fragments.iter().map(|f| f.anchor).collect();
    assert_eq!(
        anchors,
        vec![
            Anchor::Start,
            Anchor::Start,
            Anchor::End,
            Anchor::Start,
            Anchor::Start,
            Anchor::End,
            Anchor::End,
            Anchor::Start,
            Anchor::End
        ]
    );
}

#[test]
fn unfocused_and_modified_fragments() {
    let mut p = properties();
    p.focused = false;
    p.has_unsaved_changes = ModifiedStatus::Saving;
    p.branch = Some("main".to_string());
    p.current_line_index = 41;
    p.visual_cursor_x = 17;
    let fragments = StatusBar::create(p, frame(80)).fragments();
    assert_eq!(fragments[0].style, style(3));
    assert_eq!(fragments[1].text, " ❄ ");
    assert_eq!(fragments[1].style, style(4));
    assert_eq!(fragments[2].text, " ");
    assert_eq!(fragments[2].style, style(8));
    assert_eq!(fragments[5].text, " 42% ");
    assert_eq!(fragments[6].text, "  41:17 ");
    assert_eq!(fragments[8].text, "main  ");
}

#[test]
fn short_circuit_skips_later_fragments() {
    let bar = StatusBar::create(properties(), frame(20));
    let canvas = bar.render();
    // " Top " does not fit in the last free column, so the empty branch
    // fragment, which would fit, is never placed either.
    assert_eq!(row(&canvas, 20), " 1  -  2.0Ki b.txt ▇");
    assert_eq!(canvas.remaining_space(), 1);
    let mut fresh = StatusCanvas::new(20, 1, style(1));
    assert_eq!(fresh.append_all(&bar.fragments()), 5);
    assert_eq!(fresh.remaining_space(), 1);
}

#[test]
fn render_twice_gives_same_line() {
    let mut p = properties();
    p.current_line_index = 57;
    p.branch = Some("dev".to_string());
    let bar = StatusBar::create(p, frame(60));
    let a = bar.render();
    let b = bar.render();
    assert_eq!(row(&a, 60), row(&b, 60));
    for x in 0..60 {
        assert_eq!(a.canvas().textel(x, 0), b.canvas().textel(x, 0));
    }
    assert_eq!(a.remaining_space(), b.remaining_space());
}

#[test]
fn canvas_fills_from_both_edges() {
    let mut canvas = StatusCanvas::new(10, 1, style(1));
    assert_eq!(canvas.remaining_space(), 10);
    assert!(canvas.append_start(style(2), "abc"));
    assert_eq!(canvas.remaining_space(), 7);
    assert!(canvas.append_end(style(3), "de"));
    assert_eq!(canvas.remaining_space(), 5);
    assert!(!canvas.append_start(style(4), "123456"));
    assert!(!canvas.append_end(style(4), "123456"));
    assert_eq!(canvas.remaining_space(), 5);
    assert_eq!(row(&canvas, 10), "abc     de");
    assert_eq!(cell_style(&canvas, 5), zi_style(style(1)));
    assert_eq!(cell_style(&canvas, 8), zi_style(style(3)));
}

#[test]
fn canvas_exact_fit_and_empty_text() {
    let mut canvas = StatusCanvas::new(4, 1, style(1));
    assert!(canvas.append_end(style(2), "wxyz"));
    assert_eq!(canvas.remaining_space(), 0);
    assert!(canvas.append_start(style(2), ""));
    assert!(canvas.append_end(style(2), ""));
    assert!(!canvas.append_start(style(2), "a"));
    assert_eq!(row(&canvas, 4), "wxyz");
}

#[test]
fn canvas_append_all_stops_at_first_misfit() {
    let mut canvas = StatusCanvas::new(6, 1, style(1));
    let fragments = vec![
        Fragment { anchor: Anchor::Start, style: style(2), text: "ab".to_string() },
        Fragment { anchor: Anchor::End, style: style(3), text: "cdefg".to_string() },
        Fragment { anchor: Anchor::End, style: style(3), text: "g".to_string() },
    ];
    assert_eq!(canvas.append_all(&fragments), 1);
    assert_eq!(canvas.remaining_space(), 4);
    assert_eq!(row(&canvas, 6), "ab    ");
}

#[test]
fn wide_glyphs_take_two_columns() {
    let mut canvas = StatusCanvas::new(5, 1, style(1));
    assert!(canvas.append_start(style(2), "日本"));
    assert_eq!(canvas.remaining_space(), 1);
    assert!(!canvas.append_end(style(2), "日"));
}

#[test]
fn position_labels() {
    assert_eq!(position_label(0, 100), " Top ");
    assert_eq!(position_label(98, 100), " End ");
    assert_eq!(position_label(49, 100), " 50% ");
    assert_eq!(position_label(4, 100), "  5% ");
    assert_eq!(position_label(99, 100), " 100% ");
    assert_eq!(position_label(0, 2), " Top ");
    assert_eq!(position_label(5, 0), " 100% ");
    assert_eq!(position_label(1, 1), " 200% ");
}

#[test]
fn progress_positions() {
    assert_eq!(progress_position(0, 100), 0);
    assert_eq!(progress_position(99, 100), 7);
    assert_eq!(progress_position(50, 100), 4);
    assert_eq!(progress_position(13, 14), 7);
    assert_eq!(progress_position(1, 2), 4);
    assert_eq!(progress_position(5, 0), 0);
    assert_eq!(progress_position(1000, 10), 7);
    assert_eq!(progress_position(usize::MAX, usize::MAX), 7);
}

#[test]
fn line_status_alignment() {
    assert_eq!(line_status(0, 0), "   0: 0 ");
    assert_eq!(line_status(7, 42), "   7:42 ");
    assert_eq!(line_status(12345, 123), " 12345:123 ");
}

#[test]
fn file_name_labels() {
    assert_eq!(file_name_label(&Some("a/b.txt".to_string())), " b.txt");
    assert_eq!(file_name_label(&Some("/".to_string())), " /");
    assert_eq!(file_name_label(&None), "");
    assert_eq!(file_name_label(&Some("dir/notes.md".to_string())), " notes.md");
    assert_eq!(file_name_label(&Some("..".to_string())), " ..");
}

#[test]
fn branch_labels() {
    assert_eq!(branch_label(&Some("main".to_string())), "main  ");
    assert_eq!(branch_label(&None), "");
}

#[test]
fn number_formatting() {
    assert_eq!(decimal(0), "0");
    assert_eq!(decimal(1234567890123), "1234567890123");
    assert_eq!(pad_left_to("7".to_string(), 3), "  7");
    assert_eq!(pad_left_to("1234".to_string(), 3), "1234");
}

#[test]
fn file_size_fragment() {
    let mut p = properties();
    p.size_bytes = 42 * 1024 * 1024;
    assert_eq!(StatusBar::create(p.clone(), frame(40)).fragments()[3].text, " 42.0Mi");
    p.size_bytes = 678;
    assert_eq!(StatusBar::create(p.clone(), frame(40)).fragments()[3].text, " 678");
    p.size_bytes = 1536;
    assert_eq!(StatusBar::create(p.clone(), frame(40)).fragments()[3].text, " 1.5Ki");
    p.size_bytes = 1024 * 1024 - 1;
    assert_eq!(StatusBar::create(p.clone(), frame(40)).fragments()[3].text, " 1023.9Ki");
    p.size_bytes = 0;
    assert_eq!(StatusBar::create(p.clone(), frame(40)).fragments()[3].text, " 0");
    p.size_bytes = u64::MAX;
    assert_eq!(StatusBar::create(p, frame(40)).fragments()[3].text, " 15.9Ei");
}

#[test]
fn view_builds_a_layout() {
    let bar = StatusBar::create(properties(), frame(40));
    let _layout = bar.view();
    let _layout = bar.render().into_layout();
}

#[test]
fn change_and_resize() {
    let mut bar = StatusBar::create(properties(), frame(40));
    assert_eq!(bar.change(properties()), ShouldRender::No);
    let mut p = properties();
    p.mode_name = "Insert".to_string();
    assert_eq!(bar.change(p.clone()), ShouldRender::Yes);
    assert_eq!(bar.change(p), ShouldRender::No);
    assert_eq!(bar.resize(frame(30)), ShouldRender::Yes);
    assert_eq!(bar.render().remaining_space(), 6);
}
