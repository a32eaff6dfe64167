use vstd::prelude::*;
use vstd::string::*;
use crate::canvas::{
    blank_line, lemma_place_all_keeps_prefix, lemma_place_all_keeps_wf, lemma_placed_piece, Anchor, Fragment, Line, Piece, StatusCanvas,
};
use crate::terminal::layout_cells;
use crate::style::Theme;
use crate::text::{
    binary_size_text, decimal, decimal_text, file_name, pad_left, pad_left_to, path_file_name,
    size_text,
};

verus! {

/// Whether the buffer differs from what is on disk.
#[derive(Clone, Copy, Debug, PartialEq, Eq, Structural)]
pub enum ModifiedStatus {
    Unchanged,
    Changed,
    Saving,
}

/// Whether a component has to be drawn again.
#[derive(Clone, Copy, Debug, PartialEq, Eq, Structural)]
pub enum ShouldRender {
    Yes,
    No,
}

/// Where the status line sits on screen and how large it is.
#[derive(Clone, Copy, Debug, PartialEq, Eq, Structural)]
pub struct Rect {
    pub x: usize,
    pub y: usize,
    pub width: usize,
    pub height: usize,
}

/// A snapshot of the editor state that the status line shows.
#[derive(Clone, Debug)]
pub struct Properties {
    pub theme: Theme,
    pub current_line_index: usize,
    pub file_path: Option<String>,
    pub focused: bool,
    pub frame_id: usize,
    pub has_unsaved_changes: ModifiedStatus,
    pub mode_name: String,
    pub num_lines: usize,
    /// The short name of the checked-out branch, when the buffer belongs to a
    /// repository whose head has one.
    pub branch: Option<String>,
    pub size_bytes: u64,
    pub visual_cursor_x: usize,
}

/// Two optional texts hold the same characters.
pub open spec fn same_text(a: Option<String>, b: Option<String>) -> bool {
    match (a, b) {
        (Some(x), Some(y)) => x@ == y@,
        (None, None) => true,
        _ => false,
    }
}

/// Two snapshots show the same state.
pub open spec fn same_properties(a: Properties, b: Properties) -> bool {
    &&& a.theme == b.theme
    &&& a.current_line_index == b.current_line_index
    &&& same_text(a.file_path, b.file_path)
    &&& a.focused == b.focused
    &&& a.frame_id == b.frame_id
    &&& a.has_unsaved_changes == b.has_unsaved_changes
    &&& a.mode_name@ == b.mode_name@
    &&& a.num_lines == b.num_lines
    &&& same_text(a.branch, b.branch)
    &&& a.size_bytes == b.size_bytes
    &&& a.visual_cursor_x == b.visual_cursor_x
}

fn eq_text(a: &Option<String>, b: &Option<String>) -> (r: bool)
    ensures
        r == same_text(*a, *b),
{
    match (a, b) {
        (Some(x), Some(y)) => x.eq(y),
        (None, None) => true,
        _ => false,
    }
}

impl PartialEq for Properties {
    fn eq(&self, o: &Properties) -> (r: bool)
        ensures
            r == same_properties(*self, *o),
    {
        self.theme == o.theme && self.current_line_index == o.current_line_index && eq_text(
            &self.file_path,
            &o.file_path,
        ) && self.focused == o.focused && self.frame_id == o.frame_id
            && self.has_unsaved_changes == o.has_unsaved_changes && self.mode_name == o.mode_name
            && self.num_lines == o.num_lines && eq_text(&self.branch, &o.branch) && self.size_bytes
            == o.size_bytes && self.visual_cursor_x == o.visual_cursor_x
    }
}

impl vstd::std_specs::cmp::PartialEqSpecImpl for Properties {
    open spec fn obeys_eq_spec() -> bool {
        true
    }

    open spec fn eq_spec(&self, o: &Properties) -> bool {
        same_properties(*self, *o)
    }
}

/// The glyphs that show how far into the file the cursor is, from the top
/// (full) to the bottom (blank).
pub open spec fn progress_glyph(i: nat) -> Seq<char> {
    if i == 0 {
        "▇"@
    } else if i == 1 {
        "▆"@
    } else if i == 2 {
        "▅"@
    } else if i == 3 {
        "▄"@
    } else if i == 4 {
        "▃"@
    } else if i == 5 {
        "▂"@
    } else if i == 6 {
        "▁"@
    } else {
        " "@
    }
}

/// Which glyph stands for line `index` of `num_lines`: `7 * index / num_lines`
/// rounded half up, and at most the last glyph. An empty buffer shows the
/// first glyph.
pub open spec fn progress_index(index: nat, num_lines: nat) -> nat {
    if num_lines == 0 {
        0
    } else {
        let i = (14 * index + num_lines) / (2 * num_lines);
        if i < 7 {
            i
        } else {
            7
        }
    }
}

/// `num_lines - 2`, or 0 where that would be negative.
pub open spec fn end_line(num_lines: nat) -> nat {
    if num_lines >= 2 {
        (num_lines - 2) as nat
    } else {
        0
    }
}

/// How far into the file line `index` is, in percent; 100 for an empty buffer.
pub open spec fn percent(index: nat, num_lines: nat) -> nat {
    if num_lines > 0 {
        100 * (index + 1) / num_lines
    } else {
        100
    }
}

/// The position indicator: ` Top `, ` End ` or ` NN% `.
pub open spec fn position_text(index: nat, num_lines: nat) -> Seq<char> {
    if index == 0 {
        " Top "@
    } else if index == end_line(num_lines) {
        " End "@
    } else {
        " "@ + pad_left(decimal_text(percent(index, num_lines)), 2) + "% "@
    }
}

/// The ` line:column ` indicator.
pub open spec fn line_status_text(line: nat, column: nat) -> Seq<char> {
    " "@ + pad_left(decimal_text(line), 3) + ":"@ + pad_left(decimal_text(column), 2) + " "@
}

/// The file's name after a blank, or the whole path where it has no final
/// component, or nothing for a buffer without a file.
pub open spec fn file_name_text(path: Option<String>) -> Seq<char> {
    match path {
        None => Seq::empty(),
        Some(p) => match path_file_name(p@) {
            Some(n) => " "@ + n,
            None => " "@ + p@,
        },
    }
}

/// The branch name followed by two blanks, or nothing.
pub open spec fn branch_text(branch: Option<String>) -> Seq<char> {
    match branch {
        Some(b) => b@ + "  "@,
        None => Seq::empty(),
    }
}

/// The fragments the status line asks for, in the order they are tried.
pub open spec fn status_pieces(p: Properties) -> Seq<Piece> {
    let theme = p.theme;
    seq![
        Piece {
            anchor: Anchor::Start,
            style: if p.focused { theme.frame_id_focused } else { theme.frame_id_unfocused },
            text: " "@ + decimal_text(p.frame_id as nat) + " "@,
        },
        if p.has_unsaved_changes == ModifiedStatus::Unchanged {
            Piece { anchor: Anchor::Start, style: theme.is_not_modified, text: " - "@ }
        } else {
            Piece { anchor: Anchor::Start, style: theme.is_modified, text: " ❄ "@ }
        },
        if p.focused {
            Piece {
                anchor: Anchor::End,
                style: theme.frame_id_focused,
                text: progress_glyph(progress_index(p.current_line_index as nat, p.num_lines as nat)),
            }
        } else {
            Piece { anchor: Anchor::End, style: theme.position_in_file, text: " "@ }
        },
        Piece {
            anchor: Anchor::Start,
            style: theme.file_size,
            text: " "@ + binary_size_text(p.size_bytes),
        },
        Piece { anchor: Anchor::Start, style: theme.file_name, text: file_name_text(p.file_path) },
        Piece {
            anchor: Anchor::End,
            style: theme.position_in_file,
            text: position_text(p.current_line_index as nat, p.num_lines as nat),
        },
        Piece {
            anchor: Anchor::End,
            style: theme.is_not_modified,
            text: line_status_text(p.current_line_index as nat, p.visual_cursor_x as nat),
        },
        Piece { anchor: Anchor::Start, style: theme.mode, text: "  "@ + p.mode_name@ },
        Piece { anchor: Anchor::End, style: theme.position_in_file, text: branch_text(p.branch) },
    ]
}

/// The status line for `p` in a frame `width` columns wide.
pub open spec fn status_line(p: Properties, width: nat) -> Line {
    blank_line(width, p.theme.base).place_all(status_pieces(p))
}

fn progress_symbol(i: usize) -> (r: &'static str)
    ensures
        r@ == progress_glyph(i as nat),
{
    match i {
        0 => "▇",
        1 => "▆",
        2 => "▅",
        3 => "▄",
        4 => "▃",
        5 => "▂",
        6 => "▁",
        _ => " ",
    }
}

/// Which progress glyph stands for line `current_line_index` of `num_lines`.
pub fn progress_position(current_line_index: usize, num_lines: usize) -> (r: usize)
    ensures
        r as nat == progress_index(current_line_index as nat, num_lines as nat),
{
    if num_lines == 0 {
        0
    } else {
        let i = (14 * (current_line_index as u128) + num_lines as u128) / (2 * num_lines as u128);
        if i < 7 {
            i as usize
        } else {
            7
        }
    }
}

/// The position indicator for line `current_line_index` of `num_lines`.
pub fn position_label(current_line_index: usize, num_lines: usize) -> (r: String)
    ensures
        r@ == position_text(current_line_index as nat, num_lines as nat),
{
    if current_line_index == 0 {
        String::from_str(" Top ")
    } else if current_line_index == num_lines.saturating_sub(2) {
        String::from_str(" End ")
    } else {
        let percent: u128 = if num_lines > 0 {
            100 * (current_line_index as u128 + 1) / num_lines as u128
        } else {
            100
        };
        let mut s = String::from_str(" ");
        s.append(pad_left_to(decimal(percent), 2).as_str());
        s.append("% ");
        s
    }
}

/// The ` line:column ` indicator, the line right-aligned in three columns and
/// the column in two.
pub fn line_status(line: usize, column: usize) -> (r: String)
    ensures
        r@ == line_status_text(line as nat, column as nat),
{
    let mut s = String::from_str(" ");
    s.append(pad_left_to(decimal(line as u128), 3).as_str());
    s.append(":");
    s.append(pad_left_to(decimal(column as u128), 2).as_str());
    s.append(" ");
    s
}

/// The file-name fragment for a buffer backed by `path`, if any.
pub fn file_name_label(path: &Option<String>) -> (r: String)
    ensures
        r@ == file_name_text(*path),
{
    match path {
        None => String::new(),
        Some(p) => {
            let mut s = String::from_str(" ");
            match file_name(p.as_str()) {
                Some(n) => s.append(n.as_str()),
                None => s.append(p.as_str()),
            }
            s
        },
    }
}

/// The branch fragment: the name and two blanks, or nothing.
pub fn branch_label(branch: &Option<String>) -> (r: String)
    ensures
        r@ == branch_text(*branch),
{
    match branch {
        None => String::new(),
        Some(b) => {
            let mut s = b.clone();
            s.append("  ");
            s
        },
    }
}

/// The status line component: the state it shows and where it is drawn.
pub struct StatusBar {
    properties: Properties,
    frame: Rect,
}

impl StatusBar {
    /// The snapshot the line shows.
    pub closed spec fn properties(&self) -> Properties {
        self.properties
    }

    /// Where the line is drawn.
    pub closed spec fn frame(&self) -> Rect {
        self.frame
    }

    /// A status line showing `properties` in `frame`.
    pub fn create(properties: Properties, frame: Rect) -> (r: StatusBar)
        ensures
            r.properties() == properties,
            r.frame() == frame,
    {
        StatusBar { properties, frame }
    }

    /// Takes new properties; asks to be drawn again only when they differ
    /// from the ones held.
    pub fn change(&mut self, properties: Properties) -> (r: ShouldRender)
        ensures
            final(self).frame() == old(self).frame(),
            same_properties(old(self).properties(), properties) ==> r == ShouldRender::No
                && final(self).properties() == old(self).properties(),
            !same_properties(old(self).properties(), properties) ==> r == ShouldRender::Yes
                && final(self).properties() == properties,
    {
        if self.properties != properties {
            self.properties = properties;
            ShouldRender::Yes
        } else {
            ShouldRender::No
        }
    }

    /// Takes a new frame and always asks to be drawn again.
    pub fn resize(&mut self, frame: Rect) -> (r: ShouldRender)
        ensures
            r == ShouldRender::Yes,
            final(self).frame() == frame,
            final(self).properties() == old(self).properties(),
    {
        self.frame = frame;
        ShouldRender::Yes
    }

    /// The fragment requests, in the order they are tried.
    pub fn fragments(&self) -> (r: Vec<Fragment>)
        ensures
            r@.map_values(|f: Fragment| f@) == status_pieces(self.properties()),
    {
        let p = &self.properties;
        let theme = &p.theme;
        let mut frame_id = String::from_str(" ");
        frame_id.append(decimal(p.frame_id as u128).as_str());
        frame_id.append(" ");
        let modified = match p.has_unsaved_changes {
            ModifiedStatus::Unchanged => Fragment {
                anchor: Anchor::Start,
                style: theme.is_not_modified,
                text: String::from_str(" - "),
            },
            _ => Fragment {
                anchor: Anchor::Start,
                style: theme.is_modified,
                text: String::from_str(" ❄ "),
            },
        };
        let progress = if p.focused {
            Fragment {
                anchor: Anchor::End,
                style: theme.frame_id_focused,
                text: String::from_str(
                    progress_symbol(progress_position(p.current_line_index, p.num_lines)),
                ),
            }
        } else {
            Fragment {
                anchor: Anchor::End,
                style: theme.position_in_file,
                text: String::from_str(" "),
            }
        };
        let mut size = String::from_str(" ");
        size.append(size_text(p.size_bytes).as_str());
        let mut mode = String::from_str("  ");
        mode.append(p.mode_name.as_str());
        let r = vec![
            Fragment {
                anchor: Anchor::Start,
                style: if p.focused {
                    theme.frame_id_focused
                } else {
                    theme.frame_id_unfocused
                },
                text: frame_id,
            },
            modified,
            progress,
            Fragment { anchor: Anchor::Start, style: theme.file_size, text: size },
            Fragment {
                anchor: Anchor::Start,
                style: theme.file_name,
                text: file_name_label(&p.file_path),
            },
            Fragment {
                anchor: Anchor::End,
                style: theme.position_in_file,
                text: position_label(p.current_line_index, p.num_lines),
            },
            Fragment {
                anchor: Anchor::End,
                style: theme.is_not_modified,
                text: line_status(p.current_line_index, p.visual_cursor_x),
            },
            Fragment { anchor: Anchor::Start, style: theme.mode, text: mode },
            Fragment {
                anchor: Anchor::End,
                style: theme.position_in_file,
                text: branch_label(&p.branch),
            },
        ];
        assert(r@.map_values(|f: Fragment| f@) =~= status_pieces(self.properties()));
        r
    }

    /// Draws the status line: a blank row in the base style, then the
    /// fragments placed in order until the first one that does not fit.
    pub fn render(&self) -> (r: StatusCanvas)
        requires
            self.frame().height == 1,
        ensures
            r.inv(),
            r@ == status_line(self.properties(), self.frame().width as nat),
    {
        let mut canvas = StatusCanvas::new(
            self.frame.width,
            self.frame.height,
            self.properties.theme.base,
        );
        let fragments = self.fragments();
        canvas.append_all(&fragments);
        canvas
    }

    /// The status line as a layout for the terminal: one cell per column of
    /// the frame, holding the rendered line.
    pub fn view(&self) -> (r: zi::Layout)
        requires
            self.frame().height == 1,
        ensures
            layout_cells(r) == status_line(self.properties(), self.frame().width as nat).cells(),
            layout_cells(r).len() == self.frame().width,
    {
        let canvas = self.render();
        proof {
            lemma_place_all_keeps_wf(
                blank_line(self.frame.width as nat, self.properties.theme.base),
                status_pieces(self.properties),
            );
        }
        canvas.into_layout()
    }
}

/// Rendering depends on nothing but what the snapshot shows and the frame's
/// width: two renders of equal snapshots give the same line.
pub proof fn lemma_render_idempotent(p: Properties, q: Properties, width: nat)
    requires
        same_properties(p, q),
    ensures
        status_line(p, width) == status_line(q, width),
{
    assert(file_name_text(p.file_path) == file_name_text(q.file_path));
    assert(branch_text(p.branch) == branch_text(q.branch));
    assert(status_pieces(p) =~= status_pieces(q));
}

/// The position indicator reads ` Top ` on the first line, ` End ` on line
/// `num_lines - 2` (when that is not the first line), and otherwise the
/// percentage `100 * (index + 1) / num_lines` right-aligned in two columns.
pub proof fn lemma_position_labels(index: nat, num_lines: nat)
    ensures
        index == 0 ==> position_text(index, num_lines) == " Top "@,
        index != 0 && num_lines >= 2 && index == num_lines - 2 ==> position_text(index, num_lines)
            == " End "@,
        index != 0 && index != end_line(num_lines) && num_lines > 0 ==> position_text(
            index,
            num_lines,
        ) == " "@ + pad_left(decimal_text(100 * (index + 1) / num_lines), 2) + "% "@,
{
}

/// The first line shows the first progress glyph, and with at least fourteen
/// lines the last line shows the last glyph.
pub proof fn lemma_progress_ends(num_lines: nat)
    requires
        num_lines > 1,
    ensures
        progress_index(0, num_lines) == 0,
        num_lines >= 14 ==> progress_index((num_lines - 1) as nat, num_lines) == 7,
{
    let n = num_lines as int;
    assert((14 * 0 + n) / (2 * n) == 0) by (nonlinear_arith)
        requires n > 1;
    if num_lines >= 14 {
        assert((14 * (n - 1) + n) / (2 * n) >= 7) by (nonlinear_arith)
            requires n >= 14;
    }
}

/// When the chain gets as far as the position indicator, it is the sixth
/// placement of the line, in the position style, and reads ` Top `, ` End `
/// or the percentage as `position_text` says.
pub proof fn lemma_position_fragment(p: Properties, width: nat)
    requires
        blank_line(width, p.theme.base).accepted(status_pieces(p)) >= 6,
    ensures
        status_line(p, width).placed[5].text == position_text(
            p.current_line_index as nat,
            p.num_lines as nat,
        ),
        status_line(p, width).placed[5].style == p.theme.position_in_file,
{
    lemma_placed_piece(blank_line(width, p.theme.base), status_pieces(p), 5);
}

/// On a focused line the progress glyph, once placed, fills the rightmost
/// columns of the line in the focused frame style.
pub proof fn lemma_progress_fragment(p: Properties, width: nat)
    requires
        p.focused,
        blank_line(width, p.theme.base).accepted(status_pieces(p)) >= 3,
    ensures
        status_line(p, width).placed[2].text == progress_glyph(
            progress_index(p.current_line_index as nat, p.num_lines as nat),
        ),
        status_line(p, width).placed[2].style == p.theme.frame_id_focused,
        status_line(p, width).placed[2].column + status_line(p, width).placed[2].width == width,
{
    let ps = status_pieces(p);
    let l0 = blank_line(width, p.theme.base);
    let l1 = l0.place(ps[0].anchor, ps[0].style, ps[0].text)->Some_0;
    let r1 = ps.drop_first();
    let l2 = l1.place(r1[0].anchor, r1[0].style, r1[0].text)->Some_0;
    let r2 = r1.drop_first();
    let l3 = l2.place(r2[0].anchor, r2[0].style, r2[0].text)->Some_0;
    let r3 = r2.drop_first();
    assert(l0.place(ps[0].anchor, ps[0].style, ps[0].text) is Some);
    assert(l0.accepted(ps) == l1.accepted(r1) + 1);
    assert(l1.place(r1[0].anchor, r1[0].style, r1[0].text) is Some);
    assert(l1.accepted(r1) == l2.accepted(r2) + 1);
    assert(l2.place(r2[0].anchor, r2[0].style, r2[0].text) is Some);
    assert(l0.place_all(ps) == l1.place_all(r1));
    assert(l1.place_all(r1) == l2.place_all(r2));
    assert(l2.place_all(r2) == l3.place_all(r3));
    assert(l3.placed.len() == 3);
    lemma_place_all_keeps_prefix(l3, r3);
    lemma_placed_piece(l0, ps, 2);
}

} // verus!
