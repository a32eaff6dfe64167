use vstd::prelude::*;
use crate::style::CellStyle;

verus! {

/// A grid of styled cells from the `zi` terminal library.
#[verifier::external_type_specification]
#[verifier::external_body]
pub struct ExCanvas(zi::Canvas);

/// A renderable layout of the `zi` terminal library.
#[verifier::external_type_specification]
#[verifier::external_body]
pub struct ExLayout(zi::Layout);

/// One cell of a canvas: the grapheme it shows and its style, or `None` for
/// a cell covered by the wide grapheme to its left.
pub type Cell = Option<(Seq<char>, CellStyle)>;

/// The cells of a canvas, row after row.
pub uninterp spec fn canvas_cells(c: zi::Canvas) -> Seq<Cell>;

/// The number of rows of a canvas.
pub uninterp spec fn canvas_height(c: zi::Canvas) -> nat;

/// The cells of the canvas a layout was made from.
pub uninterp spec fn layout_cells(l: zi::Layout) -> Seq<Cell>;

/// The cells `zi` writes for a text on a row wide enough to hold it: for
/// each grapheme of nonzero width, the grapheme followed by one `None` per
/// extra column it covers.
pub uninterp spec fn drawn_graphemes(text: Seq<char>) -> Seq<Option<Seq<char>>>;

/// A drawn grapheme in a style, as a cell.
pub open spec fn styled(g: Option<Seq<char>>, style: CellStyle) -> Cell {
    match g {
        Some(t) => Some((t, style)),
        None => None,
    }
}

/// `cells` after drawing `text` in `style` from cell `x` on, clipped at the end.
pub open spec fn paint(cells: Seq<Cell>, x: nat, text: Seq<char>, style: CellStyle) -> Seq<Cell> {
    let d = drawn_graphemes(text);
    let room = cells.len() - x;
    let n = if d.len() <= room { d.len() as int } else { room };
    Seq::new(
        cells.len(),
        |i: int|
            if x <= i < x + n {
                styled(d[i - x], style)
            } else {
                cells[i]
            },
    )
}

/// Relies on `zi::Canvas::new`: a canvas of `width` by `height` cells, which
/// panics only when the cell count overflows.
#[verifier::external_body]
pub(crate) fn canvas_new(width: usize, height: usize) -> (r: zi::Canvas)
    requires
        width * height <= usize::MAX,
    ensures
        canvas_cells(r).len() == width * height,
        canvas_height(r) == height,
{
    zi::Canvas::new(zi::Size::new(width, height))
}

/// Relies on `zi::Canvas::clear`: every cell becomes a blank in `style`.
#[verifier::external_body]
pub(crate) fn canvas_clear(canvas: &mut zi::Canvas, style: CellStyle)
    ensures
        canvas_height(*final(canvas)) == canvas_height(*old(canvas)),
        canvas_cells(*final(canvas)) == Seq::new(
            canvas_cells(*old(canvas)).len(),
            |i: int| Some((" "@, style)),
        ),
{
    let b = style.background;
    let f = style.foreground;
    canvas.clear(zi::Style {
        background: zi::Colour::rgb(b.red, b.green, b.blue),
        foreground: zi::Colour::rgb(f.red, f.green, f.blue),
        bold: style.bold,
        underline: style.underline,
    })
}

/// Relies on `zi::Canvas::draw_str` on a one-row canvas: writes the cells of
/// `text` from cell `x` on, clipped at the end of the row, leaves every other
/// cell as it was and returns how many cells it wrote.
#[verifier::external_body]
pub(crate) fn canvas_draw_str(canvas: &mut zi::Canvas, x: usize, style: CellStyle, text: &str) -> (r: usize)
    requires
        canvas_height(*old(canvas)) == 1,
        x <= canvas_cells(*old(canvas)).len(),
    ensures
        canvas_height(*final(canvas)) == 1,
        canvas_cells(*final(canvas)) == paint(canvas_cells(*old(canvas)), x as nat, text@, style),
        r == if drawn_graphemes(text@).len() <= canvas_cells(*old(canvas)).len() - x {
            drawn_graphemes(text@).len() as int
        } else {
            canvas_cells(*old(canvas)).len() - x
        },
{
    let b = style.background;
    let f = style.foreground;
    canvas.draw_str(x, 0, zi::Style {
        background: zi::Colour::rgb(b.red, b.green, b.blue),
        foreground: zi::Colour::rgb(f.red, f.green, f.blue),
        bold: style.bold,
        underline: style.underline,
    }, text)
}

/// Relies on `zi`'s `From<Canvas> for Layout`, which wraps the canvas as it is.
#[verifier::external_body]
pub(crate) fn canvas_layout(canvas: zi::Canvas) -> (r: zi::Layout)
    ensures
        layout_cells(r) == canvas_cells(canvas),
{
    canvas.into()
}

} // verus!
