use vstd::prelude::*;
use crate::style::CellStyle;
use crate::terminal::{
    canvas_cells, canvas_clear, canvas_draw_str, canvas_height, canvas_layout, canvas_new,
    drawn_graphemes, layout_cells, paint, styled, Cell,
};
use crate::text::{display_width, text_width};

verus! {

/// The edge of the line a fragment grows inward from.
#[derive(Clone, Copy, Debug, PartialEq, Eq, Structural)]
pub enum Anchor {
    Start,
    End,
}

/// A request to place styled text at one edge of the free space.
#[derive(Clone, Debug)]
pub struct Fragment {
    pub anchor: Anchor,
    pub style: CellStyle,
    pub text: String,
}

/// What a fragment request is, as values.
pub struct Piece {
    pub anchor: Anchor,
    pub style: CellStyle,
    pub text: Seq<char>,
}

impl View for Fragment {
    type V = Piece;

    open spec fn view(&self) -> Piece {
        Piece { anchor: self.anchor, style: self.style, text: self.text@ }
    }
}

/// A fragment that was written: the columns `[column, column + width)`.
pub struct Placement {
    pub column: nat,
    pub width: nat,
    pub style: CellStyle,
    pub text: Seq<char>,
}

/// The state of a line: its width, the free interval `[start, end)` and the
/// fragments written so far, in the order they were written.
pub struct Line {
    pub width: nat,
    pub base: CellStyle,
    pub start: nat,
    pub end: nat,
    pub placed: Seq<Placement>,
}

/// The columns a fragment covers lie in the written part of the line.
pub open spec fn outside_free(p: Placement, start: nat, end: nat, width: nat) -> bool {
    &&& p.column + p.width <= width
    &&& (p.column + p.width <= start || end <= p.column)
}

/// Two placements share no column.
pub open spec fn disjoint(a: Placement, b: Placement) -> bool {
    a.column + a.width <= b.column || b.column + b.width <= a.column
}

/// The sum of the widths of the placements.
pub open spec fn total_width(placed: Seq<Placement>) -> nat
    decreases placed.len(),
{
    if placed.len() == 0 {
        0
    } else {
        total_width(placed.drop_last()) + placed.last().width
    }
}

/// A row of `width` blanks in `base`.
pub open spec fn blank_row(width: nat, base: CellStyle) -> Seq<Cell> {
    Seq::new(width, |i: int| Some((" "@, base)))
}

/// The cells of a row of `width` blanks in `base` after drawing the
/// placements in order, each over the ones before it.
pub open spec fn painted(width: nat, base: CellStyle, placed: Seq<Placement>) -> Seq<Cell>
    decreases placed.len(),
{
    if placed.len() == 0 {
        blank_row(width, base)
    } else {
        let p = placed.last();
        paint(painted(width, base, placed.drop_last()), p.column, p.text, p.style)
    }
}

proof fn lemma_painted_len(width: nat, base: CellStyle, placed: Seq<Placement>)
    ensures
        painted(width, base, placed).len() == width,
    decreases placed.len(),
{
    if placed.len() > 0 {
        lemma_painted_len(width, base, placed.drop_last());
    }
}

impl Line {
    /// The cells of the line: the blank row with every placement drawn on it.
    pub open spec fn cells(self) -> Seq<Cell> {
        painted(self.width, self.base, self.placed)
    }

    /// The free interval has not inverted, every placement sits outside it
    /// and inside the line, no two placements overlap, and the written
    /// columns are exactly those outside the free interval.
    pub open spec fn wf(self) -> bool {
        &&& self.start <= self.end <= self.width
        &&& forall|i: int|
            0 <= i < self.placed.len() ==> outside_free(
                #[trigger] self.placed[i],
                self.start,
                self.end,
                self.width,
            )
        &&& forall|i: int, j: int|
            0 <= i < j < self.placed.len() ==> disjoint(
                #[trigger] self.placed[i],
                #[trigger] self.placed[j],
            )
        &&& total_width(self.placed) == self.start + (self.width - self.end)
    }

    /// Columns still free, never negative.
    pub open spec fn remaining(self) -> nat {
        if self.start <= self.end {
            (self.end - self.start) as nat
        } else {
            0
        }
    }

    /// The line after asking for `text` at `anchor`: `None` when it does not
    /// fit in the free interval, which then stays as it was.
    pub open spec fn place(self, anchor: Anchor, style: CellStyle, text: Seq<char>) -> Option<Line> {
        let w = display_width(text);
        if w <= self.remaining() {
            match anchor {
                Anchor::Start => Some(
                    Line {
                        start: self.start + w,
                        placed: self.placed.push(
                            Placement { column: self.start, width: w, style, text },
                        ),
                        ..self
                    },
                ),
                Anchor::End => Some(
                    Line {
                        end: (self.end - w) as nat,
                        placed: self.placed.push(
                            Placement { column: (self.end - w) as nat, width: w, style, text },
                        ),
                        ..self
                    },
                ),
            }
        } else {
            None
        }
    }

    /// The line after the chained requests: each is tried only while every
    /// one before it was placed.
    pub open spec fn place_all(self, pieces: Seq<Piece>) -> Line
        decreases pieces.len(),
    {
        if pieces.len() == 0 {
            self
        } else {
            match self.place(pieces[0].anchor, pieces[0].style, pieces[0].text) {
                Some(next) => next.place_all(pieces.drop_first()),
                None => self,
            }
        }
    }

    /// How many of the chained requests were placed.
    pub open spec fn accepted(self, pieces: Seq<Piece>) -> nat
        decreases pieces.len(),
    {
        if pieces.len() == 0 {
            0
        } else {
            match self.place(pieces[0].anchor, pieces[0].style, pieces[0].text) {
                Some(next) => next.accepted(pieces.drop_first()) + 1,
                None => 0,
            }
        }
    }
}

/// An empty line of `width` columns in the base style.
pub open spec fn blank_line(width: nat, base: CellStyle) -> Line {
    Line { width, base, start: 0, end: width, placed: Seq::empty() }
}

/// A one-row canvas filled from both edges toward the middle.
pub struct StatusCanvas {
    canvas: zi::Canvas,
    width: usize,
    base: CellStyle,
    free_start: usize,
    free_end: usize,
    placed: Ghost<Seq<Placement>>,
}

impl View for StatusCanvas {
    type V = Line;

    closed spec fn view(&self) -> Line {
        Line {
            width: self.width as nat,
            base: self.base,
            start: self.free_start as nat,
            end: self.free_end as nat,
            placed: self.placed@,
        }
    }
}

proof fn lemma_total_width_push(placed: Seq<Placement>, p: Placement)
    ensures
        total_width(placed.push(p)) == total_width(placed) + p.width,
{
    assert(placed.push(p).drop_last() =~= placed);
}

proof fn lemma_place_keeps_wf(line: Line, anchor: Anchor, style: CellStyle, text: Seq<char>)
    requires
        line.wf(),
    ensures
        line.place(anchor, style, text) matches Some(next) ==> next.wf(),
{
    if let Some(next) = line.place(anchor, style, text) {
        let w = display_width(text);
        let n = line.placed.len() as int;
        let p = next.placed[n];
        lemma_total_width_push(line.placed, p);
        assert forall|i: int| 0 <= i < next.placed.len() implies outside_free(
            #[trigger] next.placed[i],
            next.start,
            next.end,
            next.width,
        ) by {
            if i < n {
                assert(next.placed[i] == line.placed[i]);
            }
        }
        assert forall|i: int, j: int| 0 <= i < j < next.placed.len() implies disjoint(
            #[trigger] next.placed[i],
            #[trigger] next.placed[j],
        ) by {
            assert(next.placed[i] == line.placed[i]);
            if j < n {
                assert(next.placed[j] == line.placed[j]);
            } else {
                assert(outside_free(line.placed[i], line.start, line.end, line.width));
            }
        }
    }
}

pub(crate) proof fn lemma_place_all_keeps_wf(line: Line, pieces: Seq<Piece>)
    requires
        line.wf(),
    ensures
        line.place_all(pieces).wf(),
        line.place_all(pieces).placed.len() == line.placed.len() + line.accepted(pieces),
        line.place_all(pieces).width == line.width,
    decreases pieces.len(),
{
    if pieces.len() > 0 {
        lemma_place_keeps_wf(line, pieces[0].anchor, pieces[0].style, pieces[0].text);
        if let Some(next) = line.place(pieces[0].anchor, pieces[0].style, pieces[0].text) {
            lemma_place_all_keeps_wf(next, pieces.drop_first());
        }
    }
}

/// Whatever fragments are requested, the placed ones together are no wider
/// than the line, and the free interval never inverts.
pub proof fn lemma_width_bound(line: Line, pieces: Seq<Piece>)
    requires
        line.wf(),
    ensures
        total_width(line.place_all(pieces).placed) <= line.width,
        line.place_all(pieces).start <= line.place_all(pieces).end,
{
    lemma_place_all_keeps_wf(line, pieces);
}

/// Whatever fragments are requested, the column ranges given to any two
/// placed fragments are disjoint. (What the cells then show is stated by
/// `lemma_line_cells`.)
pub proof fn lemma_no_overlap(line: Line, pieces: Seq<Piece>, i: int, j: int)
    requires
        line.wf(),
        0 <= i < j < line.place_all(pieces).placed.len(),
    ensures
        disjoint(line.place_all(pieces).placed[i], line.place_all(pieces).placed[j]),
{
    lemma_place_all_keeps_wf(line, pieces);
}

/// When the first `k` requests were placed and request `k` does not fit, the
/// line ends as it was after those `k`: none of the later requests is drawn,
/// even one that would fit on its own.
pub proof fn lemma_short_circuit(line: Line, pieces: Seq<Piece>, k: int)
    requires
        0 <= k < pieces.len(),
        line.accepted(pieces.take(k)) == k,
        line.place_all(pieces.take(k)).place(pieces[k].anchor, pieces[k].style, pieces[k].text)
            is None,
    ensures
        line.place_all(pieces) == line.place_all(pieces.take(k)),
        line.accepted(pieces) == k,
    decreases k,
{
    if k == 0 {
        assert(pieces.take(0) =~= Seq::<Piece>::empty());
    } else {
        let next = line.place(pieces[0].anchor, pieces[0].style, pieces[0].text)->Some_0;
        let rest = pieces.drop_first();
        assert(pieces.take(k).drop_first() =~= rest.take(k - 1));
        assert(pieces.take(k)[0] == pieces[0]);
        lemma_short_circuit(next, rest, k - 1);
    }
}

/// The text of a placement is drawn in exactly as many cells as it is wide.
pub open spec fn drawn_as_wide(p: Placement) -> bool {
    drawn_graphemes(p.text).len() == p.width
}

/// Column `c` lies in the columns of placement `p`.
pub open spec fn covers(p: Placement, c: int) -> bool {
    p.column <= c < p.column + p.width
}

proof fn lemma_painted_cell(width: nat, base: CellStyle, placed: Seq<Placement>, k: int, c: int)
    requires
        0 <= c < width,
        forall|i: int| 0 <= i < placed.len() ==> (#[trigger] placed[i]).column + placed[i].width <= width,
        forall|i: int| 0 <= i < placed.len() ==> drawn_as_wide(#[trigger] placed[i]),
        forall|i: int, j: int|
            0 <= i < j < placed.len() ==> disjoint(#[trigger] placed[i], #[trigger] placed[j]),
    ensures
        0 <= k < placed.len() && covers(placed[k], c) ==> painted(width, base, placed)[c] == styled(
            drawn_graphemes(placed[k].text)[c - placed[k].column],
            placed[k].style,
        ),
        (forall|i: int| 0 <= i < placed.len() ==> !covers(#[trigger] placed[i], c)) ==> painted(
            width,
            base,
            placed,
        )[c] == Some((" "@, base)),
    decreases placed.len(),
{
    if placed.len() > 0 {
        let q = placed.drop_last();
        let last = placed.last();
        let n = placed.len() - 1;
        assert forall|i: int| 0 <= i < q.len() implies q[i] == placed[i] by {}
        lemma_painted_len(width, base, q);
        lemma_painted_cell(width, base, q, k, c);
        if 0 <= k < n && covers(placed[k], c) {
            assert(disjoint(placed[k], placed[n]));
            assert(q[k] == placed[k]);
        }
        if forall|i: int| 0 <= i < placed.len() ==> !covers(#[trigger] placed[i], c) {
            assert(!covers(placed[n], c));
            assert forall|i: int| 0 <= i < q.len() implies !covers(#[trigger] q[i], c) by {
                assert(q[i] == placed[i]);
            }
        }
    }
}

/// Where every placed text is drawn in as many cells as it is wide, each
/// column of a placement holds that placement's text in its style, and each
/// column that no placement covers is a blank in the base style. So the
/// fragments of the drawn line do not overwrite one another.
pub proof fn lemma_line_cells(line: Line, k: int, c: int)
    requires
        line.wf(),
        0 <= c < line.width,
        forall|i: int| 0 <= i < line.placed.len() ==> drawn_as_wide(#[trigger] line.placed[i]),
    ensures
        line.cells().len() == line.width,
        0 <= k < line.placed.len() && covers(line.placed[k], c) ==> line.cells()[c] == styled(
            drawn_graphemes(line.placed[k].text)[c - line.placed[k].column],
            line.placed[k].style,
        ),
        (forall|i: int| 0 <= i < line.placed.len() ==> !covers(#[trigger] line.placed[i], c))
            ==> line.cells()[c] == Some((" "@, line.base)),
{
    lemma_painted_len(line.width, line.base, line.placed);
    assert forall|i: int| 0 <= i < line.placed.len() implies (#[trigger] line.placed[i]).column
        + line.placed[i].width <= line.width by {
        assert(outside_free(line.placed[i], line.start, line.end, line.width));
    }
    lemma_painted_cell(line.width, line.base, line.placed, k, c);
}

/// Placing more fragments keeps the ones already placed.
pub proof fn lemma_place_all_keeps_prefix(line: Line, pieces: Seq<Piece>)
    ensures
        line.place_all(pieces).placed.len() >= line.placed.len(),
        forall|i: int|
            0 <= i < line.placed.len() ==> #[trigger] line.place_all(pieces).placed[i]
                == line.placed[i],
    decreases pieces.len(),
{
    if pieces.len() > 0 {
        if let Some(next) = line.place(pieces[0].anchor, pieces[0].style, pieces[0].text) {
            lemma_place_all_keeps_prefix(next, pieces.drop_first());
            assert forall|i: int| 0 <= i < line.placed.len() implies #[trigger] next.placed[i]
                == line.placed[i] by {}
        }
    }
}

proof fn lemma_accepted_bound(line: Line, pieces: Seq<Piece>)
    ensures
        line.accepted(pieces) <= pieces.len(),
    decreases pieces.len(),
{
    if pieces.len() > 0 {
        if let Some(next) = line.place(pieces[0].anchor, pieces[0].style, pieces[0].text) {
            lemma_accepted_bound(next, pieces.drop_first());
        }
    }
}

/// The `k`-th placed request of a chain is written with its own text and
/// style, after the placements the line already had.
pub proof fn lemma_placed_piece(line: Line, pieces: Seq<Piece>, k: int)
    requires
        0 <= k < line.accepted(pieces),
    ensures
        line.placed.len() + k < line.place_all(pieces).placed.len(),
        line.place_all(pieces).placed[line.placed.len() + k].text == pieces[k].text,
        line.place_all(pieces).placed[line.placed.len() + k].style == pieces[k].style,
    decreases pieces.len(),
{
    let next = line.place(pieces[0].anchor, pieces[0].style, pieces[0].text)->Some_0;
    let rest = pieces.drop_first();
    lemma_accepted_bound(line, pieces);
    assert(line.place_all(pieces) == next.place_all(rest));
    lemma_place_all_keeps_prefix(next, rest);
    if k > 0 {
        assert(rest[k - 1] == pieces[k]);
        lemma_placed_piece(next, rest, k - 1);
    } else {
        assert(next.placed[line.placed.len() as int].text == pieces[0].text);
        assert(next.place_all(rest).placed[line.placed.len() as int] == next.placed[line.placed.len() as int]);
    }
}

impl StatusCanvas {
    /// The cells of the terminal canvas.
    pub closed spec fn grid(&self) -> Seq<Cell> {
        canvas_cells(self.canvas)
    }

    /// The terminal canvas is one row high.
    pub closed spec fn single_row(&self) -> bool {
        canvas_height(self.canvas) == 1
    }

    /// The model is well formed and the canvas holds exactly its cells.
    pub open spec fn inv(&self) -> bool {
        &&& self@.wf()
        &&& self.single_row()
        &&& self.grid() == self@.cells()
    }

    /// A blank line of `width` columns in `base`. The compositor is one row
    /// high by construction.
    pub fn new(width: usize, height: usize, base: CellStyle) -> (r: StatusCanvas)
        requires
            height == 1,
        ensures
            r.inv(),
            r@ == blank_line(width as nat, base),
    {
        let mut canvas = canvas_new(width, height);
        canvas_clear(&mut canvas, base);
        assert(canvas_cells(canvas) =~= blank_row(width as nat, base));
        StatusCanvas {
            canvas,
            width,
            base,
            free_start: 0,
            free_end: width,
            placed: Ghost(Seq::empty()),
        }
    }

    /// Columns between the two filled edges, never negative.
    pub fn remaining_space(&self) -> (r: usize)
        ensures
            r as nat == self@.remaining(),
    {
        self.free_end.saturating_sub(self.free_start)
    }

    /// Writes `content` right after the fragments placed from the left, if
    /// it fits in the free space; otherwise leaves the line unchanged and
    /// returns `false`.
    pub fn append_start(&mut self, style: CellStyle, content: &str) -> (r: bool)
        requires
            old(self).inv(),
        ensures
            final(self).inv(),
            match old(self)@.place(Anchor::Start, style, content@) {
                Some(next) => r && final(self)@ == next,
                None => !r && final(self)@ == old(self)@,
            },
            !r ==> final(self).grid() == old(self).grid(),
    {
        let width = text_width(content);
        if width <= self.remaining_space() {
            proof {
                lemma_place_keeps_wf(self@, Anchor::Start, style, content@);
                lemma_painted_len(self@.width, self@.base, self@.placed);
            }
            canvas_draw_str(&mut self.canvas, self.free_start, style, content);
            self.placed = Ghost(
                self.placed@.push(
                    Placement {
                        column: self.free_start as nat,
                        width: width as nat,
                        style,
                        text: content@,
                    },
                ),
            );
            self.free_start = self.free_start + width;
            assert(self@.placed.drop_last() =~= old(self)@.placed);
            true
        } else {
            false
        }
    }

    /// Writes `content` right before the fragments placed from the right, if
    /// it fits in the free space; otherwise leaves the line unchanged and
    /// returns `false`.
    pub fn append_end(&mut self, style: CellStyle, content: &str) -> (r: bool)
        requires
            old(self).inv(),
        ensures
            final(self).inv(),
            match old(self)@.place(Anchor::End, style, content@) {
                Some(next) => r && final(self)@ == next,
                None => !r && final(self)@ == old(self)@,
            },
            !r ==> final(self).grid() == old(self).grid(),
    {
        let width = text_width(content);
        if width <= self.remaining_space() {
            proof {
                lemma_place_keeps_wf(self@, Anchor::End, style, content@);
                lemma_painted_len(self@.width, self@.base, self@.placed);
            }
            let column = self.free_end - width;
            canvas_draw_str(&mut self.canvas, column, style, content);
            self.placed = Ghost(
                self.placed@.push(
                    Placement { column: column as nat, width: width as nat, style, text: content@ },
                ),
            );
            self.free_end = column;
            assert(self@.placed.drop_last() =~= old(self)@.placed);
            true
        } else {
            false
        }
    }

    /// Places the fragments in order and stops at the first one that does
    /// not fit: no later fragment is tried. Returns how many were placed.
    pub fn append_all(&mut self, fragments: &Vec<Fragment>) -> (r: usize)
        requires
            old(self).inv(),
        ensures
            final(self).inv(),
            final(self)@ == old(self)@.place_all(fragments@.map_values(|f: Fragment| f@)),
            r as nat == old(self)@.accepted(fragments@.map_values(|f: Fragment| f@)),
    {
        let ghost pieces = fragments@.map_values(|f: Fragment| f@);
        let ghost first = self@;
        let mut i: usize = 0;
        assert(pieces.skip(0) =~= pieces);
        while i < fragments.len()
            invariant
                self.inv(),
                i <= fragments.len(),
                pieces == fragments@.map_values(|f: Fragment| f@),
                first == old(self)@,
                first.place_all(pieces) == self@.place_all(pieces.skip(i as int)),
                first.accepted(pieces) == i + self@.accepted(pieces.skip(i as int)),
            decreases fragments.len() - i,
        {
            let ghost rest = pieces.skip(i as int);
            assert(rest.drop_first() =~= pieces.skip(i + 1));
            assert(rest[0] == fragments@[i as int]@);
            let fragment = &fragments[i];
            let placed = match fragment.anchor {
                Anchor::Start => self.append_start(fragment.style, fragment.text.as_str()),
                Anchor::End => self.append_end(fragment.style, fragment.text.as_str()),
            };
            if !placed {
                assert(self@.place_all(rest) == self@);
                assert(self@.accepted(rest) == 0);
                return i;
            }
            i = i + 1;
        }
        assert(pieces.skip(i as int) =~= Seq::<Piece>::empty());
        i
    }

    /// The terminal canvas drawn so far.
    pub fn canvas(&self) -> &zi::Canvas {
        &self.canvas
    }

    /// Hands the finished canvas over as a layout, without further checks:
    /// the layout holds the line's cells, one per column.
    pub fn into_layout(self) -> (r: zi::Layout)
        requires
            self.inv(),
        ensures
            layout_cells(r) == self@.cells(),
            layout_cells(r).len() == self@.width,
    {
        proof {
            lemma_painted_len(self@.width, self@.base, self@.placed);
        }
        canvas_layout(self.canvas)
    }
}

} // verus!
