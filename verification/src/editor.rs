use vstd::prelude::*;

use crate::instruction::{white, Instruction, Rgb};

verus! {

/// One cell of the live document: a styled character.
#[derive(PartialEq, Eq, Structural, Clone, Copy, Debug)]
pub struct Span {
    pub text: char,
    pub bold: bool,
    pub foreground: Rgb,
}

/// The blank padding cell.
pub open spec fn blank_cell() -> Span {
    Span { text: ' ', bold: false, foreground: white() }
}

impl Span {
    pub fn new(c: char, foreground: Rgb, bold: bool) -> (s: Span)
        ensures
            s == (Span { text: c, bold, foreground }),
    {
        Span { text: c, bold, foreground }
    }

    /// The blank cell used to pad a row up to the cursor column.
    pub fn empty() -> (s: Span)
        ensures
            s == blank_cell(),
    {
        Span { text: ' ', bold: false, foreground: Rgb::white() }
    }
}

/// One row of the live document, its cells in left-to-right order.
pub struct Line {
    pub spans: Vec<Span>,
}

impl Line {
    pub fn empty() -> (l: Line)
        ensures
            l.spans@ == Seq::<Span>::empty(),
    {
        Line { spans: Vec::new() }
    }
}

/// The document's rows as plain sequences of cells.
pub open spec fn lines_view(lines: Seq<Line>) -> Seq<Seq<Span>> {
    Seq::new(lines.len(), |i: int| lines[i].spans@)
}

/// The state published to the renderer: the document, the buffer and screen
/// cursors, and the flags the playback raises.
pub struct Doc {
    pub doc_height: usize,
    pub screen_cursor_x: usize,
    pub screen_cursor_y: usize,
    pub buf_cursor_x: usize,
    pub buf_cursor_y: usize,
    pub lines: Vec<Line>,
    pub title: String,
    pub waiting: bool,
    pub show_cursor: bool,
}

impl Doc {
    pub fn new(title: String) -> (d: Doc)
        ensures
            d.doc_height == 1,
            d.screen_cursor_x == 0,
            d.screen_cursor_y == 0,
            d.buf_cursor_x == 0,
            d.buf_cursor_y == 0,
            lines_view(d.lines@) == seq![Seq::<Span>::empty()],
            d.title == title,
            d.waiting == false,
            d.show_cursor == true,
    {
        let mut lines: Vec<Line> = Vec::new();
        lines.push(Line::empty());
        proof {
            assert(lines_view(lines@) =~= seq![Seq::<Span>::empty()]);
        }
        Doc {
            doc_height: 1,
            screen_cursor_x: 0,
            screen_cursor_y: 0,
            buf_cursor_x: 0,
            buf_cursor_y: 0,
            lines,
            title,
            waiting: false,
            show_cursor: true,
        }
    }
}

/// The vertical window the renderer shows: its scroll offset and height.
pub struct Viewport {
    pub offset_y: usize,
    pub height: usize,
}

/// The document grown with empty rows until row `y` exists.
pub open spec fn grow_doc(doc: Seq<Seq<Span>>, y: nat) -> Seq<Seq<Span>> {
    if doc.len() > y {
        doc
    } else {
        doc + Seq::new((y + 1 - doc.len()) as nat, |i: int| Seq::<Span>::empty())
    }
}

/// The row grown with blank cells until its length reaches `x`. The cursor
/// may sit exactly one past the last cell, so column `x` itself needs no
/// cell.
pub open spec fn grow_line(line: Seq<Span>, x: nat) -> Seq<Span> {
    if line.len() >= x {
        line
    } else {
        line + Seq::new((x - line.len()) as nat, |i: int| blank_cell())
    }
}

/// The document after the settle procedure grew it to hold the cursor.
pub open spec fn settle_doc(doc: Seq<Seq<Span>>, x: nat, y: nat) -> Seq<Seq<Span>> {
    let g = grow_doc(doc, y);
    g.update(y as int, grow_line(g[y as int], x))
}

/// The scroll offset after the settle procedure: the minimal single-sided
/// adjustment that brings row `y` inside a window of height `h`.
pub open spec fn settle_offset(offset: nat, y: nat, h: nat) -> nat
    recommends
        h >= 1,
{
    if y < offset {
        y
    } else if y >= offset + h {
        (y + 1 - h) as nat
    } else {
        offset
    }
}

/// The published screen row after the settle procedure.
pub open spec fn screen_row(offset: nat, y: nat, h: nat) -> nat
    recommends
        h >= 1,
{
    (y - settle_offset(offset, y, h)) as nat
}

/// The cursor addresses an existing row and sits at most one past the end
/// of that row: the engine's standing invariant between instructions.
pub open spec fn cursor_fits(doc: Seq<Seq<Span>>, x: nat, y: nat) -> bool {
    y < doc.len() && x <= doc[y as int].len()
}

/// Document growth: the document only gains rows and rows only gain cells;
/// nothing is ever truncated.
pub open spec fn doc_grows(d0: Seq<Seq<Span>>, d1: Seq<Seq<Span>>) -> bool {
    d0.len() <= d1.len() && forall|i: int| 0 <= i < d0.len() ==> d0[i].len() <= d1[i].len()
}

/// The cursor and viewport data published to the renderer after a settle at
/// buffer position `(x, y)`, given the viewport as it stood before.
pub open spec fn published(d1: Doc, v1: Viewport, x: nat, y: nat, v0: Viewport) -> bool {
    &&& v1.offset_y as nat == settle_offset(v0.offset_y as nat, y, v0.height as nat)
    &&& v1.height == v0.height
    &&& d1.screen_cursor_y as nat == screen_row(v0.offset_y as nat, y, v0.height as nat)
    &&& d1.screen_cursor_y < v0.height
    &&& d1.screen_cursor_x as nat == x
    &&& d1.buf_cursor_x as nat == x
    &&& d1.buf_cursor_y as nat == y
}

/// The playback engine's private side: the buffer cursor and the tracked
/// foreground for characters still to be typed.
pub struct Editor {
    pub cursor_x: usize,
    pub cursor_y: usize,
    pub foreground: Rgb,
}

impl Editor {
    pub fn new() -> (e: Editor)
        ensures
            e.cursor_x == 0,
            e.cursor_y == 0,
            e.foreground == white(),
    {
        Editor { cursor_x: 0, cursor_y: 0, foreground: Rgb::white() }
    }

    /// The cursor-settle procedure: grow the document to the cursor, scroll
    /// the viewport minimally so the cursor row is visible, and publish the
    /// screen and buffer cursor positions.
    pub fn update_cursor(&self, state: &mut Doc, viewport: &mut Viewport)
        requires
            old(viewport).height >= 1,
        ensures
            lines_view(final(state).lines@) == settle_doc(
                lines_view(old(state).lines@),
                self.cursor_x as nat,
                self.cursor_y as nat,
            ),
            published(
                *final(state),
                *final(viewport),
                self.cursor_x as nat,
                self.cursor_y as nat,
                *old(viewport),
            ),
            cursor_fits(
                lines_view(final(state).lines@),
                self.cursor_x as nat,
                self.cursor_y as nat,
            ),
            doc_grows(lines_view(old(state).lines@), lines_view(final(state).lines@)),
            final(state).doc_height == old(state).doc_height,
            final(state).title == old(state).title,
            final(state).waiting == old(state).waiting,
            final(state).show_cursor == old(state).show_cursor,
    {
        let ghost st0 = *old(state);
        let ghost doc0 = lines_view(old(state).lines@);
        proof {
            assert(lines_view(state.lines@) =~~= doc0 + Seq::new(
                (state.lines@.len() - doc0.len()) as nat,
                |i: int| Seq::<Span>::empty(),
            ));
        }
        // Grow the document until the cursor row exists.
        while self.cursor_y >= state.lines.len()
            invariant
                doc0.len() <= state.lines@.len(),
                lines_view(state.lines@) == doc0 + Seq::new(
                    (state.lines@.len() - doc0.len()) as nat,
                    |i: int| Seq::<Span>::empty(),
                ),
                state.lines@.len() == doc0.len() || state.lines@.len() <= self.cursor_y as nat
                    + 1,
                state.doc_height == st0.doc_height,
                state.screen_cursor_x == st0.screen_cursor_x,
                state.screen_cursor_y == st0.screen_cursor_y,
                state.buf_cursor_x == st0.buf_cursor_x,
                state.buf_cursor_y == st0.buf_cursor_y,
                state.title == st0.title,
                state.waiting == st0.waiting,
                state.show_cursor == st0.show_cursor,
            decreases self.cursor_y + 1 - state.lines@.len(),
        {
            let ghost before = state.lines@;
            state.lines.push(Line::empty());
            proof {
                let after_view = lines_view(state.lines@);
                let target = doc0 + Seq::new(
                    (state.lines@.len() - doc0.len()) as nat,
                    |i: int| Seq::<Span>::empty(),
                );
                assert forall|i: int| 0 <= i < after_view.len() implies after_view[i]
                    == target[i] by {
                    assert(after_view[i] == state.lines@[i].spans@);
                    if i < before.len() {
                        assert(state.lines@[i] == before[i]);
                        assert(lines_view(before)[i] == before[i].spans@);
                        assert(lines_view(before)[i] == (doc0 + Seq::new(
                            (before.len() - doc0.len()) as nat,
                            |j: int| Seq::<Span>::empty(),
                        ))[i]);
                    } else {
                        assert(state.lines@[i].spans@ == Seq::<Span>::empty());
                    }
                }
                assert(after_view =~= target);
            }
        }
        proof {
            assert(lines_view(state.lines@) =~~= grow_doc(doc0, self.cursor_y as nat));
        }
        let ghost grown = lines_view(state.lines@);
        // Grow the cursor row until the cursor column is within reach.
        let row = &mut state.lines[self.cursor_y];
        let ghost row0 = row.spans@;
        proof {
            assert(row.spans@ =~= row0 + Seq::new(
                (row.spans@.len() - row0.len()) as nat,
                |i: int| blank_cell(),
            ));
        }
        while self.cursor_x > row.spans.len()
            invariant
                row0.len() <= row.spans@.len(),
                row.spans@ == row0 + Seq::new(
                    (row.spans@.len() - row0.len()) as nat,
                    |i: int| blank_cell(),
                ),
                row.spans@.len() == row0.len() || row.spans@.len() <= self.cursor_x as nat,
            decreases self.cursor_x + 1 - row.spans@.len(),
        {
            row.spans.push(Span::empty());
            proof {
                assert(row.spans@ =~= row0 + Seq::new(
                    (row.spans@.len() - row0.len()) as nat,
                    |i: int| blank_cell(),
                ));
            }
        }
        proof {
            assert(row.spans@ =~= grow_line(row0, self.cursor_x as nat));
        }
        proof {
            assert(lines_view(state.lines@) =~~= settle_doc(
                doc0,
                self.cursor_x as nat,
                self.cursor_y as nat,
            ));
        }
        // Scroll minimally so the cursor row is inside the window, and
        // publish the resulting positions.
        let y = self.cursor_y;
        let h = viewport.height;
        let sy: usize;
        if y < viewport.offset_y {
            viewport.offset_y = y;
            sy = 0;
        } else if y - viewport.offset_y >= h {
            viewport.offset_y = y + 1 - h;
            sy = h - 1;
        } else {
            sy = y - viewport.offset_y;
        }
        state.screen_cursor_x = self.cursor_x;
        state.screen_cursor_y = sy;
        state.buf_cursor_x = self.cursor_x;
        state.buf_cursor_y = self.cursor_y;
        proof {
            assert(doc_grows(doc0, lines_view(state.lines@)));
        }
    }

    /// Apply one instruction to the published state. A `Pause` never
    /// reaches the engine: the pacer consumes it before forwarding.
    pub fn apply_inst(&mut self, inst: Instruction, doc: &mut Doc, viewport: &mut Viewport)
        requires
            old(viewport).height >= 1,
            !(inst matches Instruction::Pause(_)),
            cursor_fits(
                lines_view(old(doc).lines@),
                old(self).cursor_x as nat,
                old(self).cursor_y as nat,
            ),
        ensures
            final(viewport).height == old(viewport).height,
            final(doc).doc_height == old(doc).doc_height,
            final(doc).title == old(doc).title,
            doc_grows(lines_view(old(doc).lines@), lines_view(final(doc).lines@)),
            cursor_fits(
                lines_view(final(doc).lines@),
                final(self).cursor_x as nat,
                final(self).cursor_y as nat,
            ),
            (match inst {
                Instruction::MoveCursor(x, y) => {
                    &&& final(self).cursor_x == x
                    &&& final(self).cursor_y == y
                    &&& final(self).foreground == old(self).foreground
                    &&& lines_view(final(doc).lines@) == settle_doc(
                        lines_view(old(doc).lines@),
                        x as nat,
                        y as nat,
                    )
                    &&& published(*final(doc), *final(viewport), x as nat, y as nat, *old(viewport))
                    &&& final(doc).waiting == old(doc).waiting
                    &&& final(doc).show_cursor == old(doc).show_cursor
                },
                Instruction::Type(c, b) => {
                    let x0 = old(self).cursor_x as nat;
                    let y0 = old(self).cursor_y as nat;
                    let d0 = lines_view(old(doc).lines@);
                    let cell = Span { text: c, bold: b, foreground: old(self).foreground };
                    let mid = d0.update(y0 as int, d0[y0 as int].insert(x0 as int, cell));
                    &&& final(self).cursor_x == old(self).cursor_x + 1
                    &&& final(self).cursor_y == old(self).cursor_y
                    &&& final(self).foreground == old(self).foreground
                    &&& lines_view(final(doc).lines@) == settle_doc(mid, x0 + 1, y0)
                    &&& published(*final(doc), *final(viewport), x0 + 1, y0, *old(viewport))
                    &&& final(doc).waiting == old(doc).waiting
                    &&& final(doc).show_cursor == old(doc).show_cursor
                },
                Instruction::SetForeground(c) => {
                    &&& final(self).cursor_x == old(self).cursor_x
                    &&& final(self).cursor_y == old(self).cursor_y
                    &&& final(self).foreground == c
                    &&& *final(doc) == *old(doc)
                    &&& *final(viewport) == *old(viewport)
                },
                Instruction::Newline { x } => {
                    let y1 = old(self).cursor_y as nat + 1;
                    &&& final(self).cursor_x == x
                    &&& final(self).cursor_y as nat == y1
                    &&& final(self).foreground == old(self).foreground
                    &&& lines_view(final(doc).lines@) == settle_doc(
                        lines_view(old(doc).lines@),
                        x as nat,
                        y1,
                    )
                    &&& published(*final(doc), *final(viewport), x as nat, y1, *old(viewport))
                    &&& final(doc).waiting == old(doc).waiting
                    &&& final(doc).show_cursor == old(doc).show_cursor
                },
                Instruction::SetX(x) => {
                    &&& final(self).cursor_x == x
                    &&& final(self).cursor_y == old(self).cursor_y
                    &&& final(self).foreground == old(self).foreground
                    &&& lines_view(final(doc).lines@) == settle_doc(
                        lines_view(old(doc).lines@),
                        x as nat,
                        old(self).cursor_y as nat,
                    )
                    &&& published(
                        *final(doc),
                        *final(viewport),
                        x as nat,
                        old(self).cursor_y as nat,
                        *old(viewport),
                    )
                    &&& final(doc).waiting == old(doc).waiting
                    &&& final(doc).show_cursor == old(doc).show_cursor
                },
                Instruction::Pause(_) => false,
                Instruction::Wait => {
                    &&& *final(self) == *old(self)
                    &&& final(doc).waiting == true
                    &&& final(doc).lines == old(doc).lines
                    &&& final(doc).screen_cursor_x == old(doc).screen_cursor_x
                    &&& final(doc).screen_cursor_y == old(doc).screen_cursor_y
                    &&& final(doc).buf_cursor_x == old(doc).buf_cursor_x
                    &&& final(doc).buf_cursor_y == old(doc).buf_cursor_y
                    &&& final(doc).show_cursor == old(doc).show_cursor
                    &&& *final(viewport) == *old(viewport)
                },
                Instruction::HideCursor => {
                    &&& *final(self) == *old(self)
                    &&& final(doc).show_cursor == false
                    &&& final(doc).waiting == old(doc).waiting
                    &&& final(doc).lines == old(doc).lines
                    &&& final(doc).screen_cursor_x == old(doc).screen_cursor_x
                    &&& final(doc).screen_cursor_y == old(doc).screen_cursor_y
                    &&& final(doc).buf_cursor_x == old(doc).buf_cursor_x
                    &&& final(doc).buf_cursor_y == old(doc).buf_cursor_y
                    &&& *final(viewport) == *old(viewport)
                },
            }),
    {
        match inst {
            Instruction::MoveCursor(x, y) => {
                self.cursor_x = x;
                self.cursor_y = y;
                self.update_cursor(doc, viewport);
            },
            Instruction::Type(c, b) => {
                let ghost d0 = lines_view(old(doc).lines@);
                let ghost y0 = self.cursor_y as int;
                proof {
                    assert(d0[y0] == doc.lines@[y0].spans@);
                }
                let row = &mut doc.lines[self.cursor_y];
                row.spans.insert(self.cursor_x, Span::new(c, self.foreground, b));
                let row_len = row.spans.len();
                proof {
                    assert(self.cursor_x < row_len);
                }
                self.cursor_x = self.cursor_x + 1;
                proof {
                    let cell = Span {
                        text: c,
                        bold: b,
                        foreground: old(self).foreground,
                    };
                    let mid = d0.update(y0, d0[y0].insert(old(self).cursor_x as int, cell));
                    assert(lines_view(doc.lines@) =~~= mid);
                    assert(doc_grows(d0, mid));
                }
                self.update_cursor(doc, viewport);
                proof {
                    lemma_doc_grows_trans(
                        d0,
                        lines_view(old(doc).lines@).update(
                            y0,
                            d0[y0].insert(
                                old(self).cursor_x as int,
                                Span { text: c, bold: b, foreground: old(self).foreground },
                            ),
                        ),
                        lines_view(doc.lines@),
                    );
                }
            },
            Instruction::SetForeground(c) => {
                self.foreground = c;
            },
            Instruction::Newline { x } => {
                let n = doc.lines.len();
                proof {
                    assert(self.cursor_y < n);
                }
                self.cursor_x = x;
                self.cursor_y = self.cursor_y + 1;
                self.update_cursor(doc, viewport);
            },
            Instruction::SetX(x) => {
                self.cursor_x = x;
                self.update_cursor(doc, viewport);
            },
            Instruction::Pause(_) => {
                proof {
                    assert(false);
                }
            },
            Instruction::Wait => {
                doc.waiting = true;
            },
            Instruction::HideCursor => {
                doc.show_cursor = false;
            },
        }
    }

    /// Acknowledge a pending wait: a key arrived, the waiting flag drops.
    /// Everything else the renderer sees stays as it was.
    pub fn on_key(&self, state: &mut Doc)
        ensures
            final(state).waiting == false,
            final(state).doc_height == old(state).doc_height,
            final(state).screen_cursor_x == old(state).screen_cursor_x,
            final(state).screen_cursor_y == old(state).screen_cursor_y,
            final(state).buf_cursor_x == old(state).buf_cursor_x,
            final(state).buf_cursor_y == old(state).buf_cursor_y,
            final(state).lines == old(state).lines,
            final(state).title == old(state).title,
            final(state).show_cursor == old(state).show_cursor,
    {
        state.waiting = false;
    }
}

/// Growth composes: if nothing was truncated from one state to a second,
/// nor from the second to a third, nothing was truncated overall.
pub proof fn lemma_doc_grows_trans(a: Seq<Seq<Span>>, b: Seq<Seq<Span>>, c: Seq<Seq<Span>>)
    requires
        doc_grows(a, b),
        doc_grows(b, c),
    ensures
        doc_grows(a, c),
{
}

/// Cursor-settle idempotence: settling again, with no cursor move in
/// between, changes neither the document, nor the scroll offset, nor the
/// published screen row.
pub proof fn lemma_settle_idempotent(doc: Seq<Seq<Span>>, x: nat, y: nat, offset: nat, h: nat)
    requires
        h >= 1,
    ensures
        settle_doc(settle_doc(doc, x, y), x, y) == settle_doc(doc, x, y),
        settle_offset(settle_offset(offset, y, h), y, h) == settle_offset(offset, y, h),
        screen_row(settle_offset(offset, y, h), y, h) == screen_row(offset, y, h),
{
    let d1 = settle_doc(doc, x, y);
    assert(grow_doc(doc, y).len() > y);
    assert(d1.len() > y);
    assert(grow_doc(d1, y) == d1);
    assert(d1[y as int] == grow_line(grow_doc(doc, y)[y as int], x));
    assert(grow_line(d1[y as int], x) == d1[y as int]);
    assert(settle_doc(d1, x, y) =~= d1);
}

} // verus!
