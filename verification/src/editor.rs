//! The editor state: document rows, cursor, and viewport.
//!
//! The cursor moves under the arrow, home, end and page keys; after every
//! vertical motion the horizontal position is clamped to the row now under
//! the cursor. The scroll recomputation moves the viewport offsets by the
//! minimum amount that keeps the cursor inside the visible window.

use vstd::prelude::*;

use crate::keys::EditorKey;
use crate::keys::ctrl_key;
use crate::keys::quit_key;
use crate::row::MAX_RENDER;
use crate::row::MAX_ROW_LEN;
use crate::row::Row;
use crate::row::row_cx_to_rx;
use crate::row::rx_after;

verus! {

/// Largest number of rows the editor accepts, so that every row index and
/// every viewport sum stays well inside a 32-bit `usize`.
pub const MAX_ROWS: usize = 0x0FFF_FFF0;

/// A cursor position is valid when it sits on a row at a column no greater
/// than the row's length, or one past the last row at column zero.
pub open spec fn cursor_ok(rows: Seq<Seq<u8>>, cx: int, cy: int) -> bool {
    &&& 0 <= cy <= rows.len()
    &&& if cy < rows.len() {
        0 <= cx <= rows[cy].len()
    } else {
        cx == 0
    }
}

/// One step of cursor motion under an arrow key, followed by the clamp of
/// the column to the row now under the cursor (zero past the last row).
pub open spec fn move_xy(rows: Seq<Seq<u8>>, cx: int, cy: int, key: EditorKey) -> (int, int) {
    let stepped = if key == EditorKey::ArrowLeft {
        if cx != 0 {
            (cx - 1, cy)
        } else if cy > 0 {
            (rows[cy - 1].len() as int, cy - 1)
        } else {
            (cx, cy)
        }
    } else if key == EditorKey::ArrowRight {
        if 0 <= cy < rows.len() {
            if cx < rows[cy].len() {
                (cx + 1, cy)
            } else if cx == rows[cy].len() {
                (0, cy + 1)
            } else {
                (cx, cy)
            }
        } else {
            (cx, cy)
        }
    } else if key == EditorKey::ArrowUp {
        if cy != 0 {
            (cx, cy - 1)
        } else {
            (cx, cy)
        }
    } else if key == EditorKey::ArrowDown {
        if cy < rows.len() {
            (cx, cy + 1)
        } else {
            (cx, cy)
        }
    } else {
        (cx, cy)
    };
    let rowlen = if 0 <= stepped.1 < rows.len() {
        rows[stepped.1].len() as int
    } else {
        0
    };
    if stepped.0 > rowlen {
        (rowlen, stepped.1)
    } else {
        (stepped.0, stepped.1)
    }
}

/// `n` repetitions of one cursor step, as the page keys perform them.
pub open spec fn move_xy_n(rows: Seq<Seq<u8>>, cx: int, cy: int, key: EditorKey, n: nat) -> (
    int,
    int,
)
    decreases n,
{
    if n == 0 {
        (cx, cy)
    } else {
        let next = move_xy(rows, cx, cy, key);
        move_xy_n(rows, next.0, next.1, key, (n - 1) as nat)
    }
}

/// The new cursor position a key produces: home and end jump within the
/// row, page keys snap to the viewport edge and repeat a vertical step once
/// per screen row, arrows take one step. Every other key leaves the cursor.
pub open spec fn apply_key_xy(
    rows: Seq<Seq<u8>>,
    cx: int,
    cy: int,
    rowoff: int,
    screenrows: int,
    key: EditorKey,
) -> (int, int) {
    if key == EditorKey::HomeKey {
        (0, cy)
    } else if key == EditorKey::EndKey {
        if 0 <= cy < rows.len() {
            (rows[cy].len() as int, cy)
        } else {
            (cx, cy)
        }
    } else if key == EditorKey::PageUp {
        move_xy_n(rows, cx, rowoff, EditorKey::ArrowUp, screenrows as nat)
    } else if key == EditorKey::PageDown {
        let start = if rowoff + screenrows - 1 > rows.len() {
            rows.len() as int
        } else {
            rowoff + screenrows - 1
        };
        move_xy_n(rows, cx, start, EditorKey::ArrowDown, screenrows as nat)
    } else if key == EditorKey::ArrowUp || key == EditorKey::ArrowDown || key
        == EditorKey::ArrowLeft || key == EditorKey::ArrowRight {
        move_xy(rows, cx, cy, key)
    } else {
        (cx, cy)
    }
}

/// The minimal adjustment of a viewport offset that brings a position into
/// the visible span: follow the position when it lies before the window,
/// end the window at the position when it lies past it, else stay.
pub open spec fn scroll_off(off: int, pos: int, span: int) -> int {
    if pos < off {
        pos
    } else if pos >= off + span {
        pos - span + 1
    } else {
        off
    }
}

/// The whole editor session state.
pub struct Editor {
    /// Cursor column into the current row's logical content.
    pub cx: usize,
    /// Cursor row; may equal the number of rows (one past the last).
    pub cy: usize,
    /// Render column of the cursor, recomputed by the scroll step.
    pub rx: usize,
    /// First visible row.
    pub rowoff: usize,
    /// First visible render column.
    pub coloff: usize,
    /// Visible text rows of the screen.
    pub screenrows: usize,
    /// Visible columns of the screen.
    pub screencols: usize,
    /// The document, in file line order.
    pub rows: Vec<Row>,
    /// Name shown in the status bar.
    pub filename: Vec<u8>,
    /// Current status message.
    pub statusmsg: Vec<u8>,
    /// When the status message was set, in milliseconds of session time.
    pub statusmsg_time: u64,
}

impl Editor {
    /// The logical content of every row.
    pub open spec fn rows_view(&self) -> Seq<Seq<u8>> {
        self.rows@.map_values(|r: Row| r.chars@)
    }

    /// The rendered content of every row.
    pub open spec fn render_view(&self) -> Seq<Seq<u8>> {
        self.rows@.map_values(|r: Row| r.render@)
    }

    /// The document is well formed: bounded and every row's render derived
    /// from its content.
    pub open spec fn doc_wf(&self) -> bool {
        &&& self.rows@.len() <= MAX_ROWS
        &&& forall|i: int| 0 <= i < self.rows@.len() ==> self.rows@[i].wf()
    }

    /// Session-wide well-formedness: valid document and cursor, a screen of
    /// at least one row and column, and bounded viewport offsets.
    pub open spec fn wf(&self) -> bool {
        &&& self.doc_wf()
        &&& cursor_ok(self.rows_view(), self.cx as int, self.cy as int)
        &&& 1 <= self.screenrows <= 0xFFFF
        &&& 1 <= self.screencols <= 0xFFFF
        &&& self.rowoff <= self.rows@.len()
        &&& self.coloff <= MAX_RENDER
        &&& self.rx <= MAX_RENDER
    }

    /// Everything but the cursor and viewport fields is the same in both
    /// states.
    pub open spec fn same_doc_and_screen(&self, other: &Editor) -> bool {
        &&& self.rows@ == other.rows@
        &&& self.screenrows == other.screenrows
        &&& self.screencols == other.screencols
        &&& self.filename@ == other.filename@
        &&& self.statusmsg@ == other.statusmsg@
        &&& self.statusmsg_time == other.statusmsg_time
    }

    /// A fresh session for a screen of the given dimensions: no rows, the
    /// cursor at the origin, nothing scrolled.
    pub fn new(screenrows: usize, screencols: usize) -> (ed: Editor)
        requires
            1 <= screenrows <= 0xFFFF,
            1 <= screencols <= 0xFFFF,
        ensures
            ed.wf(),
            ed.cx == 0 && ed.cy == 0 && ed.rx == 0,
            ed.rowoff == 0 && ed.coloff == 0,
            ed.screenrows == screenrows && ed.screencols == screencols,
            ed.rows@.len() == 0,
            ed.filename@.len() == 0,
            ed.statusmsg@.len() == 0,
            ed.statusmsg_time == 0,
    {
        Editor {
            cx: 0,
            cy: 0,
            rx: 0,
            rowoff: 0,
            coloff: 0,
            screenrows,
            screencols,
            rows: Vec::new(),
            filename: Vec::new(),
            statusmsg: Vec::new(),
            statusmsg_time: 0,
        }
    }

    /// Append one line to the document, deriving its rendered form.
    pub fn editor_append_row(&mut self, line: Vec<u8>)
        requires
            old(self).wf(),
            line@.len() <= MAX_ROW_LEN,
            old(self).rows@.len() < MAX_ROWS,
        ensures
            final(self).wf(),
            final(self).rows_view() == old(self).rows_view().push(line@),
            final(self).cx == old(self).cx && final(self).cy == old(self).cy,
            final(self).rx == old(self).rx,
            final(self).rowoff == old(self).rowoff && final(self).coloff == old(self).coloff,
            final(self).screenrows == old(self).screenrows,
            final(self).screencols == old(self).screencols,
            final(self).filename@ == old(self).filename@,
            final(self).statusmsg@ == old(self).statusmsg@,
            final(self).statusmsg_time == old(self).statusmsg_time,
    {
        let row = Row::new(line);
        self.rows.push(row);
        proof {
            assert(final(self).rows_view() =~= old(self).rows_view().push(row.chars@));
        }
    }

    /// Record the file's name for the status bar.
    pub fn set_filename(&mut self, name: Vec<u8>)
        requires
            old(self).wf(),
        ensures
            final(self).wf(),
            final(self).filename@ == name@,
            *final(self) == (Editor { filename: final(self).filename, ..*old(self) }),
    {
        self.filename = name;
    }

    /// Set the status message and remember when it was set.
    pub fn editor_set_status_message(&mut self, message: Vec<u8>, now: u64)
        requires
            old(self).wf(),
        ensures
            final(self).wf(),
            final(self).statusmsg@ == message@,
            final(self).statusmsg_time == now,
            *final(self) == (Editor {
                statusmsg: final(self).statusmsg,
                statusmsg_time: now,
                ..*old(self)
            }),
    {
        self.statusmsg = message;
        self.statusmsg_time = now;
    }

    /// One cursor step under an arrow key, with the final clamp of the
    /// column to the row now under the cursor.
    pub fn editor_move_cursor(&mut self, key: EditorKey)
        requires
            old(self).doc_wf(),
            old(self).cy <= old(self).rows@.len(),
        ensures
            final(self).doc_wf(),
            (final(self).cx as int, final(self).cy as int) == move_xy(
                old(self).rows_view(),
                old(self).cx as int,
                old(self).cy as int,
                key,
            ),
            cursor_ok(final(self).rows_view(), final(self).cx as int, final(self).cy as int),
            final(self).rx == old(self).rx,
            final(self).rowoff == old(self).rowoff && final(self).coloff == old(self).coloff,
            final(self).same_doc_and_screen(old(self)),
    {
        match key {
            EditorKey::ArrowLeft => {
                if self.cx != 0 {
                    self.cx = self.cx - 1;
                } else if self.cy > 0 {
                    self.cy = self.cy - 1;
                    self.cx = self.rows[self.cy].chars.len();
                }
            },
            EditorKey::ArrowRight => {
                if self.cy < self.rows.len() {
                    let rowlen = self.rows[self.cy].chars.len();
                    if self.cx < rowlen {
                        self.cx = self.cx + 1;
                    } else if self.cx == rowlen {
                        self.cy = self.cy + 1;
                        self.cx = 0;
                    }
                }
            },
            EditorKey::ArrowUp => {
                if self.cy != 0 {
                    self.cy = self.cy - 1;
                }
            },
            EditorKey::ArrowDown => {
                if self.cy < self.rows.len() {
                    self.cy = self.cy + 1;
                }
            },
            _ => {},
        }
        let rowlen = if self.cy < self.rows.len() {
            self.rows[self.cy].chars.len()
        } else {
            0
        };
        if self.cx > rowlen {
            self.cx = rowlen;
        }
    }

    /// Apply one decoded key to the session. Returns whether the editor
    /// keeps running: false exactly on the quit key, which changes nothing.
    pub fn editor_process_key(&mut self, key: EditorKey) -> (keep_running: bool)
        requires
            old(self).wf(),
        ensures
            final(self).wf(),
            keep_running == (key != quit_key()),
            (final(self).cx as int, final(self).cy as int) == apply_key_xy(
                old(self).rows_view(),
                old(self).cx as int,
                old(self).cy as int,
                old(self).rowoff as int,
                old(self).screenrows as int,
                key,
            ),
            final(self).rx == old(self).rx,
            final(self).rowoff == old(self).rowoff && final(self).coloff == old(self).coloff,
            final(self).same_doc_and_screen(old(self)),
    {
        let quit = ctrl_key(113);
        proof {
            assert(113u8 & 0x1f == 17u8) by (bit_vector);
        }
        if key == EditorKey::Char(quit) {
            return false;
        }
        match key {
            EditorKey::HomeKey => {
                self.cx = 0;
            },
            EditorKey::EndKey => {
                if self.cy < self.rows.len() {
                    self.cx = self.rows[self.cy].chars.len();
                }
            },
            EditorKey::PageUp | EditorKey::PageDown => {
                let dir = if key == EditorKey::PageUp {
                    self.cy = self.rowoff;
                    EditorKey::ArrowUp
                } else {
                    let mut target = self.rowoff + self.screenrows - 1;
                    if target > self.rows.len() {
                        target = self.rows.len();
                    }
                    self.cy = target;
                    EditorKey::ArrowDown
                };
                let ghost orig = *self;
                let n = self.screenrows;
                let mut i: usize = 0;
                while i < n
                    invariant
                        i <= n,
                        self.doc_wf(),
                        self.cy <= self.rows@.len(),
                        self.same_doc_and_screen(&orig),
                        self.rx == orig.rx,
                        self.rowoff == orig.rowoff && self.coloff == orig.coloff,
                        i > 0 ==> cursor_ok(self.rows_view(), self.cx as int, self.cy as int),
                        move_xy_n(self.rows_view(), self.cx as int, self.cy as int, dir, (n
                            - i) as nat) == move_xy_n(
                            orig.rows_view(),
                            orig.cx as int,
                            orig.cy as int,
                            dir,
                            n as nat,
                        ),
                    decreases n - i,
                {
                    let ghost before = *self;
                    self.editor_move_cursor(dir);
                    proof {
                        assert(move_xy_n(before.rows_view(), before.cx as int, before.cy as int, dir, (
                        n - i) as nat) == move_xy_n(
                            self.rows_view(),
                            self.cx as int,
                            self.cy as int,
                            dir,
                            (n - i - 1) as nat,
                        ));
                    }
                    i = i + 1;
                }
            },
            EditorKey::ArrowUp | EditorKey::ArrowDown | EditorKey::ArrowLeft
                | EditorKey::ArrowRight => {
                self.editor_move_cursor(key);
            },
            _ => {},
        }
        true
    }

    /// Recompute the render column and move the viewport offsets by the
    /// minimum needed to keep the cursor visible. After this, the cursor
    /// lies within the window on both axes.
    pub fn editor_scroll(&mut self)
        requires
            old(self).wf(),
        ensures
            final(self).wf(),
            final(self).cx == old(self).cx && final(self).cy == old(self).cy,
            final(self).same_doc_and_screen(old(self)),
            final(self).rx as int == if old(self).cy < old(self).rows@.len() {
                rx_after(old(self).rows_view()[old(self).cy as int], old(self).cx as int)
            } else {
                0
            },
            final(self).rowoff as int == scroll_off(
                old(self).rowoff as int,
                old(self).cy as int,
                old(self).screenrows as int,
            ),
            final(self).coloff as int == scroll_off(
                old(self).coloff as int,
                final(self).rx as int,
                old(self).screencols as int,
            ),
            final(self).rowoff <= final(self).cy < final(self).rowoff + final(self).screenrows,
            final(self).coloff <= final(self).rx < final(self).coloff + final(self).screencols,
    {
        if self.cy < self.rows.len() {
            let r = row_cx_to_rx(&self.rows[self.cy], self.cx);
            self.rx = r;
        } else {
            self.rx = 0;
        }
        if self.cy < self.rowoff {
            self.rowoff = self.cy;
        }
        if self.cy >= self.rowoff + self.screenrows {
            self.rowoff = self.cy - self.screenrows + 1;
        }
        if self.rx < self.coloff {
            self.coloff = self.rx;
        }
        if self.rx >= self.coloff + self.screencols {
            self.coloff = self.rx - self.screencols + 1;
        }
    }
}

/// At the end of a row that is not the last one, the right arrow wraps the
/// cursor to the start of the next row.
pub proof fn lemma_arrow_right_wraps(rows: Seq<Seq<u8>>, cx: int, cy: int)
    requires
        0 <= cy,
        cy + 1 < rows.len(),
        cx == rows[cy].len(),
    ensures
        move_xy(rows, cx, cy, EditorKey::ArrowRight) == (0int, cy + 1),
{
}

/// At the origin, the left arrow does not move the cursor.
pub proof fn lemma_arrow_left_origin_noop(rows: Seq<Seq<u8>>)
    ensures
        move_xy(rows, 0, 0, EditorKey::ArrowLeft) == (0int, 0int),
{
}

/// Stepping down from one past the last row clamps the column to zero, and
/// the end key leaves it there: no current row exists past the document's
/// end, so the column can never move beyond zero.
pub proof fn lemma_end_key_past_last_row(
    rows: Seq<Seq<u8>>,
    cx: int,
    cy: int,
    rowoff: int,
    screenrows: int,
)
    requires
        0 <= cx,
        cy == rows.len(),
    ensures
        move_xy(rows, cx, cy, EditorKey::ArrowDown) == (0int, cy),
        apply_key_xy(rows, 0, cy, rowoff, screenrows, EditorKey::EndKey) == (0int, cy),
{
}

} // verus!
