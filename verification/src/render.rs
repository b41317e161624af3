//! Composing one terminal frame as a single byte buffer.
//!
//! A frame hides the cursor, homes it, draws every visible screen row (text
//! slice, welcome banner, or a tilde past the end of the document), a
//! reverse-video status bar, a message bar whose text is shown only while
//! fresh, and finally places and shows the cursor. The whole frame is one
//! buffer so the caller can write it in a single operation.

use vstd::prelude::*;

use crate::editor::Editor;
use crate::editor::scroll_off;
use crate::row::rx_after;
use crate::row::spaces;

verus! {

/// How long a status message stays visible, in milliseconds.
pub const STATUS_TTL_MS: u64 = 5000;

/// Hide the cursor.
pub open spec fn esc_hide_cursor() -> Seq<u8> {
    seq![27u8, 91, 63, 50, 53, 108]
}

/// Show the cursor.
pub open spec fn esc_show_cursor() -> Seq<u8> {
    seq![27u8, 91, 63, 50, 53, 104]
}

/// Move the cursor to the top-left corner.
pub open spec fn esc_cursor_home() -> Seq<u8> {
    seq![27u8, 91, 72]
}

/// Clear from the cursor to the end of the line.
pub open spec fn esc_clear_line() -> Seq<u8> {
    seq![27u8, 91, 75]
}

/// Clear the whole screen.
pub open spec fn esc_clear_screen() -> Seq<u8> {
    seq![27u8, 91, 50, 74]
}

/// Switch to reverse video.
pub open spec fn esc_reverse_video() -> Seq<u8> {
    seq![27u8, 91, 55, 109]
}

/// Back to normal rendition.
pub open spec fn esc_normal_video() -> Seq<u8> {
    seq![27u8, 91, 109]
}

/// The line break the terminal wants in raw mode.
pub open spec fn crlf() -> Seq<u8> {
    seq![13u8, 10]
}

/// Place the cursor at a 1-based row and column.
pub open spec fn esc_cursor_position(row: int, col: int) -> Seq<u8> {
    seq![27u8, 91] + dec_spec(row) + seq![59u8] + dec_spec(col) + seq![72u8]
}

/// The decimal digits of a non-negative number, most significant first.
pub open spec fn dec_spec(n: int) -> Seq<u8>
    decreases n,
{
    if n < 10 {
        seq![(48 + n) as u8]
    } else {
        dec_spec(n / 10).push((48 + n % 10) as u8)
    }
}

/// The welcome banner's text.
pub open spec fn welcome_spec() -> Seq<u8> {
    seq![
        75u8, 105, 108, 111, 32, 101, 100, 105, 116, 111, 114, 32, 45, 45, 32, 118, 101, 114, 115,
        105, 111, 110, 32, 48, 46, 49, 46, 48,
    ]
}

/// The welcome line shown on an empty document: the banner text truncated to
/// the screen width and centered, with a tilde in the first column when any
/// padding is left.
pub open spec fn banner_spec(screencols: int) -> Seq<u8> {
    let w = if welcome_spec().len() > screencols {
        welcome_spec().take(screencols)
    } else {
        welcome_spec()
    };
    let padding = (screencols - w.len()) / 2;
    if padding > 0 {
        seq![126u8] + spaces(padding - 1) + w
    } else {
        w
    }
}

/// The text part of one screen row: the visible slice of the row's rendered
/// content, or the banner or a tilde past the end of the document.
pub open spec fn row_body_spec(ed: Editor, y: int) -> Seq<u8> {
    let filerow = y + ed.rowoff as int;
    if filerow >= ed.rows@.len() {
        if ed.rows@.len() == 0 && y == ed.screenrows as int / 3 {
            banner_spec(ed.screencols as int)
        } else {
            seq![126u8]
        }
    } else {
        let line = ed.render_view()[filerow];
        let coloff = ed.coloff as int;
        if line.len() <= coloff {
            Seq::empty()
        } else {
            let avail = line.len() - coloff;
            let len = if avail > ed.screencols as int {
                ed.screencols as int
            } else {
                avail
            };
            line.subrange(coloff, coloff + len)
        }
    }
}

/// One screen row of the frame: its text, a clear-to-end-of-line, and a
/// line break.
pub open spec fn row_line_spec(ed: Editor, y: int) -> Seq<u8> {
    row_body_spec(ed, y) + esc_clear_line() + crlf()
}

/// The first `y` screen rows of the frame, in order.
pub open spec fn rows_upto_spec(ed: Editor, y: int) -> Seq<u8>
    decreases y,
{
    if y <= 0 {
        Seq::empty()
    } else {
        rows_upto_spec(ed, y - 1) + row_line_spec(ed, y - 1)
    }
}

/// The left text of the status bar: the file name (at most 20 characters)
/// and the row count, truncated to the screen width.
pub open spec fn status_left_spec(ed: Editor) -> Seq<u8> {
    let fname = if ed.filename@.len() > 20 {
        ed.filename@.take(20)
    } else {
        ed.filename@
    };
    let left = fname + seq![32u8, 45, 32] + dec_spec(ed.rows@.len() as int) + seq![
        32u8, 108, 105, 110, 101, 115,
    ];
    if left.len() > ed.screencols as int {
        left.take(ed.screencols as int)
    } else {
        left
    }
}

/// The right text of the status bar: the 1-based cursor row over the row
/// count.
pub open spec fn status_right_spec(ed: Editor) -> Seq<u8> {
    dec_spec(ed.cy as int + 1) + seq![47u8] + dec_spec(ed.rows@.len() as int)
}

/// The padding that fills the status bar after its left text: spaces, and
/// the right text when it fits exactly at the bar's end.
pub open spec fn status_tail_spec(ed: Editor) -> Seq<u8> {
    let gap = ed.screencols as int - status_left_spec(ed).len();
    let rstatus = status_right_spec(ed);
    if rstatus.len() <= gap {
        spaces(gap - rstatus.len()) + rstatus
    } else {
        spaces(gap)
    }
}

/// The status bar in reverse video, ending the line in normal rendition.
pub open spec fn status_bar_spec(ed: Editor) -> Seq<u8> {
    esc_reverse_video() + status_left_spec(ed) + status_tail_spec(ed) + esc_normal_video() + crlf()
}

/// Whether a message set at `time` is still shown at `now` (both in
/// milliseconds of the same monotonic session clock).
pub open spec fn message_fresh(time: u64, now: u64) -> bool {
    time <= now < time + STATUS_TTL_MS
}

/// The message bar: cleared, then the status message truncated to the
/// screen width, shown only while the message is fresh.
pub open spec fn message_bar_spec(ed: Editor, now: u64) -> Seq<u8> {
    let shown = if ed.statusmsg@.len() > ed.screencols as int {
        ed.statusmsg@.take(ed.screencols as int)
    } else {
        ed.statusmsg@
    };
    esc_clear_line() + (if message_fresh(ed.statusmsg_time, now) {
        shown
    } else {
        Seq::<u8>::empty()
    })
}

/// One whole frame, for an editor whose scroll step has already run: the
/// hardware cursor lands at the cursor's position relative to the viewport,
/// in 1-based terminal coordinates.
pub open spec fn frame_spec(ed: Editor, now: u64) -> Seq<u8> {
    esc_hide_cursor() + esc_cursor_home() + rows_upto_spec(ed, ed.screenrows as int)
        + status_bar_spec(ed) + message_bar_spec(ed, now) + esc_cursor_position(
        ed.cy as int - ed.rowoff as int + 1,
        ed.rx as int - ed.coloff as int + 1,
    ) + esc_show_cursor()
}

/// Append a copy of `src[start..end]` to `dst`.
pub fn push_range(dst: &mut Vec<u8>, src: &Vec<u8>, start: usize, end: usize)
    requires
        start <= end <= src@.len(),
    ensures
        final(dst)@ == old(dst)@ + src@.subrange(start as int, end as int),
{
    let mut i: usize = start;
    while i < end
        invariant
            start <= i <= end <= src@.len(),
            dst@ == old(dst)@ + src@.subrange(start as int, i as int),
        decreases end - i,
    {
        dst.push(src[i]);
        proof {
            assert(old(dst)@ + src@.subrange(start as int, i + 1) =~= (old(dst)@ + src@.subrange(
                start as int,
                i as int,
            )).push(src@[i as int]));
        }
        i = i + 1;
    }
}

/// Append a whole copy of `src` to `dst`.
pub fn push_bytes(dst: &mut Vec<u8>, src: &Vec<u8>)
    ensures
        final(dst)@ == old(dst)@ + src@,
{
    push_range(dst, src, 0, src.len());
    proof {
        assert(src@.subrange(0, src@.len() as int) =~= src@);
    }
}

/// Append `n` spaces to `dst`.
pub fn push_spaces(dst: &mut Vec<u8>, n: usize)
    ensures
        final(dst)@ == old(dst)@ + spaces(n as int),
{
    let mut i: usize = 0;
    while i < n
        invariant
            i <= n,
            dst@ == old(dst)@ + spaces(i as int),
        decreases n - i,
    {
        dst.push(32);
        proof {
            assert(old(dst)@ + spaces(i + 1) =~= (old(dst)@ + spaces(i as int)).push(32u8));
        }
        i = i + 1;
    }
}

/// Append the decimal digits of `n` to `dst`.
pub fn push_usize_dec(dst: &mut Vec<u8>, n: usize)
    ensures
        final(dst)@ == old(dst)@ + dec_spec(n as int),
    decreases n,
{
    if n < 10 {
        dst.push(48 + n as u8);
        proof {
            assert(old(dst)@ + dec_spec(n as int) =~= old(dst)@.push((48 + n as int) as u8));
        }
    } else {
        push_usize_dec(dst, n / 10);
        dst.push(48 + (n % 10) as u8);
        proof {
            assert(old(dst)@ + dec_spec(n as int) =~= (old(dst)@ + dec_spec(n as int / 10)).push(
                (48 + n as int % 10) as u8,
            ));
        }
    }
}

/// The welcome banner's text as a buffer.
pub fn welcome_text() -> (v: Vec<u8>)
    ensures
        v@ == welcome_spec(),
{
    let mut v: Vec<u8> = Vec::new();
    v.push(75);
    v.push(105);
    v.push(108);
    v.push(111);
    v.push(32);
    v.push(101);
    v.push(100);
    v.push(105);
    v.push(116);
    v.push(111);
    v.push(114);
    v.push(32);
    v.push(45);
    v.push(45);
    v.push(32);
    v.push(118);
    v.push(101);
    v.push(114);
    v.push(115);
    v.push(105);
    v.push(111);
    v.push(110);
    v.push(32);
    v.push(48);
    v.push(46);
    v.push(49);
    v.push(46);
    v.push(48);
    proof {
        assert(v@ =~= welcome_spec());
    }
    v
}

/// The bytes that clear the screen and home the cursor, as written on exit.
pub fn clear_screen_bytes() -> (v: Vec<u8>)
    ensures
        v@ == esc_clear_screen() + esc_cursor_home(),
{
    let mut v: Vec<u8> = Vec::new();
    v.push(27);
    v.push(91);
    v.push(50);
    v.push(74);
    v.push(27);
    v.push(91);
    v.push(72);
    proof {
        assert(v@ =~= esc_clear_screen() + esc_cursor_home());
    }
    v
}

impl Editor {
    /// Draw the text part of one screen row into `buf`.
    fn draw_row_body(&self, buf: &mut Vec<u8>, y: usize)
        requires
            self.wf(),
            y < self.screenrows,
        ensures
            final(buf)@ == old(buf)@ + row_body_spec(*self, y as int),
    {
        let ghost before = buf@;
        let filerow = y + self.rowoff;
        if filerow >= self.rows.len() {
            if self.rows.len() == 0 && y == self.screenrows / 3 {
                let mut welcome = welcome_text();
                welcome.truncate(self.screencols);
                let ghost w = if welcome_spec().len() > self.screencols as int {
                    welcome_spec().take(self.screencols as int)
                } else {
                    welcome_spec()
                };
                proof {
                    assert(welcome@ =~= w);
                }
                let padding = (self.screencols - welcome.len()) / 2;
                if padding > 0 {
                    buf.push(126);
                    proof {
                        assert(buf@ =~= before + seq![126u8]);
                    }
                    push_spaces(buf, padding - 1);
                    push_bytes(buf, &welcome);
                    assert(buf@ == before + seq![126u8] + spaces(padding - 1) + w);
                    proof {
                        assert(before + seq![126u8] + spaces(padding - 1) + w =~= before + (seq![
                            126u8,
                        ] + spaces(padding - 1) + w));
                    }
                } else {
                    push_bytes(buf, &welcome);
                }
            } else {
                buf.push(126);
                proof {
                    assert(buf@ =~= before + seq![126u8]);
                }
            }
        } else {
            let line = &self.rows[filerow].render;
            if line.len() > self.coloff {
                let mut len = line.len() - self.coloff;
                if len > self.screencols {
                    len = self.screencols;
                }
                push_range(buf, line, self.coloff, self.coloff + len);
            } else {
                proof {
                    assert(before =~= before + Seq::<u8>::empty());
                }
            }
        }
    }

    /// Draw every visible screen row into `buf`.
    pub fn editor_draw_rows(&self, buf: &mut Vec<u8>)
        requires
            self.wf(),
        ensures
            final(buf)@ == old(buf)@ + rows_upto_spec(*self, self.screenrows as int),
    {
        let ghost buf0 = buf@;
        let mut y: usize = 0;
        while y < self.screenrows
            invariant
                self.wf(),
                y <= self.screenrows,
                buf@ == buf0 + rows_upto_spec(*self, y as int),
            decreases self.screenrows - y,
        {
            let ghost before = buf@;
            self.draw_row_body(buf, y);
            let ghost mid = buf@;
            buf.push(27);
            buf.push(91);
            buf.push(75);
            buf.push(13);
            buf.push(10);
            proof {
                assert(buf@ =~= mid + esc_clear_line() + crlf());
                assert(mid + esc_clear_line() + crlf() =~= before + row_line_spec(*self, y as int));
                assert(buf0 + rows_upto_spec(*self, y as int) + row_line_spec(*self, y as int) =~=
                buf0 + rows_upto_spec(*self, y + 1));
            }
            y = y + 1;
        }
    }

    /// Draw the status bar into `buf`.
    #[verifier::rlimit(50)]
    pub fn editor_draw_status_bar(&self, buf: &mut Vec<u8>)
        requires
            self.wf(),
        ensures
            final(buf)@ == old(buf)@ + status_bar_spec(*self),
    {
        let ghost buf0 = buf@;
        buf.push(27);
        buf.push(91);
        buf.push(55);
        buf.push(109);
        proof {
            assert(buf@ =~= buf0 + esc_reverse_video());
        }
        let mut status: Vec<u8> = Vec::new();
        let fname_len = if self.filename.len() > 20 {
            20
        } else {
            self.filename.len()
        };
        push_range(&mut status, &self.filename, 0, fname_len);
        let ghost fname = status@;
        proof {
            assert(fname =~= if self.filename@.len() > 20 {
                self.filename@.take(20)
            } else {
                self.filename@
            });
        }
        status.push(32);
        status.push(45);
        status.push(32);
        proof {
            assert(status@ =~= fname + seq![32u8, 45, 32]);
        }
        push_usize_dec(&mut status, self.rows.len());
        let ghost with_count = status@;
        status.push(32);
        status.push(108);
        status.push(105);
        status.push(110);
        status.push(101);
        status.push(115);
        proof {
            assert(status@ =~= with_count + seq![32u8, 108, 105, 110, 101, 115]);
        }
        let ghost left = fname + seq![32u8, 45, 32] + dec_spec(self.rows@.len() as int) + seq![
            32u8, 108, 105, 110, 101, 115,
        ];
        proof {
            assert(status@ == left);
        }
        status.truncate(self.screencols);
        proof {
            if left.len() > self.screencols as int {
                assert(status@ =~= left.take(self.screencols as int));
            }
            assert(status@ == status_left_spec(*self));
        }
        let mut rstatus: Vec<u8> = Vec::new();
        push_usize_dec(&mut rstatus, self.cy + 1);
        rstatus.push(47);
        proof {
            assert(rstatus@ =~= dec_spec(self.cy as int + 1) + seq![47u8]);
        }
        push_usize_dec(&mut rstatus, self.rows.len());
        proof {
            assert(rstatus@ == status_right_spec(*self));
        }
        push_bytes(buf, &status);
        let ghost with_left = buf@;
        let gap = self.screencols - status.len();
        if rstatus.len() <= gap {
            push_spaces(buf, gap - rstatus.len());
            push_bytes(buf, &rstatus);
            proof {
                assert(buf@ =~= with_left + status_tail_spec(*self));
            }
        } else {
            push_spaces(buf, gap);
            proof {
                assert(buf@ =~= with_left + status_tail_spec(*self));
            }
        }
        let ghost with_tail = buf@;
        buf.push(27);
        buf.push(91);
        buf.push(109);
        buf.push(13);
        buf.push(10);
        proof {
            assert(buf@ =~= with_tail + esc_normal_video() + crlf());
            assert(buf@ =~= buf0 + status_bar_spec(*self));
        }
    }

    /// Draw the message bar into `buf`: clear the line, then show the
    /// status message truncated to the screen width while it is fresh.
    pub fn editor_draw_message_bar(&self, buf: &mut Vec<u8>, now: u64)
        requires
            self.wf(),
        ensures
            final(buf)@ == old(buf)@ + message_bar_spec(*self, now),
    {
        let ghost buf0 = buf@;
        buf.push(27);
        buf.push(91);
        buf.push(75);
        proof {
            assert(buf@ =~= buf0 + esc_clear_line());
        }
        if self.statusmsg_time <= now && now - self.statusmsg_time < STATUS_TTL_MS {
            let shown_len = if self.statusmsg.len() > self.screencols {
                self.screencols
            } else {
                self.statusmsg.len()
            };
            push_range(buf, &self.statusmsg, 0, shown_len);
            proof {
                assert(buf@ =~= buf0 + message_bar_spec(*self, now));
            }
        } else {
            proof {
                assert(buf@ =~= buf0 + message_bar_spec(*self, now));
            }
        }
    }

    /// Run the scroll recomputation, then compose one whole frame of the
    /// screen as a single buffer. The scroll step runs first, so every
    /// coordinate in the frame, the cursor placement included, satisfies
    /// the viewport invariant.
    #[verifier::rlimit(50)]
    pub fn editor_refresh_frame(&mut self, now: u64) -> (frame: Vec<u8>)
        requires
            old(self).wf(),
        ensures
            final(self).wf(),
            final(self).cx == old(self).cx && final(self).cy == old(self).cy,
            final(self).same_doc_and_screen(old(self)),
            final(self).rx as int == if old(self).cy < old(self).rows@.len() {
                rx_after(old(self).rows_view()[old(self).cy as int], old(self).cx as int)
            } else {
                0
            },
            final(self).rowoff as int == scroll_off(
                old(self).rowoff as int,
                old(self).cy as int,
                old(self).screenrows as int,
            ),
            final(self).coloff as int == scroll_off(
                old(self).coloff as int,
                final(self).rx as int,
                old(self).screencols as int,
            ),
            final(self).rowoff <= final(self).cy < final(self).rowoff + final(self).screenrows,
            final(self).coloff <= final(self).rx < final(self).coloff + final(self).screencols,
            frame@ == frame_spec(*final(self), now),
    {
        self.editor_scroll();
        let mut buf: Vec<u8> = Vec::new();
        buf.push(27);
        buf.push(91);
        buf.push(63);
        buf.push(50);
        buf.push(53);
        buf.push(108);
        buf.push(27);
        buf.push(91);
        buf.push(72);
        proof {
            assert(buf@ =~= esc_hide_cursor() + esc_cursor_home());
        }
        self.editor_draw_rows(&mut buf);
        self.editor_draw_status_bar(&mut buf);
        self.editor_draw_message_bar(&mut buf, now);
        let ghost with_bars = buf@;
        let crow = self.cy - self.rowoff + 1;
        let ccol = self.rx - self.coloff + 1;
        buf.push(27);
        buf.push(91);
        let ghost cp0 = buf@;
        proof {
            assert(cp0 =~= with_bars + seq![27u8, 91]);
        }
        push_usize_dec(&mut buf, crow);
        buf.push(59);
        let ghost cp1 = buf@;
        proof {
            assert(cp1 =~= with_bars + seq![27u8, 91] + dec_spec(crow as int) + seq![59u8]);
        }
        push_usize_dec(&mut buf, ccol);
        buf.push(72);
        proof {
            assert(buf@ =~= with_bars + esc_cursor_position(crow as int, ccol as int));
        }
        let ghost with_cp = buf@;
        buf.push(27);
        buf.push(91);
        buf.push(63);
        buf.push(50);
        buf.push(53);
        buf.push(104);
        proof {
            assert(buf@ =~= with_cp + esc_show_cursor());
            assert(buf@ =~= frame_spec(*self, now));
        }
        buf
    }
}

} // verus!
