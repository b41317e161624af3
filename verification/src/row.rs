//! The row model: a line's logical content and its rendered form.
//!
//! A row keeps `chars`, the logical bytes of the line, and `render`, the
//! derived display bytes in which every tab is expanded with spaces up to
//! the next multiple of the tab stop. The mapping from a logical column to
//! a render column scans `chars` with the same advance rule, so the two
//! never disagree.

use vstd::prelude::*;

verus! {

/// Interval to which a tab character expands the render column.
pub const TAB_STOP: usize = 8;

/// Largest logical row length the editor accepts, chosen so that every
/// render column (at most `TAB_STOP` per character) fits a 32-bit `usize`.
pub const MAX_ROW_LEN: usize = 0x0FFF_FFF0;

/// Largest render column that can arise from a row within `MAX_ROW_LEN`.
pub const MAX_RENDER: usize = 0x7FFF_FF80;

/// How one character advances the render column: a tab moves it to the next
/// multiple of the tab stop (always at least one column), anything else
/// moves it by one.
pub open spec fn rx_step(rx: int, c: u8) -> int {
    if c == 9 {
        rx + (TAB_STOP as int - rx % (TAB_STOP as int))
    } else {
        rx + 1
    }
}

/// The render column reached after scanning the first `cx` characters of a
/// row, starting from column zero.
pub open spec fn rx_after(chars: Seq<u8>, cx: int) -> int
    decreases cx,
{
    if cx <= 0 {
        0
    } else {
        rx_step(rx_after(chars, cx - 1), chars[cx - 1])
    }
}

/// `n` spaces.
pub open spec fn spaces(n: int) -> Seq<u8> {
    Seq::new(n as nat, |i: int| 32u8)
}

/// The rendered form of the first `j` characters of a row: each tab becomes
/// the spaces that fill up to the next multiple of the tab stop, every other
/// byte stands for itself.
pub open spec fn render_upto(chars: Seq<u8>, j: int) -> Seq<u8>
    decreases j,
{
    if j <= 0 {
        Seq::empty()
    } else {
        let prev = render_upto(chars, j - 1);
        if chars[j - 1] == 9 {
            prev + spaces(TAB_STOP as int - (prev.len() as int) % (TAB_STOP as int))
        } else {
            prev.push(chars[j - 1])
        }
    }
}

/// The rendered form of a whole row.
pub open spec fn render_of(chars: Seq<u8>) -> Seq<u8> {
    render_upto(chars, chars.len() as int)
}

/// Every scanned character advances the render column by at least one and at
/// most the tab stop.
pub proof fn lemma_rx_after_bounds(chars: Seq<u8>, cx: int)
    requires
        0 <= cx,
    ensures
        cx <= rx_after(chars, cx) <= TAB_STOP * cx,
    decreases cx,
{
    if cx > 0 {
        lemma_rx_after_bounds(chars, cx - 1);
    }
}

/// The logical-to-render column mapping is monotonic non-decreasing.
pub proof fn lemma_rx_after_monotonic(chars: Seq<u8>, cx1: int, cx2: int)
    requires
        0 <= cx1 <= cx2,
    ensures
        rx_after(chars, cx1) <= rx_after(chars, cx2),
    decreases cx2 - cx1,
{
    if cx1 < cx2 {
        lemma_rx_after_monotonic(chars, cx1, cx2 - 1);
        lemma_rx_after_bounds(chars, cx2 - 1);
    }
}

/// In a row without tabs the render column equals the logical column.
pub proof fn lemma_rx_after_no_tabs(chars: Seq<u8>, cx: int)
    requires
        0 <= cx <= chars.len(),
        forall|j: int| 0 <= j < chars.len() ==> chars[j] != 9,
    ensures
        rx_after(chars, cx) == cx,
    decreases cx,
{
    if cx > 0 {
        lemma_rx_after_no_tabs(chars, cx - 1);
    }
}

/// The rendered prefix of `j` characters is exactly `rx_after(chars, j)`
/// columns wide: rendering and column arithmetic share one advance rule.
pub proof fn lemma_render_upto_len(chars: Seq<u8>, j: int)
    requires
        0 <= j,
    ensures
        render_upto(chars, j).len() == rx_after(chars, j),
    decreases j,
{
    if j > 0 {
        lemma_render_upto_len(chars, j - 1);
        lemma_rx_after_bounds(chars, j - 1);
    }
}

/// One line of the document: the logical bytes and their rendered form.
pub struct Row {
    pub chars: Vec<u8>,
    pub render: Vec<u8>,
}

impl Row {
    /// A row is well formed when its length is within bounds and `render`
    /// is the tab expansion of `chars`.
    pub open spec fn wf(&self) -> bool {
        &&& self.chars@.len() <= MAX_ROW_LEN
        &&& self.render@ == render_of(self.chars@)
    }

    /// Build a row from its logical bytes, deriving the rendered form.
    pub fn new(chars: Vec<u8>) -> (row: Row)
        requires
            chars@.len() <= MAX_ROW_LEN,
        ensures
            row.wf(),
            row.chars@ == chars@,
    {
        let mut render: Vec<u8> = Vec::new();
        let mut j: usize = 0;
        while j < chars.len()
            invariant
                j <= chars@.len() <= MAX_ROW_LEN,
                render@ == render_upto(chars@, j as int),
            decreases chars@.len() - j,
        {
            if chars[j] == 9 {
                proof {
                    lemma_render_upto_len(chars@, j as int);
                    lemma_rx_after_bounds(chars@, j as int);
                }
                let pad = TAB_STOP - render.len() % TAB_STOP;
                let ghost prev = render@;
                let mut p: usize = 0;
                while p < pad
                    invariant
                        p <= pad,
                        pad == TAB_STOP as int - (prev.len() as int) % (TAB_STOP as int),
                        render@ == prev + spaces(p as int),
                    decreases pad - p,
                {
                    render.push(32);
                    proof {
                        assert(spaces(p as int).push(32u8) =~= spaces(p as int + 1));
                        assert((prev + spaces(p as int)).push(32u8) =~= prev + spaces(
                            p as int + 1,
                        ));
                    }
                    p = p + 1;
                }
                assert(render@ == render_upto(chars@, j + 1));
            } else {
                render.push(chars[j]);
                assert(render@ == render_upto(chars@, j + 1));
            }
            j = j + 1;
        }
        Row { chars, render }
    }
}

/// Map a logical column to its render column by scanning the first `cx`
/// characters of the row.
pub fn row_cx_to_rx(row: &Row, cx: usize) -> (rx: usize)
    requires
        row.wf(),
        cx <= row.chars@.len(),
    ensures
        rx == rx_after(row.chars@, cx as int),
        rx <= MAX_RENDER,
{
    let mut rx: usize = 0;
    let mut j: usize = 0;
    while j < cx
        invariant
            j <= cx <= row.chars@.len() <= MAX_ROW_LEN,
            rx == rx_after(row.chars@, j as int),
            rx <= TAB_STOP * j,
        decreases cx - j,
    {
        if row.chars[j] == 9 {
            rx = rx + (TAB_STOP - rx % TAB_STOP);
        } else {
            rx = rx + 1;
        }
        j = j + 1;
    }
    proof {
        lemma_rx_after_bounds(row.chars@, cx as int);
    }
    rx
}

} // verus!
