//! Parsing the terminal's cursor-position report.
//!
//! When the window size cannot be queried directly, the editor asks the
//! terminal for the cursor position after moving it to the bottom-right
//! corner. The terminal answers `ESC [ rows ; cols R`. The parser accepts
//! exactly that frame and reads each field as a decimal number, yielding
//! zero for a field that is empty, not numeric, or too large to hold.

use vstd::prelude::*;

verus! {

/// A decimal digit byte.
pub open spec fn is_digit(b: u8) -> bool {
    48 <= b <= 57
}

/// Every byte of the sequence is a decimal digit.
pub open spec fn all_digits(s: Seq<u8>) -> bool {
    forall|i: int| 0 <= i < s.len() ==> is_digit(s[i])
}

/// The number the digit bytes spell, most significant first.
pub open spec fn digits_val(s: Seq<u8>) -> int
    decreases s.len(),
{
    if s.len() == 0 {
        0
    } else {
        digits_val(s.drop_last()) * 10 + (s.last() - 48)
    }
}

/// A field parses to its numeric value when it is a non-empty run of digits
/// whose value fits the machine word, and to zero otherwise.
pub open spec fn parse_num_spec(s: Seq<u8>) -> int {
    if s.len() >= 1 && all_digits(s) && digits_val(s) <= usize::MAX {
        digits_val(s)
    } else {
        0
    }
}

/// The index of the first semicolon at or after `from`, or the sequence's
/// length when there is none.
pub open spec fn find_semi(s: Seq<u8>, from: int) -> int
    decreases s.len() - from,
{
    if from < 0 || from >= s.len() {
        s.len() as int
    } else if s[from] == 59 {
        from
    } else {
        find_semi(s, from + 1)
    }
}

/// The report's frame: it starts with `ESC [` and ends with `R`.
pub open spec fn report_wf(s: Seq<u8>) -> bool {
    s.len() >= 3 && s[0] == 27 && s[1] == 91 && s.last() == 82
}

/// What a cursor-position report means: nothing when the frame is wrong;
/// otherwise the two fields between the frame bytes, split at the first
/// semicolon, each read as a decimal number. A missing second field is
/// zero, as is a field that is empty, not numeric, or too large.
pub open spec fn cursor_report_spec(s: Seq<u8>) -> Option<(int, int)> {
    if !report_wf(s) {
        None
    } else {
        let inner = s.subrange(2, s.len() - 1);
        let k = find_semi(inner, 0);
        let rows = parse_num_spec(inner.take(k));
        let cols = if k < inner.len() {
            parse_num_spec(inner.subrange(k + 1, find_semi(inner, k + 1)))
        } else {
            0
        };
        Some((rows, cols))
    }
}

/// The value a run of digits spells is never negative.
pub proof fn lemma_digits_val_nonneg(s: Seq<u8>)
    requires
        all_digits(s),
    ensures
        digits_val(s) >= 0,
    decreases s.len(),
{
    if s.len() > 0 {
        assert(all_digits(s.drop_last()));
        lemma_digits_val_nonneg(s.drop_last());
    }
}

/// A prefix of a run of digits spells a value no greater than the whole.
pub proof fn lemma_digits_val_prefix_le(s: Seq<u8>, k: int)
    requires
        all_digits(s),
        0 <= k <= s.len(),
    ensures
        digits_val(s.take(k)) <= digits_val(s),
    decreases s.len(),
{
    if k == s.len() {
        assert(s.take(k) =~= s);
    } else {
        assert(all_digits(s.drop_last()));
        assert(s.take(k) =~= s.drop_last().take(k));
        lemma_digits_val_prefix_le(s.drop_last(), k);
        lemma_digits_val_nonneg(s.drop_last());
    }
}

/// When no semicolon stands in `[from, idx)` and `idx` is a semicolon or
/// the end, the first semicolon search lands on `idx`.
proof fn lemma_find_semi_at(s: Seq<u8>, from: int, idx: int)
    requires
        0 <= from <= idx <= s.len(),
        forall|j: int| from <= j < idx ==> s[j] != 59,
        idx == s.len() || s[idx] == 59,
    ensures
        find_semi(s, from) == idx,
    decreases idx - from,
{
    if from < idx {
        lemma_find_semi_at(s, from + 1, idx);
    }
}

/// Read the decimal number in `buf[start..end]`, or zero when the range is
/// empty, holds a non-digit, or spells a value too large for the machine.
fn parse_num(buf: &Vec<u8>, start: usize, end: usize) -> (n: usize)
    requires
        start <= end <= buf@.len(),
    ensures
        n as int == parse_num_spec(buf@.subrange(start as int, end as int)),
{
    let ghost field = buf@.subrange(start as int, end as int);
    if start == end {
        return 0;
    }
    let mut i: usize = start;
    while i < end
        invariant
            start <= i <= end <= buf@.len(),
            forall|j: int| 0 <= j < i - start ==> is_digit(field[j]),
            field == buf@.subrange(start as int, end as int),
        decreases end - i,
    {
        let b = buf[i];
        if b < 48 || b > 57 {
            assert(!is_digit(field[i - start]));
            return 0;
        }
        i = i + 1;
    }
    assert(all_digits(field));
    let mut val: usize = 0;
    let mut j: usize = start;
    while j < end
        invariant
            start <= j <= end <= buf@.len(),
            all_digits(field),
            field == buf@.subrange(start as int, end as int),
            val as int == digits_val(field.take(j - start)),
        decreases end - j,
    {
        let ghost pre = field.take(j - start);
        let ghost nxt = field.take(j - start + 1);
        proof {
            assert(nxt.drop_last() =~= pre);
            assert(nxt.last() == field[j - start]);
        }
        let d = buf[j] - 48;
        let scaled = match val.checked_mul(10) {
            Some(v) => v,
            None => {
                proof {
                    lemma_digits_val_nonneg(pre);
                    assert(digits_val(nxt) > usize::MAX);
                    lemma_digits_val_prefix_le(field, j - start + 1);
                }
                return 0;
            },
        };
        val = match scaled.checked_add(d as usize) {
            Some(v) => v,
            None => {
                proof {
                    assert(digits_val(nxt) > usize::MAX);
                    lemma_digits_val_prefix_le(field, j - start + 1);
                }
                return 0;
            },
        };
        j = j + 1;
    }
    proof {
        assert(field.take(end - start) =~= field);
    }
    val
}

/// Parse a whole cursor-position report into its row and column numbers.
pub fn parse_cursor_report(buf: &Vec<u8>) -> (r: Option<(usize, usize)>)
    ensures
        (match r {
            Some(rc) => cursor_report_spec(buf@) == Some((rc.0 as int, rc.1 as int)),
            None => cursor_report_spec(buf@) == None::<(int, int)>,
        }),
{
    if buf.len() < 3 {
        return None;
    }
    if buf[0] != 27 || buf[1] != 91 || buf[buf.len() - 1] != 82 {
        return None;
    }
    let ghost inner = buf@.subrange(2, buf@.len() - 1);
    let inner_end = buf.len() - 1;
    let mut k: usize = 2;
    while k < inner_end && buf[k] != 59
        invariant
            2 <= k <= inner_end == buf@.len() - 1,
            3 <= buf@.len(),
            forall|j: int| 2 <= j < k ==> buf@[j] != 59,
        decreases inner_end - k,
    {
        k = k + 1;
    }
    proof {
        assert(inner.len() == buf@.len() - 3);
        assert(forall|j: int| 0 <= j < k - 2 ==> inner[j] == buf@[j + 2]);
        lemma_find_semi_at(inner, 0, k - 2);
        assert(inner.take(k - 2) =~= buf@.subrange(2, k as int));
    }
    let rows = parse_num(buf, 2, k);
    let cols = if k < inner_end {
        let mut k2: usize = k + 1;
        while k2 < inner_end && buf[k2] != 59
            invariant
                k + 1 <= k2 <= inner_end == buf@.len() - 1,
                3 <= buf@.len(),
                forall|j: int| k + 1 <= j < k2 ==> buf@[j] != 59,
            decreases inner_end - k2,
        {
            k2 = k2 + 1;
        }
        proof {
            assert(forall|j: int| 0 <= j < inner.len() ==> inner[j] == buf@[j + 2]);
            lemma_find_semi_at(inner, k - 2 + 1, k2 - 2);
            assert(inner.subrange(k - 2 + 1, k2 - 2) =~= buf@.subrange(k + 1, k2 as int));
        }
        parse_num(buf, k + 1, k2)
    } else {
        0
    };
    Some((rows, cols))
}

} // verus!
