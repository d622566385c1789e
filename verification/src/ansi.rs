//! The escape sequences the runtime speaks: the cursor-position request it
//! sends, the cursor-position report it reads back, and the cursor-home
//! prefix it writes before every rendered frame.

use vstd::prelude::*;
use crate::keycode::digit_run_end;
use crate::keycode::spec_csi_len;
use crate::keycode::spec_is_digit;

verus! {

/// The Device Status Report request `ESC [ 6 n` asking the terminal for the
/// cursor position.
pub fn cpr_request() -> (r: Vec<u8>)
    ensures
        r@ == seq![0x1bu8, 0x5bu8, 0x36u8, 0x6eu8],
{
    let mut v: Vec<u8> = Vec::new();
    v.push(0x1b);
    v.push(0x5b);
    v.push(0x36);
    v.push(0x6e);
    proof {
        assert(v@ =~= seq![0x1bu8, 0x5bu8, 0x36u8, 0x6eu8]);
    }
    v
}

/// The decimal digits of `n`, most significant first.
pub open spec fn spec_dec_digits(n: nat) -> Seq<u8>
    decreases n,
{
    if n < 10 {
        seq![(0x30 + n) as u8]
    } else {
        spec_dec_digits(n / 10) + seq![(0x30 + n % 10) as u8]
    }
}

/// Renders `n` in decimal.
pub fn format_decimal(n: u64) -> (r: Vec<u8>)
    ensures
        r@ == spec_dec_digits(n as nat),
    decreases n,
{
    if n < 10 {
        let mut v: Vec<u8> = Vec::new();
        v.push(0x30 + (n as u8));
        proof {
            assert(v@ =~= spec_dec_digits(n as nat));
        }
        v
    } else {
        let mut v = format_decimal(n / 10);
        v.push(0x30 + ((n % 10) as u8));
        proof {
            assert(v@ =~= spec_dec_digits((n / 10) as nat) + seq![(0x30 + n % 10) as u8]);
        }
        v
    }
}

/// The cursor-positioning escape `ESC [ <row> ; <col> H` for a home
/// position.
pub open spec fn spec_home_escape(home: (isize, isize)) -> Seq<u8> {
    seq![0x1bu8, 0x5bu8] + spec_dec_digits(home.0 as nat) + seq![0x3bu8] + spec_dec_digits(
        home.1 as nat,
    ) + seq![0x48u8]
}

/// Renders the cursor-positioning escape for a home position.
pub fn cursor_home_escape(home: (isize, isize)) -> (r: Vec<u8>)
    requires
        home.0 >= 0,
        home.1 >= 0,
    ensures
        r@ == spec_home_escape(home),
{
    let mut v: Vec<u8> = Vec::new();
    v.push(0x1b);
    v.push(0x5b);
    let mut row = format_decimal(home.0 as u64);
    v.append(&mut row);
    v.push(0x3b);
    let mut col = format_decimal(home.1 as u64);
    v.append(&mut col);
    v.push(0x48);
    proof {
        assert(v@ =~= spec_home_escape(home));
    }
    v
}

/// The numeric value of a run of decimal digit bytes.
pub open spec fn spec_dec_value(s: Seq<u8>) -> int
    decreases s.len(),
{
    if s.len() == 0 {
        0
    } else {
        spec_dec_value(s.drop_last()) * 10 + (s.last() - 0x30)
    }
}

/// The row and column a complete cursor-position report carries: defined
/// exactly when the byte sequence begins with the full
/// `ESC [ <digits> ; <digits> R` pattern.
pub open spec fn spec_cpr(s: Seq<u8>) -> Option<(int, int)> {
    if s.len() > 0 && s[0] == 0x1b {
        match spec_csi_len(s) {
            Some(n) => {
                let i = digit_run_end(s, 2);
                let j = digit_run_end(s, i + 1);
                Some((spec_dec_value(s.subrange(2, i)), spec_dec_value(s.subrange(i + 1, j))))
            },
            None => None,
        }
    } else {
        None
    }
}

/// Parses the decimal run `s[from..to]` into a `u64`; `None` exactly when
/// the value does not fit.
fn parse_decimal(s: &Vec<u8>, from: usize, to: usize) -> (r: Option<u64>)
    requires
        from <= to <= s@.len(),
        forall|k: int| from <= k < to ==> spec_is_digit(#[trigger] s@[k]),
    ensures
        match r {
            Some(v) => v as int == spec_dec_value(s@.subrange(from as int, to as int)),
            None => spec_dec_value(s@.subrange(from as int, to as int)) > u64::MAX,
        },
{
    let mut acc: u64 = 0;
    let mut k = from;
    while k < to
        invariant
            from <= k <= to <= s@.len(),
            forall|i: int| from <= i < to ==> spec_is_digit(#[trigger] s@[i]),
            acc as int == spec_dec_value(s@.subrange(from as int, k as int)),
        decreases to - k,
    {
        let d = s[k] - 0x30;
        if acc > u64::MAX / 10 || (acc == u64::MAX / 10 && d > 5) {
            proof {
                lemma_dec_value_grows(s@, from as int, k as int + 1, to as int);
                assert(s@.subrange(from as int, k as int + 1).drop_last() =~= s@.subrange(
                    from as int,
                    k as int,
                ));
            }
            return None;
        }
        acc = acc * 10 + (d as u64);
        k = k + 1;
        proof {
            assert(s@.subrange(from as int, k as int).drop_last() =~= s@.subrange(
                from as int,
                k as int - 1,
            ));
        }
    }
    proof {
        assert(s@.subrange(from as int, to as int) =~= s@.subrange(from as int, k as int));
    }
    Some(acc)
}

/// A decimal value never shrinks as digits are appended: the value of the
/// whole run is at least the value of any prefix.
proof fn lemma_dec_value_grows(s: Seq<u8>, from: int, mid: int, to: int)
    requires
        0 <= from <= mid <= to <= s.len(),
        forall|k: int| from <= k < to ==> spec_is_digit(#[trigger] s[k]),
    ensures
        spec_dec_value(s.subrange(from, to)) >= spec_dec_value(s.subrange(from, mid)),
        spec_dec_value(s.subrange(from, mid)) >= 0,
    decreases to - mid,
{
    lemma_dec_value_nonneg(s.subrange(from, mid));
    if mid < to {
        lemma_dec_value_grows(s, from, mid + 1, to);
        lemma_dec_value_nonneg(s.subrange(from, mid + 1));
        assert(s.subrange(from, mid + 1).drop_last() =~= s.subrange(from, mid));
    }
}

/// The value of a digit run is never negative.
proof fn lemma_dec_value_nonneg(s: Seq<u8>)
    ensures
        (forall|k: int| 0 <= k < s.len() ==> spec_is_digit(#[trigger] s[k])) ==> spec_dec_value(s)
            >= 0,
    decreases s.len(),
{
    if s.len() > 0 {
        lemma_dec_value_nonneg(s.drop_last());
        assert(forall|k: int| 0 <= k < s.drop_last().len() ==> s.drop_last()[k] == s[k]);
    }
}

/// Extracts the row and column from a cursor-position report at the front
/// of `report`: the exact values when the full pattern is present and both
/// fit, `None` otherwise.
pub fn parse_cursor_report(report: &Vec<u8>) -> (r: Option<(u64, u64)>)
    ensures
        match r {
            Some((row, col)) => {
                &&& spec_cpr(report@) matches Some(rc) && rc.0 == row as int && rc.1 == col as int
            },
            None => match spec_cpr(report@) {
                Some(rc) => rc.0 > u64::MAX || rc.1 > u64::MAX,
                None => true,
            },
        },
{
    if report.len() == 0 || report[0] != 0x1b {
        return None;
    }
    if report.len() < 2 || report[1] != 0x5b {
        return None;
    }
    let i = digit_scan_vec(report, 2);
    if i >= report.len() || report[i] != 0x3b {
        return None;
    }
    let j = digit_scan_vec(report, i + 1);
    if j >= report.len() || report[j] != 0x52 {
        return None;
    }
    proof {
        lemma_digit_run_is_digits(report@, 2);
        lemma_digit_run_is_digits(report@, i as int + 1);
    }
    let row = match parse_decimal(report, 2, i) {
        Some(v) => v,
        None => {
            return None;
        },
    };
    let col = match parse_decimal(report, i + 1, j) {
        Some(v) => v,
        None => {
            return None;
        },
    };
    Some((row, col))
}

/// Every byte strictly before the end of a digit run is a digit.
proof fn lemma_digit_run_is_digits(s: Seq<u8>, from: int)
    requires
        0 <= from <= s.len(),
    ensures
        forall|k: int| from <= k < digit_run_end(s, from) ==> spec_is_digit(#[trigger] s[k]),
        from <= digit_run_end(s, from) <= s.len(),
    decreases s.len() - from,
{
    if from < s.len() && spec_is_digit(s[from]) {
        lemma_digit_run_is_digits(s, from + 1);
    }
}

/// Index of the first non-digit byte of `s` at or after `from`.
fn digit_scan_vec(s: &Vec<u8>, from: usize) -> (r: usize)
    requires
        from <= s@.len(),
    ensures
        r as int == digit_run_end(s@, from as int),
        from <= r <= s@.len(),
{
    let mut i = from;
    loop
        invariant
            from <= i <= s@.len(),
            digit_run_end(s@, from as int) == digit_run_end(s@, i as int),
        ensures
            from <= i <= s@.len(),
            i as int == digit_run_end(s@, from as int),
        decreases s@.len() - i,
    {
        if i >= s.len() {
            break;
        }
        let ch = s[i];
        if !(0x30 <= ch && ch <= 0x39) {
            break;
        }
        i = i + 1;
    }
    i
}

} // verus!
