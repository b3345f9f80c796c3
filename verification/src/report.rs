//! The reporter: renders the two run-summary lines, one with the
//! count of successfully processed bookmarks and one with the count of
//! per-record failures.
use vstd::prelude::*;
use vstd::string::StringExecFns;

verus! {

/// The character for one decimal digit.
pub open spec fn digit_char(d: int) -> char {
    if d == 0 {
        '0'
    } else if d == 1 {
        '1'
    } else if d == 2 {
        '2'
    } else if d == 3 {
        '3'
    } else if d == 4 {
        '4'
    } else if d == 5 {
        '5'
    } else if d == 6 {
        '6'
    } else if d == 7 {
        '7'
    } else if d == 8 {
        '8'
    } else {
        '9'
    }
}

/// The decimal digits of `n`, most significant first, with no sign
/// and no leading zero except for `n == 0` itself.
pub open spec fn dec_digits(n: int) -> Seq<char>
    decreases n,
{
    if n < 10 {
        seq![digit_char(n)]
    } else {
        dec_digits(n / 10).push(digit_char(n % 10))
    }
}

fn digit_char_x(d: usize) -> (r: char)
    requires
        d < 10,
    ensures
        r == digit_char(d as int),
{
    if d == 0 {
        '0'
    } else if d == 1 {
        '1'
    } else if d == 2 {
        '2'
    } else if d == 3 {
        '3'
    } else if d == 4 {
        '4'
    } else if d == 5 {
        '5'
    } else if d == 6 {
        '6'
    } else if d == 7 {
        '7'
    } else if d == 8 {
        '8'
    } else {
        '9'
    }
}

fn push_decimal(n: usize, out: &mut Vec<char>)
    ensures
        final(out)@ == old(out)@ + dec_digits(n as int),
    decreases n,
{
    if n < 10 {
        out.push(digit_char_x(n));
        assert(old(out)@ + seq![digit_char(n as int)] =~= old(out)@.push(digit_char(n as int)));
    } else {
        push_decimal(n / 10, out);
        out.push(digit_char_x(n % 10));
        assert(old(out)@ + dec_digits(n as int) =~= (old(out)@ + dec_digits(n as int / 10)).push(
            digit_char(n as int % 10),
        ));
    }
}

/// The decimal rendering of a count.
pub fn count_string(n: usize) -> (r: String)
    ensures
        r@ == dec_digits(n as int),
{
    let mut digits: Vec<char> = Vec::new();
    push_decimal(n, &mut digits);
    let mut s = String::new();
    let mut idx: usize = 0;
    assert(Seq::<char>::empty() + dec_digits(n as int) =~= dec_digits(n as int));
    while idx < digits.len()
        invariant
            idx <= digits@.len(),
            s@ == digits@.take(idx as int),
        decreases digits@.len() - idx,
    {
        crate::text::push_char(&mut s, digits[idx]);
        assert(digits@.take(idx as int).push(digits@[idx as int]) =~= digits@.take(idx as int + 1));
        idx = idx + 1;
    }
    assert(digits@.take(digits@.len() as int) =~= digits@);
    s
}

/// The summary line for successes: a check mark, the count, and the
/// fixed wording.
pub open spec fn success_line(n_ok: int) -> Seq<char> {
    "\u{2713} "@ + dec_digits(n_ok) + " bookmarks successfully processed"@
}

/// The summary line for failures: a cross mark, the count, and the
/// fixed wording.
pub open spec fn error_line(n_error: int) -> Seq<char> {
    "\u{2715} "@ + dec_digits(n_error) + " bookmark processing errors "@
}

/// Renders the two summary lines of a run: how many bookmarks were
/// successfully processed and how many failed. Both lines are always
/// produced, whether or not either count is zero.
pub fn stats(n_ok: usize, n_error: usize) -> (r: (String, String))
    ensures
        r.0@ == success_line(n_ok as int),
        r.1@ == error_line(n_error as int),
{
    let mut ok_line = String::from_str("\u{2713} ");
    ok_line.append(count_string(n_ok).as_str());
    ok_line.append(" bookmarks successfully processed");
    let mut err_line = String::from_str("\u{2715} ");
    err_line.append(count_string(n_error).as_str());
    err_line.append(" bookmark processing errors ");
    (ok_line, err_line)
}

} // verus!
