use vstd::prelude::*;

use crate::errors::Error;
use crate::errors::Result;
use crate::strutil::all_digits;
use crate::strutil::chars_of;
use crate::strutil::digits_value;
use crate::strutil::parse_usize;
use crate::strutil::split_char;
use crate::strutil::split_spec;
use crate::strutil::trim_chars;
use crate::strutil::trim_spec;

verus! {

/// Whether one side of a range selector is a usable number: nonempty after
/// trimming, all digits, and small enough for the machine.
pub open spec fn range_part_ok(p: Seq<char>) -> bool {
    &&& trim_spec(p).len() > 0
    &&& all_digits(trim_spec(p))
    &&& digits_value(trim_spec(p)) <= usize::MAX as int
}

/// Parses a `start-end` range selector: two dash-separated numbers, spaces
/// tolerated, one-based, with `start >= 1` and `end >= start`. Every other
/// shape is rejected, each for its own stated reason.
pub fn parse_range_input(input: &str) -> (r: Result<(usize, usize)>)
    ensures
        ({
            let parts = split_spec(trim_spec(input@), '-');
            match r {
                Ok((a, b)) => {
                    &&& parts.len() == 2
                    &&& range_part_ok(parts[0])
                    &&& range_part_ok(parts[1])
                    &&& digits_value(trim_spec(parts[0])) == a as int
                    &&& digits_value(trim_spec(parts[1])) == b as int
                    &&& 1 <= a <= b
                },
                Err(e) => e matches Error::InputValidation(m) && (if parts.len() != 2 {
                    m@ == "Invalid range format. Use format like '5-11'"@
                } else if !range_part_ok(parts[0]) {
                    m@ == "Invalid start number in range"@
                } else if !range_part_ok(parts[1]) {
                    m@ == "Invalid end number in range"@
                } else if digits_value(trim_spec(parts[0])) < 1 {
                    m@ == "Start position must be 1 or greater"@
                } else {
                    digits_value(trim_spec(parts[1])) < digits_value(trim_spec(parts[0]))
                        && m@ == "End position must be greater than or equal to start position"@
                }),
            }
        }),
{
    let chars = chars_of(input);
    let trimmed = trim_chars(&chars);
    let parts = split_char(&trimmed, '-');
    if parts.len() != 2 {
        return Err(
            Error::InputValidation(String::from_str("Invalid range format. Use format like '5-11'")),
        );
    }
    let part0 = trim_chars(&parts[0]);
    let part1 = trim_chars(&parts[1]);
    let start = match parse_usize(&part0) {
        Some(v) => v,
        None => {
            return Err(Error::InputValidation(String::from_str("Invalid start number in range")));
        },
    };
    let end = match parse_usize(&part1) {
        Some(v) => v,
        None => {
            return Err(Error::InputValidation(String::from_str("Invalid end number in range")));
        },
    };
    if start < 1 {
        return Err(
            Error::InputValidation(String::from_str("Start position must be 1 or greater")),
        );
    }
    if end < start {
        return Err(
            Error::InputValidation(
                String::from_str("End position must be greater than or equal to start position"),
            ),
        );
    }
    Ok((start, end))
}

/// Turns a one-based, inclusive range into zero-based indices into a chain
/// of `n` commits, rejecting a range that reaches past the chain.
pub fn select_range_bounds(start: usize, end: usize, n: usize) -> (r: Result<(usize, usize)>)
    requires
        1 <= start <= end,
    ensures
        match r {
            Ok((s0, e0)) => end <= n && s0 == start - 1 && e0 == end - 1,
            Err(e) => (start > n || end > n) && (e matches Error::InputValidation(m) && m@
                == "Range out of bounds"@),
        },
{
    if start > n || end > n {
        return Err(Error::InputValidation(String::from_str("Range out of bounds")));
    }
    Ok((start - 1, end - 1))
}

/// Parses the operator's commit pick: a one-based number no larger than the
/// chain's length, returned zero-based.
pub fn select_commit_index(input: &str, n: usize) -> (r: Result<usize>)
    ensures
        ({
            let p = trim_spec(input@);
            match r {
                Ok(i) => {
                    &&& p.len() > 0
                    &&& all_digits(p)
                    &&& digits_value(p) == i + 1
                    &&& i < n
                },
                Err(e) => e matches Error::InputValidation(m) && (if !(p.len() > 0 && all_digits(
                    p,
                ) && digits_value(p) <= usize::MAX as int) {
                    m@ == "Invalid number"@
                } else {
                    (digits_value(p) < 1 || digits_value(p) > n as int) && m@
                        == "Selection out of range"@
                }),
            }
        }),
{
    let chars = chars_of(input);
    let trimmed = trim_chars(&chars);
    let selection = match parse_usize(&trimmed) {
        Some(v) => v,
        None => {
            return Err(Error::InputValidation(String::from_str("Invalid number")));
        },
    };
    if selection < 1 || selection > n {
        return Err(Error::InputValidation(String::from_str("Selection out of range")));
    }
    Ok(selection - 1)
}

/// The numbers hidden in a comma-separated selection list: each piece that
/// trims to a plain number contributes its value, anything else is skipped.
pub open spec fn selections_of_parts(parts: Seq<Seq<char>>) -> Seq<usize>
    decreases parts.len(),
{
    if parts.len() == 0 {
        Seq::empty()
    } else {
        let rest = selections_of_parts(parts.drop_last());
        let p = trim_spec(parts.last());
        if p.len() > 0 && all_digits(p) && digits_value(p) <= usize::MAX as int {
            rest.push(digits_value(p) as usize)
        } else {
            rest
        }
    }
}

/// Reads a comma-separated list of menu picks, keeping the well-formed
/// numbers in order and dropping the rest.
pub fn parse_option_selections(input: &str) -> (r: Vec<usize>)
    ensures
        r@ == selections_of_parts(split_spec(trim_spec(input@), ',')),
{
    let chars = chars_of(input);
    let trimmed = trim_chars(&chars);
    let parts = split_char(&trimmed, ',');
    let ghost parts_model = split_spec(trim_spec(input@), ',');
    let mut r: Vec<usize> = Vec::new();
    let n = parts.len();
    let mut i: usize = 0;
    proof {
        assert(parts_model.take(0) =~= Seq::<Seq<char>>::empty());
    }
    while i < n
        invariant
            n == parts@.len(),
            parts_model.len() == n,
            forall|j: int| 0 <= j < n ==> parts@[j]@ == parts_model[j],
            i <= n,
            r@ == selections_of_parts(parts_model.take(i as int)),
        decreases n - i,
    {
        let p = trim_chars(&parts[i]);
        match parse_usize(&p) {
            Some(v) => {
                r.push(v);
            },
            None => {},
        }
        i = i + 1;
        proof {
            let taken = parts_model.take(i as int);
            assert(taken.drop_last() =~= parts_model.take(i as int - 1));
            assert(taken.last() == parts_model[i as int - 1]);
        }
    }
    proof {
        assert(parts_model.take(n as int) =~= parts_model);
    }
    r
}

} // verus!
