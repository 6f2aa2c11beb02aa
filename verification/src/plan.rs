//! Going through a manga's chapter listing page by page.
//!
//! The listing is fetched `limit` chapters at a time, starting at `start`.
//! Either each page of the listing becomes a book of its own, named after the
//! page's number, or, in single mode, the first page becomes the one book.

use crate::text::{render_signed, signed_decimal};
use vstd::prelude::*;

verus! {

/// What to do before the next page of the listing is fetched.
#[derive(Clone, Copy, Debug, PartialEq, Eq, Structural)]
pub enum Step {
    /// Fetch the page that starts at the current position.
    Fetch,
    /// Stop. With `save`, write the book first.
    Stop { save: bool },
}

/// The step to take when `total` chapters are known of (0 before the first
/// page), the next page starts at `start`, chapters from `end` on are not
/// wanted, and `single` tells whether one book is made. The listing is done
/// once the position has passed a known total; a position at or past the end
/// stops without a book.
pub open spec fn planned_step(total: int, start: int, end: Option<int>, single: bool) -> Step {
    if total != 0 && start > total {
        Step::Stop { save: single }
    } else if end matches Some(e) && e <= start {
        Step::Stop { save: false }
    } else {
        Step::Fetch
    }
}

/// `a` divided by `b`, rounded toward zero.
pub open spec fn quotient(a: int, b: int) -> int
    recommends
        b != 0,
{
    if a >= 0 && b > 0 {
        a / b
    } else if a < 0 && b < 0 {
        (-a) / (-b)
    } else if a >= 0 {
        -(a / (-b))
    } else {
        -((-a) / b)
    }
}

/// The name of the book made of the page that starts at `start`: `File_`,
/// the page's number, `_`, and the name the user asked for.
pub open spec fn page_file_name(start: int, limit: int, output_path: Seq<char>) -> Seq<char> {
    "File_"@ + signed_decimal(quotient(start, limit)) + "_"@ + output_path
}

/// Decides the step to take before the next page is fetched.
pub fn next_step(total: i32, start: i32, end: Option<i32>, single: bool) -> (step: Step)
    ensures
        step == planned_step(
            total as int,
            start as int,
            match end {
                Some(e) => Some(e as int),
                None => None,
            },
            single,
        ),
{
    if total != 0 && start > total {
        return Step::Stop { save: single };
    }
    match end {
        Some(e) => {
            if e <= start {
                return Step::Stop { save: false };
            }
        },
        None => {},
    }
    Step::Fetch
}

/// The number of the page that starts at `start`; `None` where pages hold
/// no chapters.
pub fn page_number(start: i32, limit: i32) -> (n: Option<i64>)
    ensures
        n.is_some() == (limit != 0),
        n matches Some(q) ==> q == quotient(start as int, limit as int),
{
    if limit == 0 {
        return None;
    }
    let a: u64 = if start < 0 {
        (-(start as i64)) as u64
    } else {
        start as u64
    };
    let b: u64 = if limit < 0 {
        (-(limit as i64)) as u64
    } else {
        limit as u64
    };
    let q: u64 = a / b;
    assert(q <= a) by (nonlinear_arith)
        requires
            q == a / b,
            b >= 1,
    ;
    if (start < 0) == (limit < 0) {
        Some(q as i64)
    } else {
        Some(-(q as i64))
    }
}

/// Writes the name of the book made of the page that starts at `start`;
/// `None` where pages hold no chapters.
pub fn batch_file_name(start: i32, limit: i32, output_path: &str) -> (name: Option<String>)
    ensures
        name.is_some() == (limit != 0),
        name matches Some(n) ==> n@ == page_file_name(start as int, limit as int, output_path@),
{
    match page_number(start, limit) {
        Some(q) => {
            let mut name = String::from_str("File_");
            let digits = render_signed(q);
            name.append(digits.as_str());
            name.append("_");
            name.append(output_path);
            Some(name)
        },
        None => None,
    }
}

/// Where the page after the one at `start` starts; `None` where that is
/// beyond what a position can tell.
pub fn next_start(start: i32, limit: i32) -> (next: Option<i32>)
    ensures
        next.is_some() == (i32::MIN <= start + limit <= i32::MAX),
        next matches Some(n) ==> n == start + limit,
{
    let sum: i64 = start as i64 + limit as i64;
    if sum < -2147483648 || sum > 2147483647 {
        None
    } else {
        Some(sum as i32)
    }
}

} // verus!
