//! The messages in which tasks report.

use crate::text::{number, push_number};
use vstd::prelude::*;

verus! {

/// How much of a target was reached.
pub open spec fn ratio_text(verb: Seq<char>, n: int, target: int, unit: Seq<char>) -> Seq<char> {
    verb + number(n) + "/"@ + number(target) + unit
}

/// How much of a target was reached.
pub fn ratio_message(verb: &str, n: i32, target: i32, unit: &str) -> (r: String)
    ensures
        r@ == ratio_text(verb@, n as int, target as int, unit@),
{
    let mut message = verb.to_owned();
    push_number(&mut message, n as i64);
    message.append("/");
    push_number(&mut message, target as i64);
    message.append(unit);
    message
}

/// A number in the middle of a message.
pub open spec fn count_text(before: Seq<char>, n: int, after: Seq<char>) -> Seq<char> {
    before + number(n) + after
}

/// A number in the middle of a message.
pub fn count_message(before: &str, n: i32, after: &str) -> (r: String)
    ensures
        r@ == count_text(before@, n as int, after@),
{
    let mut message = before.to_owned();
    push_number(&mut message, n as i64);
    message.append(after);
    message
}

/// A word in the middle of a message.
pub fn word_message(before: &str, word: &str, after: &str) -> (r: String)
    ensures
        r@ == before@ + word@ + after@,
{
    let mut message = before.to_owned();
    message.append(word);
    message.append(after);
    message
}

/// A report puts its numbers where they belong: the target after what was reached, with a
/// slash between.
pub proof fn law_reports_hold_their_numbers(a: Seq<char>, n: int, target: int, b: Seq<char>)
    ensures
        ratio_text(a, n, target, b) == count_text(a, n, "/"@ + count_text(Seq::empty(), target, b)),
        count_text(a, n, b) == a + (number(n) + b),
        count_text(Seq::empty(), n, Seq::empty()) == number(n),
{
    assert(ratio_text(a, n, target, b) =~= count_text(a, n, "/"@ + count_text(Seq::empty(), target, b)));
    assert(count_text(a, n, b) =~= a + (number(n) + b));
    assert(count_text(Seq::empty(), n, Seq::empty()) =~= number(n));
}

} // verus!
