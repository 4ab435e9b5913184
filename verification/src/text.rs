//! Names and messages as text: comparison, affix tests and decimal numbers.

use vstd::prelude::*;

verus! {

/// `part` occurs in `whole` as an unbroken run.
pub open spec fn occurs_in(part: Seq<char>, whole: Seq<char>) -> bool {
    exists|i: int| occurs_at(part, whole, i)
}

/// `part` occurs in `whole` starting at index `i`.
pub open spec fn occurs_at(part: Seq<char>, whole: Seq<char>, i: int) -> bool {
    0 <= i <= whole.len() - part.len() && whole.subrange(i, i + part.len()) == part
}

/// `whole` ends in `tail`.
pub open spec fn is_tail(tail: Seq<char>, whole: Seq<char>) -> bool {
    occurs_at(tail, whole, whole.len() - tail.len())
}

/// `whole` begins with `head`.
pub open spec fn is_head(head: Seq<char>, whole: Seq<char>) -> bool {
    occurs_at(head, whole, 0)
}

/// The text of one decimal digit.
pub open spec fn digit_text(d: nat) -> Seq<char> {
    if d == 0 {
        "0"@
    } else if d == 1 {
        "1"@
    } else if d == 2 {
        "2"@
    } else if d == 3 {
        "3"@
    } else if d == 4 {
        "4"@
    } else if d == 5 {
        "5"@
    } else if d == 6 {
        "6"@
    } else if d == 7 {
        "7"@
    } else if d == 8 {
        "8"@
    } else {
        "9"@
    }
}

/// The decimal text of a natural number, without leading zeros.
pub open spec fn digits(n: nat) -> Seq<char>
    decreases n,
{
    if n < 10 {
        digit_text(n)
    } else {
        digits(n / 10) + digit_text(n % 10)
    }
}

/// The decimal text of an integer, with a leading minus where it is negative.
pub open spec fn number(n: int) -> Seq<char> {
    if n < 0 {
        "-"@ + digits((-n) as nat)
    } else {
        digits(n as nat)
    }
}

/// The characters of `s`.
pub fn chars_of(s: &str) -> (r: Vec<char>)
    ensures
        r@ == s@,
{
    let mut out: Vec<char> = Vec::new();
    for c in it: s.chars()
        invariant
            out@ == it.seq().take(it.index()),
            it.seq() == s@,
    {
        out.push(c);
    }
    out
}

/// Whether `part` occurs in `whole` at index `i`.
fn matches_at(part: &Vec<char>, whole: &Vec<char>, i: usize) -> (r: bool)
    requires
        i + part@.len() <= whole@.len(),
    ensures
        r == occurs_at(part@, whole@, i as int),
{
    let mut k: usize = 0;
    while k < part.len()
        invariant
            k <= part@.len(),
            i + part.len() <= whole.len(),
            forall|j: int| 0 <= j < k ==> whole@[i + j] == part@[j],
        decreases part@.len() - k,
    {
        if whole[i + k] != part[k] {
            assert(whole@.subrange(i as int, i + part@.len())[k as int] != part@[k as int]);
            return false;
        }
        k += 1;
    }
    assert(whole@.subrange(i as int, i + part@.len()) =~= part@);
    true
}

/// Whether two texts are equal.
pub fn same(a: &str, b: &str) -> (r: bool)
    ensures
        r == (a@ == b@),
{
    let x = chars_of(a);
    let y = chars_of(b);
    if x.len() != y.len() {
        return false;
    }
    let mut k: usize = 0;
    while k < x.len()
        invariant
            k <= x@.len(),
            x@.len() == y@.len(),
            forall|j: int| 0 <= j < k ==> x@[j] == y@[j],
            x@ == a@,
            y@ == b@,
        decreases x@.len() - k,
    {
        if x[k] != y[k] {
            return false;
        }
        k += 1;
    }
    assert(x@ =~= y@);
    true
}

/// Whether `s` ends in `tail`.
pub fn ends_with(s: &str, tail: &str) -> (r: bool)
    ensures
        r == is_tail(tail@, s@),
{
    let whole = chars_of(s);
    let part = chars_of(tail);
    if part.len() > whole.len() {
        false
    } else {
        matches_at(&part, &whole, whole.len() - part.len())
    }
}

/// Whether `s` begins with `head`.
pub fn starts_with(s: &str, head: &str) -> (r: bool)
    ensures
        r == is_head(head@, s@),
{
    let whole = chars_of(s);
    let part = chars_of(head);
    if part.len() > whole.len() {
        false
    } else {
        matches_at(&part, &whole, 0)
    }
}

/// Whether `part` occurs in `s`.
pub fn contains(s: &str, part: &str) -> (r: bool)
    ensures
        r == occurs_in(part@, s@),
{
    let whole = chars_of(s);
    let needle = chars_of(part);
    if needle.len() > whole.len() {
        return false;
    }
    let last: usize = whole.len() - needle.len();
    let mut i: usize = 0;
    while i < last
        invariant
            i <= last,
            last == whole@.len() - needle@.len(),
            whole@ == s@,
            needle@ == part@,
            forall|j: int| 0 <= j < i ==> !occurs_at(needle@, whole@, j),
        decreases last - i,
    {
        if matches_at(&needle, &whole, i) {
            return true;
        }
        i += 1;
    }
    matches_at(&needle, &whole, last)
}

fn push_digit(out: &mut String, d: u64)
    requires
        d < 10,
    ensures
        final(out)@ == old(out)@ + digit_text(d as nat),
{
    if d == 0 {
        out.append("0");
    } else if d == 1 {
        out.append("1");
    } else if d == 2 {
        out.append("2");
    } else if d == 3 {
        out.append("3");
    } else if d == 4 {
        out.append("4");
    } else if d == 5 {
        out.append("5");
    } else if d == 6 {
        out.append("6");
    } else if d == 7 {
        out.append("7");
    } else if d == 8 {
        out.append("8");
    } else {
        out.append("9");
    }
}

/// Appends the decimal text of `n`.
fn push_digits(out: &mut String, n: u64)
    ensures
        final(out)@ == old(out)@ + digits(n as nat),
    decreases n,
{
    if n < 10 {
        push_digit(out, n);
    } else {
        push_digits(out, n / 10);
        push_digit(out, n % 10);
        assert(final(out)@ =~= old(out)@ + digits(n as nat));
    }
}

/// Appends the decimal text of `n`.
pub fn push_number(out: &mut String, n: i64)
    ensures
        final(out)@ == old(out)@ + number(n as int),
{
    if n < 0 {
        out.append("-");
        let magnitude: u64 = (-(n as i128)) as u64;
        push_digits(out, magnitude);
        assert(final(out)@ =~= old(out)@ + number(n as int));
    } else {
        push_digits(out, n as u64);
    }
}

/// `s` with each occurrence of `part` replaced by `with`, from the left on.
pub open spec fn replaced(s: Seq<char>, part: Seq<char>, with: Seq<char>) -> Seq<char>
    decreases s.len(),
{
    if part.len() == 0 || s.len() < part.len() {
        s
    } else if occurs_at(part, s, 0) {
        with + replaced(s.skip(part.len() as int), part, with)
    } else {
        s.take(1) + replaced(s.skip(1), part, with)
    }
}

/// `s` with each occurrence of `part` replaced by `with`, from the left on.
pub fn replace_all(s: &str, part: &str, with: &str) -> (r: String)
    requires
        part@.len() > 0,
    ensures
        r@ == replaced(s@, part@, with@),
{
    let whole = chars_of(s);
    let needle = chars_of(part);
    let mut out = String::new();
    let mut i: usize = 0;
    assert(s@.skip(0) =~= s@);
    assert(out@ + replaced(s@.skip(0), part@, with@) =~= replaced(s@, part@, with@));
    while i < whole.len() && whole.len() - i >= needle.len()
        invariant
            i <= whole@.len(),
            whole@ == s@,
            needle@ == part@,
            part@.len() > 0,
            out@ + replaced(s@.skip(i as int), part@, with@) == replaced(s@, part@, with@),
        decreases whole@.len() - i,
    {
        let ghost rest = s@.skip(i as int);
        let ghost before = out@;
        let ghost at = i as int;
        assert(rest.subrange(0, part@.len() as int) =~= s@.subrange(at, at + part@.len()));
        if matches_at(&needle, &whole, i) {
            out.append(with);
            i = i + needle.len();
            proof {
                assert(s@.skip(i as int) =~= rest.skip(part@.len() as int));
                assert(out@ + replaced(s@.skip(i as int), part@, with@) =~= before + replaced(
                    rest,
                    part@,
                    with@,
                ));
            }
        } else {
            let piece = s.substring_char(i, i + 1);
            out.append(piece);
            i = i + 1;
            proof {
                assert(piece@ =~= rest.take(1));
                assert(s@.skip(i as int) =~= rest.skip(1));
                assert(out@ + replaced(s@.skip(i as int), part@, with@) =~= before + replaced(
                    rest,
                    part@,
                    with@,
                ));
            }
        }
    }
    if i < whole.len() {
        let piece = s.substring_char(i, whole.len());
        out.append(piece);
        assert(piece@ =~= s@.skip(i as int));
    } else {
        assert(s@.skip(i as int) =~= Seq::empty());
        assert(out@ + s@.skip(i as int) =~= out@);
    }
    out
}

/// A part occurs in a text exactly if the text is the part with something before and after it,
/// which may be nothing.
pub proof fn law_occurring_means_being_inside(part: Seq<char>, before: Seq<char>, after: Seq<char>, whole: Seq<char>)
    ensures
        occurs_in(part, before + part + after),
        is_head(part, part + after),
        is_tail(part, before + part),
        occurs_in(part, whole) ==> exists|b: Seq<char>, a: Seq<char>| whole == #[trigger] (b + part + a),
        is_head(part, whole) ==> exists|a: Seq<char>| whole == #[trigger] (part + a),
        is_tail(part, whole) ==> exists|b: Seq<char>| whole == #[trigger] (b + part),
{
    let s = before + part + after;
    assert(s.subrange(before.len() as int, (before.len() + part.len()) as int) =~= part);
    assert(occurs_at(part, s, before.len() as int));
    assert((part + after).subrange(0, part.len() as int) =~= part);
    assert((before + part).subrange(before.len() as int, (before.len() + part.len()) as int) =~= part);
    if occurs_in(part, whole) {
        let i = choose|i: int| occurs_at(part, whole, i);
        let (b, a) = (whole.take(i), whole.skip(i + part.len()));
        assert(whole =~= b + part + a) by {
            assert forall|k: int| i <= k < i + part.len() implies whole[k] == part[k - i] by {
                assert(whole.subrange(i, i + part.len())[k - i] == whole[k]);
            }
        }
    }
    if is_head(part, whole) {
        let a = whole.skip(part.len() as int);
        assert(whole =~= part + a) by {
            assert forall|k: int| 0 <= k < part.len() implies whole[k] == part[k] by {
                assert(whole.subrange(0, part.len() as int)[k] == whole[k]);
            }
        }
    }
    if is_tail(part, whole) {
        let i = whole.len() - part.len();
        let b = whole.take(i);
        assert(whole =~= b + part) by {
            assert forall|k: int| i <= k < whole.len() implies whole[k] == part[k - i] by {
                assert(whole.subrange(i, i + part.len())[k - i] == whole[k]);
            }
        }
    }
}

/// What a digit stands for.
pub open spec fn digit_value(c: char) -> int {
    c as int - '0' as int
}

/// What a text of digits stands for.
pub open spec fn value_of(s: Seq<char>) -> int
    decreases s.len(),
{
    if s.len() == 0 {
        0
    } else {
        10 * value_of(s.drop_last()) + digit_value(s.last())
    }
}

proof fn lemma_digit_text(d: nat)
    requires
        d < 10,
    ensures
        digit_text(d).len() == 1,
        digit_value(digit_text(d)[0]) == d,
{
    reveal_strlit("0");
    reveal_strlit("1");
    reveal_strlit("2");
    reveal_strlit("3");
    reveal_strlit("4");
    reveal_strlit("5");
    reveal_strlit("6");
    reveal_strlit("7");
    reveal_strlit("8");
    reveal_strlit("9");
}

/// The text of a number reads as that number, and begins with no needless zero.
pub proof fn law_numbers_read_back(n: nat)
    ensures
        value_of(digits(n)) == n,
        digits(n).len() > 0,
        n > 0 ==> digits(n)[0] != '0',
    decreases n,
{
    if n < 10 {
        lemma_digit_text(n);
        let s = digits(n);
        assert(s.drop_last() =~= Seq::empty());
        assert(value_of(s.drop_last()) == 0);
    } else {
        law_numbers_read_back(n / 10);
        lemma_digit_text(n % 10);
        let s = digits(n);
        assert(s.drop_last() =~= digits(n / 10));
        assert(s.last() == digit_text(n % 10)[0]);
        assert(s[0] == digits(n / 10)[0]);
    }
}

/// A negative number is written as a minus and its magnitude, any other without a sign.
pub proof fn law_signs_are_written(n: int)
    ensures
        n < 0 ==> number(n) == "-"@ + number(-n),
        n >= 0 ==> value_of(number(n)) == n,
{
    if n >= 0 {
        law_numbers_read_back(n as nat);
    }
}

/// A text without the part stays as it is, and what replaces the part stands where the first
/// occurrence was.
pub proof fn law_replacing_goes_left_to_right(s: Seq<char>, part: Seq<char>, with: Seq<char>)
    requires
        part.len() > 0,
    ensures
        !occurs_in(part, s) ==> replaced(s, part, with) == s,
        is_head(part, s) ==> replaced(s, part, with) == with + replaced(s.skip(part.len() as int), part, with),
        s.len() >= part.len() && !is_head(part, s) ==> replaced(s, part, with) == seq![s[0]] + replaced(
            s.skip(1),
            part,
            with,
        ),
    decreases s.len(),
{
    if s.len() >= part.len() {
        if !is_head(part, s) {
            assert(s.take(1) =~= seq![s[0]]);
            law_replacing_goes_left_to_right(s.skip(1), part, with);
            if !occurs_in(part, s) {
                assert(!occurs_in(part, s.skip(1))) by {
                    if occurs_in(part, s.skip(1)) {
                        let i = choose|i: int| occurs_at(part, s.skip(1), i);
                        assert(s.skip(1).subrange(i, i + part.len()) =~= s.subrange(
                            i + 1,
                            i + 1 + part.len(),
                        ));
                        assert(occurs_at(part, s, i + 1));
                    }
                }
                assert(s =~= s.take(1) + s.skip(1));
            }
        } else {
            assert(occurs_at(part, s, 0));
        }
    }
}

} // verus!
