//! Text: numbers in decimal, and sequences of strings.

use vstd::prelude::*;
use vstd::string::*;

verus! {

/// The character for a digit.
pub open spec fn digit(d: nat) -> char {
    (48 + d) as char
}

/// Whether `c` is one of the characters `0` to `9`.
pub open spec fn is_digit(c: char) -> bool {
    48 <= c as u32 <= 57
}

/// `n` in decimal, without leading zeros.
pub open spec fn decimal(n: nat) -> Seq<char>
    decreases n,
{
    if n < 10 {
        seq![digit(n)]
    } else {
        decimal(n / 10).push(digit(n % 10))
    }
}

/// What the strings of a sequence hold.
pub open spec fn texts(strings: Seq<String>) -> Seq<Seq<char>> {
    strings.map_values(|string: String| string@)
}

/// A number in decimal is a non-empty sequence of digits.
pub proof fn decimal_is_digits(n: nat)
    ensures
        decimal(n).len() > 0,
        forall|i: int| 0 <= i < decimal(n).len() ==> is_digit(#[trigger] decimal(n)[i]),
    decreases n,
{
    if n >= 10 {
        decimal_is_digits(n / 10);
    }
}

/// The number that a sequence of digits stands for, the last of which counts ones.
pub open spec fn number(digits: Seq<char>) -> int
    decreases digits.len(),
{
    if digits.len() == 0 {
        0
    } else {
        10 * number(digits.drop_last()) + (digits.last() as u32 as int - 48)
    }
}

/// What is written for a number stands for that number, and has no leading zero but where it is a
/// single digit.
pub proof fn decimal_stands_for_the_number(n: nat)
    ensures
        number(decimal(n)) == n,
        decimal(n).len() > 1 ==> decimal(n)[0] != '0',
        n < 10 <==> decimal(n).len() == 1,
    decreases n,
{
    reveal_with_fuel(number, 2);
    if n < 10 {
        assert(seq![digit(n)].drop_last() =~= Seq::<char>::empty());
        assert(seq![digit(n)].last() == digit(n));
    } else {
        decimal_stands_for_the_number(n / 10);
        decimal_is_digits(n / 10);
        assert(decimal(n).drop_last() =~= decimal(n / 10));
        assert(decimal(n)[0] == decimal(n / 10)[0]);
        if decimal(n / 10).len() == 1 {
            assert(decimal(n / 10) == seq![digit(n / 10)]);
        }
    }
}

/// What strings hold is listed in their order, each as it is.
pub proof fn texts_keep_their_order(strings: Seq<String>)
    ensures
        texts(strings).len() == strings.len(),
        forall|i: int| 0 <= i < strings.len() ==> #[trigger] texts(strings)[i] == strings[i]@,
{
}

/// Different numbers are written differently.
pub proof fn decimal_determines_the_number(a: nat, b: nat)
    requires
        decimal(a) == decimal(b),
    ensures
        a == b,
    decreases a,
{
    decimal_is_digits(a / 10);
    decimal_is_digits(b / 10);
    assert(decimal(a).last() == digit(a % 10));
    assert(decimal(b).last() == digit(b % 10));
    assert(a % 10 == b % 10);
    if a >= 10 && b >= 10 {
        assert(decimal(a).drop_last() =~= decimal(a / 10));
        assert(decimal(b).drop_last() =~= decimal(b / 10));
        decimal_determines_the_number(a / 10, b / 10);
    }
}

/// Where two texts agree, and each is a run of characters of one class followed by something that
/// does not begin with a character of that class, the runs agree and so do the rests.
pub proof fn leading_run_is_determined(
    class: spec_fn(char) -> bool,
    run_a: Seq<char>,
    rest_a: Seq<char>,
    run_b: Seq<char>,
    rest_b: Seq<char>,
)
    requires
        run_a + rest_a == run_b + rest_b,
        forall|i: int| 0 <= i < run_a.len() ==> class(#[trigger] run_a[i]),
        forall|i: int| 0 <= i < run_b.len() ==> class(#[trigger] run_b[i]),
        rest_a.len() > 0 ==> !class(rest_a[0]),
        rest_b.len() > 0 ==> !class(rest_b[0]),
    ensures
        run_a == run_b,
        rest_a == rest_b,
{
    let text_a = run_a + rest_a;
    let text_b = run_b + rest_b;
    assert(text_a.len() == text_b.len());
    if run_a.len() < run_b.len() {
        assert(text_a[run_a.len() as int] == rest_a[0]);
        assert(text_b[run_a.len() as int] == run_b[run_a.len() as int]);
    }
    if run_b.len() < run_a.len() {
        assert(text_b[run_b.len() as int] == rest_b[0]);
        assert(text_a[run_b.len() as int] == run_a[run_b.len() as int]);
    }
    assert(run_a =~= text_a.take(run_a.len() as int));
    assert(run_b =~= text_b.take(run_b.len() as int));
    assert(rest_a =~= text_a.skip(run_a.len() as int));
    assert(rest_b =~= text_b.skip(run_b.len() as int));
}

/// The text for a digit.
fn digit_text(d: u64) -> (text: &'static str)
    requires
        d < 10,
    ensures
        text@ == seq![digit(d as nat)],
{
    proof {
        reveal_strlit("0");
        reveal_strlit("1");
        reveal_strlit("2");
        reveal_strlit("3");
        reveal_strlit("4");
        reveal_strlit("5");
        reveal_strlit("6");
        reveal_strlit("7");
        reveal_strlit("8");
        reveal_strlit("9");
    }
    let text = if d == 0 {
        "0"
    } else if d == 1 {
        "1"
    } else if d == 2 {
        "2"
    } else if d == 3 {
        "3"
    } else if d == 4 {
        "4"
    } else if d == 5 {
        "5"
    } else if d == 6 {
        "6"
    } else if d == 7 {
        "7"
    } else if d == 8 {
        "8"
    } else {
        "9"
    };
    assert(text@ =~= seq![digit(d as nat)]);
    text
}

/// Writes `n` in decimal.
pub fn decimal_text(n: u64) -> (text: String)
    ensures
        text@ == decimal(n as nat),
    decreases n,
{
    if n < 10 {
        digit_text(n).to_owned()
    } else {
        let mut text = decimal_text(n / 10);
        text.append(digit_text(n % 10));
        assert(text@ =~= decimal(n as nat));
        text
    }
}

} // verus!
