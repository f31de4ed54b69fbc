//! Text in and out: decimal numerals, and the index that a token names.

use vstd::prelude::*;
use vstd::string::StringExecFns;

verus! {

/// The characters of `s`, in order.
pub fn chars_of(s: &str) -> (v: Vec<char>)
    ensures
        v@ == s@,
{
    let mut v: Vec<char> = Vec::new();
    for c in it: s.chars()
        invariant
            it.seq() == s@,
            v@ == it.seq().take(it.index()),
    {
        v.push(c);
    }
    assert(v@ =~= s@);
    v
}

/// The texts that a list of strings holds, in order.
pub open spec fn texts(list: Seq<String>) -> Seq<Seq<char>> {
    list.map_values(|s: String| s@)
}

/// The texts of a list with one more string are those of the list with one
/// more text.
pub proof fn lemma_texts_push(list: Seq<String>, s: String)
    ensures
        texts(list.push(s)) == texts(list).push(s@),
{
    assert(texts(list.push(s)) =~= texts(list).push(s@));
}

/// The ten decimal digits, by value.
pub open spec fn digits() -> Seq<char> {
    seq!['0', '1', '2', '3', '4', '5', '6', '7', '8', '9']
}

/// The decimal numeral of `n`: no sign, no leading zero but for zero itself.
pub open spec fn decimal(n: nat) -> Seq<char>
    decreases n,
{
    if n < 10 {
        seq![digits()[n as int]]
    } else {
        decimal(n / 10).push(digits()[(n % 10) as int])
    }
}

/// The one-character text of the digit `d`.
fn digit_text(d: u8) -> (s: &'static str)
    requires
        d < 10,
    ensures
        s@ == seq![digits()[d as int]],
{
    proof {
        reveal_strlit("0");
        reveal_strlit("1");
        reveal_strlit("2");
        reveal_strlit("3");
        reveal_strlit("4");
        reveal_strlit("5");
        reveal_strlit("6");
        reveal_strlit("7");
        reveal_strlit("8");
        reveal_strlit("9");
    }
    let s = match d {
        0 => "0",
        1 => "1",
        2 => "2",
        3 => "3",
        4 => "4",
        5 => "5",
        6 => "6",
        7 => "7",
        8 => "8",
        _ => "9",
    };
    assert(s@ =~= seq![digits()[d as int]]);
    s
}

/// Appends the decimal numeral of `n` to `text`.
pub fn push_decimal(text: &mut String, n: u128)
    ensures
        final(text)@ == old(text)@ + decimal(n as nat),
    decreases n,
{
    if n >= 10 {
        push_decimal(text, n / 10);
    }
    text.append(digit_text((n % 10) as u8));
}

/// The decimal numeral of `n`.
pub fn decimal_string(n: u128) -> (text: String)
    ensures
        text@ == decimal(n as nat),
{
    let mut text = String::new();
    push_decimal(&mut text, n);
    text
}

/// Whether `c` is one of the ten decimal digits.
pub open spec fn is_digit(c: char) -> bool {
    '0' <= c <= '9'
}

/// The value of the decimal digit `c`.
pub open spec fn digit_value(c: char) -> nat {
    (c as int - '0' as int) as nat
}

/// The number that a run of decimal digits writes, the empty run being zero.
pub open spec fn number(run: Seq<char>) -> nat
    decreases run.len(),
{
    if run.len() == 0 {
        0
    } else {
        number(run.drop_last()) * 10 + digit_value(run.last())
    }
}

/// Whether `run` holds decimal digits only.
pub open spec fn all_digits(run: Seq<char>) -> bool {
    forall|i: int| 0 <= i < run.len() ==> is_digit(#[trigger] run[i])
}

/// What is left of `text` without one leading plus sign.
pub open spec fn unsigned(text: Seq<char>) -> Seq<char> {
    if text.len() > 0 && text[0] == '+' {
        text.skip(1)
    } else {
        text
    }
}

/// The index that `text` writes: an optional plus sign, then one or more
/// decimal digits and nothing else, naming a number that a `usize` holds.
pub open spec fn index_of(text: Seq<char>) -> Option<usize> {
    let run = unsigned(text);
    if run.len() > 0 && all_digits(run) && number(run) <= usize::MAX {
        Some(number(run) as usize)
    } else {
        None
    }
}

/// A run of digits writes at least what any of its beginnings writes.
pub proof fn lemma_number_grows(run: Seq<char>, n: int)
    requires
        0 <= n <= run.len(),
    ensures
        number(run.take(n)) <= number(run),
    decreases run.len() - n,
{
    if n < run.len() {
        lemma_number_grows(run, n + 1);
        assert(run.take(n + 1).drop_last() =~= run.take(n));
    } else {
        assert(run.take(n) =~= run);
    }
}

/// Reads an index from `text`, which is to hold no surrounding whitespace.
pub fn parse_index(text: &str) -> (index: Option<usize>)
    ensures
        index == index_of(text@),
{
    let chars = chars_of(text);
    let start: usize = if chars.len() > 0 && chars[0] == '+' {
        1
    } else {
        0
    };
    let ghost run = unsigned(text@);
    assert(run =~= text@.skip(start as int));
    if start == chars.len() {
        return None;
    }
    let mut value: usize = 0;
    let mut i: usize = start;
    while i < chars.len()
        invariant
            start <= i <= chars.len(),
            chars@ == text@,
            run == unsigned(text@),
            run == text@.skip(start as int),
            value == number(run.take(i - start)),
            forall|j: int| 0 <= j < i - start ==> is_digit(#[trigger] run[j]),
        decreases chars.len() - i,
    {
        let c = chars[i];
        assert(c == run[i - start]);
        if !('0' <= c && c <= '9') {
            return None;
        }
        let digit = (c as u32 - '0' as u32) as usize;
        proof {
            assert(run.take(i - start + 1).drop_last() =~= run.take(i - start));
            assert(number(run.take(i - start + 1)) == value * 10 + digit);
            lemma_number_grows(run, i - start + 1);
        }
        let next = match value.checked_mul(10) {
            Some(tens) => tens.checked_add(digit),
            None => None,
        };
        match next {
            Some(n) => {
                value = n;
            },
            None => {
                return None;
            },
        }
        i += 1;
    }
    assert(run.take(i - start) =~= run);
    Some(value)
}

/// What `str::trim` leaves of a text.
pub uninterp spec fn trimmed(text: Seq<char>) -> Seq<char>;

/// `str::trim` of the standard library, which returns the text without its
/// leading and trailing whitespace. The contract only names the result: it
/// is `trimmed` of the characters that went in.
#[verifier::external_body]
fn trim<'a>(text: &'a str) -> (rest: &'a str)
    ensures
        rest@ == trimmed(text@),
{
    text.trim()
}

/// Reads the index that a command-line token names, whitespace around it
/// set aside.
pub fn read_index(token: &str) -> (index: Option<usize>)
    ensures
        index == index_of(trimmed(token@)),
{
    parse_index(trim(token))
}

} // verus!
