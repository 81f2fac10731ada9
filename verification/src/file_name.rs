//! The name of the file that holds the report of a round.
//!
//! The name is made of the five parameters of the round, so that a round
//! with the same parameters writes the same file again.

use vstd::prelude::*;
use vstd::string::*;

verus! {

/// The character of the digit `d`.
pub open spec fn digit_char(d: nat) -> char {
    if d == 0 {
        '0'
    } else if d == 1 {
        '1'
    } else if d == 2 {
        '2'
    } else if d == 3 {
        '3'
    } else if d == 4 {
        '4'
    } else if d == 5 {
        '5'
    } else if d == 6 {
        '6'
    } else if d == 7 {
        '7'
    } else if d == 8 {
        '8'
    } else {
        '9'
    }
}

/// `n` in decimal notation, without leading zeros.
pub open spec fn decimal(n: nat) -> Seq<char>
    decreases n,
{
    if n < 10 {
        seq![digit_char(n)]
    } else {
        decimal(n / 10).push(digit_char(n % 10))
    }
}

/// The name of the report file: the five parameters in decimal notation,
/// joined by hyphens, and the extension `.json`.
pub open spec fn file_name_text(
    total_put_number: nat,
    total_sub_number: nat,
    num_msgs_per_peer: nat,
    payload_size: nat,
    round_timeout: nat,
) -> Seq<char> {
    decimal(total_put_number) + seq!['-'] + decimal(total_sub_number) + seq!['-'] + decimal(
        num_msgs_per_peer,
    ) + seq!['-'] + decimal(payload_size) + seq!['-'] + decimal(round_timeout) + seq![
        '.',
        'j',
        's',
        'o',
        'n',
    ]
}

fn digit_text(d: u64) -> (text: &'static str)
    requires
        d < 10,
    ensures
        text@ == seq![digit_char(d as nat)],
{
    proof {
        reveal_strlit("0");
        reveal_strlit("1");
        reveal_strlit("2");
        reveal_strlit("3");
        reveal_strlit("4");
        reveal_strlit("5");
        reveal_strlit("6");
        reveal_strlit("7");
        reveal_strlit("8");
        reveal_strlit("9");
    }
    let text = if d == 0 {
        "0"
    } else if d == 1 {
        "1"
    } else if d == 2 {
        "2"
    } else if d == 3 {
        "3"
    } else if d == 4 {
        "4"
    } else if d == 5 {
        "5"
    } else if d == 6 {
        "6"
    } else if d == 7 {
        "7"
    } else if d == 8 {
        "8"
    } else {
        "9"
    };
    assert(text@ =~= seq![digit_char(d as nat)]);
    text
}

fn append_decimal(out: &mut String, n: u64)
    ensures
        final(out)@ == old(out)@ + decimal(n as nat),
    decreases n,
{
    if n >= 10 {
        append_decimal(out, n / 10);
    }
    out.append(digit_text(n % 10));
    assert(out@ =~= old(out)@ + decimal(n as nat));
}

/// The decimal notation of `n`.
pub fn decimal_text(n: u64) -> (text: String)
    ensures
        text@ == decimal(n as nat),
{
    let mut text = String::new();
    append_decimal(&mut text, n);
    assert(text@ =~= decimal(n as nat));
    text
}

/// The name of the file to which the report of a round is written. It
/// depends on the five parameters alone.
pub fn report_file_name(
    total_put_number: usize,
    total_sub_number: usize,
    num_msgs_per_peer: usize,
    payload_size: usize,
    round_timeout: u64,
) -> (name: String)
    ensures
        name@ == file_name_text(
            total_put_number as nat,
            total_sub_number as nat,
            num_msgs_per_peer as nat,
            payload_size as nat,
            round_timeout as nat,
        ),
{
    proof {
        reveal_strlit("-");
        reveal_strlit(".json");
    }
    assert("-"@ =~= seq!['-']);
    assert(".json"@ =~= seq!['.', 'j', 's', 'o', 'n']);
    let mut name = String::new();
    append_decimal(&mut name, total_put_number as u64);
    name.append("-");
    append_decimal(&mut name, total_sub_number as u64);
    name.append("-");
    append_decimal(&mut name, num_msgs_per_peer as u64);
    name.append("-");
    append_decimal(&mut name, payload_size as u64);
    name.append("-");
    append_decimal(&mut name, round_timeout);
    name.append(".json");
    assert(name@ =~= file_name_text(
        total_put_number as nat,
        total_sub_number as nat,
        num_msgs_per_peer as nat,
        payload_size as nat,
        round_timeout as nat,
    ));
    name
}

/// Two rounds with the same five parameters write the same file.
pub proof fn lemma_same_parameters_same_file(
    first: (nat, nat, nat, nat, nat),
    second: (nat, nat, nat, nat, nat),
)
    requires
        first == second,
    ensures
        file_name_text(first.0, first.1, first.2, first.3, first.4) == file_name_text(
            second.0,
            second.1,
            second.2,
            second.3,
            second.4,
        ),
{
}

/// The number that the digit `c` stands for.
pub open spec fn digit_value(c: char) -> nat {
    if c == '1' {
        1
    } else if c == '2' {
        2
    } else if c == '3' {
        3
    } else if c == '4' {
        4
    } else if c == '5' {
        5
    } else if c == '6' {
        6
    } else if c == '7' {
        7
    } else if c == '8' {
        8
    } else if c == '9' {
        9
    } else {
        0
    }
}

/// The number that the digits `s` stand for.
pub open spec fn decimal_value(s: Seq<char>) -> nat
    decreases s.len(),
{
    if s.len() == 0 {
        0
    } else {
        decimal_value(s.drop_last()) * 10 + digit_value(s.last())
    }
}

/// The decimal notation of a number stands for that number, so two numbers
/// with the same notation are the same.
pub proof fn lemma_decimal_value(n: nat)
    ensures
        decimal_value(decimal(n)) == n,
    decreases n,
{
    if n < 10 {
        assert(decimal(n).drop_last() =~= Seq::<char>::empty());
        assert(decimal_value(decimal(n)) == digit_value(digit_char(n))) by {
            reveal_with_fuel(decimal_value, 2);
        }
    } else {
        lemma_decimal_value(n / 10);
        assert(decimal(n).drop_last() =~= decimal(n / 10));
        assert(decimal(n).last() == digit_char(n % 10));
    }
}

/// The decimal notation of a number holds digits alone: neither a hyphen
/// nor a dot.
pub proof fn lemma_decimal_is_digits(n: nat, i: int)
    requires
        0 <= i < decimal(n).len(),
    ensures
        decimal(n)[i] != '-',
        decimal(n)[i] != '.',
    decreases n,
{
    if n >= 10 {
        if i < decimal(n / 10).len() {
            lemma_decimal_is_digits(n / 10, i);
        }
    }
}

/// A text is split at its first separator in one way only.
proof fn lemma_split_unique(a: Seq<char>, b: Seq<char>, c: Seq<char>, d: Seq<char>, sep: char)
    requires
        forall|i: int| 0 <= i < a.len() ==> a[i] != sep,
        forall|i: int| 0 <= i < c.len() ==> c[i] != sep,
        a + seq![sep] + b == c + seq![sep] + d,
    ensures
        a == c,
        b == d,
{
    let left = a + seq![sep] + b;
    let right = c + seq![sep] + d;
    if a.len() < c.len() {
        assert(left[a.len() as int] == sep);
        assert(right[a.len() as int] == c[a.len() as int]);
    }
    if c.len() < a.len() {
        assert(right[c.len() as int] == sep);
        assert(left[c.len() as int] == a[c.len() as int]);
    }
    assert(left.len() == right.len());
    assert forall|i: int| 0 <= i < a.len() implies a[i] == c[i] by {
        assert(left[i] == a[i]);
        assert(right[i] == c[i]);
    }
    assert(a =~= c);
    assert forall|i: int| 0 <= i < b.len() implies b[i] == d[i] by {
        assert(left[a.len() + 1 + i] == b[i]);
        assert(right[c.len() + 1 + i] == d[i]);
    }
    assert(b =~= d);
}

/// `n` in decimal notation, a hyphen, and `rest`.
pub open spec fn hyphenated(n: nat, rest: Seq<char>) -> Seq<char> {
    decimal(n) + seq!['-'] + rest
}

/// The extension of the file name.
pub open spec fn extension() -> Seq<char> {
    seq!['.', 'j', 's', 'o', 'n']
}

proof fn lemma_concat_assoc(a: Seq<char>, b: Seq<char>, c: Seq<char>)
    ensures
        (a + b) + c == a + (b + c),
{
    assert((a + b) + c =~= a + (b + c));
}

/// The file name, read from its front: each parameter but the last with its
/// hyphen, then the last with the extension.
pub proof fn lemma_file_name_shape(p: (nat, nat, nat, nat, nat))
    ensures
        file_name_text(p.0, p.1, p.2, p.3, p.4) == hyphenated(
            p.0,
            hyphenated(p.1, hyphenated(p.2, hyphenated(p.3, decimal(p.4) + extension()))),
        ),
{
    let h = seq!['-'];
    let (d0, d1, d2, d3, d4) = (decimal(p.0), decimal(p.1), decimal(p.2), decimal(p.3), decimal(p.4));
    let w4 = d4 + extension();
    let w3 = d3 + h + w4;
    let w2 = d2 + h + w3;
    let w1 = d1 + h + w2;
    let x1 = d0 + h;
    let x2 = x1 + d1 + h;
    let x3 = x2 + d2 + h;
    let x4 = x3 + d3 + h;
    lemma_concat_assoc(x4, d4, extension());
    lemma_concat_assoc(x3, d3, h);
    lemma_concat_assoc(x3, d3 + h, w4);
    lemma_concat_assoc(x2, d2, h);
    lemma_concat_assoc(x2, d2 + h, w3);
    lemma_concat_assoc(x1, d1, h);
    lemma_concat_assoc(x1, d1 + h, w2);
}

/// A number in front of a separator is read in one way only.
proof fn lemma_number_unique(n: nat, rest: Seq<char>, m: nat, other: Seq<char>, sep: char)
    requires
        sep == '-',
        decimal(n) + seq![sep] + rest == decimal(m) + seq![sep] + other,
    ensures
        n == m,
        rest == other,
{
    assert forall|i: int| 0 <= i < decimal(n).len() implies decimal(n)[i] != sep by {
        lemma_decimal_is_digits(n, i);
    }
    assert forall|i: int| 0 <= i < decimal(m).len() implies decimal(m)[i] != sep by {
        lemma_decimal_is_digits(m, i);
    }
    lemma_split_unique(decimal(n), rest, decimal(m), other, sep);
    lemma_decimal_value(n);
    lemma_decimal_value(m);
}

/// The file name tells the five parameters: two rounds that write the same
/// file have the same five parameters.
pub proof fn lemma_file_name_tells_parameters(
    first: (nat, nat, nat, nat, nat),
    second: (nat, nat, nat, nat, nat),
)
    requires
        file_name_text(first.0, first.1, first.2, first.3, first.4) == file_name_text(
            second.0,
            second.1,
            second.2,
            second.3,
            second.4,
        ),
    ensures
        first == second,
{
    lemma_file_name_shape(first);
    lemma_file_name_shape(second);
    let a4 = decimal(first.4) + extension();
    let b4 = decimal(second.4) + extension();
    let a3 = hyphenated(first.3, a4);
    let b3 = hyphenated(second.3, b4);
    let a2 = hyphenated(first.2, a3);
    let b2 = hyphenated(second.2, b3);
    let a1 = hyphenated(first.1, a2);
    let b1 = hyphenated(second.1, b2);
    lemma_number_unique(first.0, a1, second.0, b1, '-');
    lemma_number_unique(first.1, a2, second.1, b2, '-');
    lemma_number_unique(first.2, a3, second.2, b3, '-');
    lemma_number_unique(first.3, a4, second.3, b4, '-');
    assert(decimal(first.4).len() == decimal(second.4).len()) by {
        assert(a4.len() == b4.len());
    }
    assert forall|i: int| 0 <= i < decimal(first.4).len() implies decimal(first.4)[i] == decimal(
        second.4,
    )[i] by {
        assert(a4[i] == decimal(first.4)[i]);
        assert(b4[i] == decimal(second.4)[i]);
    }
    assert(decimal(first.4) =~= decimal(second.4));
    lemma_decimal_value(first.4);
    lemma_decimal_value(second.4);
}

} // verus!
