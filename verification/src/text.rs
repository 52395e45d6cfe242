//! Text as sequences of characters: comparison, decimal and hexadecimal numerals.
use vstd::prelude::*;
use vstd::string::StringExecFns;

verus! {

/// Whether two strings hold the same characters.
pub fn same_text(a: &str, b: &str) -> (same: bool)
    ensures
        same == (a@ == b@),
{
    a.to_owned() == b.to_owned()
}

/// A result with its error message as a sequence of characters.
pub open spec fn outcome(result: Result<(), String>) -> Result<(), Seq<char>> {
    match result {
        Ok(_) => Ok(()),
        Err(message) => Err(message@),
    }
}

/// The characters of a string, in order.
pub fn chars_of(s: &str) -> (chars: Vec<char>)
    ensures
        chars@ == s@,
{
    let mut chars: Vec<char> = Vec::new();
    for c in it: s.chars()
        invariant
            it.seq() == s@,
            chars@ == s@.take(it.index()),
    {
        chars.push(c);
    }
    chars
}

/// The digit `d` of a numeral, for `d` below sixteen; letters are lower case.
pub open spec fn digit_char(d: int) -> char {
    if d < 10 {
        (48 + d) as char
    } else {
        (87 + d) as char
    }
}

/// The string that holds the one digit `d`.
fn digit_text(d: u8) -> (text: &'static str)
    requires
        d < 16,
    ensures
        text@ == seq![digit_char(d as int)],
{
    proof {
        reveal_strlit("0");
        reveal_strlit("1");
        reveal_strlit("2");
        reveal_strlit("3");
        reveal_strlit("4");
        reveal_strlit("5");
        reveal_strlit("6");
        reveal_strlit("7");
        reveal_strlit("8");
        reveal_strlit("9");
        reveal_strlit("a");
        reveal_strlit("b");
        reveal_strlit("c");
        reveal_strlit("d");
        reveal_strlit("e");
        reveal_strlit("f");
    }
    match d {
        0 => "0",
        1 => "1",
        2 => "2",
        3 => "3",
        4 => "4",
        5 => "5",
        6 => "6",
        7 => "7",
        8 => "8",
        9 => "9",
        10 => "a",
        11 => "b",
        12 => "c",
        13 => "d",
        14 => "e",
        _ => "f",
    }
}

/// The decimal numeral of `n`, without leading zeros.
pub open spec fn decimal(n: nat) -> Seq<char>
    decreases n,
{
    if n < 10 {
        seq![digit_char(n as int)]
    } else {
        decimal(n / 10).push(digit_char((n % 10) as int))
    }
}

/// Writes `n` in decimal.
pub fn decimal_text(n: u128) -> (text: String)
    ensures
        text@ == decimal(n as nat),
    decreases n,
{
    if n < 10 {
        digit_text(n as u8).to_owned()
    } else {
        let mut text = decimal_text(n / 10);
        text.append(digit_text((n % 10) as u8));
        text
    }
}

/// A numeral is one or more digits.
pub proof fn lemma_decimal_digits(n: nat)
    ensures
        decimal(n).len() > 0,
        forall|i: int| 0 <= i < decimal(n).len() ==> '0' <= #[trigger] decimal(n)[i] <= '9',
    decreases n,
{
    if n >= 10 {
        lemma_decimal_digits(n / 10);
    }
}

/// Read as decimal digits a numeral gives the number back, and it has no leading zero.
pub proof fn law_numeral_has_its_value(n: nat)
    ensures
        decimal(n).fold_left(0int, |value: int, c: char| 10 * value + (c as int - 0x30)) == n,
        decimal(n).len() > 0,
        decimal(n).len() > 1 ==> decimal(n)[0] as int != 0x30,
        forall|i: int|
            0 <= i < decimal(n).len() ==> 0x30 <= #[trigger] decimal(n)[i] as int <= 0x39,
    decreases n,
{
    let read = |value: int, c: char| 10 * value + (c as int - 0x30);
    reveal_with_fuel(Seq::fold_left, 2);
    lemma_decimal_digits(n);
    if n >= 10 {
        let rest = decimal(n / 10);
        law_numeral_has_its_value(n / 10);
        assert(decimal(n).drop_last() =~= rest);
        assert(decimal(n)[0] == rest[0]);
        assert(decimal(n).fold_left(0int, read) == read(rest.fold_left(0int, read), decimal(n).last()));
    } else {
        assert(decimal(n).drop_last() =~= Seq::<char>::empty());
        assert(decimal(n).fold_left(0int, read) == read(0, decimal(n).last()));
    }
}

/// Different numbers have different numerals.
pub proof fn law_decimal_is_injective(a: nat, b: nat)
    requires
        decimal(a) == decimal(b),
    ensures
        a == b,
    decreases a,
{
    lemma_decimal_digits(a / 10);
    lemma_decimal_digits(b / 10);
    let last = decimal(a).last();
    assert(last == digit_char((a % 10) as int));
    assert(last == digit_char((b % 10) as int));
    if a >= 10 && b >= 10 {
        assert(decimal(a).drop_last() == decimal(a / 10));
        assert(decimal(b).drop_last() == decimal(b / 10));
        law_decimal_is_injective(a / 10, b / 10);
    }
}

/// Two lower-case hexadecimal digits for each byte, high digit first.
pub open spec fn hex(bytes: Seq<u8>) -> Seq<char>
    decreases bytes.len(),
{
    if bytes.len() == 0 {
        Seq::empty()
    } else {
        hex(bytes.drop_last()).push(digit_char(bytes.last() as int / 16)).push(
            digit_char(bytes.last() as int % 16),
        )
    }
}

/// Writes `bytes` in lower-case hexadecimal.
pub fn hex_text(bytes: &[u8]) -> (text: String)
    ensures
        text@ == hex(bytes@),
{
    let mut text = String::new();
    let mut i: usize = 0;
    while i < bytes.len()
        invariant
            i <= bytes@.len(),
            text@ == hex(bytes@.take(i as int)),
        decreases bytes@.len() - i,
    {
        let b: u8 = bytes[i];
        text.append(digit_text(b / 16));
        text.append(digit_text(b % 16));
        proof {
            assert(bytes@.take(i + 1).drop_last() == bytes@.take(i as int));
        }
        i += 1;
    }
    proof {
        assert(bytes@.take(i as int) == bytes@);
    }
    text
}

/// Each byte is written as two lower-case hexadecimal digits, whose values give it back.
pub proof fn law_hex_has_its_values(bytes: Seq<u8>)
    ensures
        hex(bytes).len() == 2 * bytes.len(),
        ({
            let value = |c: char|
                if c as int <= 0x39 {
                    c as int - 0x30
                } else {
                    c as int - 0x57
                };
            forall|i: int| #![trigger bytes[i]]
                0 <= i < bytes.len() ==> bytes[i] == 16 * value(hex(bytes)[2 * i]) + value(
                    hex(bytes)[2 * i + 1],
                )
        }),
        forall|k: int|
            0 <= k < hex(bytes).len() ==> {
                ||| 0x30 <= #[trigger] hex(bytes)[k] as int <= 0x39
                ||| 0x61 <= hex(bytes)[k] as int <= 0x66
            },
    decreases bytes.len(),
{
    if bytes.len() > 0 {
        let rest = bytes.drop_last();
        law_hex_has_its_values(rest);
        assert(forall|i: int| 0 <= i < rest.len() ==> rest[i] == bytes[i]);
        assert(forall|k: int| 0 <= k < hex(rest).len() ==> hex(bytes)[k] == hex(rest)[k]);
        let value = |c: char|
            if c as int <= 0x39 {
                c as int - 0x30
            } else {
                c as int - 0x57
            };
        assert forall|i: int| #![trigger bytes[i]] 0 <= i < bytes.len() implies bytes[i] == 16
            * value(hex(bytes)[2 * i]) + value(hex(bytes)[2 * i + 1]) by {
            if i < rest.len() {
                assert(rest[i] == bytes[i]);
                assert(hex(rest)[2 * i] == hex(bytes)[2 * i]);
                assert(hex(rest)[2 * i + 1] == hex(bytes)[2 * i + 1]);
            }
        }
    }
}

} // verus!
