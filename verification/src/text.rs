//! How numbers and data are written in a rendered script.

use vstd::prelude::*;
use vstd::string::StringExecFns;

verus! {

/// The sixteen digits, in lower case.
pub open spec fn digits() -> Seq<char> {
    seq!['0', '1', '2', '3', '4', '5', '6', '7', '8', '9', 'a', 'b', 'c', 'd', 'e', 'f']
}

/// The digit for `n`, where `n` is below 16.
pub open spec fn digit(n: int) -> char
    recommends
        0 <= n < 16,
{
    digits()[n]
}

/// Lower-case hexadecimal: two digits for each byte, the high half first,
/// with nothing between the pairs.
pub open spec fn hex_string(bytes: Seq<u8>) -> Seq<char> {
    Seq::new(
        2 * bytes.len(),
        |i: int|
            if i % 2 == 0 {
                digit(bytes[i / 2] as int / 16)
            } else {
                digit(bytes[i / 2] as int % 16)
            },
    )
}

/// The decimal numeral of `n`, without leading zeros.
pub open spec fn decimal(n: nat) -> Seq<char>
    decreases n,
{
    if n < 10 {
        seq![digit(n as int)]
    } else {
        decimal(n / 10).push(digit((n % 10) as int))
    }
}

/// Tokens in their order, with one space between each two.
pub open spec fn join_tokens(tokens: Seq<Seq<char>>) -> Seq<char>
    decreases tokens.len(),
{
    if tokens.len() == 0 {
        Seq::empty()
    } else if tokens.len() == 1 {
        tokens[0]
    } else {
        join_tokens(tokens.drop_last()) + seq![' '] + tokens.last()
    }
}

/// `hex::encode` on a byte slice: by its documentation and its source each
/// byte becomes two lower-case hexadecimal digits, the high half first, in
/// the order of the bytes. Nothing here is proved of the call.
#[verifier::external_body]
pub(crate) fn encode_hex(bytes: &[u8]) -> (text: String)
    ensures
        text@ == hex_string(bytes@),
{
    hex::encode(bytes)
}

/// One decimal digit as text.
fn digit_text(d: u8) -> (text: &'static str)
    requires
        d < 10,
    ensures
        text@ == seq![digit(d as int)],
{
    proof {
        reveal_strlit("0");
        reveal_strlit("1");
        reveal_strlit("2");
        reveal_strlit("3");
        reveal_strlit("4");
        reveal_strlit("5");
        reveal_strlit("6");
        reveal_strlit("7");
        reveal_strlit("8");
        reveal_strlit("9");
    }
    let text = match d {
        0 => "0",
        1 => "1",
        2 => "2",
        3 => "3",
        4 => "4",
        5 => "5",
        6 => "6",
        7 => "7",
        8 => "8",
        _ => "9",
    };
    assert(text@ =~= seq![digit(d as int)]);
    text
}

/// Appends the decimal numeral of `n` to `text`.
pub fn append_decimal(text: &mut String, n: u8)
    ensures
        final(text)@ == old(text)@ + decimal(n as nat),
{
    let ones: u8 = n % 10;
    let tens: u8 = (n / 10) % 10;
    let hundreds: u8 = n / 100;
    proof {
        reveal_with_fuel(decimal, 3);
    }
    if n >= 100 {
        text.append(digit_text(hundreds));
        text.append(digit_text(tens));
        text.append(digit_text(ones));
        assert(decimal(n as nat) =~= seq![
            digit(hundreds as int),
            digit(tens as int),
            digit(ones as int),
        ]);
        assert(final(text)@ =~= old(text)@ + decimal(n as nat));
    } else if n >= 10 {
        text.append(digit_text(tens));
        text.append(digit_text(ones));
        assert(decimal(n as nat) =~= seq![digit(tens as int), digit(ones as int)]);
        assert(final(text)@ =~= old(text)@ + decimal(n as nat));
    } else {
        text.append(digit_text(ones));
    }
}

} // verus!
