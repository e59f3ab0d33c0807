use vstd::prelude::*;
use crate::template::types::{InputMode, TxCodeConstraints};
use rand::Rng;

verus! {

/// Calls `rand::rng()` and draws a number from `0..n` with `random_range`. The draw is
/// random, so only its range is stated.
#[verifier::external_body]
fn random_below(n: usize) -> (r: usize)
    requires
        n > 0,
    ensures
        r < n,
{
    rand::rng().random_range(0..n)
}

/// The letters a text transaction code is drawn from.
pub open spec fn tx_alphabet() -> Seq<char> {
    "ABCDEFGHIJKLMNOPQRSTUVWXYZabcdefghijklmnopqrstuvwxyz"@
}

pub open spec fn is_ascii_digit(c: char) -> bool {
    '0' <= c <= '9'
}

/// The length of a transaction code: the given one, else 6.
pub open spec fn tx_code_length(tx: TxCodeConstraints) -> nat {
    match tx.length {
        Some(n) => n as nat,
        None => 6,
    }
}

/// Whether a code is drawn from the alphabet that the input mode calls for: digits, unless
/// the mode is text.
pub open spec fn tx_code_alphabet_ok(tx: TxCodeConstraints, code: Seq<char>) -> bool {
    if tx.input_mode == Some(InputMode::Text) {
        forall|i: int| 0 <= i < code.len() ==> tx_alphabet().contains(#[trigger] code[i])
    } else {
        forall|i: int| 0 <= i < code.len() ==> is_ascii_digit(#[trigger] code[i])
    }
}

fn digit_of(d: usize) -> (c: char)
    requires
        d < 10,
    ensures
        is_ascii_digit(c),
{
    if d == 0 { '0' } else if d == 1 { '1' } else if d == 2 { '2' } else if d == 3 { '3' } else if d == 4 { '4' }
    else if d == 5 { '5' } else if d == 6 { '6' } else if d == 7 { '7' } else if d == 8 { '8' } else { '9' }
}

/// Generates a transaction code as the constraints ask: of the given length (6 by default),
/// random digits, or random letters in text mode.
pub fn generate_tx_code(tx_code: &TxCodeConstraints) -> (r: String)
    ensures
        r@.len() == tx_code_length(*tx_code),
        tx_code_alphabet_ok(*tx_code, r@),
{
    let length: u32 = match tx_code.length {
        Some(n) => n,
        None => 6,
    };
    let text = match tx_code.input_mode {
        Some(InputMode::Text) => true,
        _ => false,
    };
    let alphabet = crate::text::chars_of("ABCDEFGHIJKLMNOPQRSTUVWXYZabcdefghijklmnopqrstuvwxyz");
    proof {
        reveal_strlit("ABCDEFGHIJKLMNOPQRSTUVWXYZabcdefghijklmnopqrstuvwxyz");
    }
    let mut code = String::new();
    let mut i: u32 = 0;
    while i < length
        invariant
            i <= length,
            length == tx_code_length(*tx_code),
            text == (tx_code.input_mode == Some(InputMode::Text)),
            alphabet@ == tx_alphabet(),
            alphabet@.len() == 52,
            code@.len() == i,
            tx_code_alphabet_ok(*tx_code, code@),
        decreases length - i,
    {
        let ghost before = code@;
        if text {
            let idx = random_below(alphabet.len());
            let c = alphabet[idx];
            code.push(c);
            assert(tx_alphabet()[idx as int] == c);
            assert forall|k: int| 0 <= k < code@.len() implies tx_alphabet().contains(#[trigger] code@[k]) by {
                if k < before.len() {
                    assert(code@[k] == before[k]);
                } else {
                    assert(code@[k] == tx_alphabet()[idx as int]);
                }
            }
        } else {
            let c = digit_of(random_below(10));
            code.push(c);
            assert forall|k: int| 0 <= k < code@.len() implies is_ascii_digit(#[trigger] code@[k]) by {
                if k < before.len() {
                    assert(code@[k] == before[k]);
                }
            }
        }
        i = i + 1;
    }
    code
}

} // verus!
