//! Agent identifiers.
//!
//! An identifier is the text `agent-` followed by a number in decimal. The
//! number is drawn at random when an agent is created; a caller that needs
//! a predictable identifier supplies the number itself.

use vstd::prelude::*;
use vstd::string::StringExecFns;

verus! {

/// The decimal digit `d` as text.
pub open spec fn digit_text(d: nat) -> Seq<char> {
    if d == 0 {
        "0"@
    } else if d == 1 {
        "1"@
    } else if d == 2 {
        "2"@
    } else if d == 3 {
        "3"@
    } else if d == 4 {
        "4"@
    } else if d == 5 {
        "5"@
    } else if d == 6 {
        "6"@
    } else if d == 7 {
        "7"@
    } else if d == 8 {
        "8"@
    } else {
        "9"@
    }
}

/// The number `n` in decimal, without leading zeros.
pub open spec fn decimal_text(n: nat) -> Seq<char>
    decreases n,
{
    if n < 10 {
        digit_text(n)
    } else {
        decimal_text(n / 10) + digit_text(n % 10)
    }
}

/// The identifier that stands for the number `seed`.
pub open spec fn id_text(seed: u64) -> Seq<char> {
    "agent-"@ + decimal_text(seed as nat)
}

/// Each digit is written as one character, and different digits as
/// different characters.
proof fn lemma_digit_text(d: nat, e: nat)
    requires
        d < 10,
        e < 10,
    ensures
        digit_text(d).len() == 1,
        digit_text(d) == digit_text(e) ==> d == e,
{
    reveal_strlit("0");
    reveal_strlit("1");
    reveal_strlit("2");
    reveal_strlit("3");
    reveal_strlit("4");
    reveal_strlit("5");
    reveal_strlit("6");
    reveal_strlit("7");
    reveal_strlit("8");
    reveal_strlit("9");
    if digit_text(d) == digit_text(e) {
        assert(digit_text(d)[0] == digit_text(e)[0]);
    }
}

/// A number below ten is written as one character, any other as at least
/// two: the text of its tenth part, then its last digit.
proof fn lemma_decimal_text_shape(n: nat)
    ensures
        n < 10 ==> decimal_text(n).len() == 1,
        n >= 10 ==> decimal_text(n).len() >= 2,
        decimal_text(n).len() >= 1,
        decimal_text(n).last() == digit_text(n % 10)[0],
        n >= 10 ==> decimal_text(n).drop_last() == decimal_text(n / 10),
    decreases n,
{
    lemma_digit_text(n % 10, n % 10);
    if n >= 10 {
        lemma_decimal_text_shape(n / 10);
        assert(decimal_text(n).drop_last() =~= decimal_text(n / 10));
    }
}

/// Different numbers are written differently.
pub proof fn lemma_decimal_text_injective(a: nat, b: nat)
    requires
        decimal_text(a) == decimal_text(b),
    ensures
        a == b,
    decreases a,
{
    lemma_decimal_text_shape(a);
    lemma_decimal_text_shape(b);
    lemma_digit_text(a % 10, b % 10);
    assert(digit_text(a % 10) =~= digit_text(b % 10));
    if a >= 10 {
        lemma_decimal_text_injective(a / 10, b / 10);
    }
}

/// Different numbers stand for different identifiers: two agents have the
/// same identifier only if the same number was drawn for both.
pub proof fn law_identifiers_differ_with_their_numbers(a: u64, b: u64)
    requires
        a != b,
    ensures
        id_text(a) != id_text(b),
{
    if id_text(a) == id_text(b) {
        let prefix = "agent-"@;
        assert(decimal_text(a as nat) =~= id_text(a).subrange(
            prefix.len() as int,
            id_text(a).len() as int,
        ));
        assert(decimal_text(b as nat) =~= id_text(b).subrange(
            prefix.len() as int,
            id_text(b).len() as int,
        ));
        lemma_decimal_text_injective(a as nat, b as nat);
    }
}

fn digit(d: u64) -> (text: &'static str)
    requires
        d < 10,
    ensures
        text@ == digit_text(d as nat),
{
    if d == 0 {
        "0"
    } else if d == 1 {
        "1"
    } else if d == 2 {
        "2"
    } else if d == 3 {
        "3"
    } else if d == 4 {
        "4"
    } else if d == 5 {
        "5"
    } else if d == 6 {
        "6"
    } else if d == 7 {
        "7"
    } else if d == 8 {
        "8"
    } else {
        "9"
    }
}

/// Writes `n` in decimal.
pub fn decimal(n: u64) -> (text: String)
    ensures
        text@ == decimal_text(n as nat),
    decreases n,
{
    if n < 10 {
        digit(n).to_owned()
    } else {
        let mut text = decimal(n / 10);
        text.append(digit(n % 10));
        text
    }
}

/// Builds the identifier that stands for `seed`.
pub fn agent_id(seed: u64) -> (id: String)
    ensures
        id@ == id_text(seed),
{
    let mut id = "agent-".to_owned();
    id.append(decimal(seed).as_str());
    id
}

/// Calls `rand::random::<u64>()`, which draws a number from the generator
/// of the current thread.
///
/// Nothing is claimed about the number: two calls may give different
/// numbers or the same one. The generator is seeded, and from time to time
/// seeded again, from the random source of the operating system; the call
/// panics when that source fails. That is a failure of the machine, which
/// no argument can rule out.
#[verifier::external_body]
pub(crate) fn random_seed() -> u64 {
    rand::random::<u64>()
}

} // verus!
