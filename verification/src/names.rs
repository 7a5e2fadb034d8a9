//! Symbolic names for extracted attachments: the `attach://<name>` reference
//! token and the `file<k>` names allocated by index during batch extraction.

use vstd::prelude::*;
use vstd::string::StringExecFns;

verus! {

/// The character for the decimal digit `d`.
pub open spec fn digit_char(d: nat) -> char {
    if d == 0 {
        '0'
    } else if d == 1 {
        '1'
    } else if d == 2 {
        '2'
    } else if d == 3 {
        '3'
    } else if d == 4 {
        '4'
    } else if d == 5 {
        '5'
    } else if d == 6 {
        '6'
    } else if d == 7 {
        '7'
    } else if d == 8 {
        '8'
    } else {
        '9'
    }
}

/// The decimal numeral of `n`: most significant digit first, no leading zeros.
pub open spec fn decimal_digits(n: nat) -> Seq<char>
    decreases n,
{
    if n < 10 {
        seq![digit_char(n)]
    } else {
        decimal_digits(n / 10) + seq![digit_char(n % 10)]
    }
}

/// The name given to the `i`-th binary part allocated by index: `file<i>`.
pub open spec fn indexed_name(i: nat) -> Seq<char> {
    "file"@ + decimal_digits(i)
}

/// The reference-form token that points at the binary part called `name`.
pub open spec fn attach_token(name: Seq<char>) -> Seq<char> {
    "attach://"@ + name
}

fn append_digit(s: &mut String, d: u64)
    requires
        d < 10,
    ensures
        final(s)@ == old(s)@ + seq![digit_char(d as nat)],
{
    let digit: &str = if d == 0 {
        "0"
    } else if d == 1 {
        "1"
    } else if d == 2 {
        "2"
    } else if d == 3 {
        "3"
    } else if d == 4 {
        "4"
    } else if d == 5 {
        "5"
    } else if d == 6 {
        "6"
    } else if d == 7 {
        "7"
    } else if d == 8 {
        "8"
    } else {
        "9"
    };
    proof {
        reveal_strlit("0");
        reveal_strlit("1");
        reveal_strlit("2");
        reveal_strlit("3");
        reveal_strlit("4");
        reveal_strlit("5");
        reveal_strlit("6");
        reveal_strlit("7");
        reveal_strlit("8");
        reveal_strlit("9");
        assert(digit@ =~= seq![digit_char(d as nat)]);
    }
    s.append(digit);
}

/// The decimal numeral of `n` as a string.
pub fn decimal_string(n: u64) -> (s: String)
    ensures
        s@ == decimal_digits(n as nat),
    decreases n,
{
    if n < 10 {
        let mut s = String::new();
        append_digit(&mut s, n);
        proof {
            assert(s@ =~= decimal_digits(n as nat));
        }
        s
    } else {
        let mut s = decimal_string(n / 10);
        append_digit(&mut s, n % 10);
        proof {
            assert(s@ =~= decimal_digits(n as nat));
        }
        s
    }
}

/// The `file<i>` name as a string.
pub fn indexed_name_string(i: usize) -> (s: String)
    ensures
        s@ == indexed_name(i as nat),
{
    let mut s = String::from_str("file");
    let digits = decimal_string(i as u64);
    s.append(digits.as_str());
    proof {
        assert(s@ =~= indexed_name(i as nat));
    }
    s
}

/// The `attach://<name>` token as a string.
pub fn attach_token_string(name: &str) -> (s: String)
    ensures
        s@ == attach_token(name@),
{
    let mut s = String::from_str("attach://");
    s.append(name);
    proof {
        assert(s@ =~= attach_token(name@));
    }
    s
}

/// A decimal numeral is never empty, and has one digit exactly for `n < 10`.
pub proof fn lemma_decimal_digits_len(n: nat)
    ensures
        decimal_digits(n).len() >= 1,
        n < 10 <==> decimal_digits(n).len() == 1,
    decreases n,
{
    if n >= 10 {
        lemma_decimal_digits_len(n / 10);
    }
}

proof fn lemma_digit_char_injective(a: nat, b: nat)
    requires
        a < 10,
        b < 10,
        digit_char(a) == digit_char(b),
    ensures
        a == b,
{
}

/// Distinct numbers have distinct decimal numerals.
pub proof fn lemma_decimal_digits_injective(a: nat, b: nat)
    requires
        decimal_digits(a) == decimal_digits(b),
    ensures
        a == b,
    decreases a,
{
    lemma_decimal_digits_len(a);
    lemma_decimal_digits_len(b);
    if a < 10 && b < 10 {
        assert(decimal_digits(a)[0] == digit_char(a));
        assert(decimal_digits(b)[0] == digit_char(b));
        lemma_digit_char_injective(a, b);
    } else if a < 10 || b < 10 {
        // one numeral has a single digit, the other at least two
        if a >= 10 {
            lemma_decimal_digits_len(a / 10);
        } else {
            lemma_decimal_digits_len(b / 10);
        }
    } else {
        let da = decimal_digits(a);
        let db = decimal_digits(b);
        assert(da == decimal_digits(a / 10) + seq![digit_char(a % 10)]);
        assert(db == decimal_digits(b / 10) + seq![digit_char(b % 10)]);
        assert(da.last() == digit_char(a % 10));
        assert(db.last() == digit_char(b % 10));
        assert(digit_char(a % 10) == digit_char(b % 10));
        lemma_digit_char_injective(a % 10, b % 10);
        assert(decimal_digits(a / 10) =~= da.drop_last());
        assert(decimal_digits(b / 10) =~= db.drop_last());
        lemma_decimal_digits_injective(a / 10, b / 10);
        assert(a == 10 * (a / 10) + a % 10);
        assert(b == 10 * (b / 10) + b % 10);
    }
}

/// Distinct indices yield distinct `file<i>` names.
pub proof fn lemma_indexed_name_injective(a: nat, b: nat)
    requires
        indexed_name(a) == indexed_name(b),
    ensures
        a == b,
{
    assert(decimal_digits(a) =~= indexed_name(a).skip("file"@.len() as int));
    assert(decimal_digits(b) =~= indexed_name(b).skip("file"@.len() as int));
    lemma_decimal_digits_injective(a, b);
}

} // verus!
