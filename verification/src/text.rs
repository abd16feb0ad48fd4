//! Text that error messages and identifiers are made of: decimal numbers,
//! lists of numbers, and comparison with a fixed word.

use vstd::prelude::*;

verus! {

/// The character of a decimal digit.
pub open spec fn digit(d: nat) -> char
    recommends
        d < 10,
{
    (48 + d) as char
}

/// A natural number in decimal, without leading zeros.
pub open spec fn decimal(n: nat) -> Seq<char>
    decreases n,
{
    if n < 10 {
        seq![digit(n)]
    } else {
        decimal(n / 10).push(digit(n % 10))
    }
}

/// An integer in decimal, with a minus sign before a negative one.
pub open spec fn signed_decimal(n: int) -> Seq<char> {
    if n < 0 {
        "-"@ + decimal((-n) as nat)
    } else {
        decimal(n as nat)
    }
}

/// Numbers separated by a comma and a space.
pub open spec fn comma_list(items: Seq<u64>) -> Seq<char>
    decreases items.len(),
{
    if items.len() == 0 {
        Seq::empty()
    } else if items.len() == 1 {
        decimal(items[0] as nat)
    } else {
        comma_list(items.drop_last()) + ", "@ + decimal(items.last() as nat)
    }
}

/// A list of numbers in square brackets.
pub open spec fn bracketed(items: Seq<u64>) -> Seq<char> {
    "["@ + comma_list(items) + "]"@
}

/// The word for a truth value.
pub open spec fn truth(b: bool) -> Seq<char> {
    if b {
        "true"@
    } else {
        "false"@
    }
}

fn digit_text(d: u64) -> (r: &'static str)
    requires
        d < 10,
    ensures
        r@ == seq![digit(d as nat)],
{
    proof {
        reveal_strlit("0");
        reveal_strlit("1");
        reveal_strlit("2");
        reveal_strlit("3");
        reveal_strlit("4");
        reveal_strlit("5");
        reveal_strlit("6");
        reveal_strlit("7");
        reveal_strlit("8");
        reveal_strlit("9");
    }
    if d == 0 {
        "0"
    } else if d == 1 {
        "1"
    } else if d == 2 {
        "2"
    } else if d == 3 {
        "3"
    } else if d == 4 {
        "4"
    } else if d == 5 {
        "5"
    } else if d == 6 {
        "6"
    } else if d == 7 {
        "7"
    } else if d == 8 {
        "8"
    } else {
        "9"
    }
}

/// Writes a number in decimal.
pub fn decimal_text(n: u64) -> (r: String)
    ensures
        r@ == decimal(n as nat),
    decreases n,
{
    if n < 10 {
        digit_text(n).to_owned()
    } else {
        let mut s = decimal_text(n / 10);
        s.append(digit_text(n % 10));
        s
    }
}

/// Writes a signed number in decimal.
pub fn signed_decimal_text(n: i64) -> (r: String)
    ensures
        r@ == signed_decimal(n as int),
{
    if n < 0 {
        let magnitude: u64 = if n == i64::MIN {
            0x8000_0000_0000_0000
        } else {
            (-n) as u64
        };
        let mut s = "-".to_owned();
        s.append(decimal_text(magnitude).as_str());
        s
    } else {
        decimal_text(n as u64)
    }
}

/// Writes a list of numbers in square brackets.
pub fn bracketed_text(items: &Vec<u64>) -> (r: String)
    ensures
        r@ == bracketed(items@),
{
    let mut s = "[".to_owned();
    let mut i: usize = 0;
    while i < items.len()
        invariant
            i <= items@.len(),
            s@ == "["@ + comma_list(items@.take(i as int)),
        decreases items@.len() - i,
    {
        let ghost before = s@;
        if i > 0 {
            s.append(", ");
        }
        s.append(decimal_text(items[i]).as_str());
        proof {
            let shorter = items@.take(i as int);
            let longer = items@.take(i + 1);
            assert(longer.drop_last() =~= shorter);
            if i > 0 {
                assert(s@ =~= "["@ + comma_list(longer));
            } else {
                assert(comma_list(shorter) =~= Seq::<char>::empty());
                assert(s@ =~= "["@ + comma_list(longer));
            }
        }
        i += 1;
    }
    assert(items@.take(i as int) =~= items@);
    s.append("]");
    s
}

/// Writes a truth value.
pub fn truth_text(b: bool) -> (r: String)
    ensures
        r@ == truth(b),
{
    if b {
        "true".to_owned()
    } else {
        "false".to_owned()
    }
}

/// Whether a text is a given word.
pub fn text_is(text: &String, word: &str) -> (r: bool)
    ensures
        r == (text@ == word@),
{
    *text == word.to_owned()
}

/// The decimal of a number holds digits only.
pub proof fn lemma_decimal_digits(n: nat, i: int)
    requires
        0 <= i < decimal(n).len(),
    ensures
        48 <= decimal(n)[i] as nat <= 57,
    decreases n,
{
    if n >= 10 {
        if i < decimal(n).len() - 1 {
            lemma_decimal_digits(n / 10, i);
        }
    }
}

/// Different numbers have different decimals.
pub proof fn lemma_decimal_injective(m: nat, n: nat)
    requires
        decimal(m) == decimal(n),
    ensures
        m == n,
    decreases m,
{
    lemma_decimal_not_empty(m / 10);
    lemma_decimal_not_empty(n / 10);
    assert(decimal(m).last() == digit(m % 10));
    assert(decimal(n).last() == digit(n % 10));
    if m >= 10 && n >= 10 {
        assert(decimal(m).drop_last() =~= decimal(m / 10));
        assert(decimal(n).drop_last() =~= decimal(n / 10));
        lemma_decimal_injective(m / 10, n / 10);
    }
}

proof fn lemma_decimal_not_empty(n: nat)
    ensures
        decimal(n).len() > 0,
{
}

/// The number that decimal digits are read as, from the left.
pub open spec fn read_digits(s: Seq<char>) -> int
    decreases s.len(),
{
    if s.len() == 0 {
        0
    } else {
        read_digits(s.drop_last()) * 10 + (s.last() as int - '0' as int)
    }
}

/// The decimal of a number reads as the number, is made of digits, and begins
/// with a zero only where the number is zero.
pub proof fn law_decimal_reads(n: nat)
    ensures
        read_digits(decimal(n)) == n,
        decimal(n).len() > 0,
        forall|i: int| 0 <= i < decimal(n).len() ==> 48 <= #[trigger] decimal(n)[i] as nat <= 57,
        decimal(n)[0] == '0' ==> n == 0 && decimal(n).len() == 1,
    decreases n,
{
    assert forall|i: int| 0 <= i < decimal(n).len() implies 48 <= #[trigger] decimal(n)[i] as nat
        <= 57 by {
        lemma_decimal_digits(n, i);
    }
    if n < 10 {
        assert(decimal(n).drop_last() =~= Seq::empty());
        assert(read_digits(Seq::empty()) == 0);
        assert(decimal(n).last() == digit(n));
    } else {
        law_decimal_reads(n / 10);
        assert(decimal(n).drop_last() =~= decimal(n / 10));
        assert(decimal(n).last() == digit(n % 10));
        assert(decimal(n)[0] == decimal(n / 10)[0]);
    }
}

/// A signed number is written as its size, with a minus sign before it exactly
/// where it is negative.
pub proof fn law_signed_decimal_reads(n: int)
    ensures
        n >= 0 ==> read_digits(signed_decimal(n)) == n && signed_decimal(n)[0] != '-',
        n < 0 ==> {
            &&& signed_decimal(n)[0] == '-'
            &&& read_digits(signed_decimal(n).skip(1)) == -n
        },
{
    reveal_strlit("-");
    if n < 0 {
        law_decimal_reads((-n) as nat);
        assert(signed_decimal(n).skip(1) =~= decimal((-n) as nat));
    } else {
        law_decimal_reads(n as nat);
        assert(48 <= decimal(n as nat)[0] as nat <= 57);
    }
}

/// A list in brackets grows by a comma, a space and the next number, and by
/// nothing but the number where it was empty.
pub proof fn law_bracketed_grows(items: Seq<u64>, next: u64)
    ensures
        bracketed(Seq::empty()) == "["@ + "]"@,
        bracketed(items.push(next)) == if items.len() == 0 {
            "["@ + decimal(next as nat) + "]"@
        } else {
            bracketed(items).drop_last() + ", "@ + decimal(next as nat) + "]"@
        },
{
    reveal_strlit("]");
    reveal_strlit("[");
    assert(items.push(next).drop_last() =~= items);
    assert("["@ + Seq::<char>::empty() =~= "["@);
    if items.len() > 0 {
        assert(bracketed(items).drop_last() =~= "["@ + comma_list(items));
        assert(bracketed(items.push(next)) =~= bracketed(items).drop_last() + ", "@ + decimal(
            next as nat,
        ) + "]"@);
    }
}

} // verus!
