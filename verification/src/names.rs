//! Node names.
//!
//! Nodes of a swarm are named by decimal numerals: the validators by their
//! index at genesis, every later node by a running counter.  Validators are
//! listed in the order of these numbers, so the number that a name stands
//! for is defined here, together with the name of a given number.

use vstd::prelude::*;
use vstd::string::*;

verus! {

/// Whether `c` is one of the digits `0` to `9`.
pub open spec fn is_digit(c: char) -> bool {
    48 <= c as u32 <= 57
}

/// The value of a digit.
pub open spec fn digit_value(c: char) -> int {
    c as u32 - 48
}

/// Whether `s` consists of digits only.
pub open spec fn all_digits(s: Seq<char>) -> bool {
    forall|i: int| 0 <= i < s.len() ==> is_digit(#[trigger] s[i])
}

/// The number that a string of digits denotes; leading zeros count for
/// nothing and the empty string denotes zero.
pub open spec fn digits_value(s: Seq<char>) -> int
    decreases s.len(),
{
    if s.len() == 0 {
        0
    } else {
        digits_value(s.drop_last()) * 10 + digit_value(s.last())
    }
}

/// Whether `s` begins with a sign.
pub open spec fn has_sign(s: Seq<char>) -> bool {
    s.len() > 0 && (s[0] == '-' || s[0] == '+')
}

/// The digits of a numeral: what follows its sign, if it has one.
pub open spec fn numeral_digits(s: Seq<char>) -> Seq<char> {
    if has_sign(s) {
        s.subrange(1, s.len() as int)
    } else {
        s
    }
}

/// The number that a numeral denotes, whether or not it fits anywhere.
pub open spec fn numeral_value(s: Seq<char>) -> int {
    if s.len() > 0 && s[0] == '-' {
        -digits_value(numeral_digits(s))
    } else {
        digits_value(numeral_digits(s))
    }
}

/// The number of a node name: an optional sign, then at least one digit,
/// and a value that a 32-bit signed integer holds.  Anything else is not a
/// numbered name.
pub open spec fn name_number(s: Seq<char>) -> Option<int> {
    if numeral_digits(s).len() > 0 && all_digits(numeral_digits(s)) && i32::MIN <= numeral_value(s)
        <= i32::MAX {
        Some(numeral_value(s))
    } else {
        None
    }
}

/// The digit for a value below ten.
pub open spec fn digit_char(d: nat) -> char {
    ((48 + d) as u8) as char
}

/// The shortest numeral of `n`: no sign and no leading zero.
pub open spec fn decimal(n: nat) -> Seq<char>
    decreases n,
{
    if n < 10 {
        seq![digit_char(n)]
    } else {
        decimal(n / 10).push(digit_char(n % 10))
    }
}

/// One more digit on the right: ten times the value so far, plus the digit.
proof fn lemma_digits_value_push(s: Seq<char>, c: char)
    ensures
        digits_value(s.push(c)) == digits_value(s) * 10 + digit_value(c),
{
    assert(s.push(c).drop_last() =~= s);
}

/// The number of a node name, if it is a numbered name.
pub fn parse_name(name: &str) -> (number: Option<i32>)
    ensures
        number matches Some(n) ==> name_number(name@) == Some(n as int),
        number is None ==> name_number(name@) is None,
{
    let len: usize = name.unicode_len();
    if len == 0 {
        return None;
    }
    let first: char = name.get_char(0);
    let negative: bool = first == '-';
    let start: usize = if first == '-' || first == '+' {
        1
    } else {
        0
    };
    if start == len {
        return None;
    }
    let ghost digits = numeral_digits(name@);
    assert(digits =~= name@.subrange(start as int, len as int));
    // The value read so far, as long as it is within `limit`.
    let limit: u64 = 2147483648;
    let mut value: u64 = 0;
    let mut beyond: bool = false;
    let mut i: usize = start;
    while i < len
        invariant
            start <= i <= len,
            len == name@.len(),
            digits == name@.subrange(start as int, len as int),
            digits == numeral_digits(name@),
            all_digits(digits.subrange(0, i - start)),
            limit == 2147483648,
            !beyond ==> value == digits_value(digits.subrange(0, i - start)) && value <= limit,
            beyond ==> digits_value(digits.subrange(0, i - start)) > limit,
        decreases len - i,
    {
        let c: char = name.get_char(i);
        let code: u32 = c as u32;
        let ghost before = digits.subrange(0, i - start);
        let ghost after = digits.subrange(0, i + 1 - start);
        assert(digits[i - start] == c);
        if code < 48 || code > 57 {
            assert(!is_digit(digits[i - start]));
            return None;
        }
        proof {
            assert(after =~= before.push(c));
            lemma_digits_value_push(before, c);
            assert forall|k: int| 0 <= k < after.len() implies is_digit(#[trigger] after[k]) by {
                if k < before.len() {
                    assert(after[k] == before[k]);
                }
            }
        }
        if !beyond {
            let next: u64 = value * 10 + (code - 48) as u64;
            if next > limit {
                beyond = true;
            } else {
                value = next;
            }
        }
        i = i + 1;
    }
    assert(digits.subrange(0, len - start) =~= digits);
    if beyond {
        None
    } else if negative {
        if value == limit {
            Some(i32::MIN)
        } else {
            Some(-(value as i32))
        }
    } else if value == limit {
        None
    } else {
        Some(value as i32)
    }
}

/// The digit for a value below ten, as a string of one character.
fn digit_str(d: u64) -> (s: &'static str)
    requires
        d < 10,
    ensures
        s@ == seq![digit_char(d as nat)],
{
    proof {
        reveal_strlit("0");
        reveal_strlit("1");
        reveal_strlit("2");
        reveal_strlit("3");
        reveal_strlit("4");
        reveal_strlit("5");
        reveal_strlit("6");
        reveal_strlit("7");
        reveal_strlit("8");
        reveal_strlit("9");
    }
    let s: &'static str = if d == 0 {
        "0"
    } else if d == 1 {
        "1"
    } else if d == 2 {
        "2"
    } else if d == 3 {
        "3"
    } else if d == 4 {
        "4"
    } else if d == 5 {
        "5"
    } else if d == 6 {
        "6"
    } else if d == 7 {
        "7"
    } else if d == 8 {
        "8"
    } else {
        "9"
    };
    assert(s@ =~= seq![digit_char(d as nat)]);
    s
}

/// The name of the node with number `n`.
pub fn node_name(n: u64) -> (name: String)
    ensures
        name@ == decimal(n as nat),
    decreases n,
{
    if n < 10 {
        String::from_str(digit_str(n))
    } else {
        let mut name: String = node_name(n / 10);
        name.append(digit_str(n % 10));
        assert(name@ =~= decimal(n as nat));
        name
    }
}

/// A numeral made by [`decimal`] has digits only, at least one of them, and
/// denotes the number it was made of.
pub proof fn lemma_decimal_digits(n: nat)
    ensures
        decimal(n).len() > 0,
        all_digits(decimal(n)),
        digits_value(decimal(n)) == n,
    decreases n,
{
    if n < 10 {
        assert(decimal(n).drop_last() =~= Seq::<char>::empty());
        assert(digits_value(decimal(n)) == digits_value(Seq::<char>::empty()) * 10 + digit_value(
            digit_char(n),
        ));
    } else {
        lemma_decimal_digits(n / 10);
        lemma_digits_value_push(decimal(n / 10), digit_char(n % 10));
    }
}

/// Naming a number and reading the name gives the number back, as long as
/// it is one that a name can stand for.
pub proof fn lemma_name_of_number(n: nat)
    requires
        n <= i32::MAX,
    ensures
        name_number(decimal(n)) == Some(n as int),
{
    lemma_decimal_digits(n);
    assert(is_digit(decimal(n)[0]));
}

/// Different numbers have different names.
pub proof fn lemma_names_differ(m: nat, n: nat)
    requires
        m != n,
    ensures
        decimal(m) != decimal(n),
{
    lemma_decimal_digits(m);
    lemma_decimal_digits(n);
}

} // verus!
