//! The reserved names of synthetic padding fields.

use vstd::prelude::*;
use vstd::string::*;

verus! {

/// The character of a decimal digit.
pub open spec fn digit_char(digit: nat) -> char
    recommends
        digit < 10,
{
    (digit + 48) as u8 as char
}

/// The decimal digits of `n`, most significant first, without leading
/// zeros.
pub open spec fn decimal(n: nat) -> Seq<char>
    decreases n,
{
    if n < 10 {
        seq![digit_char(n)]
    } else {
        decimal(n / 10).push(digit_char(n % 10))
    }
}

/// The decimal digits of `index`, filled with zeros on the left to at least
/// three digits.
pub open spec fn padded_index(index: nat) -> Seq<char> {
    if index < 10 {
        seq!['0', '0'] + decimal(index)
    } else if index < 100 {
        seq!['0'] + decimal(index)
    } else {
        decimal(index)
    }
}

/// The prefix that marks a field as synthetic padding.
pub open spec fn reserved_prefix() -> Seq<char> {
    seq!['_', '_', 'p', 'a', 'd']
}

/// The name of the padding field with the given index.
pub open spec fn pad_name(index: nat) -> Seq<char> {
    reserved_prefix() + padded_index(index)
}

/// Whether a field name follows the naming convention of synthetic padding.
pub open spec fn is_padding_name(name: Seq<char>) -> bool {
    name.len() >= 5 && name.subrange(0, 5) == reserved_prefix()
}

/// The text of one decimal digit.
fn digit_text(digit: usize) -> (text: &'static str)
    requires
        digit < 10,
    ensures
        text@ == seq![digit_char(digit as nat)],
{
    proof {
        reveal_strlit("0");
        reveal_strlit("1");
        reveal_strlit("2");
        reveal_strlit("3");
        reveal_strlit("4");
        reveal_strlit("5");
        reveal_strlit("6");
        reveal_strlit("7");
        reveal_strlit("8");
        reveal_strlit("9");
    }
    let text = if digit == 0 {
        "0"
    } else if digit == 1 {
        "1"
    } else if digit == 2 {
        "2"
    } else if digit == 3 {
        "3"
    } else if digit == 4 {
        "4"
    } else if digit == 5 {
        "5"
    } else if digit == 6 {
        "6"
    } else if digit == 7 {
        "7"
    } else if digit == 8 {
        "8"
    } else {
        "9"
    };
    assert(text@ =~= seq![digit_char(digit as nat)]);
    text
}

/// Appends the decimal digits of `n` to `text`.
fn push_decimal(text: &mut String, n: usize)
    ensures
        final(text)@ == old(text)@ + decimal(n as nat),
    decreases n,
{
    if n >= 10 {
        push_decimal(text, n / 10);
    }
    text.append(digit_text(n % 10));
    proof {
        if n >= 10 {
            assert(text@ =~= old(text)@ + decimal(n as nat));
        }
    }
}

/// Builds the name of the padding field with the given index: the reserved
/// prefix, then the index in decimal with at least three digits.
pub fn padding_name(index: usize) -> (name: String)
    ensures
        name@ == pad_name(index as nat),
{
    proof {
        reveal_strlit("__pad");
        reveal_strlit("00");
        reveal_strlit("0");
    }
    let mut name = "__pad".to_owned();
    assert(name@ =~= reserved_prefix());
    if index < 10 {
        name.append("00");
        assert(name@ =~= reserved_prefix() + seq!['0', '0']);
    } else if index < 100 {
        name.append("0");
        assert(name@ =~= reserved_prefix() + seq!['0']);
    }
    push_decimal(&mut name, index);
    assert(name@ =~= pad_name(index as nat));
    name
}

/// Tells whether a field name follows the naming convention of synthetic
/// padding.
pub fn has_reserved_prefix(name: &String) -> (r: bool)
    ensures
        r == is_padding_name(name@),
{
    let text = name.as_str();
    if text.unicode_len() < 5 {
        return false;
    }
    let r = text.get_char(0) == '_' && text.get_char(1) == '_' && text.get_char(2) == 'p'
        && text.get_char(3) == 'a' && text.get_char(4) == 'd';
    proof {
        let head = name@.subrange(0, 5);
        assert(head[0] == name@[0] && head[1] == name@[1] && head[2] == name@[2] && head[3]
            == name@[3] && head[4] == name@[4]);
        if r {
            assert(head =~= reserved_prefix());
        }
    }
    r
}

/// The number that a sequence of decimal digits writes.
pub open spec fn digits_value(digits: Seq<char>) -> int
    decreases digits.len(),
{
    if digits.len() == 0 {
        0
    } else {
        digits_value(digits.drop_last()) * 10 + (digits.last() as u32 - 48)
    }
}

proof fn lemma_decimal_value(n: nat)
    ensures
        digits_value(decimal(n)) == n,
    decreases n,
{
    if n < 10 {
        assert(decimal(n).drop_last() =~= Seq::<char>::empty());
        assert(digits_value(decimal(n).drop_last()) == 0);
    } else {
        lemma_decimal_value(n / 10);
        assert(decimal(n).drop_last() =~= decimal(n / 10));
    }
}

proof fn lemma_leading_zero(digits: Seq<char>)
    ensures
        digits_value(seq!['0'] + digits) == digits_value(digits),
    decreases digits.len(),
{
    let whole = seq!['0'] + digits;
    if digits.len() == 0 {
        assert(whole.drop_last() =~= Seq::<char>::empty());
        assert(digits_value(whole.drop_last()) == 0);
    } else {
        lemma_leading_zero(digits.drop_last());
        assert(whole.drop_last() =~= seq!['0'] + digits.drop_last());
    }
}

proof fn lemma_padded_index_value(index: nat)
    ensures
        digits_value(padded_index(index)) == index,
{
    lemma_decimal_value(index);
    if index < 10 {
        lemma_leading_zero(decimal(index));
        lemma_leading_zero(seq!['0'] + decimal(index));
        assert(seq!['0', '0'] + decimal(index) =~= seq!['0'] + (seq!['0'] + decimal(index)));
    } else if index < 100 {
        lemma_leading_zero(decimal(index));
    }
}

/// Padding fields with different indices bear different names.
pub proof fn law_pad_names_distinct(i: nat, j: nat)
    requires
        i != j,
    ensures
        pad_name(i) != pad_name(j),
{
    lemma_padded_index_value(i);
    lemma_padded_index_value(j);
    if pad_name(i) == pad_name(j) {
        let len = pad_name(i).len() as int;
        assert(pad_name(i).subrange(5, len) =~= padded_index(i));
        assert(pad_name(j).subrange(5, len) =~= padded_index(j));
    }
}

} // verus!
