use vstd::prelude::*;

verus! {

/// The lowercase hexadecimal digit that stands for `n`, a number below sixteen.
pub open spec fn hex_digit(n: int) -> char {
    if n < 10 {
        ('0' as int + n) as char
    } else {
        ('a' as int + n - 10) as char
    }
}

/// The number that the lowercase hexadecimal digit `c` stands for, if it is one.
pub open spec fn hex_digit_value(c: char) -> Option<int> {
    if '0' <= c <= '9' {
        Some(c as int - '0' as int)
    } else if 'a' <= c <= 'f' {
        Some(c as int - 'a' as int + 10)
    } else {
        None
    }
}

/// Sixteen to the power `n`.
pub open spec fn pow16(n: nat) -> nat
    decreases n,
{
    if n == 0 {
        1
    } else {
        16 * pow16((n - 1) as nat)
    }
}

/// `value` written with exactly `width` lowercase hexadecimal digits, most
/// significant first; digits beyond the width are dropped.
pub open spec fn hex_text(value: nat, width: nat) -> Seq<char>
    decreases width,
{
    if width == 0 {
        Seq::empty()
    } else {
        hex_text(value / 16, (width - 1) as nat).push(hex_digit((value % 16) as int))
    }
}

/// The number that `s` denotes when every character of it is a lowercase
/// hexadecimal digit.
pub open spec fn hex_value(s: Seq<char>) -> Option<nat>
    decreases s.len(),
{
    if s.len() == 0 {
        Some(0)
    } else {
        match (hex_value(s.drop_last()), hex_digit_value(s.last())) {
            (Some(high), Some(low)) => Some((16 * high + low) as nat),
            _ => None,
        }
    }
}

/// The digit for a number stands for that number.
pub proof fn lemma_hex_digit_round_trip(n: int)
    requires
        0 <= n < 16,
    ensures
        hex_digit_value(hex_digit(n)) == Some(n),
{
}

/// A digit is the digit for the number it stands for.
pub proof fn lemma_hex_digit_unique(c: char)
    requires
        hex_digit_value(c) is Some,
    ensures
        0 <= hex_digit_value(c)->0 < 16,
        hex_digit(hex_digit_value(c)->0) == c,
{
}

/// A text of `width` digits has `width` characters.
pub proof fn lemma_hex_text_len(value: nat, width: nat)
    ensures
        hex_text(value, width).len() == width,
    decreases width,
{
    if width > 0 {
        lemma_hex_text_len(value / 16, (width - 1) as nat);
    }
}

/// Reading back what was written gives the number again, as far as it fits
/// the width.
pub proof fn lemma_hex_round_trip(value: nat, width: nat)
    requires
        value < pow16(width),
    ensures
        hex_value(hex_text(value, width)) == Some(value),
    decreases width,
{
    if width > 0 {
        let rest = hex_text(value / 16, (width - 1) as nat);
        let text = hex_text(value, width);
        lemma_hex_round_trip(value / 16, (width - 1) as nat);
        assert(text.drop_last() =~= rest);
        lemma_hex_digit_round_trip((value % 16) as int);
    }
}

/// A text that denotes a number is the one that writing the number gives,
/// and the number is below sixteen to the power of its length.
pub proof fn lemma_hex_value_unique(s: Seq<char>)
    requires
        hex_value(s) is Some,
    ensures
        hex_value(s)->0 < pow16(s.len()),
        hex_text(hex_value(s)->0, s.len()) == s,
    decreases s.len(),
{
    if s.len() > 0 {
        lemma_hex_value_unique(s.drop_last());
        lemma_hex_digit_unique(s.last());
        let high = hex_value(s.drop_last())->0;
        let low = hex_digit_value(s.last())->0;
        let v = (16 * high + low) as nat;
        assert(v / 16 == high && v % 16 == low);
        assert(hex_text(v, s.len()) =~= s);
    }
}

/// Sixteen to the power `n` grows with `n`.
pub proof fn lemma_pow16_grows(m: nat, n: nat)
    requires
        m <= n,
    ensures
        pow16(m) <= pow16(n),
        pow16(m) >= 1,
    decreases n,
{
    if m < n {
        lemma_pow16_grows(m, (n - 1) as nat);
    } else if m > 0 {
        lemma_pow16_grows((m - 1) as nat, (m - 1) as nat);
    }
}

/// Thirty-two hexadecimal digits are exactly the range of a `u128`.
pub proof fn lemma_pow16_of_32()
    ensures
        pow16(2) == 0x100,
        pow16(16) == 0x1_0000_0000_0000_0000,
        pow16(32) == 0x1_0000_0000_0000_0000_0000_0000_0000_0000,
{
    reveal_with_fuel(pow16, 9);
    assert(pow16(8) == 0x1_0000_0000);
    assert(pow16(16) == 0x1_0000_0000 * pow16(8));
    assert(pow16(24) == 0x1_0000_0000 * pow16(16));
    assert(pow16(32) == 0x1_0000_0000 * pow16(24));
}

/// The digit for `n`, a number below sixteen.
pub fn hex_digit_of(n: u8) -> (c: char)
    requires
        n < 16,
    ensures
        c == hex_digit(n as int),
{
    if n < 10 {
        (48u8 + n) as char
    } else {
        (87u8 + n) as char
    }
}

/// The number that the digit `c` stands for; `None` when `c` is no lowercase
/// hexadecimal digit.
pub fn hex_digit_value_of(c: char) -> (v: Option<u8>)
    ensures
        match v {
            Some(n) => hex_digit_value(c) == Some(n as int),
            None => hex_digit_value(c) is None,
        },
{
    let code: u32 = c as u32;
    if 48 <= code && code <= 57 {
        Some((code - 48) as u8)
    } else if 97 <= code && code <= 102 {
        Some((code - 87) as u8)
    } else {
        None
    }
}

/// Appends `value`, written with exactly `width` digits, to `out`.
pub fn push_hex(out: &mut String, value: u128, width: u8)
    ensures
        final(out)@ == old(out)@ + hex_text(value as nat, width as nat),
    decreases width,
{
    if width > 0 {
        push_hex(out, value / 16, width - 1);
        out.push(hex_digit_of((value % 16) as u8));
        assert(final(out)@ =~= old(out)@ + hex_text(value as nat, width as nat)) by {
            reveal_with_fuel(hex_text, 2);
        }
    } else {
        assert(final(out)@ =~= old(out)@ + hex_text(value as nat, width as nat));
    }
}

/// The number that the digits `chars[from..to]` denote; `None` when one of
/// them is no lowercase hexadecimal digit.
pub fn read_hex(chars: &Vec<char>, from: usize, to: usize) -> (v: Option<u128>)
    requires
        from <= to <= chars.len(),
        to - from <= 32,
    ensures
        match v {
            Some(n) => hex_value(chars@.subrange(from as int, to as int)) == Some(n as nat),
            None => hex_value(chars@.subrange(from as int, to as int)) is None,
        },
{
    let mut acc: u128 = 0;
    let mut i: usize = from;
    while i < to
        invariant
            from <= i <= to <= chars.len(),
            to - from <= 32,
            hex_value(chars@.subrange(from as int, i as int)) == Some(acc as nat),
        decreases to - i,
    {
        let ghost before = chars@.subrange(from as int, i as int);
        let ghost after = chars@.subrange(from as int, i + 1);
        proof {
            assert(after.drop_last() =~= before);
            assert(after.last() == chars@[i as int]);
            lemma_hex_value_unique(before);
            lemma_pow16_grows(before.len(), 31);
            lemma_pow16_of_32();
            assert(pow16(32) == 16 * pow16(31)) by {
                reveal_with_fuel(pow16, 2);
            }
        }
        match hex_digit_value_of(chars[i]) {
            Some(d) => {
                acc = acc * 16 + d as u128;
            },
            None => {
                proof {
                    lemma_hex_value_none_extends(chars@.subrange(from as int, to as int), after.len());
                    assert(chars@.subrange(from as int, to as int).take(after.len() as int) =~= after);
                }
                return None;
            },
        }
        i += 1;
    }
    Some(acc)
}

/// A text with a prefix that denotes no number denotes none either.
pub proof fn lemma_hex_value_none_extends(s: Seq<char>, n: nat)
    requires
        n <= s.len(),
        hex_value(s.take(n as int)) is None,
    ensures
        hex_value(s) is None,
    decreases s.len(),
{
    if n < s.len() {
        assert(s.drop_last().take(n as int) =~= s.take(n as int));
        lemma_hex_value_none_extends(s.drop_last(), n);
    } else {
        assert(s.take(n as int) =~= s);
    }
}

} // verus!
