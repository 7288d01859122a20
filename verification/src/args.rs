//! The putting together of command lines: flags with a value, flags that
//! stand once for each of a list of values, and numbers in hexadecimal.

use vstd::prelude::*;
use crate::text::{push_char, texts};

verus! {

/// `flag` and a value, if there is a value.
pub open spec fn flag_if_given(flag: Seq<char>, value: Option<Seq<char>>) -> Seq<Seq<char>> {
    match value {
        Some(v) => seq![flag, v],
        None => Seq::empty(),
    }
}

/// `flag` and a value, once for each of the values, in order.
pub open spec fn flag_for_each(flag: Seq<char>, values: Seq<Seq<char>>) -> Seq<Seq<char>>
    decreases values.len(),
{
    if values.len() == 0 {
        Seq::empty()
    } else {
        flag_for_each(flag, values.drop_last()) + seq![flag, values.last()]
    }
}

/// The text of an optional string.
pub open spec fn option_text(value: Option<String>) -> Option<Seq<char>> {
    match value {
        Some(s) => Some(s@),
        None => None,
    }
}

/// Appends `flag` and the value, if there is one.
pub fn push_flag_if_given(args: &mut Vec<String>, flag: &str, value: Option<String>)
    ensures
        texts(final(args)@) == texts(old(args)@) + flag_if_given(flag@, option_text(value)),
{
    match value {
        Some(v) => {
            args.push(String::from_str(flag));
            args.push(v);
            assert(texts(args@) =~= texts(old(args)@) + seq![flag@, v@]);
        },
        None => {
            assert(texts(args@) =~= texts(old(args)@) + Seq::<Seq<char>>::empty());
        },
    }
}

/// Appends `flag` and a value, once for each of the values, in order.
pub fn push_flag_for_each(args: &mut Vec<String>, flag: &str, values: &Vec<String>)
    ensures
        texts(final(args)@) == texts(old(args)@) + flag_for_each(flag@, texts(values@)),
{
    let ghost names = texts(values@);
    let mut i: usize = 0;
    assert(names.take(0) =~= Seq::empty());
    assert(texts(args@) =~= texts(old(args)@) + flag_for_each(flag@, names.take(0)));
    while i < values.len()
        invariant
            i <= values.len(),
            names == texts(values@),
            texts(args@) == texts(old(args)@) + flag_for_each(flag@, names.take(i as int)),
        decreases values.len() - i,
    {
        let ghost before = texts(args@);
        args.push(String::from_str(flag));
        args.push(values[i].clone());
        proof {
            assert(names.take(i + 1).drop_last() =~= names.take(i as int));
            assert(names.take(i + 1).last() == values@[i as int]@);
            assert(texts(args@) =~= before + seq![flag@, values@[i as int]@]);
        }
        i += 1;
    }
    assert(names.take(values@.len() as int) =~= names);
}

/// The hexadecimal digit of a number below sixteen, in lower case.
pub open spec fn hex_digit(d: int) -> char {
    if d == 0 {
        '0'
    } else if d == 1 {
        '1'
    } else if d == 2 {
        '2'
    } else if d == 3 {
        '3'
    } else if d == 4 {
        '4'
    } else if d == 5 {
        '5'
    } else if d == 6 {
        '6'
    } else if d == 7 {
        '7'
    } else if d == 8 {
        '8'
    } else if d == 9 {
        '9'
    } else if d == 10 {
        'a'
    } else if d == 11 {
        'b'
    } else if d == 12 {
        'c'
    } else if d == 13 {
        'd'
    } else if d == 14 {
        'e'
    } else {
        'f'
    }
}

/// The last `width` hexadecimal digits of `n`, the most significant first,
/// with zeros in front where `n` has fewer.
pub open spec fn hex(n: int, width: nat) -> Seq<char>
    decreases width,
{
    if width == 0 {
        Seq::empty()
    } else {
        hex(n / 16, (width - 1) as nat).push(hex_digit(n % 16))
    }
}

fn hex_digit_of(d: u64) -> (c: char)
    requires
        d < 16,
    ensures
        c == hex_digit(d as int),
{
    if d == 0 {
        '0'
    } else if d == 1 {
        '1'
    } else if d == 2 {
        '2'
    } else if d == 3 {
        '3'
    } else if d == 4 {
        '4'
    } else if d == 5 {
        '5'
    } else if d == 6 {
        '6'
    } else if d == 7 {
        '7'
    } else if d == 8 {
        '8'
    } else if d == 9 {
        '9'
    } else if d == 10 {
        'a'
    } else if d == 11 {
        'b'
    } else if d == 12 {
        'c'
    } else if d == 13 {
        'd'
    } else if d == 14 {
        'e'
    } else {
        'f'
    }
}

fn push_hex(out: &mut String, n: u64, width: u8)
    ensures
        final(out)@ == old(out)@ + hex(n as int, width as nat),
    decreases width,
{
    if width > 0 {
        push_hex(out, n / 16, width - 1);
        push_char(out, hex_digit_of(n % 16));
        assert(out@ =~= old(out)@ + hex(n as int, width as nat));
    } else {
        assert(out@ =~= old(out)@ + hex(n as int, 0));
    }
}

/// `n` as sixteen hexadecimal digits.
pub fn hex16(n: u64) -> (s: String)
    ensures
        s@ == hex(n as int, 16),
{
    let mut s = String::new();
    push_hex(&mut s, n, 16);
    assert(s@ =~= hex(n as int, 16));
    s
}

} // verus!
