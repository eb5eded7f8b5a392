//! Numbers as text: hexadecimal and decimal digits appended to strings and read back.

use vstd::prelude::*;

verus! {

/// The lower-case hexadecimal digit of `d`.
pub open spec fn hex_digit(d: int) -> char {
    if d < 10 {
        ('0' as int + d) as char
    } else {
        ('a' as int + d - 10) as char
    }
}

/// The value of a hexadecimal digit of either case, `16` for any other character.
pub open spec fn hex_value(c: char) -> int {
    if '0' <= c <= '9' {
        c as int - '0' as int
    } else if 'a' <= c <= 'f' {
        c as int - 'a' as int + 10
    } else if 'A' <= c <= 'F' {
        c as int - 'A' as int + 10
    } else {
        16
    }
}

/// The `n` lowest hexadecimal digits of `v`, most significant first.
pub open spec fn hex_text(v: int, n: nat) -> Seq<char>
    decreases n,
{
    if n == 0 {
        Seq::empty()
    } else {
        hex_text(v / 16, (n - 1) as nat).push(hex_digit(v % 16))
    }
}

/// The number that `n` hexadecimal digits from offset `i` of `s` denote.
pub open spec fn hex_number(s: Seq<char>, i: int, n: nat) -> int
    decreases n,
{
    if n == 0 {
        0
    } else {
        hex_number(s, i, (n - 1) as nat) * 16 + hex_value(s[i + n - 1])
    }
}

/// The `n`th power of sixteen.
pub open spec fn pow16(n: nat) -> int
    decreases n,
{
    if n == 0 {
        1
    } else {
        pow16((n - 1) as nat) * 16
    }
}

/// The decimal digits of `v`, without leading zeros.
pub open spec fn dec_text(v: int) -> Seq<char>
    decreases v,
{
    if v < 10 {
        seq![hex_digit(v)]
    } else {
        dec_text(v / 10).push(hex_digit(v % 10))
    }
}

/// Whether `n` hexadecimal digits stand at offset `i` of `s`.
pub open spec fn hex_digits_at(s: Seq<char>, i: int, n: nat) -> bool {
    &&& 0 <= i
    &&& i + n <= s.len()
    &&& forall|k: int| i <= k < i + n ==> hex_value(#[trigger] s[k]) < 16
}

/// `n` digits denote a number below the `n`th power of sixteen.
pub proof fn lemma_hex_number_bound(s: Seq<char>, i: int, n: nat)
    requires
        hex_digits_at(s, i, n),
    ensures
        0 <= hex_number(s, i, n) < pow16(n),
    decreases n,
{
    if n > 0 {
        lemma_hex_number_bound(s, i, (n - 1) as nat);
        assert(hex_value(s[i + n - 1]) < 16);
    }
}

/// The powers of sixteen that the groups of a UUID need.
pub proof fn lemma_pow16_values()
    ensures
        pow16(4) == 0x1_0000,
        pow16(8) == 0x1_0000_0000,
        pow16(12) == 0x1_0000_0000_0000,
{
    reveal_with_fuel(pow16, 13);
}

/// Powers of sixteen grow.
pub proof fn lemma_pow16_monotone(m: nat, n: nat)
    requires
        m <= n,
    ensures
        1 <= pow16(m) <= pow16(n),
    decreases n,
{
    if n > 0 {
        if m < n {
            lemma_pow16_monotone(m, (n - 1) as nat);
        } else {
            lemma_pow16_monotone((m - 1) as nat, (n - 1) as nat);
        }
    }
}

/// A digit's character has the digit's value.
pub proof fn lemma_digit_value(d: int)
    requires
        0 <= d < 16,
    ensures
        hex_value(hex_digit(d)) == d,
{
}

/// Writing the `n` lowest digits of a number and reading them back gives the number.
pub proof fn hex_round_trip(v: int, n: nat, before: Seq<char>, after: Seq<char>)
    requires
        0 <= v < pow16(n),
    ensures
        hex_text(v, n).len() == n,
        hex_digits_at(before + hex_text(v, n) + after, before.len() as int, n),
        hex_number(before + hex_text(v, n) + after, before.len() as int, n) == v,
    decreases n,
{
    if n > 0 {
        let head = hex_text(v / 16, (n - 1) as nat);
        let last = hex_digit(v % 16);
        let rest = seq![last] + after;
        hex_round_trip(v / 16, (n - 1) as nat, before, rest);
        assert(before + hex_text(v, n) + after =~= before + head + rest);
        let s = before + hex_text(v, n) + after;
        lemma_digit_value(v % 16);
        assert(s[before.len() + n - 1] == last);
        assert forall|k: int| before.len() <= k < before.len() + n implies hex_value(
            #[trigger] s[k],
        ) < 16 by {}
    }
}

/// The value of a hexadecimal digit of either case, 16 for any other character.
pub fn digit_of(c: char) -> (d: u64)
    ensures
        d == hex_value(c),
{
    let v: u32 = c as u32;
    if '0' <= c && c <= '9' {
        (v - '0' as u32) as u64
    } else if 'a' <= c && c <= 'f' {
        (v - 'a' as u32 + 10) as u64
    } else if 'A' <= c && c <= 'F' {
        (v - 'A' as u32 + 10) as u64
    } else {
        16
    }
}

/// The number that `n` hexadecimal digits from offset `i` of `s` denote.
pub fn number_of(s: &str, i: usize, n: usize) -> (v: u64)
    requires
        n <= 15,
        hex_digits_at(s@, i as int, n as nat),
    ensures
        v == hex_number(s@, i as int, n as nat),
{
    let len: usize = s.unicode_len();
    let mut v: u64 = 0;
    let mut k: usize = 0;
    proof {
        assert(pow16(15) == 0x1000_0000_0000_0000) by {
            reveal_with_fuel(pow16, 16);
        }
    }
    while k < n
        invariant
            k <= n,
            n <= 15,
            len == s@.len(),
            hex_digits_at(s@, i as int, n as nat),
            v == hex_number(s@, i as int, k as nat),
            pow16(15) == 0x1000_0000_0000_0000,
        decreases n - k,
    {
        proof {
            assert(hex_digits_at(s@, i as int, k as nat));
            lemma_hex_number_bound(s@, i as int, k as nat);
            lemma_pow16_monotone(k as nat, 14);
            assert(pow16(15) == pow16(14) * 16);
            assert(hex_value(s@[i + k]) < 16);
        }
        let d: u64 = digit_of(s.get_char(i + k));
        v = v * 16 + d;
        k = k + 1;
    }
    v
}

/// The one-character string of the digit `d`.
fn digit_str(d: u64) -> (s: &'static str)
    requires
        d < 16,
    ensures
        s@ == seq![hex_digit(d as int)],
{
    proof {
        reveal_strlit("0");
        reveal_strlit("1");
        reveal_strlit("2");
        reveal_strlit("3");
        reveal_strlit("4");
        reveal_strlit("5");
        reveal_strlit("6");
        reveal_strlit("7");
        reveal_strlit("8");
        reveal_strlit("9");
        reveal_strlit("a");
        reveal_strlit("b");
        reveal_strlit("c");
        reveal_strlit("d");
        reveal_strlit("e");
        reveal_strlit("f");
    }
    let s: &'static str = match d {
        0 => "0",
        1 => "1",
        2 => "2",
        3 => "3",
        4 => "4",
        5 => "5",
        6 => "6",
        7 => "7",
        8 => "8",
        9 => "9",
        10 => "a",
        11 => "b",
        12 => "c",
        13 => "d",
        14 => "e",
        _ => "f",
    };
    assert(s@ =~= seq![hex_digit(d as int)]);
    s
}

/// Concatenation is associative.
pub broadcast proof fn lemma_add_assoc(a: Seq<char>, b: Seq<char>, c: Seq<char>)
    ensures
        #[trigger] ((a + b) + c) == a + (b + c),
{
    assert((a + b) + c =~= a + (b + c));
}

/// `String::push` of the standard library: appends the character.
pub assume_specification[ String::push ](s: &mut String, c: char)
    ensures
        final(s)@ == old(s)@.push(c),
;

/// The characters of `s`.
pub fn chars_of(s: &str) -> (v: Vec<char>)
    ensures
        v@ == s@,
{
    let mut v: Vec<char> = Vec::new();
    for c in it: s.chars()
        invariant
            it.seq() == s@,
            v@ == s@.take(it.index()),
    {
        v.push(c);
        assert(v@ =~= s@.take(it.index() + 1));
    }
    assert(v@ =~= s@);
    v
}

/// Whether two strings hold the same characters.
pub fn same_text(a: &str, b: &str) -> (r: bool)
    ensures
        r == (a@ == b@),
{
    let x = chars_of(a);
    let y = chars_of(b);
    if x.len() != y.len() {
        return false;
    }
    let mut i: usize = 0;
    while i < x.len()
        invariant
            i <= x@.len(),
            x@.len() == y@.len(),
            x@ == a@,
            y@ == b@,
            forall|k: int| 0 <= k < i ==> x@[k] == y@[k],
        decreases x@.len() - i,
    {
        if x[i] != y[i] {
            assert(a@[i as int] != b@[i as int]);
            return false;
        }
        i = i + 1;
    }
    assert(a@ =~= b@);
    true
}

/// Append the `n` lowest hexadecimal digits of `v`.
pub fn push_hex(out: &mut String, v: u64, n: usize)
    ensures
        final(out)@ == old(out)@ + hex_text(v as int, n as nat),
    decreases n,
{
    if n > 0 {
        push_hex(out, v / 16, n - 1);
        out.append(digit_str(v % 16));
    }
    assert(out@ =~= old(out)@ + hex_text(v as int, n as nat));
}

/// Append the decimal digits of `v`.
pub fn push_dec(out: &mut String, v: u64)
    ensures
        final(out)@ == old(out)@ + dec_text(v as int),
    decreases v,
{
    if v < 10 {
        out.append(digit_str(v));
    } else {
        push_dec(out, v / 10);
        out.append(digit_str(v % 10));
    }
    assert(out@ =~= old(out)@ + dec_text(v as int));
}

/// The upper-case form of a lower-case hexadecimal digit.
pub open spec fn upper_digit(c: char) -> char {
    if 'a' <= c <= 'f' {
        (c as int - 32) as char
    } else {
        c
    }
}

/// The `n` lowest hexadecimal digits of `v`, in upper case.
pub open spec fn upper_hex_text(v: int, n: nat) -> Seq<char> {
    hex_text(v, n).map_values(|c: char| upper_digit(c))
}

/// Append the `n` lowest hexadecimal digits of `v` in upper case.
pub fn push_upper_hex(out: &mut String, v: u64, n: usize)
    ensures
        final(out)@ == old(out)@ + upper_hex_text(v as int, n as nat),
    decreases n,
{
    if n > 0 {
        push_upper_hex(out, v / 16, n - 1);
        let d: u64 = v % 16;
        out.push(upper_char(d));
        assert(hex_text(v as int, n as nat) == hex_text(v as int / 16, (n - 1) as nat).push(
            hex_digit(d as int),
        ));
    }
    assert(out@ =~= old(out)@ + upper_hex_text(v as int, n as nat));
}

fn upper_char(d: u64) -> (c: char)
    requires
        d < 16,
    ensures
        c == upper_digit(hex_digit(d as int)),
{
    match d {
        0 => '0',
        1 => '1',
        2 => '2',
        3 => '3',
        4 => '4',
        5 => '5',
        6 => '6',
        7 => '7',
        8 => '8',
        9 => '9',
        10 => 'A',
        11 => 'B',
        12 => 'C',
        13 => 'D',
        14 => 'E',
        _ => 'F',
    }
}

/// The decimal digits of `v`, with leading zeros up to `n` digits.
pub open spec fn padded_dec_text(v: int, n: int) -> Seq<char>
    decreases n,
{
    if n <= 1 {
        dec_text(v)
    } else {
        padded_dec_text(v / 10, n - 1).push(hex_digit(v % 10))
    }
}

/// Append the decimal digits of `v`, with leading zeros up to `n` digits.
pub fn push_padded_dec(out: &mut String, v: u64, n: usize)
    ensures
        final(out)@ == old(out)@ + padded_dec_text(v as int, n as int),
    decreases n,
{
    if n <= 1 {
        push_dec(out, v);
    } else {
        push_padded_dec(out, v / 10, n - 1);
        out.append(digit_str(v % 10));
    }
    assert(out@ =~= old(out)@ + padded_dec_text(v as int, n as int));
}

/// The characters of the sixteen digits, small and capital, and their values.
pub proof fn digits_have_their_characters(d: int, c: char)
    requires
        0 <= d < 16,
    ensures
        d < 10 ==> hex_digit(d) as int == 48 + d && upper_digit(hex_digit(d)) as int == 48 + d,
        d >= 10 ==> hex_digit(d) as int == 87 + d && upper_digit(hex_digit(d)) as int == 55 + d,
        hex_value(c) == d <==> c == hex_digit(d) || c == upper_digit(hex_digit(d)),
        hex_value(c) <= 16,
{
}

/// A byte takes two digits, a 16-bit number four, the most significant first.
pub proof fn numbers_take_their_digits(v: int)
    requires
        0 <= v,
    ensures
        hex_text(v, 2) == seq![hex_digit(v / 16 % 16), hex_digit(v % 16)],
        upper_hex_text(v, 2) == seq![
            upper_digit(hex_digit(v / 16 % 16)),
            upper_digit(hex_digit(v % 16)),
        ],
        upper_hex_text(v, 4) == seq![
            upper_digit(hex_digit(v / 16 / 16 / 16 % 16)),
            upper_digit(hex_digit(v / 16 / 16 % 16)),
            upper_digit(hex_digit(v / 16 % 16)),
            upper_digit(hex_digit(v % 16)),
        ],
{
    reveal_with_fuel(hex_text, 5);
    assert(hex_text(v, 2) =~= seq![hex_digit(v / 16 % 16), hex_digit(v % 16)]);
    assert(hex_text(v, 4) =~= seq![
        hex_digit(v / 16 / 16 / 16 % 16),
        hex_digit(v / 16 / 16 % 16),
        hex_digit(v / 16 % 16),
        hex_digit(v % 16),
    ]);
}

/// Leading zeros fill a number up to its digits, and keep its last ones.
pub proof fn padding_fills_with_zeros(v: int, n: int)
    requires
        0 <= v,
        n >= 1,
    ensures
        padded_dec_text(v, n).len() >= n,
        padded_dec_text(v, n).last() as int == 48 + v % 10,
        n > 1 && v < 10 ==> padded_dec_text(v, n).drop_last() == padded_dec_text(0, n - 1),
        padded_dec_text(0, 1) == seq!['0'],
    decreases n,
{
    reveal_with_fuel(dec_text, 2);
    assert(padded_dec_text(0, 1) =~= seq!['0']);
    if n > 1 {
        padding_fills_with_zeros(v / 10, n - 1);
        assert(padded_dec_text(v, n).drop_last() =~= padded_dec_text(v / 10, n - 1));
    }
}

} // verus!
