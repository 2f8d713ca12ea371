//! Scalars on the bus and small text tools. A scalar reading travels as the
//! bit pattern of an IEEE 754 single; whole numbers are turned into that
//! pattern here.

use vstd::prelude::*;
use vstd::arithmetic::power2::*;
use vstd::string::*;
use crate::msg::texts;

verus! {

/// Whether shifting `n` left by `k` places gives a 24-bit significand with
/// its top bit set.
pub open spec fn normalises(n: nat, k: nat) -> bool {
    0x80_0000 <= n * pow2(k) < 0x100_0000
}

/// The bit pattern of the single that equals the whole number `n`, for
/// `n` below 2^24: zero for zero; else the biased exponent `150 - k` above
/// the 23 low bits of the significand `n * 2^k`.
pub open spec fn single_bits(n: nat) -> nat {
    if n == 0 {
        0
    } else {
        let k = choose|k: nat| normalises(n, k);
        ((150 - k) * 0x80_0000 + (n * pow2(k) - 0x80_0000)) as nat
    }
}

/// Only one shift normalises a number.
pub proof fn lemma_normalises_unique(n: nat, k1: nat, k2: nat)
    requires
        normalises(n, k1),
        normalises(n, k2),
    ensures
        k1 == k2,
{
    if k1 < k2 {
        lemma_doubles(n, k1, k2);
    } else if k2 < k1 {
        lemma_doubles(n, k2, k1);
    }
}

proof fn lemma_doubles(n: nat, k1: nat, k2: nat)
    requires
        k1 < k2,
    ensures
        n * pow2(k2) >= 2 * (n * pow2(k1)),
{
    let d = (k2 - k1) as nat;
    lemma_pow2_adds(k1, d);
    lemma_pow2_strictly_increases(0, d);
    lemma2_to64();
    assert(pow2(d) >= 2);
    assert(n * (pow2(k1) * pow2(d)) >= 2 * (n * pow2(k1))) by (nonlinear_arith)
        requires
            pow2(d) >= 2,
    ;
}

/// The bit pattern of the single that equals `n`.
pub fn single_of_u8(n: u8) -> (bits: u32)
    ensures
        bits == single_bits(n as nat),
{
    if n == 0 {
        return 0;
    }
    let mut mant: u32 = n as u32;
    let mut exp: u32 = 150;
    let ghost mut k: nat = 0;
    proof {
        lemma2_to64();
    }
    while mant < 0x80_0000
        invariant
            mant == n * pow2(k),
            exp == 150 - k,
            k <= 23,
            1 <= mant < 0x100_0000,
            pow2(k) <= mant,
            n >= 1,
        decreases 0x100_0000 - mant,
    {
        proof {
            lemma2_to64();
            if k >= 23 {
                if k > 23 {
                    lemma_pow2_strictly_increases(23, k);
                }
                assert(false);
            }
            lemma_pow2_unfold(k + 1);
            assert(n * (2 * pow2(k)) == 2 * (n * pow2(k))) by (nonlinear_arith);
            assert(2 * pow2(k) <= 2 * (n * pow2(k))) by (nonlinear_arith)
                requires
                    n >= 1,
            ;
            k = k + 1;
        }
        mant = mant * 2;
        exp = exp - 1;
    }
    proof {
        assert(normalises(n as nat, k));
        let c = choose|c: nat| normalises(n as nat, c);
        lemma_normalises_unique(n as nat, k, c);
    }
    exp * 0x80_0000 + (mant - 0x80_0000)
}

/// The bit pattern that stands for a flag on the bus: that of 1 for set, of 0
/// for clear.
pub fn single_of_bool(b: bool) -> (bits: u32)
    ensures
        bits == single_bits(if b { 1nat } else { 0nat }),
        bits == if b { 0x3f80_0000u32 } else { 0u32 },
{
    let bits = single_of_u8(if b { 1 } else { 0 });
    proof {
        lemma_single_of_one();
    }
    bits
}

/// The single 1.0 has the bit pattern 0x3f800000.
pub proof fn lemma_single_of_one()
    ensures
        single_bits(1) == 0x3f80_0000,
{
    lemma2_to64();
    assert(normalises(1, 23));
    let c = choose|c: nat| normalises(1, c);
    lemma_normalises_unique(1, 23, c);
}

/// The character of one decimal digit.
pub open spec fn digit(d: nat) -> char {
    if d == 0 {
        '0'
    } else if d == 1 {
        '1'
    } else if d == 2 {
        '2'
    } else if d == 3 {
        '3'
    } else if d == 4 {
        '4'
    } else if d == 5 {
        '5'
    } else if d == 6 {
        '6'
    } else if d == 7 {
        '7'
    } else if d == 8 {
        '8'
    } else {
        '9'
    }
}

/// The decimal notation of a whole number, without sign or leading zeros.
pub open spec fn decimal(n: nat) -> Seq<char>
    decreases n,
{
    if n < 10 {
        seq![digit(n)]
    } else {
        decimal(n / 10).push(digit(n % 10))
    }
}

fn digit_text(d: u16) -> (s: &'static str)
    requires
        d < 10,
    ensures
        s@ == seq![digit(d as nat)],
{
    let s = if d == 0 {
        "0"
    } else if d == 1 {
        "1"
    } else if d == 2 {
        "2"
    } else if d == 3 {
        "3"
    } else if d == 4 {
        "4"
    } else if d == 5 {
        "5"
    } else if d == 6 {
        "6"
    } else if d == 7 {
        "7"
    } else if d == 8 {
        "8"
    } else {
        "9"
    };
    proof {
        reveal_strlit("0");
        reveal_strlit("1");
        reveal_strlit("2");
        reveal_strlit("3");
        reveal_strlit("4");
        reveal_strlit("5");
        reveal_strlit("6");
        reveal_strlit("7");
        reveal_strlit("8");
        reveal_strlit("9");
        assert(s@ =~= seq![digit(d as nat)]);
    }
    s
}

/// Writes a whole number in decimal notation.
pub fn decimal_text(n: u16) -> (s: String)
    ensures
        s@ == decimal(n as nat),
    decreases n,
{
    if n < 10 {
        String::from_str(digit_text(n))
    } else {
        let mut s = decimal_text(n / 10);
        s.append(digit_text(n % 10));
        assert(s@ =~= decimal(n as nat));
        s
    }
}

/// The text of a flag: `true` or `false`.
pub open spec fn flag(b: bool) -> Seq<char> {
    if b {
        "true"@
    } else {
        "false"@
    }
}

/// Writes a flag as `true` or `false`.
pub fn flag_text(b: bool) -> (s: String)
    ensures
        s@ == flag(b),
{
    if b {
        String::from_str("true")
    } else {
        String::from_str("false")
    }
}

/// Whether two strings hold the same text.
pub fn same(a: &str, b: &str) -> (r: bool)
    ensures
        r == (a@ == b@),
{
    String::from_str(a) == String::from_str(b)
}

/// The pieces of a text between the separators, in order. A text without
/// separator is one piece; two separators side by side hold an empty piece.
pub open spec fn split_on(s: Seq<char>, sep: char) -> Seq<Seq<char>>
    decreases s.len(),
{
    if s.len() == 0 {
        seq![Seq::<char>::empty()]
    } else {
        let before = split_on(s.drop_last(), sep);
        if s.last() == sep {
            before.push(Seq::<char>::empty())
        } else {
            before.update(before.len() - 1, before.last().push(s.last()))
        }
    }
}

/// Splits a text at every `sep`.
pub fn split(s: &str, sep: char) -> (pieces: Vec<String>)
    ensures
        texts(pieces@) == split_on(s@, sep),
        pieces@.len() >= 1,
{
    let n = s.unicode_len();
    let mut done: Vec<String> = Vec::new();
    let mut start: usize = 0;
    let mut i: usize = 0;
    assert(s@.take(0) =~= Seq::<char>::empty());
    assert(texts(done@).push(s@.subrange(0, 0)) =~= split_on(s@.take(0), sep));
    while i < n
        invariant
            n == s@.len(),
            start <= i <= n,
            split_on(s@.take(i as int), sep) == texts(done@).push(
                s@.subrange(start as int, i as int),
            ),
        decreases n - i,
    {
        let c = s.get_char(i);
        let ghost before = texts(done@);
        proof {
            assert(s@.take(i as int + 1).drop_last() =~= s@.take(i as int));
            assert(s@.take(i as int + 1).last() == c);
        }
        if c == sep {
            done.push(String::from_str(s.substring_char(start, i)));
            proof {
                assert(texts(done@) =~= before.push(s@.subrange(start as int, i as int)));
                assert(s@.subrange(i as int + 1, i as int + 1) =~= Seq::<char>::empty());
            }
            start = i + 1;
        } else {
            proof {
                assert(s@.subrange(start as int, i as int).push(c) =~= s@.subrange(
                    start as int,
                    i as int + 1,
                ));
                assert(before.push(s@.subrange(start as int, i as int)).update(
                    before.len() as int,
                    s@.subrange(start as int, i as int + 1),
                ) =~= before.push(s@.subrange(start as int, i as int + 1)));
            }
        }
        i += 1;
    }
    let ghost before = texts(done@);
    done.push(String::from_str(s.substring_char(start, n)));
    proof {
        assert(s@.take(n as int) =~= s@);
        assert(texts(done@) =~= before.push(s@.subrange(start as int, n as int)));
    }
    done
}

/// Whether `i` is the first place of `c` in `s`.
pub open spec fn first_at(s: Seq<char>, c: char, i: int) -> bool {
    &&& 0 <= i < s.len()
    &&& s[i] == c
    &&& forall|j: int| 0 <= j < i ==> s[j] != c
}

/// The first place of `c` in `s`.
pub open spec fn first_index(s: Seq<char>, c: char) -> Option<int> {
    if exists|i: int| first_at(s, c, i) {
        Some(choose|i: int| first_at(s, c, i))
    } else {
        None
    }
}

/// Finds the first place of `c` in `s`, counted in characters.
pub fn find_char(s: &str, c: char) -> (r: Option<usize>)
    ensures
        match r {
            Some(i) => first_index(s@, c) == Some(i as int),
            None => first_index(s@, c) is None,
        },
{
    let n = s.unicode_len();
    let mut i: usize = 0;
    while i < n
        invariant
            n == s@.len(),
            i <= n,
            forall|j: int| 0 <= j < i ==> s@[j] != c,
        decreases n - i,
    {
        if s.get_char(i) == c {
            proof {
                assert(first_at(s@, c, i as int));
                let k = choose|k: int| first_at(s@, c, k);
                assert(first_at(s@, c, k));
            }
            return Some(i);
        }
        i += 1;
    }
    None
}

/// Whether a character is white space: the characters of Unicode's
/// `White_Space` property.
pub open spec fn is_space(c: char) -> bool {
    let n = c as u32;
    ||| 0x09 <= n <= 0x0d
    ||| n == 0x20
    ||| n == 0x85
    ||| n == 0xa0
    ||| n == 0x1680
    ||| 0x2000 <= n <= 0x200a
    ||| n == 0x2028
    ||| n == 0x2029
    ||| n == 0x202f
    ||| n == 0x205f
    ||| n == 0x3000
}

/// Tells white space from other characters.
pub fn is_white_space(c: char) -> (r: bool)
    ensures
        r == is_space(c),
{
    let n = c as u32;
    (0x09 <= n && n <= 0x0d) || n == 0x20 || n == 0x85 || n == 0xa0 || n == 0x1680 || (0x2000 <= n
        && n <= 0x200a) || n == 0x2028 || n == 0x2029 || n == 0x202f || n == 0x205f || n
        == 0x3000
}

/// Whether the white space at the start of `s` ends at `i`.
pub open spec fn starts_at(s: Seq<char>, i: int) -> bool {
    &&& 0 <= i <= s.len()
    &&& forall|j: int| 0 <= j < i ==> is_space(s[j])
    &&& i < s.len() ==> !is_space(s[i])
}

/// Whether the white space at the end of `s` begins at `e`.
pub open spec fn ends_at(s: Seq<char>, e: int) -> bool {
    &&& 0 <= e <= s.len()
    &&& forall|j: int| e <= j < s.len() ==> is_space(s[j])
    &&& e > 0 ==> !is_space(s[e - 1])
}

/// A text without the white space at its two ends; empty where it is all
/// white space.
pub open spec fn trimmed(s: Seq<char>) -> Seq<char> {
    let i = choose|i: int| starts_at(s, i);
    let e = choose|e: int| ends_at(s, e);
    if i <= e {
        s.subrange(i, e)
    } else {
        Seq::empty()
    }
}

/// Removes the white space at the two ends of a text.
pub fn trim(s: &str) -> (r: String)
    ensures
        r@ == trimmed(s@),
{
    let n = s.unicode_len();
    let mut i: usize = 0;
    while i < n && is_white_space(s.get_char(i))
        invariant
            n == s@.len(),
            i <= n,
            forall|j: int| 0 <= j < i ==> is_space(s@[j]),
        decreases n - i,
    {
        i += 1;
    }
    let mut e: usize = n;
    while e > 0 && is_white_space(s.get_char(e - 1))
        invariant
            n == s@.len(),
            e <= n,
            forall|j: int| e <= j < n ==> is_space(s@[j]),
        decreases e,
    {
        e -= 1;
    }
    proof {
        assert(starts_at(s@, i as int));
        assert(ends_at(s@, e as int));
        let ci = choose|c: int| starts_at(s@, c);
        let ce = choose|c: int| ends_at(s@, c);
        assert(starts_at(s@, ci));
        assert(ends_at(s@, ce));
        if ci < i {
            assert(is_space(s@[ci]));
        } else if i < ci {
            assert(is_space(s@[i as int]));
        }
        if ce < e {
            assert(is_space(s@[e - 1]));
        } else if e < ce {
            assert(is_space(s@[ce - 1]));
        }
    }
    if i <= e {
        String::from_str(s.substring_char(i, e))
    } else {
        String::new()
    }
}

/// Trimming leaves no white space at either end, and a text without white
/// space at its ends is its own trimming.
pub proof fn lemma_trimmed_is_trim(s: Seq<char>)
    ensures
        trimmed(s).len() > 0 ==> !is_space(trimmed(s).first()) && !is_space(trimmed(s).last()),
        trimmed(s).len() <= s.len(),
        s.len() > 0 && !is_space(s.first()) && !is_space(s.last()) ==> trimmed(s) == s,
{
    let i = choose|i: int| starts_at(s, i);
    let e = choose|e: int| ends_at(s, e);
    lemma_white_space_has_ends(s);
    if s.len() > 0 && !is_space(s.first()) && !is_space(s.last()) {
        if i > 0 {
            assert(is_space(s[0]));
        }
        if e < s.len() {
            assert(is_space(s[s.len() - 1]));
        }
        assert(s.subrange(0, s.len() as int) =~= s);
    }
}

/// Every text has the two places where its white space ends and begins.
pub proof fn lemma_white_space_has_ends(s: Seq<char>)
    ensures
        exists|i: int| starts_at(s, i),
        exists|e: int| ends_at(s, e),
    decreases s.len(),
{
    if s.len() == 0 {
        assert(starts_at(s, 0));
        assert(ends_at(s, 0));
    } else {
        lemma_white_space_has_ends(s.drop_last());
        let t = s.drop_last();
        let i = choose|i: int| starts_at(t, i);
        assert(starts_at(t, i));
        if i < t.len() || !is_space(s.last()) {
            assert forall|j: int| 0 <= j < i implies is_space(s[j]) by {
                assert(s[j] == t[j]);
            }
            if i < t.len() {
                assert(s[i] == t[i]);
            }
            assert(starts_at(s, i));
        } else {
            assert forall|j: int| 0 <= j < s.len() implies is_space(s[j]) by {
                if j < t.len() {
                    assert(s[j] == t[j]);
                }
            }
            assert(starts_at(s, s.len() as int));
        }
        if is_space(s.last()) {
            let e = choose|e: int| ends_at(t, e);
            assert(ends_at(t, e));
            assert forall|j: int| e <= j < s.len() implies is_space(s[j]) by {
                if j < t.len() {
                    assert(s[j] == t[j]);
                }
            }
            if e > 0 {
                assert(s[e - 1] == t[e - 1]);
            }
            assert(ends_at(s, e));
        } else {
            assert(ends_at(s, s.len() as int));
        }
    }
}

/// The value of a decimal digit.
pub open spec fn digit_value(c: char) -> Option<nat> {
    if c == '0' {
        Some(0)
    } else if c == '1' {
        Some(1)
    } else if c == '2' {
        Some(2)
    } else if c == '3' {
        Some(3)
    } else if c == '4' {
        Some(4)
    } else if c == '5' {
        Some(5)
    } else if c == '6' {
        Some(6)
    } else if c == '7' {
        Some(7)
    } else if c == '8' {
        Some(8)
    } else if c == '9' {
        Some(9)
    } else {
        None
    }
}

/// The number that a text of one or more decimal digits spells. Leading
/// zeros count for nothing.
pub open spec fn number_of(s: Seq<char>) -> Option<nat>
    decreases s.len(),
{
    if s.len() == 0 {
        None
    } else {
        match digit_value(s.last()) {
            None => None,
            Some(d) => if s.len() == 1 {
                Some(d)
            } else {
                match number_of(s.drop_last()) {
                    Some(n) => Some(n * 10 + d),
                    None => None,
                }
            },
        }
    }
}

/// The 32-bit number that a text spells: decimal digits, after one `+` or
/// none, that spell a number of at most 32 bits.
pub open spec fn u32_of(s: Seq<char>) -> Option<u32> {
    let digits = if s.len() > 0 && s[0] == '+' {
        s.subrange(1, s.len() as int)
    } else {
        s
    };
    match number_of(digits) {
        Some(n) => if n <= u32::MAX {
            Some(n as u32)
        } else {
            None
        },
        None => None,
    }
}

proof fn lemma_bad_digit_spoils(s: Seq<char>, i: int)
    requires
        0 <= i < s.len(),
        digit_value(s[i]) is None,
    ensures
        number_of(s) is None,
    decreases s.len(),
{
    if i < s.len() - 1 {
        lemma_bad_digit_spoils(s.drop_last(), i);
    }
}

proof fn lemma_numbers_grow(s: Seq<char>, i: int)
    requires
        1 <= i <= s.len(),
        number_of(s) is Some,
    ensures
        number_of(s.take(i)) is Some,
        number_of(s.take(i))->Some_0 <= number_of(s)->Some_0,
    decreases s.len(),
{
    if i < s.len() {
        lemma_numbers_grow(s.drop_last(), i);
        assert(s.drop_last().take(i) =~= s.take(i));
    } else {
        assert(s.take(i) =~= s);
    }
}

fn digit_of(c: char) -> (r: Option<u64>)
    ensures
        match r {
            Some(d) => digit_value(c) == Some(d as nat) && d <= 9,
            None => digit_value(c) is None,
        },
{
    if c == '0' {
        Some(0)
    } else if c == '1' {
        Some(1)
    } else if c == '2' {
        Some(2)
    } else if c == '3' {
        Some(3)
    } else if c == '4' {
        Some(4)
    } else if c == '5' {
        Some(5)
    } else if c == '6' {
        Some(6)
    } else if c == '7' {
        Some(7)
    } else if c == '8' {
        Some(8)
    } else if c == '9' {
        Some(9)
    } else {
        None
    }
}

/// Reads a 32-bit number in decimal notation, as `u32`'s `FromStr` does.
pub fn parse_u32(s: &str) -> (r: Option<u32>)
    ensures
        r == u32_of(s@),
{
    let n = s.unicode_len();
    let start: usize = if n > 0 && s.get_char(0) == '+' {
        1
    } else {
        0
    };
    let ghost digits = s@.subrange(start as int, n as int);
    proof {
        if start == 0 {
            assert(digits =~= s@);
        }
    }
    if start == n {
        return None;
    }
    let mut acc: u64 = 0;
    let mut i: usize = start;
    while i < n
        invariant
            n == s@.len(),
            start <= i <= n,
            start < n,
            digits == s@.subrange(start as int, n as int),
            u32_of(s@) == match number_of(digits) {
                Some(m) => if m <= u32::MAX {
                    Some(m as u32)
                } else {
                    None
                },
                None => None::<u32>,
            },
            acc <= u32::MAX,
            i > start ==> number_of(digits.take(i - start)) == Some(acc as nat),
            i == start ==> acc == 0,
        decreases n - i,
    {
        let c = s.get_char(i);
        proof {
            assert(digits[i - start] == c);
            assert(digits.take(i - start + 1).drop_last() =~= digits.take(i - start));
            assert(digits.take(i - start + 1).last() == c);
        }
        match digit_of(c) {
            None => {
                proof {
                    lemma_bad_digit_spoils(digits, i - start);
                }
                return None;
            },
            Some(d) => {
                let next = acc * 10 + d;
                if next > 0xffff_ffff {
                    proof {
                        if number_of(digits) is Some {
                            lemma_numbers_grow(digits, i - start + 1);
                        }
                    }
                    return None;
                }
                acc = next;
            },
        }
        i += 1;
    }
    proof {
        assert(digits.take(n - start) =~= digits);
    }
    Some(acc as u32)
}

} // verus!
