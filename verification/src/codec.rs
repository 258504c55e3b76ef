//! Fixed-width positional rendering of unsigned values (decimal and
//! lower-case hexadecimal), with the parsing direction and the proofs
//! that the two are inverse to each other.  Token payloads render every
//! number at a fixed width, so parsing works at constant offsets.

use vstd::prelude::*;
use vstd::arithmetic::div_mod::lemma_fundamental_div_mod;
use vstd::arithmetic::div_mod::lemma_multiply_divide_lt;
use vstd::arithmetic::power::pow;

verus! {

/// The character for the digit `d` (`0` to `15`), lower case.
pub open spec fn digit_char(d: int) -> char {
    if d == 0 {
        '0'
    } else if d == 1 {
        '1'
    } else if d == 2 {
        '2'
    } else if d == 3 {
        '3'
    } else if d == 4 {
        '4'
    } else if d == 5 {
        '5'
    } else if d == 6 {
        '6'
    } else if d == 7 {
        '7'
    } else if d == 8 {
        '8'
    } else if d == 9 {
        '9'
    } else if d == 10 {
        'a'
    } else if d == 11 {
        'b'
    } else if d == 12 {
        'c'
    } else if d == 13 {
        'd'
    } else if d == 14 {
        'e'
    } else {
        'f'
    }
}

/// The value of a digit character; any non-digit yields `16`, which is
/// outside every supported base.
pub open spec fn digit_val(c: char) -> int {
    if c == '0' {
        0
    } else if c == '1' {
        1
    } else if c == '2' {
        2
    } else if c == '3' {
        3
    } else if c == '4' {
        4
    } else if c == '5' {
        5
    } else if c == '6' {
        6
    } else if c == '7' {
        7
    } else if c == '8' {
        8
    } else if c == '9' {
        9
    } else if c == 'a' {
        10
    } else if c == 'b' {
        11
    } else if c == 'c' {
        12
    } else if c == 'd' {
        13
    } else if c == 'e' {
        14
    } else if c == 'f' {
        15
    } else {
        16
    }
}

/// `c` is a digit of base `base`.
pub open spec fn is_digit(base: int, c: char) -> bool {
    digit_val(c) < base
}

/// `v` rendered in base `base` at exactly `width` digits, most
/// significant digit first (leading zeroes kept).
pub open spec fn fixed_chars(base: int, v: int, width: nat) -> Seq<char>
    decreases width,
{
    if width == 0 {
        Seq::empty()
    } else {
        fixed_chars(base, v / base, (width - 1) as nat) + seq![digit_char(v % base)]
    }
}

/// The value of a digit string read in base `base`.
pub open spec fn seq_val(base: int, s: Seq<char>) -> int
    decreases s.len(),
{
    if s.len() == 0 {
        0
    } else {
        seq_val(base, s.drop_last()) * base + digit_val(s.last())
    }
}

/// Rendering a digit and reading it back is the identity.
pub proof fn lemma_digit_char_val(d: int)
    requires
        0 <= d < 16,
    ensures
        digit_val(digit_char(d)) == d,
        digit_char(d) != '.',
{
}

/// A fixed-width rendering has exactly `width` characters, all of them
/// digits of the base, and reads back to `v` when `v` fits the width.
pub proof fn lemma_fixed_chars_val(base: int, v: int, width: nat)
    requires
        2 <= base <= 16,
        0 <= v < pow(base, width),
    ensures
        fixed_chars(base, v, width).len() == width,
        forall|i: int|
            0 <= i < width ==> is_digit(base, #[trigger] fixed_chars(base, v, width)[i]),
        seq_val(base, fixed_chars(base, v, width)) == v,
    decreases width,
{
    reveal(pow);
    if width == 0 {
        assert(pow(base, 0) == 1);
        assert(v == 0);
        assert(fixed_chars(base, v, width) =~= Seq::<char>::empty());
        assert(seq_val(base, Seq::<char>::empty()) == 0);
    } else {
        let w1 = (width - 1) as nat;
        lemma_fundamental_div_mod(v, base);
        assert(pow(base, width) == base * pow(base, w1));
        lemma_multiply_divide_lt(v, base, pow(base, w1));
        lemma_fixed_chars_val(base, v / base, w1);
        let head = fixed_chars(base, v / base, w1);
        let s = fixed_chars(base, v, width);
        assert(s =~= head + seq![digit_char(v % base)]);
        assert(s.drop_last() =~= head);
        assert(s.last() == digit_char(v % base));
        lemma_digit_char_val(v % base);
        assert(seq_val(base, s) == seq_val(base, head) * base + digit_val(s.last()));
        assert(seq_val(base, head) == v / base);
        assert(digit_val(s.last()) == v % base);
        assert(seq_val(base, s) == (v / base) * base + v % base);
        assert(v == base * (v / base) + v % base);
        assert(seq_val(base, s) == v) by (nonlinear_arith)
            requires
                seq_val(base, s) == (v / base) * base + v % base,
                v == base * (v / base) + v % base,
        {
        }
    }
}

/// A digit string's value is non-negative and below `base ^ length`.
pub proof fn lemma_seq_val_bound(base: int, s: Seq<char>)
    requires
        2 <= base <= 16,
        forall|i: int| 0 <= i < s.len() ==> is_digit(base, #[trigger] s[i]),
    ensures
        0 <= seq_val(base, s) < pow(base, s.len()),
    decreases s.len(),
{
    reveal(pow);
    if s.len() == 0 {
        assert(pow(base, 0) == 1);
    } else {
        let head = s.drop_last();
        assert(forall|i: int| 0 <= i < head.len() ==> is_digit(base, #[trigger] head[i]));
        lemma_seq_val_bound(base, head);
        let w1 = head.len();
        assert(pow(base, s.len()) == base * pow(base, w1));
        let hv = seq_val(base, head);
        let dv = digit_val(s.last());
        assert(0 <= dv < base);
        assert(hv * base + dv < base * pow(base, w1)) by (nonlinear_arith)
            requires
                0 <= hv,
                hv < pow(base, w1),
                0 <= dv < base,
                base >= 2,
        {
        }
        assert(hv * base + dv >= 0) by (nonlinear_arith)
            requires
                0 <= hv,
                0 <= dv,
                base >= 2,
        {
        }
    }
}

/// Sixteen to the thirty-second power covers every `u128` value.
pub proof fn lemma_pow16_32()
    ensures
        pow(16, 32) == u128::MAX + 1,
{
    reveal(pow);
    assert(pow(16, 0) == 1);
    assert(pow(16, 1) == 16);
    assert(pow(16, 2) == 256);
    assert(pow(16, 3) == 4096);
    assert(pow(16, 4) == 65536);
    assert(pow(16, 5) == 1048576);
    assert(pow(16, 6) == 16777216);
    assert(pow(16, 7) == 268435456);
    assert(pow(16, 8) == 4294967296);
    assert(pow(16, 9) == 68719476736);
    assert(pow(16, 10) == 1099511627776);
    assert(pow(16, 11) == 17592186044416);
    assert(pow(16, 12) == 281474976710656);
    assert(pow(16, 13) == 4503599627370496);
    assert(pow(16, 14) == 72057594037927936);
    assert(pow(16, 15) == 1152921504606846976);
    assert(pow(16, 16) == 18446744073709551616);
    assert(pow(16, 17) == 295147905179352825856);
    assert(pow(16, 18) == 4722366482869645213696);
    assert(pow(16, 19) == 75557863725914323419136);
    assert(pow(16, 20) == 1208925819614629174706176);
    assert(pow(16, 21) == 19342813113834066795298816);
    assert(pow(16, 22) == 309485009821345068724781056);
    assert(pow(16, 23) == 4951760157141521099596496896);
    assert(pow(16, 24) == 79228162514264337593543950336);
    assert(pow(16, 25) == 1267650600228229401496703205376);
    assert(pow(16, 26) == 20282409603651670423947251286016);
    assert(pow(16, 27) == 324518553658426726783156020576256);
    assert(pow(16, 28) == 5192296858534827628530496329220096);
    assert(pow(16, 29) == 83076749736557242056487941267521536);
    assert(pow(16, 30) == 1329227995784915872903807060280344576);
    assert(pow(16, 31) == 21267647932558653966460912964485513216);
    assert(pow(16, 32) == 340282366920938463463374607431768211456);
}

/// Ten to the twentieth power holds every `u64` value and fits `u128`.
pub proof fn lemma_pow10_20()
    ensures
        pow(10, 20) == 100000000000000000000,
        u64::MAX < pow(10, 20),
        pow(10, 20) <= u128::MAX + 1,
{
    reveal(pow);
    assert(pow(10, 0) == 1);
    assert(pow(10, 1) == 10);
    assert(pow(10, 2) == 100);
    assert(pow(10, 3) == 1000);
    assert(pow(10, 4) == 10000);
    assert(pow(10, 5) == 100000);
    assert(pow(10, 6) == 1000000);
    assert(pow(10, 7) == 10000000);
    assert(pow(10, 8) == 100000000);
    assert(pow(10, 9) == 1000000000);
    assert(pow(10, 10) == 10000000000);
    assert(pow(10, 11) == 100000000000);
    assert(pow(10, 12) == 1000000000000);
    assert(pow(10, 13) == 10000000000000);
    assert(pow(10, 14) == 100000000000000);
    assert(pow(10, 15) == 1000000000000000);
    assert(pow(10, 16) == 10000000000000000);
    assert(pow(10, 17) == 100000000000000000);
    assert(pow(10, 18) == 1000000000000000000);
    assert(pow(10, 19) == 10000000000000000000);
    assert(pow(10, 20) == 100000000000000000000);
}

/// `s` holds `lit` character for character at offset `start`.
pub fn match_lit(s: &str, start: usize, lit: &str) -> (b: bool)
    requires
        start + lit@.len() <= s@.len(),
        start + lit@.len() <= usize::MAX,
    ensures
        b == (s@.subrange(start as int, start + lit@.len()) == lit@),
{
    let m = lit.unicode_len();
    let mut j: usize = 0;
    while j < m
        invariant
            m == lit@.len(),
            start + m <= s@.len(),
            start + m <= usize::MAX,
            0 <= j <= m,
            forall|t: int| 0 <= t < j ==> s@[start + t] == lit@[t],
        decreases m - j,
    {
        let a = s.get_char(start + j);
        let c = lit.get_char(j);
        if a != c {
            proof {
                let sub = s@.subrange(start as int, start + lit@.len());
                assert(sub[j as int] == s@[start + j]);
            }
            return false;
        }
        j = j + 1;
    }
    proof {
        assert(s@.subrange(start as int, start + lit@.len()) =~= lit@);
    }
    true
}

/// The two strings hold the same characters.
pub fn str_eq(a: &str, b: &str) -> (r: bool)
    ensures
        r == (a@ == b@),
{
    let n = a.unicode_len();
    let m = b.unicode_len();
    if n != m {
        return false;
    }
    let mut j: usize = 0;
    while j < n
        invariant
            n == a@.len(),
            n == b@.len(),
            0 <= j <= n,
            forall|t: int| 0 <= t < j ==> a@[t] == b@[t],
        decreases n - j,
    {
        if a.get_char(j) != b.get_char(j) {
            return false;
        }
        j = j + 1;
    }
    proof {
        assert(a@ =~= b@);
    }
    true
}

/// One-character string for the digit `d`, lower case.
pub fn digit_str(d: u128) -> (s: &'static str)
    requires
        d < 16,
    ensures
        s@ =~= seq![digit_char(d as int)],
{
    proof {
        reveal_strlit("0");
        reveal_strlit("1");
        reveal_strlit("2");
        reveal_strlit("3");
        reveal_strlit("4");
        reveal_strlit("5");
        reveal_strlit("6");
        reveal_strlit("7");
        reveal_strlit("8");
        reveal_strlit("9");
        reveal_strlit("a");
        reveal_strlit("b");
        reveal_strlit("c");
        reveal_strlit("d");
        reveal_strlit("e");
        reveal_strlit("f");
    }
    if d == 0 {
        "0"
    } else if d == 1 {
        "1"
    } else if d == 2 {
        "2"
    } else if d == 3 {
        "3"
    } else if d == 4 {
        "4"
    } else if d == 5 {
        "5"
    } else if d == 6 {
        "6"
    } else if d == 7 {
        "7"
    } else if d == 8 {
        "8"
    } else if d == 9 {
        "9"
    } else if d == 10 {
        "a"
    } else if d == 11 {
        "b"
    } else if d == 12 {
        "c"
    } else if d == 13 {
        "d"
    } else if d == 14 {
        "e"
    } else {
        "f"
    }
}

/// The value of a digit character, or `16` for any other character.
pub fn char_digit(c: char) -> (d: u128)
    ensures
        d == digit_val(c),
{
    if c == '0' {
        0
    } else if c == '1' {
        1
    } else if c == '2' {
        2
    } else if c == '3' {
        3
    } else if c == '4' {
        4
    } else if c == '5' {
        5
    } else if c == '6' {
        6
    } else if c == '7' {
        7
    } else if c == '8' {
        8
    } else if c == '9' {
        9
    } else if c == 'a' {
        10
    } else if c == 'b' {
        11
    } else if c == 'c' {
        12
    } else if c == 'd' {
        13
    } else if c == 'e' {
        14
    } else if c == 'f' {
        15
    } else {
        16
    }
}

/// Renders `v` in base `base` at exactly `width` digits.
pub fn fixed_enc(base: u128, v: u128, width: usize) -> (s: String)
    requires
        2 <= base <= 16,
    ensures
        s@ == fixed_chars(base as int, v as int, width as nat),
    decreases width,
{
    if width == 0 {
        let s = String::new();
        proof {
            assert(s@ =~= fixed_chars(base as int, v as int, 0));
        }
        s
    } else {
        let mut s = fixed_enc(base, v / base, width - 1);
        let ds = digit_str(v % base);
        s.append(ds);
        proof {
            assert(s@ =~= fixed_chars(base as int, v as int, width as nat));
        }
        s
    }
}

/// Reads `width` characters of `s` starting at `start` as a base-`base`
/// number; `None` exactly when one of them is not a digit of the base.
pub fn fixed_dec(s: &str, start: usize, base: u128, width: usize) -> (r: Option<u128>)
    requires
        2 <= base <= 16,
        start + width <= s@.len(),
        start + width <= usize::MAX,
        pow(base as int, width as nat) <= u128::MAX + 1,
    ensures
        match r {
            Some(v) => {
                &&& forall|j: int|
                    start <= j < start + width ==> is_digit(base as int, #[trigger] s@[j])
                &&& v == seq_val(base as int, s@.subrange(start as int, start + width))
            },
            None => !(forall|j: int|
                start <= j < start + width ==> is_digit(base as int, #[trigger] s@[j])),
        },
{
    let mut acc: u128 = 0;
    let mut i: usize = 0;
    proof {
        assert(s@.subrange(start as int, start as int) =~= Seq::<char>::empty());
        vstd::arithmetic::power::lemma_pow0(base as int);
    }
    while i < width
        invariant
            2 <= base <= 16,
            0 <= i <= width,
            start + width <= s@.len(),
            start + width <= usize::MAX,
            pow(base as int, width as nat) <= u128::MAX + 1,
            forall|j: int| start <= j < start + i ==> is_digit(base as int, #[trigger] s@[j]),
            acc == seq_val(base as int, s@.subrange(start as int, start + i)),
            acc < pow(base as int, i as nat),
        decreases width - i,
    {
        let c = s.get_char(start + i);
        let d = char_digit(c);
        if d >= base {
            proof {
                assert(!is_digit(base as int, s@[start + i]));
            }
            return None;
        }
        proof {
            reveal(pow);
            let prefix = s@.subrange(start as int, start + i);
            let next = s@.subrange(start as int, start + i + 1);
            assert(next.drop_last() =~= prefix);
            assert(next.last() == s@[start + i]);
            vstd::arithmetic::power::lemma_pow_increases(
                base as nat,
                (i + 1) as nat,
                width as nat,
            );
            assert(acc * base + d < pow(base as int, (i + 1) as nat)) by (nonlinear_arith)
                requires
                    0 <= acc,
                    acc < pow(base as int, i as nat),
                    0 <= d < base,
                    2 <= base,
                    pow(base as int, (i + 1) as nat) == base * pow(base as int, i as nat),
            {
            }
        }
        acc = acc * base + d;
        i = i + 1;
    }
    proof {
        assert(s@.subrange(start as int, start + width) =~= s@.subrange(
            start as int,
            start + i,
        ));
    }
    Some(acc)
}

} // verus!
