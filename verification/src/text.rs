//! ASCII case, decimal numerals and the pieces of text that keys and messages
//! are made of.

use vstd::prelude::*;

verus! {

/// `char` with an ASCII capital made small.
pub open spec fn lower_char(c: char) -> char {
    if 'A' <= c <= 'Z' {
        (c as u32 + 32) as char
    } else {
        c
    }
}

/// Text with every ASCII capital made small.
pub open spec fn lower(s: Seq<char>) -> Seq<char> {
    s.map_values(|c: char| lower_char(c))
}

/// An octet with an ASCII capital made small.
pub open spec fn lower_octet(b: u8) -> u8 {
    if 0x41 <= b <= 0x5a {
        (b + 32) as u8
    } else {
        b
    }
}

/// Octets with every ASCII capital made small.
pub open spec fn lower_octets(s: Seq<u8>) -> Seq<u8> {
    s.map_values(|b: u8| lower_octet(b))
}

/// `String::push`: the character goes behind what is already there.
pub assume_specification[ String::push ](s: &mut String, c: char)
    ensures
        final(s)@ == old(s)@.push(c),
;

/// `c` with an ASCII capital made small.
pub fn to_lower_char(c: char) -> (r: char)
    ensures
        r == lower_char(c),
{
    if c >= 'A' && c <= 'Z' {
        (c as u8 + 32) as char
    } else {
        c
    }
}

/// `s` with every ASCII capital made small.
pub fn to_lower(s: &str) -> (r: String)
    ensures
        r@ == lower(s@),
{
    let mut out = String::new();
    for c in it: s.chars()
        invariant
            out@ =~= lower(it.seq().take(it.index() as int)),
            it.seq() == s@,
    {
        out.push(to_lower_char(c));
        assert(it.seq().take(it.index() + 1) =~= it.seq().take(it.index() as int).push(c));
    }
    assert(s@.take(s@.len() as int) =~= s@);
    out
}

/// Lowering the case twice is lowering it once.
pub proof fn lemma_lower_idempotent(s: Seq<char>)
    ensures
        lower(lower(s)) == lower(s),
{
    assert forall|i: int| 0 <= i < s.len() implies lower_char(lower_char(#[trigger] s[i]))
        == lower_char(s[i]) by {
        let c = s[i];
        assert('A' <= c <= 'Z' ==> lower_char(c) as u32 == c as u32 + 32);
    }
    assert(lower(lower(s)) =~= lower(s));
}

/// Whether two pieces of text are the same apart from ASCII case.
pub fn same_ignoring_case(a: &str, b: &str) -> (r: bool)
    ensures
        r == (lower(a@) == lower(b@)),
{
    to_lower(a) == to_lower(b)
}

/// Whether two runs of octets are the same apart from ASCII case.
pub fn same_octets_ignoring_case(a: &[u8], b: &[u8]) -> (r: bool)
    ensures
        r == (lower_octets(a@) == lower_octets(b@)),
{
    if a.len() != b.len() {
        assert(lower_octets(a@).len() != lower_octets(b@).len());
        return false;
    }
    let mut i: usize = 0;
    while i < a.len()
        invariant
            i <= a@.len(),
            a@.len() == b@.len(),
            forall|j: int| 0 <= j < i ==> lower_octet(#[trigger] a@[j]) == lower_octet(b@[j]),
        decreases a@.len() - i,
    {
        if to_lower_octet(a[i]) != to_lower_octet(b[i]) {
            assert(lower_octets(a@)[i as int] != lower_octets(b@)[i as int]);
            return false;
        }
        i = i + 1;
    }
    assert(lower_octets(a@) =~= lower_octets(b@));
    true
}

/// `b` with an ASCII capital made small.
pub fn to_lower_octet(b: u8) -> (r: u8)
    ensures
        r == lower_octet(b),
{
    if b >= 0x41 && b <= 0x5a {
        b + 32
    } else {
        b
    }
}

/// Whether two runs of octets are the same.
pub fn same_octets(a: &[u8], b: &[u8]) -> (r: bool)
    ensures
        r == (a@ == b@),
{
    if a.len() != b.len() {
        return false;
    }
    let mut i: usize = 0;
    while i < a.len()
        invariant
            i <= a@.len(),
            a@.len() == b@.len(),
            forall|j: int| 0 <= j < i ==> #[trigger] a@[j] == b@[j],
        decreases a@.len() - i,
    {
        if a[i] != b[i] {
            return false;
        }
        i = i + 1;
    }
    assert(a@ =~= b@);
    true
}

/// The numeral of `n` in base ten, without leading zeros.
pub open spec fn decimal(n: nat) -> Seq<char>
    decreases n,
{
    if n < 10 {
        seq![digit_char(n)]
    } else {
        decimal(n / 10).push(digit_char(n % 10))
    }
}

/// The digit `d` as a character.
pub open spec fn digit_char(d: nat) -> char {
    (48 + d) as char
}

/// `n` in base ten, without leading zeros.
pub fn to_decimal(n: u64) -> (r: String)
    ensures
        r@ == decimal(n as nat),
    decreases n,
{
    let last: u8 = (n % 10) as u8 + 48;
    if n < 10 {
        let mut out = String::new();
        out.push(last as char);
        assert(out@ =~= decimal(n as nat));
        out
    } else {
        let mut out = to_decimal(n / 10);
        out.push(last as char);
        out
    }
}

/// Two numbers with one numeral are one number.
pub proof fn lemma_decimal_injective(a: nat, b: nat)
    requires
        decimal(a) == decimal(b),
    ensures
        a == b,
    decreases a,
{
    let x = decimal(a);
    let y = decimal(b);
    assert(x.last() == digit_char(a % 10));
    assert(y.last() == digit_char(b % 10));
    lemma_decimal_len(a);
    lemma_decimal_len(b);
    if a >= 10 && b >= 10 {
        assert(x.drop_last() =~= decimal(a / 10));
        assert(y.drop_last() =~= decimal(b / 10));
        lemma_decimal_injective(a / 10, b / 10);
    }
}

/// A numeral is one digit long exactly below ten.
proof fn lemma_decimal_len(n: nat)
    ensures
        decimal(n).len() >= 1,
        n < 10 <==> decimal(n).len() == 1,
    decreases n,
{
    if n >= 10 {
        lemma_decimal_len(n / 10);
    }
}

/// A numeral holds digits only.
pub proof fn lemma_decimal_digits(n: nat)
    ensures
        forall|i: int| 0 <= i < decimal(n).len() ==> '0' <= #[trigger] decimal(n)[i] <= '9',
    decreases n,
{
    if n >= 10 {
        lemma_decimal_digits(n / 10);
        let shorter = decimal(n / 10);
        assert forall|i: int| 0 <= i < decimal(n).len() implies '0' <= #[trigger] decimal(
            n,
        )[i] <= '9' by {
            if i < shorter.len() {
                assert(decimal(n)[i] == shorter[i]);
            }
        }
    }
}

/// Lower case changes the letters from `A` to `Z` alone, each to the one 32
/// places on, and keeps every character's place.
pub proof fn law_lower_case(s: Seq<char>, t: Seq<u8>, i: int)
    ensures
        lower(s).len() == s.len(),
        0 <= i < s.len() && 'A' <= s[i] <= 'Z' ==> lower(s)[i] as u32 == s[i] as u32 + 32,
        0 <= i < s.len() && !('A' <= s[i] <= 'Z') ==> lower(s)[i] == s[i],
        lower_octets(t).len() == t.len(),
        0 <= i < t.len() && 0x41 <= t[i] <= 0x5a ==> lower_octets(t)[i] == t[i] + 32,
        0 <= i < t.len() && !(0x41 <= t[i] <= 0x5a) ==> lower_octets(t)[i] == t[i],
{
}

/// The number that decimal digits write.
pub open spec fn written(s: Seq<char>) -> nat
    decreases s.len(),
{
    if s.len() == 0 {
        0
    } else {
        (10 * written(s.drop_last()) + (s.last() as u32 - 48)) as nat
    }
}

/// A number in decimal is made of digits, has none to spare in front, and
/// writes the number.
pub proof fn law_decimal_digits_write_the_number(n: nat)
    ensures
        written(decimal(n)) == n,
        decimal(n).len() > 0,
        n > 0 ==> decimal(n)[0] != '0',
        forall|i: int| 0 <= i < decimal(n).len() ==> '0' <= #[trigger] decimal(n)[i] <= '9',
    decreases n,
{
    let s = decimal(n);
    if n < 10 {
        assert(s == seq![digit_char(n)]);
        assert(s.drop_last() =~= Seq::<char>::empty());
        assert(written(s) == n) by {
            reveal_with_fuel(written, 2);
        }
    } else {
        law_decimal_digits_write_the_number(n / 10);
        let more = decimal(n / 10);
        assert(s == more.push(digit_char(n % 10)));
        assert(s.drop_last() =~= more);
        assert(s[0] == more[0]);
        assert forall|i: int| 0 <= i < s.len() implies '0' <= #[trigger] s[i] <= '9' by {
            if i < more.len() {
                assert(s[i] == more[i]);
            }
        }
    }
}

} // verus!
