use vstd::arithmetic::power::{lemma_pow0, lemma_pow1, lemma_pow_adds, lemma_pow_increases, lemma_pow_positive, pow};
use vstd::prelude::*;

verus! {

/// Numeric base of the size units: each unit is 1024 (binary) or 1000
/// (metric) times the previous one.
#[derive(Debug, Copy, Clone, PartialEq, Eq, Structural)]
pub enum BaseSize {
    Size1024,
    Size1000,
}

impl BaseSize {
    pub open spec fn spec_value(self) -> nat {
        match self {
            BaseSize::Size1024 => 1024,
            BaseSize::Size1000 => 1000,
        }
    }

    pub fn value(self) -> (r: u64)
        ensures
            r == self.spec_value(),
    {
        match self {
            BaseSize::Size1024 => 1024,
            BaseSize::Size1000 => 1000,
        }
    }
}

/// The unit a byte count is displayed in; `Auto` picks the largest unit
/// in which the value is still at least one.
#[derive(Debug, Copy, Clone, PartialEq, Eq, Structural)]
pub enum BlockSize {
    Auto,
    B,
    K,
    M,
    G,
    T,
    P,
    E,
    Z,
    Y,
    BB,
}

impl BlockSize {
    /// Position of a fixed unit in the unit ladder: B is 0, K is 1, ... BB is 9.
    /// `Auto` has no fixed position; it is resolved from the value.
    pub open spec fn spec_unit_index(self) -> nat {
        match self {
            BlockSize::Auto => 0,
            BlockSize::B => 0,
            BlockSize::K => 1,
            BlockSize::M => 2,
            BlockSize::G => 3,
            BlockSize::T => 4,
            BlockSize::P => 5,
            BlockSize::E => 6,
            BlockSize::Z => 7,
            BlockSize::Y => 8,
            BlockSize::BB => 9,
        }
    }

    pub fn unit_index(self) -> (r: u64)
        ensures
            r == self.spec_unit_index(),
    {
        match self {
            BlockSize::Auto => 0,
            BlockSize::B => 0,
            BlockSize::K => 1,
            BlockSize::M => 2,
            BlockSize::G => 3,
            BlockSize::T => 4,
            BlockSize::P => 5,
            BlockSize::E => 6,
            BlockSize::Z => 7,
            BlockSize::Y => 8,
            BlockSize::BB => 9,
        }
    }
}

/// The unit a case-insensitive token names, if any; this is the whole
/// contract of unit-token parsing.
pub open spec fn parsed_block(s: Seq<char>) -> Option<BlockSize> {
    let u = crate::text::upper_seq(s);
    if u == seq!['A', 'U', 'T', 'O'] {
        Some(BlockSize::Auto)
    } else if u == seq!['B'] {
        Some(BlockSize::B)
    } else if u == seq!['K'] {
        Some(BlockSize::K)
    } else if u == seq!['M'] {
        Some(BlockSize::M)
    } else if u == seq!['G'] {
        Some(BlockSize::G)
    } else if u == seq!['T'] {
        Some(BlockSize::T)
    } else if u == seq!['P'] {
        Some(BlockSize::P)
    } else if u == seq!['E'] {
        Some(BlockSize::E)
    } else if u == seq!['Z'] {
        Some(BlockSize::Z)
    } else if u == seq!['Y'] {
        Some(BlockSize::Y)
    } else if u == seq!['B', 'B'] {
        Some(BlockSize::BB)
    } else {
        None
    }
}

/// Error returned when a unit token cannot be recognised.
#[derive(Debug)]
pub struct BlockSizeParseError;

impl BlockSizeParseError {
    pub fn message(&self) -> (r: String)
        ensures
            r@ == "Invalid BlockSize"@,
    {
        String::from_str("Invalid BlockSize")
    }
}

impl BlockSize {
    /// Recognises a unit token, ignoring letter case.
    pub fn parse_token(s: &str) -> (r: Result<BlockSize, BlockSizeParseError>) 
        ensures
            match r {
                Ok(b) => parsed_block(s@) == Some(b),
                Err(_) => parsed_block(s@) is None,
            },
    {
        proof {
            reveal_strlit("AUTO");
            reveal_strlit("B");
            reveal_strlit("K");
            reveal_strlit("M");
            reveal_strlit("G");
            reveal_strlit("T");
            reveal_strlit("P");
            reveal_strlit("E");
            reveal_strlit("Z");
            reveal_strlit("Y");
            reveal_strlit("BB");
            assert("AUTO"@ =~= seq!['A', 'U', 'T', 'O']);
            assert("B"@ =~= seq!['B']);
            assert("K"@ =~= seq!['K']);
            assert("M"@ =~= seq!['M']);
            assert("G"@ =~= seq!['G']);
            assert("T"@ =~= seq!['T']);
            assert("P"@ =~= seq!['P']);
            assert("E"@ =~= seq!['E']);
            assert("Z"@ =~= seq!['Z']);
            assert("Y"@ =~= seq!['Y']);
            assert("BB"@ =~= seq!['B', 'B']);
        }
        let u = crate::text::to_upper_chars(s);
        if crate::text::chars_is(&u, "AUTO") {
            Ok(BlockSize::Auto)
        } else if crate::text::chars_is(&u, "B") {
            Ok(BlockSize::B)
        } else if crate::text::chars_is(&u, "K") {
            Ok(BlockSize::K)
        } else if crate::text::chars_is(&u, "M") {
            Ok(BlockSize::M)
        } else if crate::text::chars_is(&u, "G") {
            Ok(BlockSize::G)
        } else if crate::text::chars_is(&u, "T") {
            Ok(BlockSize::T)
        } else if crate::text::chars_is(&u, "P") {
            Ok(BlockSize::P)
        } else if crate::text::chars_is(&u, "E") {
            Ok(BlockSize::E)
        } else if crate::text::chars_is(&u, "Z") {
            Ok(BlockSize::Z)
        } else if crate::text::chars_is(&u, "Y") {
            Ok(BlockSize::Y)
        } else if crate::text::chars_is(&u, "BB") {
            Ok(BlockSize::BB)
        } else {
            Err(BlockSizeParseError)
        }
    }
}

impl core::str::FromStr for BlockSize {
    type Err = BlockSizeParseError;

    fn from_str(s: &str) -> Result<Self, Self::Err> {
        BlockSize::parse_token(s)
    }
}

/// The character for one decimal digit.
pub open spec fn digit_char(d: nat) -> char {
    if d == 0 {
        '0'
    } else if d == 1 {
        '1'
    } else if d == 2 {
        '2'
    } else if d == 3 {
        '3'
    } else if d == 4 {
        '4'
    } else if d == 5 {
        '5'
    } else if d == 6 {
        '6'
    } else if d == 7 {
        '7'
    } else if d == 8 {
        '8'
    } else {
        '9'
    }
}

/// Ordinary decimal rendering of a natural number, most significant digit
/// first, no leading zeros (a single zero for 0).
pub open spec fn decimal_digits(n: nat) -> Seq<char>
    decreases n,
{
    if n < 10 {
        seq![digit_char(n)]
    } else {
        decimal_digits(n / 10).push(digit_char(n % 10))
    }
}

/// Exactly two decimal digits, leading zero included; used for the
/// fractional part of a scaled size.
pub open spec fn two_decimal_digits(n: nat) -> Seq<char> {
    seq![digit_char(n / 10 % 10), digit_char(n % 10)]
}

/// Suffix of the unit at the given position of the unit ladder.
pub open spec fn unit_suffix(u: nat) -> Seq<char> {
    if u == 0 {
        seq!['B']
    } else if u == 1 {
        seq!['K']
    } else if u == 2 {
        seq!['M']
    } else if u == 3 {
        seq!['G']
    } else if u == 4 {
        seq!['T']
    } else if u == 5 {
        seq!['P']
    } else if u == 6 {
        seq!['E']
    } else if u == 7 {
        seq!['Z']
    } else if u == 8 {
        seq!['Y']
    } else {
        seq!['B', 'B']
    }
}

/// The unit `Auto` resolves to: the largest position whose divisor does not
/// exceed the value, capped at the top of the ladder.
pub open spec fn auto_unit(n: nat, b: nat) -> nat {
    if n < pow(b as int, 1) {
        0
    } else if n < pow(b as int, 2) {
        1
    } else if n < pow(b as int, 3) {
        2
    } else if n < pow(b as int, 4) {
        3
    } else if n < pow(b as int, 5) {
        4
    } else if n < pow(b as int, 6) {
        5
    } else if n < pow(b as int, 7) {
        6
    } else if n < pow(b as int, 8) {
        7
    } else if n < pow(b as int, 9) {
        8
    } else {
        9
    }
}

/// The value in hundredths of a unit of size `d`, rounded half up.
pub open spec fn scaled_hundredths(n: nat, d: nat) -> nat
    recommends
        d >= 1,
{
    (((n * 100 + d / 2) as int) / (d as int)) as nat
}

/// The rendered text of `n` bytes in the unit at position `u` of base `b`:
/// the byte unit is printed as an exact integer, every other unit with two
/// decimal places.
pub open spec fn size_text(n: nat, b: nat, u: nat) -> Seq<char> {
    if u == 0 {
        decimal_digits(n) + seq!['B']
    } else {
        let q = scaled_hundredths(n, pow(b as int, u) as nat);
        decimal_digits(q / 100) + seq!['.'] + two_decimal_digits(q % 100) + unit_suffix(u)
    }
}

/// The rendered text of `n` bytes under a base and unit choice; this is the
/// whole contract of the size formatter.
pub open spec fn pretty_text(n: nat, base: BaseSize, block: BlockSize) -> Seq<char> {
    let b = base.spec_value();
    match block {
        BlockSize::Auto => size_text(n, b, auto_unit(n, b)),
        _ => size_text(n, b, block.spec_unit_index()),
    }
}

proof fn lemma_pow_fits(b: nat, e: nat)
    requires
        b == 1024 || b == 1000,
        e <= 9,
    ensures
        1 <= pow(b as int, e) <= pow(b as int, 9) < 0x10000000000000000000000000,
{
    lemma_pow_positive(b as int, e);
    lemma_pow_increases(b, e, 9);
    assert(pow(1024, 9) == 0x40000000000000000000000 && pow(1000, 9)
        == 1000000000000000000000000000) by {
        reveal_with_fuel(pow, 10);
    }
}

/// `b` raised to the `e`-th power, computed in 128 bits.
fn pow_u128(b: u64, e: u64) -> (r: u128)
    requires
        b == 1024 || b == 1000,
        e <= 9,
    ensures
        r == pow(b as int, e as nat),
{
    proof {
        lemma_pow_fits(b as nat, e as nat);
        lemma_pow0(b as int);
    }
    let mut r: u128 = 1;
    let mut k: u64 = 0;
    while k < e
        invariant
            k <= e,
            e <= 9,
            b == 1024 || b == 1000,
            r == pow(b as int, k as nat),
        decreases e - k,
    {
        proof {
            lemma_pow_fits(b as nat, (k + 1) as nat);
            lemma_pow_adds(b as int, k as nat, 1);
            lemma_pow1(b as int);
            assert(pow(b as int, (k + 1) as nat) == pow(b as int, k as nat) * b);
        }
        r = r * (b as u128);
        k = k + 1;
    }
    r
}

fn digit_str(d: u64) -> (r: &'static str)
    requires
        d < 10,
    ensures
        r@ == seq![digit_char(d as nat)],
{
    proof {
        reveal_strlit("0");
        reveal_strlit("1");
        reveal_strlit("2");
        reveal_strlit("3");
        reveal_strlit("4");
        reveal_strlit("5");
        reveal_strlit("6");
        reveal_strlit("7");
        reveal_strlit("8");
        reveal_strlit("9");
    }
    let r = if d == 0 {
        "0"
    } else if d == 1 {
        "1"
    } else if d == 2 {
        "2"
    } else if d == 3 {
        "3"
    } else if d == 4 {
        "4"
    } else if d == 5 {
        "5"
    } else if d == 6 {
        "6"
    } else if d == 7 {
        "7"
    } else if d == 8 {
        "8"
    } else {
        "9"
    };
    proof {
        assert(r@ =~= seq![digit_char(d as nat)]);
    }
    r
}

/// Decimal rendering of a 64-bit value.
pub fn u64_digits(n: u64) -> (r: String)
    ensures
        r@ == decimal_digits(n as nat),
    decreases n,
{
    if n < 10 {
        digit_str(n).to_owned()
    } else {
        let mut s = u64_digits(n / 10);
        s.append(digit_str(n % 10));
        proof {
            assert(s@ =~= decimal_digits(n as nat));
        }
        s
    }
}

/// A decimal rendering is all digits, non-empty, and reads back to the
/// number it was made from.
pub proof fn lemma_decimal_digits_value(n: nat)
    ensures
        decimal_digits(n).len() > 0,
        crate::text::all_digits(decimal_digits(n)),
        crate::text::digits_value(decimal_digits(n)) == n,
    decreases n,
{
    if n < 10 {
        let s = decimal_digits(n);
        assert(s == seq![digit_char(n)]);
        assert(crate::text::is_digit(digit_char(n)));
        assert(s.drop_last() =~= Seq::<char>::empty());
        assert(s.last() == digit_char(n));
        assert(crate::text::digits_value(Seq::<char>::empty()) == 0);
        assert(crate::text::digit_val(digit_char(n)) == n);
        assert(crate::text::digits_value(s) == crate::text::digits_value(s.drop_last()) * 10
            + crate::text::digit_val(s.last()));
    } else {
        lemma_decimal_digits_value(n / 10);
        let s = decimal_digits(n);
        assert(s == decimal_digits(n / 10).push(digit_char(n % 10)));
        assert(s.drop_last() =~= decimal_digits(n / 10));
        assert(s.last() == digit_char(n % 10));
        assert(crate::text::digit_val(digit_char(n % 10)) == n % 10);
        assert(crate::text::all_digits(s)) by {
            assert(forall|i: int|
                0 <= i < s.len() - 1 ==> s[i] == decimal_digits(n / 10)[i]);
            assert(crate::text::is_digit(digit_char(n % 10)));
        }
        assert(crate::text::digits_value(s) == (n / 10) * 10 + n % 10);
    }
}

/// Renders `n` bytes in the fixed unit at position `u`, two decimal places,
/// rounded half up.
fn format_unit(n: u64, base: BaseSize, u: u64) -> (r: String)
    requires
        1 <= u <= 9,
    ensures
        r@ == size_text(n as nat, base.spec_value(), u as nat),
{
    let b = base.value();
    let d = pow_u128(b, u);
    proof {
        lemma_pow_fits(b as nat, u as nat);
    }
    let q = ((n as u128) * 100 + d / 2) / d;
    proof {
        assert(q == scaled_hundredths(n as nat, d as nat));
    }
    let mut s = u64_digits_of_u128(q / 100);
    s.append(".");
    s.append(two_digit_str(q % 100).as_str());
    s.append(unit_str(u));
    proof {
        reveal_strlit(".");
        assert("."@ =~= seq!['.']);
        assert(s@ =~= size_text(n as nat, base.spec_value(), u as nat));
    }
    s
}

/// Decimal rendering of a 128-bit value; the formatter's scaled values can
/// exceed 64 bits only transiently, but the renderer accepts the full range.
pub(crate) fn u64_digits_of_u128(n: u128) -> (r: String)
    ensures
        r@ == decimal_digits(n as nat),
    decreases n,
{
    if n < 10 {
        digit_str(n as u64).to_owned()
    } else {
        let mut s = u64_digits_of_u128(n / 10);
        s.append(digit_str((n % 10) as u64));
        proof {
            assert(s@ =~= decimal_digits(n as nat));
        }
        s
    }
}

pub(crate) fn two_digit_str(n: u128) -> (r: String)
    requires
        n < 100,
    ensures
        r@ == two_decimal_digits(n as nat),
{
    let mut s = digit_str((n / 10) as u64).to_owned();
    s.append(digit_str((n % 10) as u64));
    proof {
        assert(s@ =~= two_decimal_digits(n as nat));
    }
    s
}

fn unit_str(u: u64) -> (r: &'static str)
    requires
        1 <= u <= 9,
    ensures
        r@ == unit_suffix(u as nat),
{
    proof {
        reveal_strlit("K");
        reveal_strlit("M");
        reveal_strlit("G");
        reveal_strlit("T");
        reveal_strlit("P");
        reveal_strlit("E");
        reveal_strlit("Z");
        reveal_strlit("Y");
        reveal_strlit("BB");
    }
    let r = if u == 1 {
        "K"
    } else if u == 2 {
        "M"
    } else if u == 3 {
        "G"
    } else if u == 4 {
        "T"
    } else if u == 5 {
        "P"
    } else if u == 6 {
        "E"
    } else if u == 7 {
        "Z"
    } else if u == 8 {
        "Y"
    } else {
        "BB"
    };
    proof {
        assert(r@ =~= unit_suffix(u as nat));
    }
    r
}

fn format_bytes_unit(n: u64) -> (r: String)
    ensures
        r@ == size_text(n as nat, 1024, 0),
        r@ == size_text(n as nat, 1000, 0),
{
    let mut s = u64_digits(n);
    s.append("B");
    proof {
        reveal_strlit("B");
        assert(s@ =~= decimal_digits(n as nat) + seq!['B']);
    }
    s
}

/// Renders a byte count in the largest unit in which it is at least one.
pub fn format_auto(num: u64, base: BaseSize) -> (r: String)
    ensures
        r@ == size_text(num as nat, base.spec_value(), auto_unit(num as nat, base.spec_value())),
{
    let b = base.value();
    let n = num as u128;
    let u: u64 = if n < pow_u128(b, 1) {
        0
    } else if n < pow_u128(b, 2) {
        1
    } else if n < pow_u128(b, 3) {
        2
    } else if n < pow_u128(b, 4) {
        3
    } else if n < pow_u128(b, 5) {
        4
    } else if n < pow_u128(b, 6) {
        5
    } else if n < pow_u128(b, 7) {
        6
    } else if n < pow_u128(b, 8) {
        7
    } else if n < pow_u128(b, 9) {
        8
    } else {
        9
    };
    if u == 0 {
        format_bytes_unit(num)
    } else {
        format_unit(num, base, u)
    }
}

/// Human-readable rendering of byte counts.
pub trait PrettySize {
    fn pretty_size(self) -> String;

    fn pretty_size_with(self, base: BaseSize, block: BlockSize) -> String;
}

impl PrettySize for u64 {
    fn pretty_size(self) -> (r: String)
        ensures
            r@ == pretty_text(self as nat, BaseSize::Size1024, BlockSize::Auto),
    {
        self.pretty_size_with(BaseSize::Size1024, BlockSize::Auto)
    }

    fn pretty_size_with(self, base: BaseSize, block: BlockSize) -> (r: String)
        ensures
            r@ == pretty_text(self as nat, base, block),
    {
        match block {
            BlockSize::Auto => format_auto(self, base),
            BlockSize::B => format_bytes_unit(self),
            _ => format_unit(self, base, block.unit_index()),
        }
    }
}

} // verus!
