use vstd::prelude::*;
use vstd::string::StringExecFns;
use crate::text::{
    all_digits, chars_of, digit_val, digits_val, eq_nocase, eq_word, fold_code, is_digit, is_digit_char,
    is_ws, lemma_prefix_len, prefix_len, slice_chars, trim, trim_end, trim_start, trimmed,
    trimmed_start,
};

verus! {

/// Why a value could not be read from text.
#[derive(Debug, Clone, Copy, PartialEq, Eq, Structural)]
pub enum ParseError {
    /// Nothing but white space.
    Empty,
    /// The number part is not a number.
    InvalidNumber,
    /// The unit after a length is none of `mm`, `cm`, `m`.
    UnknownUnit,
    /// The length does not fit in `u32` millimetres.
    TooLarge,
    /// A percentage without its `%` sign.
    MissingPercentSign,
    /// A percentage above 100.
    PercentageOutOfRange,
    /// A keyword that the property does not know.
    UnknownKeyword,
    /// A property was given the wrong number of values.
    WrongValueCount,
    /// A declaration that is not of the form `property:value`.
    InvalidDeclaration,
}

pub const U32_MAX: u64 = 4294967295;

/// A non-negative distance, counted in whole millimetres.
#[derive(Debug, Clone, Copy, PartialEq, Eq, Structural, PartialOrd, Ord, Hash)]
pub struct Length(pub u32);

pub open spec fn sat(v: int) -> u32 {
    if v > u32::MAX {
        u32::MAX
    } else {
        v as u32
    }
}

impl Length {
    /// A length of `mm` millimetres.
    pub fn from_mm(mm: u32) -> (r: Length)
        ensures
            r.0 == mm,
    {
        Length(mm)
    }

    /// A length of `cm` centimetres, saturating at the largest length.
    pub fn from_cm(cm: u32) -> (r: Length)
        ensures
            r.0 == sat(cm * 10),
    {
        if cm > 429496729 {
            Length(u32::MAX)
        } else {
            Length(cm * 10)
        }
    }

    /// A length of `m` metres, saturating at the largest length.
    pub fn from_m(m: u32) -> (r: Length)
        ensures
            r.0 == sat(m * 1000),
    {
        if m > 4294967 {
            Length(u32::MAX)
        } else {
            Length(m * 1000)
        }
    }

    pub fn mm(&self) -> (r: u32)
        ensures
            r == self.0,
    {
        self.0
    }

    /// Whole centimetres, truncated.
    pub fn cm(&self) -> (r: u32)
        ensures
            r == self.0 / 10,
    {
        self.0 / 10
    }

    /// Whole metres, truncated.
    pub fn m(&self) -> (r: u32)
        ensures
            r == self.0 / 1000,
    {
        self.0 / 1000
    }

    /// The sum of two lengths, saturating at the largest length.
    pub fn plus(self, other: Length) -> (r: Length)
        ensures
            r.0 == sat(self.0 + other.0),
    {
        if self.0 > u32::MAX - other.0 {
            Length(u32::MAX)
        } else {
            Length(self.0 + other.0)
        }
    }

    /// The difference of two lengths, stopping at zero.
    pub fn minus(self, other: Length) -> (r: Length)
        ensures
            r.0 == if self.0 >= other.0 {
                (self.0 - other.0) as u32
            } else {
                0
            },
    {
        if self.0 >= other.0 {
            Length(self.0 - other.0)
        } else {
            Length(0)
        }
    }

    /// The length scaled by `k`, saturating at the largest length.
    pub fn times(self, k: u32) -> (r: Length)
        ensures
            r.0 == sat(self.0 * k),
    {
        assert((self.0 as u64) * (k as u64) <= U32_MAX * U32_MAX) by (nonlinear_arith)
            requires
                self.0 <= U32_MAX,
                k <= U32_MAX,
        ;
        let v = (self.0 as u64) * (k as u64);
        assert(v == self.0 * k);
        if v > U32_MAX {
            Length(u32::MAX)
        } else {
            Length(v as u32)
        }
    }

    /// The length divided by `k`, truncated; zero when `k` is zero.
    pub fn divided_by(self, k: u32) -> (r: Length)
        ensures
            r.0 == if k == 0 {
                0
            } else {
                self.0 / k
            },
    {
        if k == 0 {
            Length(0)
        } else {
            Length(self.0 / k)
        }
    }

    /// The larger of two lengths.
    pub fn max_of(self, other: Length) -> (r: Length)
        ensures
            r.0 == if self.0 >= other.0 {
                self.0
            } else {
                other.0
            },
    {
        if self.0 >= other.0 {
            self
        } else {
            other
        }
    }

    /// The text of the length in the largest unit that states it exactly.
    pub fn to_string(&self) -> (r: String)
        ensures
            r@ == length_text(self.0),
    {
        if self.0 % 1000 == 0 {
            unit_text(self.0 / 1000, "m")
        } else if self.0 % 10 == 0 {
            unit_text(self.0 / 10, "cm")
        } else {
            unit_text(self.0, "mm")
        }
    }

    /// Reads a length such as `15cm`, `1.5 m` or `300` (millimetres when no unit is given).
    pub fn from_str(s: &str) -> (r: Result<Length, ParseError>)
        ensures
            r == length_parse(s@),
    {
        let v = chars_of(s);
        parse_length_chars(&v)
    }
}

impl core::ops::Add for Length {
    type Output = Length;

    fn add(self, other: Length) -> Length {
        self.plus(other)
    }
}

impl vstd::std_specs::ops::AddSpecImpl for Length {
    open spec fn obeys_add_spec() -> bool {
        true
    }

    open spec fn add_req(self, rhs: Length) -> bool {
        true
    }

    open spec fn add_spec(self, rhs: Length) -> Length {
        Length(sat(self.0 + rhs.0))
    }
}

impl core::ops::Sub for Length {
    type Output = Length;

    fn sub(self, other: Length) -> Length {
        self.minus(other)
    }
}

impl vstd::std_specs::ops::SubSpecImpl for Length {
    open spec fn obeys_sub_spec() -> bool {
        true
    }

    open spec fn sub_req(self, rhs: Length) -> bool {
        true
    }

    open spec fn sub_spec(self, rhs: Length) -> Length {
        Length(
            if self.0 >= rhs.0 {
                (self.0 - rhs.0) as u32
            } else {
                0
            },
        )
    }
}

impl core::ops::Mul<u32> for Length {
    type Output = Length;

    fn mul(self, k: u32) -> Length {
        self.times(k)
    }
}

impl vstd::std_specs::ops::MulSpecImpl<u32> for Length {
    open spec fn obeys_mul_spec() -> bool {
        true
    }

    open spec fn mul_req(self, k: u32) -> bool {
        true
    }

    open spec fn mul_spec(self, k: u32) -> Length {
        Length(sat(self.0 * k))
    }
}

impl core::ops::Div<u32> for Length {
    type Output = Length;

    fn div(self, k: u32) -> Length {
        self.divided_by(k)
    }
}

impl vstd::std_specs::ops::DivSpecImpl<u32> for Length {
    open spec fn obeys_div_spec() -> bool {
        true
    }

    open spec fn div_req(self, k: u32) -> bool {
        true
    }

    open spec fn div_spec(self, k: u32) -> Length {
        Length(
            if k == 0 {
                0
            } else {
                self.0 / k
            },
        )
    }
}

impl core::ops::AddAssign for Length {
    fn add_assign(&mut self, other: Length) {
        *self = self.plus(other);
    }
}

impl Default for Length {
    fn default() -> (r: Length)
        ensures
            r.0 == 0,
    {
        Length(0)
    }
}

/// A value that is either given or left to be worked out.
#[derive(Debug, Clone, PartialEq, Eq)]
pub enum Auto<T> {
    Auto,
    Value(T),
}

impl<T> Auto<T> {
    pub fn is_auto(&self) -> (r: bool)
        ensures
            r == (*self is Auto),
    {
        match self {
            Auto::Auto => true,
            Auto::Value(_) => false,
        }
    }

    pub fn is_value(&self) -> (r: bool)
        ensures
            r == (*self is Value),
    {
        match self {
            Auto::Auto => false,
            Auto::Value(_) => true,
        }
    }

    /// The given value, if any.
    pub fn value(self) -> (r: Option<T>)
        ensures
            match self {
                Auto::Auto => r is None,
                Auto::Value(v) => r == Some(v),
            },
    {
        match self {
            Auto::Auto => None,
            Auto::Value(v) => Some(v),
        }
    }

    /// A reference to the given value, if any.
    pub fn as_value(&self) -> (r: Option<&T>)
        ensures
            match *self {
                Auto::Auto => r is None,
                Auto::Value(v) => r == Some(&v),
            },
    {
        match self {
            Auto::Auto => None,
            Auto::Value(v) => Some(v),
        }
    }
}

impl<T> Default for Auto<T> {
    fn default() -> (r: Auto<T>)
        ensures
            r is Auto,
    {
        Auto::Auto
    }
}

/// A value that can be read from text, for use inside `Auto`.
pub trait TextValue: Sized {
    /// Whether reading `s` may give `r`.
    spec fn text_parse(s: Seq<char>, r: Option<Self>) -> bool;

    fn parse_text(s: &str) -> (r: Option<Self>)
        ensures
            Self::text_parse(s@, r),
    ;
}

/// `s` without a leading sign.
pub open spec fn signed_digits(s: Seq<char>) -> Seq<char> {
    if s.len() > 0 && (s[0] == '+' || s[0] == '-') {
        s.drop_first()
    } else {
        s
    }
}

/// What `i32::from_str` accepts: an optional sign and at least one digit, within range.
pub open spec fn i32_parse(s: Seq<char>) -> Option<i32> {
    let neg = s.len() > 0 && s[0] == '-';
    let d = signed_digits(s);
    if d.len() == 0 || !all_digits(d) {
        None
    } else if neg && digits_val(d) <= 2147483648 {
        Some((0 - digits_val(d)) as i32)
    } else if !neg && digits_val(d) <= 2147483647 {
        Some(digits_val(d) as i32)
    } else {
        None
    }
}

impl TextValue for i32 {
    open spec fn text_parse(s: Seq<char>, r: Option<i32>) -> bool {
        r == i32_parse(s)
    }

    fn parse_text(s: &str) -> (r: Option<i32>) {
        let v = chars_of(s);
        let neg = v.len() > 0 && v[0] == '-';
        let d = if v.len() > 0 && (v[0] == '+' || v[0] == '-') {
            let d = slice_chars(&v, 1, v.len());
            assert(d@ =~= v@.drop_first());
            d
        } else {
            slice_chars(&v, 0, v.len())
        };
        assert(v@.subrange(0, v@.len() as int) =~= v@);
        assert(d@ == signed_digits(s@));
        if d.len() == 0 {
            return None;
        }
        let mut i: usize = 0;
        while i < d.len()
            invariant
                i <= d@.len(),
                d@ == signed_digits(s@),
                forall|j: int| 0 <= j < i ==> is_digit(#[trigger] d@[j]),
            decreases d@.len() - i,
        {
            if !is_digit_char(d[i]) {
                assert(!is_digit(d@[i as int]));
                return None;
            }
            i = i + 1;
        }
        match digits_capped(&d) {
            None => None,
            Some(n) => {
                if neg && n <= 2147483648 {
                    Some((0 - n as i64) as i32)
                } else if !neg && n <= 2147483647 {
                    Some(n as i32)
                } else {
                    None
                }
            },
        }
    }
}

impl TextValue for String {
    open spec fn text_parse(s: Seq<char>, r: Option<String>) -> bool {
        r is Some && r->0@ == s
    }

    fn parse_text(s: &str) -> (r: Option<String>) {
        Some(s.to_owned())
    }
}

impl<T: TextValue> Auto<T> {
    /// Reads `auto` (in any ASCII case) as `Auto`, and anything else as a value of `T`.
    pub fn parse(s: &str) -> (r: Result<Auto<T>, ParseError>)
        ensures
            eq_nocase(s@, "auto"@) ==> r == Ok::<Auto<T>, ParseError>(Auto::Auto),
            !eq_nocase(s@, "auto"@) ==> match r {
                Ok(Auto::Value(v)) => T::text_parse(s@, Some(v)),
                Ok(Auto::Auto) => false,
                Err(e) => e == ParseError::InvalidNumber && T::text_parse(s@, None),
            },
    {
        let v = chars_of(s);
        if eq_word(&v, "auto") {
            Ok(Auto::Auto)
        } else {
            match T::parse_text(s) {
                Some(x) => Ok(Auto::Value(x)),
                None => Err(ParseError::InvalidNumber),
            }
        }
    }
}

impl<T: TextValue> core::str::FromStr for Auto<T> {
    type Err = ParseError;

    fn from_str(s: &str) -> Result<Auto<T>, ParseError> {
        Auto::parse(s)
    }
}

impl core::str::FromStr for Length {
    type Err = ParseError;

    fn from_str(s: &str) -> Result<Length, ParseError> {
        Length::from_str(s)
    }
}

impl core::str::FromStr for Percentage {
    type Err = ParseError;

    fn from_str(s: &str) -> Result<Percentage, ParseError> {
        Percentage::from_str(s)
    }
}

/// The decimal digits of `n`.
pub open spec fn decimal(n: nat) -> Seq<char>
    decreases n,
{
    if n < 10 {
        seq![(n + 48) as char]
    } else {
        decimal(n / 10).push(((n % 10) + 48) as char)
    }
}

pub open spec fn length_text(mm: u32) -> Seq<char> {
    if mm % 1000 == 0 {
        decimal((mm / 1000) as nat) + "m"@
    } else if mm % 10 == 0 {
        decimal((mm / 10) as nat) + "cm"@
    } else {
        decimal(mm as nat) + "mm"@
    }
}

/// The text of the digit `d`.
fn digit_text(d: u32) -> (r: &'static str)
    requires
        d < 10,
    ensures
        r@ == seq![(d + 48) as char],
{
    if d == 0 {
        proof {
            reveal_strlit("0");
        }
        "0"
    } else if d == 1 {
        proof {
            reveal_strlit("1");
        }
        "1"
    } else if d == 2 {
        proof {
            reveal_strlit("2");
        }
        "2"
    } else if d == 3 {
        proof {
            reveal_strlit("3");
        }
        "3"
    } else if d == 4 {
        proof {
            reveal_strlit("4");
        }
        "4"
    } else if d == 5 {
        proof {
            reveal_strlit("5");
        }
        "5"
    } else if d == 6 {
        proof {
            reveal_strlit("6");
        }
        "6"
    } else if d == 7 {
        proof {
            reveal_strlit("7");
        }
        "7"
    } else if d == 8 {
        proof {
            reveal_strlit("8");
        }
        "8"
    } else {
        proof {
            reveal_strlit("9");
        }
        "9"
    }
}

/// The decimal digits of `n`.
fn decimal_text(n: u32) -> (r: String)
    ensures
        r@ == decimal(n as nat),
    decreases n,
{
    if n < 10 {
        digit_text(n).to_owned()
    } else {
        let mut s = decimal_text(n / 10);
        s.append(digit_text(n % 10));
        assert(s@ =~= decimal(n as nat));
        s
    }
}

/// The decimal digits of `n` followed by `unit`.
fn unit_text(n: u32, unit: &str) -> (r: String)
    ensures
        r@ == decimal(n as nat) + unit@,
{
    let mut s = decimal_text(n);
    s.append(unit);
    s
}

proof fn lemma_decimal(n: nat)
    ensures
        decimal(n).len() >= 1,
        all_digits(decimal(n)),
        digits_val(decimal(n)) == n,
    decreases n,
{
    if n >= 10 {
        lemma_decimal(n / 10);
        let d = decimal(n);
        assert(d.drop_last() == decimal(n / 10));
        assert(d.last() == ((n % 10) + 48) as char);
        assert((((n % 10) + 48) as char) as u32 == (n % 10) + 48);
        assert(digit_val(d.last()) == n % 10);
        assert((n / 10) * 10 + n % 10 == n);
        assert(digits_val(d) == digits_val(d.drop_last()) * 10 + digit_val(d.last()));
    } else {
        let d = decimal(n);
        assert(((n + 48) as char) as u32 == n + 48);
        assert(d.drop_last() =~= Seq::<char>::empty());
        assert(digit_val(d.last()) == n);
        assert(digits_val(d.drop_last()) == 0);
        assert(digits_val(d) == digits_val(d.drop_last()) * 10 + digit_val(d.last()));
    }
}

proof fn lemma_zero_digits(k: nat)
    ensures
        digits_val(frac_digits(Seq::<char>::empty(), k)) == 0,
    decreases k,
{
    if k > 0 {
        let f = frac_digits(Seq::<char>::empty(), k);
        assert(f.drop_last() =~= frac_digits(Seq::<char>::empty(), (k - 1) as nat));
        lemma_zero_digits((k - 1) as nat);
    }
}

/// Reading `decimal(q)` followed by `unit` gives `q` times the unit's factor.
proof fn lemma_read_back(q: nat, unit: Seq<char>, factor: nat)
    requires
        unit.len() >= 1,
        !is_num_char(unit[0]),
        !is_ws(unit[0]),
        !is_ws(unit.last()),
        unit_factor(unit) == Some(factor),
        q * factor <= u32::MAX,
    ensures
        length_parse(decimal(q) + unit) == Ok::<Length, ParseError>(Length((q * factor) as u32)),
{
    lemma_decimal(q);
    let num = decimal(q);
    let t = num + unit;
    assert(!is_ws(t[0])) by {
        assert(is_digit(num[0]));
    }
    assert(trim_start(t) == t);
    assert(t.last() == unit.last());
    assert(trim_end(t) == t);
    assert(trim(t) == t);
    assert forall|j: int| 0 <= j < num.len() implies is_num_char(#[trigger] t[j]) by {
        assert(t[j] == num[j]);
        assert(is_digit(num[j]));
    }
    assert(t[num.len() as int] == unit[0]);
    lemma_prefix_len(t, |c: char| is_num_char(c), num.len() as int);
    assert(t.take(num.len() as int) =~= num);
    assert(t.skip(num.len() as int) =~= unit);
    assert(trim_start(unit) == unit);
    assert forall|j: int| 0 <= j < num.len() implies (#[trigger] num[j]) != '.' by {
        assert(is_digit(num[j]));
    }
    lemma_prefix_len(num, |c: char| c != '.', num.len() as int);
    assert(num.take(num.len() as int) =~= num);
    lemma_prefix_len(Seq::<char>::empty(), |c: char| c != '.', 0);
    lemma_zero_digits(factor_digits(factor));
}

/// Formatting a length and reading the text back gives the same length.
pub proof fn lemma_length_round_trip(l: Length)
    ensures
        length_parse(length_text(l.0)) == Ok::<Length, ParseError>(l),
{
    reveal_strlit("m");
    reveal_strlit("cm");
    reveal_strlit("mm");
    let mm = l.0 as nat;
    if mm % 1000 == 0 {
        assert(!eq_nocase("m"@, "mm"@));
        assert(!eq_nocase("m"@, "cm"@));
        assert(eq_nocase("m"@, "m"@));
        lemma_read_back(mm / 1000, "m"@, 1000);
    } else if mm % 10 == 0 {
        assert(!eq_nocase("cm"@, "mm"@)) by {
            assert(fold_code("cm"@[0]) != ("mm"@[0] as u32));
        }
        assert(eq_nocase("cm"@, "cm"@));
        lemma_read_back(mm / 10, "cm"@, 10);
    } else {
        assert(eq_nocase("mm"@, "mm"@));
        lemma_read_back(mm, "mm"@, 1);
    }
}

pub open spec fn is_num_char(c: char) -> bool {
    is_digit(c) || c == '.'
}

/// `k` digits of a fraction, padded with zeros.
pub open spec fn frac_digits(f: Seq<char>, k: nat) -> Seq<char> {
    Seq::new(k, |i: int| if i < f.len() { f[i] } else { '0' })
}

pub open spec fn unit_factor(unit: Seq<char>) -> Option<nat> {
    if eq_nocase(unit, "mm"@) || unit.len() == 0 {
        Some(1)
    } else if eq_nocase(unit, "cm"@) {
        Some(10)
    } else if eq_nocase(unit, "m"@) {
        Some(1000)
    } else {
        None
    }
}

pub open spec fn factor_digits(factor: nat) -> nat {
    if factor == 1 {
        0
    } else if factor == 10 {
        1
    } else {
        3
    }
}

/// What reading `s` as a length gives: the number is cut at the first character that
/// is neither a digit nor `.`, and the value in millimetres is truncated.
pub open spec fn length_parse(s: Seq<char>) -> Result<Length, ParseError> {
    let t = trim(s);
    if t.len() == 0 {
        Err(ParseError::Empty)
    } else {
        let p = prefix_len(t, |c: char| is_num_char(c)) as int;
        let num = t.take(p);
        let unit = trim_start(t.skip(p));
        let d = prefix_len(num, |c: char| c != '.') as int;
        let ip = num.take(d);
        let fp = if d < num.len() {
            num.skip(d + 1)
        } else {
            seq![]
        };
        if ip.len() + fp.len() == 0 || prefix_len(fp, |c: char| c != '.') < fp.len() {
            Err(ParseError::InvalidNumber)
        } else {
            match unit_factor(unit) {
                None => Err(ParseError::UnknownUnit),
                Some(f) => {
                    let v = digits_val(ip) * f + digits_val(
                        frac_digits(fp, factor_digits(f)),
                    );
                    if v > u32::MAX {
                        Err(ParseError::TooLarge)
                    } else {
                        Ok(Length(v as u32))
                    }
                },
            }
        }
    }
}

pub open spec fn pow10(k: nat) -> nat
    decreases k,
{
    if k == 0 {
        1
    } else {
        10 * pow10((k - 1) as nat)
    }
}

/// The value of the digits `v`, or `None` once it passes `u32::MAX`.
fn digits_capped(v: &Vec<char>) -> (r: Option<u64>)
    requires
        all_digits(v@),
    ensures
        match r {
            Some(n) => n == digits_val(v@) && n <= u32::MAX,
            None => digits_val(v@) > u32::MAX,
        },
{
    let mut acc: u64 = 0;
    let mut i: usize = 0;
    while i < v.len()
        invariant
            all_digits(v@),
            i <= v@.len(),
            acc == digits_val(v@.take(i as int)),
            acc <= u32::MAX,
        decreases v@.len() - i,
    {
        assert(v@.take(i as int + 1).drop_last() =~= v@.take(i as int));
        assert(is_digit(v@[i as int]));
        acc = acc * 10 + (v[i] as u32 - 48) as u64;
        i = i + 1;
        if acc > U32_MAX {
            proof {
                lemma_digits_monotone(v@, i as int);
            }
            return None;
        }
    }
    assert(v@.take(v@.len() as int) =~= v@);
    Some(acc)
}

proof fn lemma_digits_monotone(s: Seq<char>, i: int)
    requires
        0 <= i <= s.len(),
    ensures
        digits_val(s.take(i)) <= digits_val(s),
    decreases s.len() - i,
{
    if i < s.len() {
        assert(s.take(i + 1).drop_last() =~= s.take(i));
        lemma_digits_monotone(s, i + 1);
    } else {
        assert(s.take(i) =~= s);
    }
}

pub fn parse_length_chars(s: &Vec<char>) -> (r: Result<Length, ParseError>)
    ensures
        r == length_parse(s@),
{
    let t = trimmed(s);
    if t.len() == 0 {
        return Err(ParseError::Empty);
    }
    let ghost tt = t@;
    let mut p: usize = 0;
    while p < t.len() && (is_digit_char(t[p]) || t[p] == '.')
        invariant
            p <= tt.len(),
            tt == t@,
            forall|j: int| 0 <= j < p ==> is_num_char(#[trigger] tt[j]),
        decreases tt.len() - p,
    {
        p = p + 1;
    }
    proof {
        lemma_prefix_len(tt, |c: char| is_num_char(c), p as int);
    }
    let num = slice_chars(&t, 0, p);
    assert(num@ =~= tt.take(p as int));
    let rest = slice_chars(&t, p, t.len());
    assert(rest@ =~= tt.skip(p as int));
    let unit = trimmed_start(&rest);
    let mut d: usize = 0;
    while d < num.len() && num[d] != '.'
        invariant
            d <= num@.len(),
            forall|j: int| 0 <= j < d ==> (#[trigger] num@[j]) != '.',
        decreases num@.len() - d,
    {
        d = d + 1;
    }
    proof {
        lemma_prefix_len(num@, |c: char| c != '.', d as int);
    }
    let ip = slice_chars(&num, 0, d);
    assert(ip@ =~= num@.take(d as int));
    let fp = if d < num.len() {
        let f = slice_chars(&num, d + 1, num.len());
        assert(f@ =~= num@.skip(d as int + 1));
        f
    } else {
        Vec::new()
    };
    let mut e: usize = 0;
    while e < fp.len() && fp[e] != '.'
        invariant
            e <= fp@.len(),
            forall|j: int| 0 <= j < e ==> (#[trigger] fp@[j]) != '.',
        decreases fp@.len() - e,
    {
        e = e + 1;
    }
    proof {
        lemma_prefix_len(fp@, |c: char| c != '.', e as int);
    }
    if ip.len() + fp.len() == 0 || e < fp.len() {
        return Err(ParseError::InvalidNumber);
    }
    let (factor, k): (u64, usize) = if eq_word(&unit, "mm") || unit.len() == 0 {
        (1, 0)
    } else if eq_word(&unit, "cm") {
        (10, 1)
    } else if eq_word(&unit, "m") {
        (1000, 3)
    } else {
        return Err(ParseError::UnknownUnit);
    };
    assert forall|j: int| 0 <= j < ip@.len() implies is_digit(#[trigger] ip@[j]) by {
        assert(ip@[j] == tt[j]);
        assert(is_num_char(tt[j]));
    }
    assert forall|j: int| 0 <= j < fp@.len() implies is_digit(#[trigger] fp@[j]) by {
        assert(fp@[j] == tt[d + 1 + j]);
        assert(is_num_char(tt[d + 1 + j]));
    }
    // the fraction, padded or cut to `k` digits
    let mut frac: u64 = 0;
    let mut i: usize = 0;
    let ghost fd = frac_digits(fp@, k as nat);
    while i < k
        invariant
            k <= 3,
            i <= k,
            fd == frac_digits(fp@, k as nat),
            all_digits(fp@),
            frac == digits_val(fd.take(i as int)),
            frac < pow10(i as nat),
        decreases k - i,
    {
        assert(fd.take(i as int + 1).drop_last() =~= fd.take(i as int));
        let dv: u64 = if i < fp.len() {
            assert(is_digit(fp@[i as int]));
            (fp[i] as u32 - 48) as u64
        } else {
            0
        };
        assert(pow10(i as nat + 1) == 10 * pow10(i as nat));
        assert(pow10(i as nat) <= 100) by {
            assert(pow10(0) == 1);
            assert(pow10(1) == 10);
            assert(pow10(2) == 100);
        }
        frac = frac * 10 + dv;
        i = i + 1;
    }
    assert(fd.take(k as int) =~= fd);
    assert(pow10(0) == 1);
    assert(pow10(1) == 10);
    assert(pow10(2) == 100);
    assert(pow10(3) == 1000);
    assert(frac < 1000);
    match digits_capped(&ip) {
        None => {
            assert(digits_val(ip@) * (factor as nat) >= digits_val(ip@)) by (nonlinear_arith)
                requires
                    factor >= 1,
            ;
            Err(ParseError::TooLarge)
        },
        Some(n) => {
            assert(n * factor <= U32_MAX * 1000) by (nonlinear_arith)
                requires
                    n <= U32_MAX,
                    factor <= 1000,
            ;
            let v = n * factor + frac;
            if v > U32_MAX {
                Err(ParseError::TooLarge)
            } else {
                Ok(Length(v as u32))
            }
        },
    }
}

/// A share of a parent length, in whole percent.
#[derive(Debug, Clone, Copy, PartialEq, Eq, Structural, PartialOrd, Ord, Hash)]
pub struct Percentage(pub u32);

/// What `u32::from_str` accepts: an optional `+` and at least one digit, within range.
pub open spec fn u32_parse(s: Seq<char>) -> Option<nat> {
    let d = unsigned_digits(s);
    if d.len() == 0 || !all_digits(d) || digits_val(d) > u32::MAX {
        None
    } else {
        Some(digits_val(d))
    }
}

/// What reading `s` as a percentage gives.
pub open spec fn percentage_parse(s: Seq<char>) -> Result<Percentage, ParseError> {
    let t = trim(s);
    if t.len() == 0 {
        Err(ParseError::Empty)
    } else if t.last() != '%' {
        Err(ParseError::MissingPercentSign)
    } else {
        match u32_parse(t.drop_last()) {
            None => Err(ParseError::InvalidNumber),
            Some(v) => if v > 100 {
                Err(ParseError::PercentageOutOfRange)
            } else {
                Ok(Percentage(v as u32))
            },
        }
    }
}

/// `s` without a leading `+`.
pub open spec fn unsigned_digits(s: Seq<char>) -> Seq<char> {
    if s.len() > 0 && s[0] == '+' {
        s.drop_first()
    } else {
        s
    }
}

/// Reads `s` as `u32::from_str` does.
pub fn parse_u32_chars(s: &Vec<char>) -> (r: Option<u32>)
    ensures
        match u32_parse(s@) {
            Some(v) => r == Some(v as u32),
            None => r is None,
        },
{
    let d = if s.len() > 0 && s[0] == '+' {
        let d = slice_chars(s, 1, s.len());
        assert(d@ =~= s@.drop_first());
        d
    } else {
        slice_chars(s, 0, s.len())
    };
    assert(s@.subrange(0, s@.len() as int) =~= s@);
    let ghost dd = unsigned_digits(s@);
    assert(d@ == dd);
    if d.len() == 0 {
        return None;
    }
    let mut i: usize = 0;
    while i < d.len()
        invariant
            i <= d@.len(),
            d@ == dd,
            dd == unsigned_digits(s@),
            forall|j: int| 0 <= j < i ==> is_digit(#[trigger] d@[j]),
        decreases d@.len() - i,
    {
        if !is_digit_char(d[i]) {
            assert(!is_digit(d@[i as int]));
            assert(!all_digits(dd));
            return None;
        }
        i = i + 1;
    }
    match digits_capped(&d) {
        None => None,
        Some(n) => Some(n as u32),
    }
}

impl Percentage {
    pub fn new(value: u32) -> (r: Percentage)
        ensures
            r.0 == value,
    {
        Percentage(value)
    }

    pub fn value(&self) -> (r: u32)
        ensures
            r == self.0,
    {
        self.0
    }

    /// The text of the percentage, such as `50%`.
    pub fn to_string(&self) -> (r: String)
        ensures
            r@ == decimal(self.0 as nat) + "%"@,
    {
        unit_text(self.0, "%")
    }

    /// Reads a percentage such as `50%`.
    pub fn from_str(s: &str) -> (r: Result<Percentage, ParseError>)
        ensures
            r == percentage_parse(s@),
    {
        let v = chars_of(s);
        parse_percentage_chars(&v)
    }
}

impl Default for Percentage {
    fn default() -> (r: Percentage)
        ensures
            r.0 == 0,
    {
        Percentage(0)
    }
}

pub fn parse_percentage_chars(s: &Vec<char>) -> (r: Result<Percentage, ParseError>)
    ensures
        r == percentage_parse(s@),
{
    let t = trimmed(s);
    if t.len() == 0 {
        return Err(ParseError::Empty);
    }
    if t[t.len() - 1] != '%' {
        return Err(ParseError::MissingPercentSign);
    }
    let num = slice_chars(&t, 0, t.len() - 1);
    assert(num@ =~= t@.drop_last());
    match parse_u32_chars(&num) {
        None => Err(ParseError::InvalidNumber),
        Some(v) => if v > 100 {
            Err(ParseError::PercentageOutOfRange)
        } else {
            Ok(Percentage(v))
        },
    }
}

} // verus!
