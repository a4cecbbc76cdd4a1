//! Lengths and speeds, held exactly as thousandths of their unit.

use vstd::prelude::*;

use crate::text::{
    chars_of, lemma_split_once_at, lemma_split_once_at_none, push_char, split_once_at, split_once_chars, str_eq,
    string_from_chars,
};

verus! {

/// A length, held as a whole number of millimetres.
#[derive(Clone, Copy, Debug, PartialEq, Eq, Structural)]
pub struct Metre {
    pub millimetres: i64,
}

impl Metre {
    /// A length of the given number of millimetres.
    pub fn from_millimetres(millimetres: i64) -> (r: Self)
        ensures
            r.millimetres == millimetres,
    {
        Metre { millimetres }
    }

    /// The length in millimetres.
    pub fn millimetres(&self) -> (r: i64)
        ensures
            r == self.millimetres,
    {
        self.millimetres
    }

    /// The sum of two lengths.
    pub fn plus(&self, other: &Metre) -> (r: Metre)
        requires
            i64::MIN <= self.millimetres + other.millimetres <= i64::MAX,
        ensures
            r.millimetres == self.millimetres + other.millimetres,
    {
        Metre { millimetres: self.millimetres + other.millimetres }
    }

    /// The length written in metres, as a decimal without trailing zeros.
    pub fn to_string(&self) -> (r: String)
        ensures
            r@ == spec_format_milli(self.millimetres as int),
    {
        format_milli(self.millimetres)
    }
}

/// Vehicle speed, held as thousandths of its unit.
#[derive(Clone, Copy, Debug, PartialEq, Eq, Structural)]
pub enum Speed {
    Kph(i64),
    Mph(i64),
    Knots(i64),
}

/// A speed in units of 10^-8 km/h, exactly: 1 mph is 1.60934 km/h and 1 knot
/// is 1.852 km/h.
pub open spec fn kph_scaled(s: Speed) -> int {
    match s {
        Speed::Kph(v) => v * 100000,
        Speed::Mph(v) => v * 160934,
        Speed::Knots(v) => v * 185200,
    }
}

/// `n` km/h in units of 10^-8 km/h.
pub open spec fn kph_units(n: int) -> int {
    n * 100000000
}

impl Speed {
    /// The speed in units of 10^-8 km/h.
    pub fn kph_scaled(&self) -> (r: i128)
        ensures
            r == kph_scaled(*self),
    {
        match self {
            Speed::Kph(v) => (*v as i128) * 100000,
            Speed::Mph(v) => (*v as i128) * 160934,
            Speed::Knots(v) => (*v as i128) * 185200,
        }
    }

    /// The speed written as tagged: `50`, `30 mph`, `12 knots`.
    pub fn to_string(&self) -> (r: String)
        ensures
            r@ == spec_speed_text(*self),
    {
        match self {
            Speed::Kph(v) => format_milli(*v),
            Speed::Mph(v) => {
                let mut s = format_milli(*v);
                s.append(" mph");
                s
            },
            Speed::Knots(v) => {
                let mut s = format_milli(*v);
                s.append(" knots");
                s
            },
        }
    }

    /// Parses a speed: a number in km/h, or a number followed by ` mph` or
    /// ` knots`, from 0 to 300 km/h.
    pub fn from_str(s: &str) -> (r: Result<Self, SpeedError>)
        ensures
            match (r, spec_parse_speed(s@)) {
                (Ok(v), Ok(w)) => v == w,
                (Err(SpeedError::Empty), Err(e)) => e == SpeedErrorKind::Empty,
                (Err(SpeedError::Parse), Err(e)) => e == SpeedErrorKind::Parse,
                (Err(SpeedError::UnknownUnit(u)), Err(e)) => e == SpeedErrorKind::UnknownUnit(u@),
                (Err(SpeedError::OutOfRange), Err(e)) => e == SpeedErrorKind::OutOfRange,
                _ => false,
            },
    {
        let cs = chars_of(s);
        if cs.len() == 0 {
            return Err(SpeedError::Empty);
        }
        let speed = match split_once_chars(cs.as_slice(), ' ') {
            None => match parse_milli(cs.as_slice()) {
                Some(v) => Speed::Kph(v),
                None => return Err(SpeedError::Parse),
            },
            Some((num, unit)) => {
                let unit_s = string_from_chars(unit.as_slice());
                if str_eq(unit_s.as_str(), "mph") {
                    match parse_milli(num.as_slice()) {
                        Some(v) => Speed::Mph(v),
                        None => return Err(SpeedError::Parse),
                    }
                } else if str_eq(unit_s.as_str(), "knots") {
                    match parse_milli(num.as_slice()) {
                        Some(v) => Speed::Knots(v),
                        None => return Err(SpeedError::Parse),
                    }
                } else {
                    return Err(SpeedError::UnknownUnit(unit_s));
                }
            },
        };
        let k = speed.kph_scaled();
        if k < 0 || k > 300 * 100000000 {
            return Err(SpeedError::OutOfRange);
        }
        Ok(speed)
    }
}

/// Why a speed could not be read.
#[derive(Debug)]
pub enum SpeedError {
    Empty,
    /// The number could not be read.
    Parse,
    UnknownUnit(String),
    OutOfRange,
}

impl SpeedError {
    /// The error as written.
    pub fn to_string(&self) -> (r: String)
        ensures
            r@ == match self {
                SpeedError::Empty => "empty"@,
                SpeedError::Parse => "invalid float literal"@,
                SpeedError::UnknownUnit(u) => "unknown unit '"@ + u@ + "'"@,
                SpeedError::OutOfRange => "out of range"@,
            },
    {
        match self {
            SpeedError::Empty => "empty".to_owned(),
            SpeedError::Parse => "invalid float literal".to_owned(),
            SpeedError::UnknownUnit(u) => {
                let mut out = "unknown unit '".to_owned();
                out.append(u.as_str());
                out.append("'");
                out
            },
            SpeedError::OutOfRange => "out of range".to_owned(),
        }
    }
}

/// A speed error, by its contents.
pub enum SpeedErrorKind {
    Empty,
    Parse,
    UnknownUnit(Seq<char>),
    OutOfRange,
}

/// What `Speed::from_str` gives.
pub open spec fn spec_parse_speed(s: Seq<char>) -> Result<Speed, SpeedErrorKind> {
    if s.len() == 0 {
        Err(SpeedErrorKind::Empty)
    } else {
        let parsed = match split_once_at(s, ' ') {
            None => match spec_parse_milli(s) {
                Some(v) => Ok(Speed::Kph(v as i64)),
                None => Err(SpeedErrorKind::Parse),
            },
            Some((num, unit)) => if unit == "mph"@ {
                match spec_parse_milli(num) {
                    Some(v) => Ok(Speed::Mph(v as i64)),
                    None => Err(SpeedErrorKind::Parse),
                }
            } else if unit == "knots"@ {
                match spec_parse_milli(num) {
                    Some(v) => Ok(Speed::Knots(v as i64)),
                    None => Err(SpeedErrorKind::Parse),
                }
            } else {
                Err(SpeedErrorKind::UnknownUnit(unit))
            },
        };
        match parsed {
            Ok(v) => if kph_scaled(v) < 0 || kph_scaled(v) > kph_units(300) {
                Err(SpeedErrorKind::OutOfRange)
            } else {
                Ok(v)
            },
            Err(e) => Err(e),
        }
    }
}

/// A speed written as tagged.
pub open spec fn spec_speed_text(s: Speed) -> Seq<char> {
    match s {
        Speed::Kph(v) => spec_format_milli(v as int),
        Speed::Mph(v) => spec_format_milli(v as int) + " mph"@,
        Speed::Knots(v) => spec_format_milli(v as int) + " knots"@,
    }
}

/// Whether every character is a decimal digit.
pub open spec fn all_digits(d: Seq<char>) -> bool {
    forall|i: int| 0 <= i < d.len() ==> '0' <= #[trigger] d[i] <= '9'
}

/// The value of a digit.
pub open spec fn digit_value(c: char) -> int {
    (c as int) - ('0' as int)
}

/// The value of a string of decimal digits.
pub open spec fn digits_value(d: Seq<char>) -> int
    decreases d.len(),
{
    if d.len() == 0 {
        0
    } else {
        digits_value(d.drop_last()) * 10 + digit_value(d.last())
    }
}

/// 10 to the power `n`.
pub open spec fn pow10(n: nat) -> int
    decreases n,
{
    if n == 0 {
        1
    } else {
        10 * pow10((n - 1) as nat)
    }
}

/// Whether some character is a digit other than zero.
pub open spec fn has_nonzero(d: Seq<char>) -> bool {
    exists|i: int| 0 <= i < d.len() && #[trigger] d[i] != '0'
}

/// The first three digits of a fraction, and what comes after them.
pub open spec fn first_three(fp: Seq<char>) -> (Seq<char>, Seq<char>) {
    if fp.len() <= 3 {
        (fp, Seq::empty())
    } else {
        (fp.take(3), fp.skip(3))
    }
}

/// A decimal without sign, in thousandths: digits, optionally a `.` and more
/// digits, with at least one digit and at most fifteen before the `.`. A
/// value between two thousandths goes to the one further from zero, so that
/// it lies on the same side of every whole number as the decimal written.
pub open spec fn unsigned_milli(body: Seq<char>) -> Option<int> {
    match split_once_at(body, '.') {
        None => if 0 < body.len() <= 15 && all_digits(body) {
            Some(digits_value(body) * 1000)
        } else {
            None
        },
        Some((ip, fp)) => if ip.len() + fp.len() > 0 && ip.len() <= 15 && all_digits(ip) && all_digits(fp) {
            let (f3, rest) = first_three(fp);
            Some(
                digits_value(ip) * 1000 + digits_value(f3) * pow10((3 - f3.len()) as nat) + if has_nonzero(
                    rest,
                ) {
                    1int
                } else {
                    0int
                },
            )
        } else {
            None
        },
    }
}

/// A decimal with an optional sign, in thousandths.
pub open spec fn spec_parse_milli(s: Seq<char>) -> Option<int> {
    if s.len() > 0 && s[0] == '-' {
        match unsigned_milli(s.drop_first()) {
            Some(v) => Some(-v),
            None => None,
        }
    } else if s.len() > 0 && s[0] == '+' {
        unsigned_milli(s.drop_first())
    } else {
        unsigned_milli(s)
    }
}

/// The decimal digits of a natural number, without leading zeros.
pub open spec fn nat_digits(n: nat) -> Seq<char>
    decreases n,
{
    if n < 10 {
        seq![digit_char(n)]
    } else {
        nat_digits(n / 10) + seq![digit_char(n % 10)]
    }
}

/// The character of a digit.
pub open spec fn digit_char(d: nat) -> char {
    if d == 0 {
        '0'
    } else if d == 1 {
        '1'
    } else if d == 2 {
        '2'
    } else if d == 3 {
        '3'
    } else if d == 4 {
        '4'
    } else if d == 5 {
        '5'
    } else if d == 6 {
        '6'
    } else if d == 7 {
        '7'
    } else if d == 8 {
        '8'
    } else {
        '9'
    }
}

/// The digits after the decimal point of `f` thousandths, without trailing zeros.
pub open spec fn fraction_digits(f: nat) -> Seq<char> {
    if f % 100 == 0 {
        seq![digit_char(f / 100)]
    } else if f % 10 == 0 {
        seq![digit_char(f / 100), digit_char((f / 10) % 10)]
    } else {
        seq![digit_char(f / 100), digit_char((f / 10) % 10), digit_char(f % 10)]
    }
}

/// Thousandths written as a decimal without trailing zeros, as `f64` prints.
pub open spec fn spec_format_milli(v: int) -> Seq<char> {
    let a: nat = if v < 0 {
        (-v) as nat
    } else {
        v as nat
    };
    let sign = if v < 0 {
        seq!['-']
    } else {
        Seq::empty()
    };
    let whole = nat_digits(a / 1000);
    if a % 1000 == 0 {
        sign + whole
    } else {
        sign + whole + seq!['.'] + fraction_digits(a % 1000)
    }
}

/// The character of a digit.
fn digit_to_char(d: u64) -> (c: char)
    requires
        d < 10,
    ensures
        c == digit_char(d as nat),
{
    if d == 0 {
        '0'
    } else if d == 1 {
        '1'
    } else if d == 2 {
        '2'
    } else if d == 3 {
        '3'
    } else if d == 4 {
        '4'
    } else if d == 5 {
        '5'
    } else if d == 6 {
        '6'
    } else if d == 7 {
        '7'
    } else if d == 8 {
        '8'
    } else {
        '9'
    }
}

/// Appends the decimal digits of `n`.
fn push_digits(s: &mut String, n: u64)
    ensures
        final(s)@ == old(s)@ + nat_digits(n as nat),
    decreases n,
{
    if n < 10 {
        push_char(s, digit_to_char(n));
    } else {
        push_digits(s, n / 10);
        push_char(s, digit_to_char(n % 10));
        assert(final(s)@ =~= old(s)@ + nat_digits(n as nat));
    }
}

/// The decimal digits of a natural number.
pub fn usize_to_string(n: usize) -> (r: String)
    ensures
        r@ == nat_digits(n as nat),
{
    let mut s = String::new();
    push_digits(&mut s, n as u64);
    assert(s@ =~= nat_digits(n as nat));
    s
}

/// The decimal digits of a 64-bit natural number.
pub fn u64_to_string(n: u64) -> (r: String)
    ensures
        r@ == nat_digits(n as nat),
{
    let mut s = String::new();
    push_digits(&mut s, n);
    assert(s@ =~= nat_digits(n as nat));
    s
}

/// The decimal digits of an integer, after a `-` where it is negative.
pub open spec fn int_digits(v: int) -> Seq<char> {
    if v < 0 {
        seq!['-'] + nat_digits((-v) as nat)
    } else {
        nat_digits(v as nat)
    }
}

/// The decimal digits of an integer, after a `-` where it is negative.
pub fn i64_to_string(v: i64) -> (r: String)
    ensures
        r@ == int_digits(v as int),
{
    let mut s = String::new();
    if v < 0 {
        push_char(&mut s, '-');
        push_digits(&mut s, (0i128 - (v as i128)) as u64);
    } else {
        push_digits(&mut s, v as u64);
    }
    s
}

/// Thousandths written as a decimal without trailing zeros.
pub fn format_milli(v: i64) -> (r: String)
    ensures
        r@ == spec_format_milli(v as int),
{
    let mut s = String::new();
    let a: u64 = if v < 0 {
        (0i128 - (v as i128)) as u64
    } else {
        v as u64
    };
    if v < 0 {
        push_char(&mut s, '-');
    }
    push_digits(&mut s, a / 1000);
    let f = a % 1000;
    if f != 0 {
        push_char(&mut s, '.');
        push_char(&mut s, digit_to_char(f / 100));
        if f % 100 != 0 {
            push_char(&mut s, digit_to_char((f / 10) % 10));
            if f % 10 != 0 {
                push_char(&mut s, digit_to_char(f % 10));
            }
        }
    }
    assert(s@ =~= spec_format_milli(v as int));
    s
}

proof fn lemma_digits_bound(d: Seq<char>)
    requires
        all_digits(d),
    ensures
        0 <= digits_value(d) < pow10(d.len()),
    decreases d.len(),
{
    if d.len() > 0 {
        assert(all_digits(d.drop_last()));
        lemma_digits_bound(d.drop_last());
        assert('0' <= d[d.len() - 1] <= '9');
    }
}

/// The value of a string of at most fifteen decimal digits.
fn digits_val(d: &[char]) -> (r: i64)
    requires
        all_digits(d@),
        d@.len() <= 15,
    ensures
        r == digits_value(d@),
{
    let mut acc: i64 = 0;
    let mut i: usize = 0;
    while i < d.len()
        invariant
            i <= d@.len() <= 15,
            all_digits(d@),
            acc == digits_value(d@.take(i as int)),
            0 <= acc < pow10(i as nat),
            pow10(i as nat) <= 1000000000000000,
        decreases d@.len() - i,
    {
        assert(d@.take(i + 1).drop_last() =~= d@.take(i as int));
        assert('0' <= d@[i as int] <= '9');
        let dv = (d[i] as u32 - '0' as u32) as i64;
        assert(pow10((i + 1) as nat) == 10 * pow10(i as nat));
        proof {
            if i + 1 <= 15 {
                lemma_pow10_15();
                lemma_pow10_mono((i + 1) as nat, 15);
            }
        }
        acc = acc * 10 + dv;
        i = i + 1;
    }
    assert(d@.take(d@.len() as int) =~= d@);
    acc
}

proof fn lemma_pow10_15()
    ensures
        pow10(0) == 1,
        pow10(1) == 10,
        pow10(2) == 100,
        pow10(3) == 1000,
        pow10(15) == 1000000000000000,
{
    reveal_with_fuel(pow10, 16);
}

proof fn lemma_pow10_mono(a: nat, b: nat)
    requires
        a <= b,
    ensures
        pow10(a) <= pow10(b),
    decreases b,
{
    if a < b {
        lemma_pow10_mono(a, (b - 1) as nat);
        lemma_pow10_pos((b - 1) as nat);
    }
}

proof fn lemma_pow10_pos(a: nat)
    ensures
        pow10(a) >= 1,
    decreases a,
{
    if a > 0 {
        lemma_pow10_pos((a - 1) as nat);
    }
}

/// Whether every character is a decimal digit.
fn chars_all_digits(d: &[char]) -> (r: bool)
    ensures
        r == all_digits(d@),
{
    let mut i: usize = 0;
    while i < d.len()
        invariant
            i <= d@.len(),
            forall|j: int| 0 <= j < i ==> '0' <= #[trigger] d@[j] <= '9',
        decreases d@.len() - i,
    {
        if d[i] < '0' || d[i] > '9' {
            return false;
        }
        i = i + 1;
    }
    true
}

/// Whether some character from index `from` on is a digit other than zero.
fn tail_nonzero(d: &[char], from: usize) -> (r: bool)
    requires
        from <= d@.len(),
    ensures
        r == exists|k: int| from <= k < d@.len() && #[trigger] d@[k] != '0',
{
    let mut i = from;
    while i < d.len()
        invariant
            from <= i <= d@.len(),
            forall|k: int| from <= k < i ==> #[trigger] d@[k] == '0',
        decreases d@.len() - i,
    {
        if d[i] != '0' {
            return true;
        }
        i = i + 1;
    }
    false
}

/// A decimal without sign, in thousandths.
fn unsigned_milli_exec(body: &[char]) -> (r: Option<i64>)
    ensures
        r matches Some(v) ==> v >= 0,
        match r {
            Some(v) => unsigned_milli(body@) == Some(v as int),
            None => unsigned_milli(body@) is None,
        },
{
    match split_once_chars(body, '.') {
        None => {
            if 0 < body.len() && body.len() <= 15 && chars_all_digits(body) {
                let v = digits_val(body);
                proof {
                    lemma_digits_bound(body@);
                    lemma_pow10_mono(body@.len(), 15);
                    lemma_pow10_15();
                }
                Some(v * 1000)
            } else {
                None
            }
        },
        Some((ip, fp)) => {
            if ip.len() <= 15 && (ip.len() > 0 || fp.len() > 0) && chars_all_digits(ip.as_slice()) && chars_all_digits(
                fp.as_slice(),
            ) {
                let n3: usize = if fp.len() <= 3 {
                    fp.len()
                } else {
                    3
                };
                let ghost (f3, rest) = first_three(fp@);
                let mut f3v: Vec<char> = Vec::new();
                let mut j: usize = 0;
                while j < n3
                    invariant
                        j <= n3 <= fp@.len(),
                        f3v@ == fp@.take(j as int),
                    decreases n3 - j,
                {
                    f3v.push(fp[j]);
                    assert(f3v@ =~= fp@.take(j + 1));
                    j = j + 1;
                }
                assert(f3v@ =~= f3);
                assert(all_digits(f3v@));
                let iv = digits_val(ip.as_slice());
                let fv = digits_val(f3v.as_slice());
                let up = tail_nonzero(fp.as_slice(), n3);
                assert(up == has_nonzero(rest)) by {
                    if fp@.len() <= 3 {
                        assert(rest =~= Seq::<char>::empty());
                    } else {
                        assert forall|i: int| 0 <= i < rest.len() implies rest[i] == fp@[i + 3] by {}
                        if up {
                            let k = choose|k: int| 3 <= k < fp@.len() && #[trigger] fp@[k] != '0';
                            assert(rest[k - 3] != '0');
                        }
                    }
                }
                proof {
                    lemma_digits_bound(ip@);
                    lemma_pow10_mono(ip@.len(), 15);
                    lemma_digits_bound(f3);
                    lemma_pow10_15();
                }
                let scale: i64 = if n3 == 0 {
                    1000
                } else if n3 == 1 {
                    100
                } else if n3 == 2 {
                    10
                } else {
                    1
                };
                let extra: i64 = if up {
                    1
                } else {
                    0
                };
                Some(iv * 1000 + fv * scale + extra)
            } else {
                None
            }
        },
    }
}

/// A decimal with an optional sign, in thousandths.
pub fn parse_milli(s: &[char]) -> (r: Option<i64>)
    ensures
        match r {
            Some(v) => spec_parse_milli(s@) == Some(v as int),
            None => spec_parse_milli(s@) is None,
        },
{
    if s.len() > 0 && (s[0] == '-' || s[0] == '+') {
        let mut rest: Vec<char> = Vec::new();
        let mut i: usize = 1;
        while i < s.len()
            invariant
                1 <= i <= s@.len(),
                rest@ == s@.subrange(1, i as int),
            decreases s@.len() - i,
        {
            rest.push(s[i]);
            assert(rest@ =~= s@.subrange(1, i + 1));
            i = i + 1;
        }
        assert(rest@ =~= s@.drop_first());
        match unsigned_milli_exec(rest.as_slice()) {
            Some(v) => if s[0] == '-' {
                Some(-v)
            } else {
                Some(v)
            },
            None => None,
        }
    } else {
        unsigned_milli_exec(s)
    }
}


/// A digit character reads back as its value.
proof fn lemma_digit_char(d: nat)
    requires
        d < 10,
    ensures
        '0' <= digit_char(d) <= '9',
        digit_value(digit_char(d)) == d,
{
}

/// The digits of a natural number are digits, at least one, at most `k`
/// below `10^k`, and read back as the number.
proof fn lemma_nat_digits(n: nat, k: nat)
    requires
        1 <= k,
        n < pow10(k),
    ensures
        all_digits(nat_digits(n)),
        digits_value(nat_digits(n)) == n,
        1 <= nat_digits(n).len() <= k,
    decreases n,
{
    reveal_with_fuel(pow10, 2);
    if n < 10 {
        lemma_digit_char(n);
        reveal_with_fuel(digits_value, 2);
        assert(seq![digit_char(n)].drop_last() =~= Seq::<char>::empty());
    } else {
        assert(k >= 2);
        assert(pow10(k) == 10 * pow10((k - 1) as nat));
        lemma_nat_digits(n / 10, (k - 1) as nat);
        lemma_digit_char(n % 10);
        let s = nat_digits(n);
        assert(s == nat_digits(n / 10) + seq![digit_char(n % 10)]);
        assert(s.drop_last() =~= nat_digits(n / 10));
        assert(all_digits(s)) by {
            assert forall|i: int| 0 <= i < s.len() implies '0' <= #[trigger] s[i] <= '9' by {
                if i < s.len() - 1 {
                    assert(s[i] == nat_digits(n / 10)[i]);
                }
            }
        }
    }
}

/// The digits after the decimal point of a fraction of thousandths are one
/// to three digits that read back as the fraction.
proof fn lemma_fraction_digits(f: nat)
    requires
        0 < f < 1000,
    ensures
        all_digits(fraction_digits(f)),
        1 <= fraction_digits(f).len() <= 3,
        digits_value(fraction_digits(f)) * pow10((3 - fraction_digits(f).len()) as nat) == f,
{
    reveal_with_fuel(digits_value, 4);
    reveal_with_fuel(pow10, 3);
    lemma_digit_char(f / 100);
    lemma_digit_char((f / 10) % 10);
    lemma_digit_char(f % 10);
    let fd = fraction_digits(f);
    let h = f / 100;
    let t = (f / 10) % 10;
    let u = f % 10;
    assert(f == 100 * h + 10 * t + u);
    if f % 100 == 0 {
        assert(fd.drop_last() =~= Seq::<char>::empty());
        assert(digits_value(fd) == h);
        assert(pow10(2) == 100);
        assert(fd.len() == 1);
        assert(digits_value(fd) * pow10((3 - fd.len()) as nat) == h * 100);
    } else if f % 10 == 0 {
        assert(fd.drop_last() =~= seq![digit_char(f / 100)]);
        assert(fd.drop_last().drop_last() =~= Seq::<char>::empty());
        assert(digits_value(fd.drop_last()) == h);
        assert(digits_value(fd) == h * 10 + t);
        assert(pow10(1) == 10);
        assert(fd.len() == 2);
        assert(digits_value(fd) * pow10((3 - fd.len()) as nat) == (h * 10 + t) * 10);
    } else {
        assert(fd.drop_last() =~= seq![digit_char(f / 100), digit_char((f / 10) % 10)]);
        assert(fd.drop_last().drop_last() =~= seq![digit_char(f / 100)]);
        assert(fd.drop_last().drop_last().drop_last() =~= Seq::<char>::empty());
        assert(digits_value(fd.drop_last().drop_last()) == h);
        assert(digits_value(fd.drop_last()) == h * 10 + t);
        assert(digits_value(fd) == (h * 10 + t) * 10 + u);
        assert(pow10(0) == 1);
        assert(fd.len() == 3);
        assert(digits_value(fd) * pow10((3 - fd.len()) as nat) == (h * 10 + t) * 10 + u);
    }
}

/// A decimal without sign written by `spec_format_milli` reads back.
proof fn lemma_unsigned_milli_text(a: nat)
    requires
        a < 1000 * pow10(15),
    ensures
        unsigned_milli(spec_format_milli(a as int)) == Some(a as int),
        forall|i: int|
            0 <= i < spec_format_milli(a as int).len() ==> #[trigger] spec_format_milli(a as int)[i]
                != ' ' && spec_format_milli(a as int)[i] != '-' && spec_format_milli(a as int)[i]
                != '+',
        spec_format_milli(a as int).len() > 0,
{
    let whole = nat_digits(a / 1000);
    lemma_nat_digits(a / 1000, 15);
    let text = spec_format_milli(a as int);
    reveal_with_fuel(pow10, 4);
    assert(seq![] + whole =~= whole);
    if a % 1000 == 0 {
        assert(text =~= whole);
        lemma_split_once_at_none(text, '.');
        assert(digits_value(whole) * 1000 == a);
    } else {
        let fd = fraction_digits(a % 1000);
        lemma_fraction_digits(a % 1000);
        assert(text =~= whole + seq!['.'] + fd);
        assert(text[whole.len() as int] == '.');
        lemma_split_once_at(text, '.', whole.len() as int);
        assert(text.take(whole.len() as int) =~= whole);
        assert(text.skip(whole.len() as int + 1) =~= fd);
        assert forall|i: int| 0 <= i < text.len() implies #[trigger] text[i] != ' ' && text[i] != '-'
            && text[i] != '+' by {
            if i < whole.len() {
                assert(text[i] == whole[i]);
            } else if i > whole.len() {
                assert(text[i] == fd[i - whole.len() - 1]);
            }
        }
    }
}

/// Thousandths written as a decimal read back as the same number, for any
/// number of at most fifteen digits before the decimal point.
pub proof fn lemma_milli_text_parses(v: int)
    requires
        -1000 * pow10(15) < v < 1000 * pow10(15),
    ensures
        spec_parse_milli(spec_format_milli(v)) == Some(v),
{
    let a: nat = if v < 0 {
        (-v) as nat
    } else {
        v as nat
    };
    lemma_unsigned_milli_text(a);
    let t = spec_format_milli(a as int);
    if v < 0 {
        let s = spec_format_milli(v);
        assert(s =~= seq!['-'] + t);
        assert(s.drop_first() =~= t);
    } else {
        assert(t[0] != '-' && t[0] != '+');
    }
}

/// A number without spaces, followed by a space and a unit, splits at that
/// space.
proof fn lemma_split_unit(num: Seq<char>, unit: Seq<char>)
    requires
        forall|j: int| 0 <= j < num.len() ==> #[trigger] num[j] != ' ',
        unit.len() > 0,
        unit[0] == ' ',
    ensures
        split_once_at(num + unit, ' ') == Some((num, unit.drop_first())),
{
    let text = num + unit;
    assert(text[num.len() as int] == ' ');
    assert forall|j: int| 0 <= j < num.len() implies text[j] != ' ' by {
        assert(text[j] == num[j]);
    }
    lemma_split_once_at(text, ' ', num.len() as int);
    assert(text.take(num.len() as int) =~= num);
    assert(text.skip(num.len() as int + 1) =~= unit.drop_first());
}

/// A speed from 0 to 300 km/h, written as tagged, reads back as the same
/// speed.
pub proof fn lemma_speed_text_parses(s: Speed)
    requires
        0 <= kph_scaled(s) <= kph_units(300),
    ensures
        spec_parse_speed(spec_speed_text(s)) == Ok::<Speed, SpeedErrorKind>(s),
{
    let v: i64 = match s {
        Speed::Kph(v) => v,
        Speed::Mph(v) => v,
        Speed::Knots(v) => v,
    };
    assert(0 <= v <= 300000);
    lemma_pow10_15();
    lemma_milli_text_parses(v as int);
    lemma_unsigned_milli_text(v as nat);
    let num = spec_format_milli(v as int);
    assert(spec_format_milli((v as nat) as int) == num);
    assert(forall|j: int| 0 <= j < num.len() ==> #[trigger] num[j] != ' ');
    match s {
        Speed::Kph(_) => {
            lemma_split_once_at_none(num, ' ');
        },
        Speed::Mph(_) => {
            reveal_strlit(" mph");
            reveal_strlit("mph");
            lemma_split_unit(num, " mph"@);
            assert(" mph"@.drop_first() =~= "mph"@);
        },
        Speed::Knots(_) => {
            reveal_strlit(" knots");
            reveal_strlit("knots");
            reveal_strlit("mph");
            lemma_split_unit(num, " knots"@);
            assert(" knots"@.drop_first() =~= "knots"@);
            assert("knots"@.len() != "mph"@.len());
        },
    }
}

} // verus!
