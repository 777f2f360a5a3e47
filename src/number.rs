//! Decimal parsing of an unsigned 32-bit integer from text, after trimming
//! white space at both ends.
use vstd::prelude::*;

verus! {

/// Why a text is not an unsigned 32-bit decimal number.
#[derive(Clone, Copy, Debug, PartialEq, Eq, Structural)]
pub enum ParseIntError {
    /// Nothing is left once the white space is trimmed.
    Empty,
    /// A character that is not a decimal digit (a lone `+` included).
    InvalidDigit,
    /// The digits spell a value above `u32::MAX`.
    PosOverflow,
}

/// The characters that Unicode calls `White_Space`.
pub open spec fn is_white_space(c: char) -> bool {
    let u = c as u32;
    (0x9 <= u && u <= 0xd) || u == 0x20 || u == 0x85 || u == 0xa0 || u == 0x1680 || (0x2000 <= u
        && u <= 0x200a) || u == 0x2028 || u == 0x2029 || u == 0x202f || u == 0x205f || u == 0x3000
}

pub open spec fn is_decimal_digit(c: char) -> bool {
    '0' as u32 <= c as u32 && c as u32 <= '9' as u32
}

pub open spec fn digit_value(c: char) -> int {
    c as u32 - '0' as u32
}

/// `s` without its leading white space.
pub open spec fn trim_start(s: Seq<char>) -> Seq<char>
    decreases s.len(),
{
    if s.len() > 0 && is_white_space(s[0]) {
        trim_start(s.drop_first())
    } else {
        s
    }
}

/// `s` without its trailing white space.
pub open spec fn trim_end(s: Seq<char>) -> Seq<char>
    decreases s.len(),
{
    if s.len() > 0 && is_white_space(s.last()) {
        trim_end(s.drop_last())
    } else {
        s
    }
}

pub open spec fn trimmed(s: Seq<char>) -> Seq<char> {
    trim_end(trim_start(s))
}

/// Reads `ds` left to right onto `acc`; the first character that is no digit,
/// or the first digit that takes the value past `u32::MAX`, decides the error.
pub open spec fn scan_digits(ds: Seq<char>, acc: u32) -> Result<u32, ParseIntError>
    decreases ds.len(),
{
    if ds.len() == 0 {
        Ok(acc)
    } else if !is_decimal_digit(ds[0]) {
        Err(ParseIntError::InvalidDigit)
    } else if acc * 10 + digit_value(ds[0]) > u32::MAX {
        Err(ParseIntError::PosOverflow)
    } else {
        scan_digits(ds.drop_first(), (acc * 10 + digit_value(ds[0])) as u32)
    }
}

/// What `t` is as an unsigned decimal: digits, optionally after one `+`.
pub open spec fn parse_decimal(t: Seq<char>) -> Result<u32, ParseIntError> {
    if t.len() == 0 {
        Err(ParseIntError::Empty)
    } else if t[0] == '+' && t.len() == 1 {
        Err(ParseIntError::InvalidDigit)
    } else if t[0] == '+' {
        scan_digits(t.drop_first(), 0)
    } else {
        scan_digits(t, 0)
    }
}

/// The value of a sequence of decimal digits, most significant first.
pub open spec fn digits_value(ds: Seq<char>) -> nat
    decreases ds.len(),
{
    if ds.len() == 0 {
        0
    } else {
        digits_value(ds.drop_last()) * 10 + digit_value(ds.last()) as nat
    }
}

/// Every character of `ds` is a decimal digit.
pub open spec fn all_digits(ds: Seq<char>) -> bool {
    forall|i: int| 0 <= i < ds.len() ==> is_decimal_digit(#[trigger] ds[i])
}

/// The digits of `t` once one leading `+`, if any, is set aside.
pub open spec fn unsigned_digits(t: Seq<char>) -> Seq<char> {
    if t.len() > 0 && t[0] == '+' {
        t.drop_first()
    } else {
        t
    }
}

proof fn lemma_value_grows(q: Seq<char>, r: Seq<char>)
    requires
        all_digits(r),
    ensures
        digits_value(q + r) >= digits_value(q),
    decreases r.len(),
{
    if r.len() == 0 {
        assert(q + r =~= q);
    } else {
        assert(all_digits(r.drop_last()));
        lemma_value_grows(q, r.drop_last());
        assert((q + r).drop_last() =~= q + r.drop_last());
    }
}

proof fn lemma_scan_digits(p: Seq<char>, ds: Seq<char>)
    requires
        all_digits(p),
        digits_value(p) <= u32::MAX,
    ensures
        scan_digits(ds, digits_value(p) as u32) is Ok <==> (all_digits(ds) && digits_value(p + ds)
            <= u32::MAX),
        scan_digits(ds, digits_value(p) as u32) is Ok ==> scan_digits(
            ds,
            digits_value(p) as u32,
        )->Ok_0 == digits_value(p + ds),
    decreases ds.len(),
{
    if ds.len() == 0 {
        assert(p + ds =~= p);
    } else {
        let c = ds[0];
        let rest = ds.drop_first();
        let p2 = p.push(c);
        assert(p2.drop_last() =~= p);
        assert(p2 + rest =~= p + ds);
        if is_decimal_digit(c) {
            assert(digits_value(p2) == digits_value(p) * 10 + digit_value(c));
            assert(all_digits(ds) <==> all_digits(rest)) by {
                if all_digits(rest) {
                    assert forall|i: int| 0 <= i < ds.len() implies is_decimal_digit(
                        #[trigger] ds[i],
                    ) by {
                        if i > 0 {
                            assert(ds[i] == rest[i - 1]);
                        }
                    }
                }
                if all_digits(ds) {
                    assert forall|i: int| 0 <= i < rest.len() implies is_decimal_digit(
                        #[trigger] rest[i],
                    ) by {
                        assert(rest[i] == ds[i + 1]);
                    }
                }
            }
            if digits_value(p2) > u32::MAX {
                if all_digits(rest) {
                    lemma_value_grows(p2, rest);
                }
            } else {
                assert(all_digits(p2)) by {
                    assert forall|i: int| 0 <= i < p2.len() implies is_decimal_digit(
                        #[trigger] p2[i],
                    ) by {
                        if i < p.len() {
                            assert(p2[i] == p[i]);
                        }
                    }
                }
                lemma_scan_digits(p2, rest);
            }
        } else {
            assert(!all_digits(ds)) by {
                assert(!is_decimal_digit(ds[0]));
            }
        }
    }
}

/// The parser accepts exactly the texts that are a non-empty run of decimal
/// digits, after at most one `+`, whose value fits in a `u32`, and then
/// returns that value.
pub proof fn lemma_parse_decimal_accepts(t: Seq<char>)
    ensures
        parse_decimal(t) is Ok <==> ({
            let ds = unsigned_digits(t);
            &&& ds.len() > 0
            &&& all_digits(ds)
            &&& digits_value(ds) <= u32::MAX
        }),
        parse_decimal(t) is Ok ==> parse_decimal(t)->Ok_0 == digits_value(unsigned_digits(t)),
{
    let ds = unsigned_digits(t);
    let e = Seq::<char>::empty();
    assert(all_digits(e));
    assert(e + ds =~= ds);
    lemma_scan_digits(e, ds);
}

impl ParseIntError {
    pub open spec fn message_spec(self) -> Seq<char> {
        match self {
            ParseIntError::Empty => "cannot parse integer from empty string"@,
            ParseIntError::InvalidDigit => "invalid digit found in string"@,
            ParseIntError::PosOverflow => "number too large to fit in target type"@,
        }
    }

    /// The human-readable description of the error.
    pub fn message(&self) -> (r: String)
        ensures
            r@ == self.message_spec(),
    {
        match self {
            ParseIntError::Empty => String::from_str("cannot parse integer from empty string"),
            ParseIntError::InvalidDigit => String::from_str("invalid digit found in string"),
            ParseIntError::PosOverflow => String::from_str("number too large to fit in target type"),
        }
    }
}

pub fn is_white_space_char(c: char) -> (r: bool)
    ensures
        r == is_white_space(c),
{
    let u = c as u32;
    (0x9 <= u && u <= 0xd) || u == 0x20 || u == 0x85 || u == 0xa0 || u == 0x1680 || (0x2000 <= u
        && u <= 0x200a) || u == 0x2028 || u == 0x2029 || u == 0x202f || u == 0x205f || u == 0x3000
}

/// `s` with the white space at both of its ends taken off.
pub fn trim_white_space(s: &str) -> (r: &str)
    ensures
        r@ == trimmed(s@),
{
    let n = s.unicode_len();
    let mut i: usize = 0;
    assert(s@.subrange(0, n as int) =~= s@);
    while i < n && is_white_space_char(s.get_char(i))
        invariant
            i <= n,
            n == s@.len(),
            trim_start(s@) == trim_start(s@.subrange(i as int, n as int)),
        decreases n - i,
    {
        assert(s@.subrange(i as int, n as int).drop_first() =~= s@.subrange(i + 1, n as int));
        i += 1;
    }
    assert(trim_start(s@) == s@.subrange(i as int, n as int));
    let mut j: usize = n;
    while j > i && is_white_space_char(s.get_char(j - 1))
        invariant
            i <= j <= n,
            n == s@.len(),
            trim_end(s@.subrange(i as int, n as int)) == trim_end(s@.subrange(i as int, j as int)),
        decreases j,
    {
        assert(s@.subrange(i as int, j as int).drop_last() =~= s@.subrange(i as int, j - 1));
        j -= 1;
    }
    assert(trim_end(s@.subrange(i as int, j as int)) == s@.subrange(i as int, j as int));
    s.substring_char(i, j)
}

/// Parses `t` as it stands (no trimming) as an unsigned decimal.
pub fn parse_u32(t: &str) -> (r: Result<u32, ParseIntError>)
    ensures
        r == parse_decimal(t@),
{
    let n = t.unicode_len();
    if n == 0 {
        return Err(ParseIntError::Empty);
    }
    let first = t.get_char(0);
    if first == '+' && n == 1 {
        return Err(ParseIntError::InvalidDigit);
    }
    let mut i: usize = if first == '+' {
        1
    } else {
        0
    };
    assert(parse_decimal(t@) == scan_digits(t@.subrange(i as int, n as int), 0)) by {
        assert(t@.drop_first() =~= t@.subrange(1, n as int));
        assert(t@ =~= t@.subrange(0, n as int));
    }
    let mut acc: u32 = 0;
    while i < n
        invariant
            i <= n,
            n == t@.len(),
            parse_decimal(t@) == scan_digits(t@.subrange(i as int, n as int), acc),
        decreases n - i,
    {
        let c = t.get_char(i);
        assert(t@.subrange(i as int, n as int).drop_first() =~= t@.subrange(i + 1, n as int));
        if !('0' <= c && c <= '9') {
            return Err(ParseIntError::InvalidDigit);
        }
        let d: u32 = c as u32 - '0' as u32;
        match acc.checked_mul(10) {
            None => {
                return Err(ParseIntError::PosOverflow);
            },
            Some(m) => match m.checked_add(d) {
                None => {
                    return Err(ParseIntError::PosOverflow);
                },
                Some(v) => {
                    acc = v;
                },
            },
        }
        i += 1;
    }
    assert(t@.subrange(i as int, n as int).len() == 0);
    Ok(acc)
}

/// Reads an unsigned 32-bit integer from `s`, ignoring white space around it.
pub fn get_number(s: &str) -> (r: Result<u32, ParseIntError>)
    ensures
        r == parse_decimal(trimmed(s@)),
{
    let t = trim_white_space(s);
    parse_u32(t)
}

} // verus!
