use vstd::prelude::*;
use vstd::string::StringSliceAdditionalSpecFns;

verus! {

/// Gap between pictures when none is given.
pub const DEFAULT_SPACING: u32 = 10;

/// Largest magnitude of a negative `i32`.
pub const I32_NEG_LIMIT: u64 = 0x8000_0000;

pub open spec fn is_digit(b: u8) -> bool {
    48 <= b <= 57
}

/// A non-empty run of ASCII digits.
pub open spec fn all_digits(s: Seq<u8>) -> bool {
    s.len() > 0 && forall|i: int| 0 <= i < s.len() ==> is_digit(#[trigger] s[i])
}

/// Value of a run of ASCII digits read in base ten.
pub open spec fn numeral(s: Seq<u8>) -> int
    decreases s.len(),
{
    if s.len() == 0 {
        0
    } else {
        numeral(s.drop_last()) * 10 + (s.last() as int - 48)
    }
}

/// What follows an optional leading `+`.
pub open spec fn unsigned_digits(s: Seq<u8>) -> Seq<u8> {
    if s.len() > 0 && s[0] == 43u8 { s.subrange(1, s.len() as int) } else { s }
}

/// `s` reads as a `u32` in base ten: an optional `+`, then digits whose
/// value fits.
pub open spec fn reads_as_u32(s: Seq<u8>) -> bool {
    all_digits(unsigned_digits(s)) && numeral(unsigned_digits(s)) <= u32::MAX
}

/// `s` starts with a minus sign.
pub open spec fn is_negative(s: Seq<u8>) -> bool {
    s.len() > 0 && s[0] == 45u8
}

/// What follows an optional leading `+` or `-`.
pub open spec fn signed_digits(s: Seq<u8>) -> Seq<u8> {
    if s.len() > 0 && (s[0] == 43u8 || s[0] == 45u8) { s.subrange(1, s.len() as int) } else { s }
}

/// `s` reads as an `i32` in base ten: an optional sign, then digits whose
/// signed value fits.
pub open spec fn reads_as_i32(s: Seq<u8>) -> bool {
    &&& all_digits(signed_digits(s))
    &&& if is_negative(s) {
        numeral(signed_digits(s)) <= I32_NEG_LIMIT
    } else {
        numeral(signed_digits(s)) <= i32::MAX
    }
}

/// A rejected option value.
#[derive(Debug, Clone, Copy, PartialEq, Eq)]
pub enum ConfigError {
    /// No input picture was named.
    NoImages,
    /// The spacing is not a non-negative integer that fits in `u32`.
    InvalidSpacing,
    /// The height is not an integer that fits in `i32`.
    InvalidHeight,
    /// The height is zero or negative.
    NonPositiveHeight,
}

/// Over all-digit runs, extending a run never lowers its value.
pub proof fn lemma_numeral_grows(s: Seq<u8>, i: int, j: int)
    requires
        0 <= i <= j <= s.len(),
        forall|k: int| 0 <= k < s.len() ==> is_digit(#[trigger] s[k]),
    ensures
        0 <= numeral(s.subrange(0, i)) <= numeral(s.subrange(0, j)),
    decreases j - i,
{
    if i < j {
        lemma_numeral_grows(s, i, j - 1);
        assert(s.subrange(0, j).drop_last() =~= s.subrange(0, j - 1));
    } else {
        lemma_numeral_nonneg(s.subrange(0, i));
    }
}

/// A run of digits has a non-negative value.
pub proof fn lemma_numeral_nonneg(s: Seq<u8>)
    requires
        forall|k: int| 0 <= k < s.len() ==> is_digit(#[trigger] s[k]),
    ensures
        numeral(s) >= 0,
    decreases s.len(),
{
    if s.len() > 0 {
        lemma_numeral_nonneg(s.drop_last());
    }
}

/// Reads the digits of `b` from `start` to the end as a number; `None` when
/// one of them is not a digit, there are none, or the value exceeds `limit`.
fn read_digits(b: &[u8], start: usize, limit: u64) -> (r: Option<u64>)
    requires
        start <= b@.len(),
        limit <= I32_NEG_LIMIT * 2,
    ensures
        r is Some <==> all_digits(b@.subrange(start as int, b@.len() as int))
            && numeral(b@.subrange(start as int, b@.len() as int)) <= limit,
        r matches Some(v) ==> v as int == numeral(b@.subrange(start as int, b@.len() as int)),
{
    let n = b.len();
    let ghost d = b@.subrange(start as int, n as int);
    if start == n {
        return None;
    }
    let mut acc: u64 = 0;
    let mut i: usize = start;
    while i < n
        invariant
            start <= i <= n == b@.len(),
            start < n,
            limit <= I32_NEG_LIMIT * 2,
            d == b@.subrange(start as int, n as int),
            forall|k: int| 0 <= k < i - start ==> is_digit(#[trigger] d[k]),
            acc as int == numeral(d.subrange(0, i - start)),
            acc <= limit,
        decreases n - i,
    {
        let c = b[i];
        assert(d.subrange(0, i - start + 1).drop_last() =~= d.subrange(0, i - start));
        if c < 48 || c > 57 {
            assert(!is_digit(d[i - start]));
            return None;
        }
        let next = acc * 10 + (c - 48) as u64;
        if next > limit {
            proof {
                if all_digits(d) {
                    lemma_numeral_grows(d, i - start + 1, d.len() as int);
                    assert(d.subrange(0, d.len() as int) =~= d);
                }
            }
            return None;
        }
        acc = next;
        i = i + 1;
    }
    assert(d.subrange(0, n - start) =~= d);
    Some(acc)
}

/// Result of reading a spacing value given as the bytes `b`.
pub open spec fn spacing_outcome(b: Seq<u8>) -> Result<u32, ConfigError> {
    if reads_as_u32(b) {
        Ok(numeral(unsigned_digits(b)) as u32)
    } else {
        Err(ConfigError::InvalidSpacing)
    }
}

/// Result of reading the spacing option.
pub open spec fn spacing_of(value: Option<&str>) -> Result<u32, ConfigError> {
    match value {
        None => Ok(DEFAULT_SPACING),
        Some(s) => spacing_outcome(s.spec_bytes()),
    }
}

/// Result of reading a target height given as the bytes `b`.
pub open spec fn height_outcome(b: Seq<u8>) -> Result<Option<u32>, ConfigError> {
    let v = numeral(signed_digits(b));
    if !reads_as_i32(b) {
        Err(ConfigError::InvalidHeight)
    } else if is_negative(b) || v == 0 {
        Err(ConfigError::NonPositiveHeight)
    } else {
        Ok(Some(v as u32))
    }
}

/// Result of reading the height option.
pub open spec fn height_of(value: Option<&str>) -> Result<Option<u32>, ConfigError> {
    match value {
        None => Ok(None),
        Some(s) => height_outcome(s.spec_bytes()),
    }
}

/// Reads the spacing option: the default when absent, else a base-ten
/// `u32` with an optional `+`.
pub fn parse_spacing(value: Option<&str>) -> (r: Result<u32, ConfigError>)
    ensures
        r == spacing_of(value),
{
    let s = match value {
        None => return Ok(DEFAULT_SPACING),
        Some(s) => s,
    };
    let b = s.as_bytes();
    let start: usize = if b.len() > 0 && b[0] == 43u8 { 1 } else { 0 };
    assert(b@.subrange(start as int, b@.len() as int) =~= unsigned_digits(b@));
    match read_digits(b, start, u32::MAX as u64) {
        Some(v) => Ok(v as u32),
        None => Err(ConfigError::InvalidSpacing),
    }
}

/// Reads the height option: absent means no resize; otherwise a base-ten
/// `i32` with an optional sign, which must be positive.
pub fn parse_height(value: Option<&str>) -> (r: Result<Option<u32>, ConfigError>)
    ensures
        r == height_of(value),
{
    let s = match value {
        None => return Ok(None),
        Some(s) => s,
    };
    let b = s.as_bytes();
    let negative = b.len() > 0 && b[0] == 45u8;
    let start: usize = if b.len() > 0 && (b[0] == 43u8 || b[0] == 45u8) { 1 } else { 0 };
    assert(b@.subrange(start as int, b@.len() as int) =~= signed_digits(b@));
    let limit: u64 = if negative { I32_NEG_LIMIT } else { i32::MAX as u64 };
    match read_digits(b, start, limit) {
        None => Err(ConfigError::InvalidHeight),
        Some(v) => {
            if negative || v == 0 {
                Err(ConfigError::NonPositiveHeight)
            } else {
                Ok(Some(v as u32))
            }
        }
    }
}

/// The settings of one run: inputs in placement order, destination, gap
/// between pictures, and the optional target height.
pub struct Config {
    pub input: Vec<String>,
    pub output: String,
    pub spacing: u32,
    pub max_height: Option<u32>,
}

impl Config {
    /// Builds the settings from the raw option values, checking the inputs
    /// first, then the spacing, then the height.
    pub fn from_args(input: Vec<String>, output: String, spacing: Option<&str>, height: Option<&str>) -> (r: Result<Config, ConfigError>)
        ensures
            input@.len() == 0 ==> r == Err::<Config, ConfigError>(ConfigError::NoImages),
            input@.len() > 0 ==> match (spacing_of(spacing), height_of(height)) {
                (Err(e), _) => r == Err::<Config, ConfigError>(e),
                (Ok(_), Err(e)) => r == Err::<Config, ConfigError>(e),
                (Ok(s), Ok(h)) => r matches Ok(c) && c.input@ == input@ && c.output@ == output@
                    && c.spacing == s && c.max_height == h,
            },
    {
        if input.len() == 0 {
            return Err(ConfigError::NoImages);
        }
        let spacing = match parse_spacing(spacing) {
            Ok(s) => s,
            Err(e) => return Err(e),
        };
        let max_height = match parse_height(height) {
            Ok(h) => h,
            Err(e) => return Err(e),
        };
        Ok(Config { input, output, spacing, max_height })
    }
}

} // verus!
