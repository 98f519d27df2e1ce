//! Parsing of the requested output size: a decimal number followed by a
//! unit suffix (`b`, `kb`, `mb`, `gb`, `tb`, case-insensitive), yielding a
//! byte count.  A missing or malformed size falls back to a default of one
//! mebibyte rather than failing the request.

use vstd::prelude::*;
use vstd::string::StringExecFns;

verus! {

/// The character's code with an ASCII upper-case letter folded to lower case.
pub open spec fn lower_code(c: char) -> u32 {
    if 65 <= c as u32 <= 90 {
        (c as u32 + 32) as u32
    } else {
        c as u32
    }
}

/// True of the ASCII decimal digits.
pub open spec fn is_digit_char(c: char) -> bool {
    48 <= c as u32 <= 57
}

/// Length of the longest run of decimal digits at the front of `s`.
pub open spec fn digit_prefix_len(s: Seq<char>) -> nat
    decreases s.len(),
{
    if s.len() == 0 {
        0
    } else if !is_digit_char(s[0]) {
        0
    } else {
        1 + digit_prefix_len(s.drop_first())
    }
}

/// The value of a run of decimal digits, most significant first.
pub open spec fn digits_val(s: Seq<char>) -> int
    decreases s.len(),
{
    if s.len() == 0 {
        0
    } else {
        digits_val(s.drop_last()) * 10 + (s.last() as u32 - 48)
    }
}

/// The byte multiplier a unit suffix stands for, compared
/// case-insensitively; `None` for anything but `b`, `kb`, `mb`, `gb`, `tb`.
pub open spec fn unit_mult(u: Seq<char>) -> Option<u64> {
    if u.len() == 1 && lower_code(u[0]) == 98 {
        Some(1u64)
    } else if u.len() == 2 && lower_code(u[0]) == 107 && lower_code(u[1]) == 98 {
        Some(1024u64)
    } else if u.len() == 2 && lower_code(u[0]) == 109 && lower_code(u[1]) == 98 {
        Some(1048576u64)
    } else if u.len() == 2 && lower_code(u[0]) == 103 && lower_code(u[1]) == 98 {
        Some(1073741824u64)
    } else if u.len() == 2 && lower_code(u[0]) == 116 && lower_code(u[1]) == 98 {
        Some(1099511627776u64)
    } else {
        None
    }
}

/// The lower-case spelling of the unit that carries the given multiplier.
pub open spec fn canonical_unit(m: u64) -> Seq<char> {
    if m == 1 {
        "b"@
    } else if m == 1024 {
        "kb"@
    } else if m == 1048576 {
        "mb"@
    } else if m == 1073741824 {
        "gb"@
    } else {
        "tb"@
    }
}

/// A parsed size request: the byte count, and the unit it was stated in.
#[derive(Debug)]
pub struct SizeInfo {
    pub total_size: u64,
    pub multiplier: u64,
    pub unit: String,
}

/// Mathematical image of a `SizeInfo`.
pub struct SizeInfoView {
    pub total_size: u64,
    pub multiplier: u64,
    pub unit: Seq<char>,
}

impl View for SizeInfo {
    type V = SizeInfoView;

    open spec fn view(&self) -> SizeInfoView {
        SizeInfoView { total_size: self.total_size, multiplier: self.multiplier, unit: self.unit@ }
    }
}

/// What a well-formed size string parses to: `None` where parsing fails.
/// The string must be digits followed by a known unit, and neither the
/// number nor the resulting byte count may exceed `u64::MAX`.
pub open spec fn parse_ok(s: Seq<char>) -> Option<SizeInfoView> {
    let dp = digit_prefix_len(s) as int;
    if dp == s.len() {
        None
    } else if dp == 0 {
        None
    } else if digits_val(s.take(dp)) > u64::MAX {
        None
    } else {
        match unit_mult(s.skip(dp)) {
            None => None,
            Some(m) => if digits_val(s.take(dp)) * m > u64::MAX {
                None
            } else {
                Some(
                    SizeInfoView {
                        total_size: (digits_val(s.take(dp)) * m) as u64,
                        multiplier: m,
                        unit: canonical_unit(m),
                    },
                )
            },
        }
    }
}

/// The message reported for a size string that does not parse: no unit
/// boundary at all, an unusable number, or an unknown unit.
pub open spec fn parse_err_msg(s: Seq<char>) -> Seq<char> {
    let dp = digit_prefix_len(s) as int;
    if dp == s.len() {
        "Invalid format"@
    } else if dp == 0 {
        "Invalid number"@
    } else if digits_val(s.take(dp)) > u64::MAX {
        "Invalid number"@
    } else {
        match unit_mult(s.skip(dp)) {
            None => "Invalid unit"@,
            Some(m) => "Invalid number"@,
        }
    }
}

proof fn lemma_digit_prefix(s: Seq<char>, i: int)
    requires
        0 <= i <= s.len(),
        forall|k: int| 0 <= k < i ==> is_digit_char(#[trigger] s[k]),
        i < s.len() ==> !is_digit_char(s[i]),
    ensures
        digit_prefix_len(s) == i,
    decreases i, s.len(),
{
    if s.len() == 0 {
    } else if i == 0 {
    } else {
        lemma_digit_prefix(s.drop_first(), i - 1);
    }
}

proof fn lemma_digits_val_nonneg(s: Seq<char>, i: int)
    requires
        0 <= i <= s.len(),
        forall|k: int| 0 <= k < i ==> is_digit_char(#[trigger] s[k]),
    ensures
        digits_val(s.take(i)) >= 0,
    decreases i,
{
    if i > 0 {
        lemma_digits_val_nonneg(s, i - 1);
        assert(s.take(i).drop_last() =~= s.take(i - 1));
    }
}

proof fn lemma_digits_val_grows(s: Seq<char>, i: int, j: int)
    requires
        0 <= i <= j <= s.len(),
        forall|k: int| 0 <= k < j ==> is_digit_char(#[trigger] s[k]),
    ensures
        digits_val(s.take(i)) <= digits_val(s.take(j)),
    decreases j - i,
{
    if i < j {
        lemma_digits_val_grows(s, i, j - 1);
        lemma_digits_val_nonneg(s, j - 1);
        assert(s.take(j).drop_last() =~= s.take(j - 1));
    }
}

/// Parses a size string such as `16mb` into a byte count.  Succeeds
/// exactly on the strings `parse_ok` accepts, and names the first thing
/// wrong with any other.
pub fn parse_size(size_str: &str) -> (r: Result<SizeInfo, String>)
    ensures
        match r {
            Ok(si) => parse_ok(size_str@) == Some(si@),
            Err(e) => parse_ok(size_str@) is None && e@ == parse_err_msg(size_str@),
        },
{
    let s_len: usize = size_str.unicode_len();
    let mut dp: usize = 0;
    while dp < s_len
        invariant
            s_len == size_str@.len(),
            dp <= s_len,
            forall|k: int| 0 <= k < dp ==> is_digit_char(#[trigger] size_str@[k]),
        ensures
            dp <= s_len,
            forall|k: int| 0 <= k < dp ==> is_digit_char(#[trigger] size_str@[k]),
            dp < s_len ==> !is_digit_char(size_str@[dp as int]),
        decreases s_len - dp,
    {
        let c: char = size_str.get_char(dp);
        let code: u32 = c as u32;
        if !(48 <= code && code <= 57) {
            break;
        }
        dp = dp + 1;
    }
    proof {
        lemma_digit_prefix(size_str@, dp as int);
    }
    if dp == s_len {
        return Err(String::from_str("Invalid format"));
    }
    if dp == 0 {
        return Err(String::from_str("Invalid number"));
    }

    // The digit run's value, watching for overflow.
    let mut number: u64 = 0;
    let mut i: usize = 0;
    while i < dp
        invariant
            s_len == size_str@.len(),
            0 < dp < s_len,
            digit_prefix_len(size_str@) == dp,
            i <= dp,
            forall|k: int| 0 <= k < dp ==> is_digit_char(#[trigger] size_str@[k]),
            number == digits_val(size_str@.take(i as int)),
        decreases dp - i,
    {
        let c: char = size_str.get_char(i);
        let d: u64 = (c as u32 - 48) as u64;
        let scaled: Option<u64> = number.checked_mul(10);
        let next: Option<u64> = match scaled {
            Some(v) => v.checked_add(d),
            None => None,
        };
        proof {
            assert(size_str@.take(i + 1).drop_last() =~= size_str@.take(i as int));
        }
        match next {
            Some(v) => {
                number = v;
            },
            None => {
                proof {
                    assert(size_str@.take(i + 1).last() == size_str@[i as int]);
                    assert(digits_val(size_str@.take(i + 1)) == number * 10 + d);
                    assert(digits_val(size_str@.take(i + 1)) > u64::MAX);
                    lemma_digits_val_grows(size_str@, i + 1, dp as int);
                    assert(digits_val(size_str@.take(dp as int)) > u64::MAX);
                }
                return Err(String::from_str("Invalid number"));
            },
        }
        i = i + 1;
    }

    // The unit suffix, folded to lower case.
    let ulen: usize = s_len - dp;
    let multiplier: u64;
    let unit: String;
    if ulen == 1 {
        let c0: u32 = size_str.get_char(dp) as u32;
        let l0: u32 = if 65 <= c0 && c0 <= 90 {
            c0 + 32
        } else {
            c0
        };
        if l0 == 98 {
            multiplier = 1;
            unit = String::from_str("b");
        } else {
            return Err(String::from_str("Invalid unit"));
        }
    } else if ulen == 2 {
        let c0: u32 = size_str.get_char(dp) as u32;
        let c1: u32 = size_str.get_char(dp + 1) as u32;
        let l0: u32 = if 65 <= c0 && c0 <= 90 {
            c0 + 32
        } else {
            c0
        };
        let l1: u32 = if 65 <= c1 && c1 <= 90 {
            c1 + 32
        } else {
            c1
        };
        if l1 != 98 {
            return Err(String::from_str("Invalid unit"));
        }
        if l0 == 107 {
            multiplier = 1024;
            unit = String::from_str("kb");
        } else if l0 == 109 {
            multiplier = 1048576;
            unit = String::from_str("mb");
        } else if l0 == 103 {
            multiplier = 1073741824;
            unit = String::from_str("gb");
        } else if l0 == 116 {
            multiplier = 1099511627776;
            unit = String::from_str("tb");
        } else {
            return Err(String::from_str("Invalid unit"));
        }
    } else {
        return Err(String::from_str("Invalid unit"));
    }

    match number.checked_mul(multiplier) {
        Some(total) => Ok(SizeInfo { total_size: total, multiplier, unit }),
        None => Err(String::from_str("Invalid number")),
    }
}

/// The fallback when no usable size was asked for: one mebibyte.
pub open spec fn default_size_view() -> SizeInfoView {
    SizeInfoView { total_size: 1048576u64, multiplier: 1048576u64, unit: "mb"@ }
}

/// The size to serve: the parsed request where one was given and parses,
/// the one-mebibyte default otherwise.
pub fn get_size_info(size: Option<&String>) -> (r: SizeInfo)
    ensures
        r@ == match size {
            Some(s) => match parse_ok(s@) {
                Some(v) => v,
                None => default_size_view(),
            },
            None => default_size_view(),
        },
{
    match size {
        Some(s) => match parse_size(s.as_str()) {
            Ok(si) => si,
            Err(_) => SizeInfo {
                total_size: 1048576,
                multiplier: 1048576,
                unit: String::from_str("mb"),
            },
        },
        None => SizeInfo { total_size: 1048576, multiplier: 1048576, unit: String::from_str("mb") },
    }
}

} // verus!
