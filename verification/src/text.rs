//! Byte-level building blocks of the wire formats: appending literal
//! templates, decimal rendering of integers and of fixed-point revenue
//! values, JSON string escaping, and comma stripping.

use vstd::prelude::*;

verus! {

/// The bytes of an ASCII string, character by character.
pub open spec fn ascii_seq(s: Seq<char>) -> Seq<u8> {
    Seq::new(s.len(), |i: int| s[i] as u8)
}

/// Appends a byte slice to the output buffer.
pub fn append_bytes(out: &mut Vec<u8>, s: &[u8])
    ensures
        final(out)@ == old(out)@ + s@,
{
    out.extend_from_slice(s);
    proof {
        assert forall|i: int| 0 <= i < final(out)@.len() implies final(out)@[i] == old(
            out,
        )@.add(s@)[i] by {}
        assert(final(out)@ =~= old(out)@ + s@);
    }
}

/// Appends the bytes of an ASCII string literal to the output buffer.
pub fn append_lit(out: &mut Vec<u8>, s: &str)
    requires
        s.is_ascii(),
    ensures
        final(out)@ == old(out)@ + ascii_seq(s@),
{
    let b: &[u8] = s.as_bytes();
    proof {
        vstd::string::is_ascii_spec_bytes(s);
        assert(b@ =~= ascii_seq(s@));
    }
    append_bytes(out, b);
}

/// The decimal digits of `n`, most significant first, no sign and no
/// leading zero (a single `0` for zero).
pub open spec fn dec_digits(n: nat) -> Seq<u8>
    decreases n,
{
    if n < 10 {
        seq![(48 + n) as u8]
    } else {
        dec_digits(n / 10) + seq![(48 + n % 10) as u8]
    }
}

/// Appends the decimal rendering of `n` to the output buffer.
pub fn append_u64(out: &mut Vec<u8>, n: u64)
    ensures
        final(out)@ == old(out)@ + dec_digits(n as nat),
    decreases n,
{
    if n >= 10 {
        append_u64(out, n / 10);
        let d: u8 = (n % 10) as u8 + 48;
        out.push(d);
        proof {
            assert(final(out)@ =~= old(out)@ + dec_digits(n as nat));
        }
    } else {
        let d: u8 = n as u8 + 48;
        out.push(d);
        proof {
            assert(final(out)@ =~= old(out)@ + dec_digits(n as nat));
        }
    }
}

/// The decimal rendering of a value counted in hundredths: the integral
/// part, then a fractional part only as far as it is non-zero.
pub open spec fn money_digits(c: nat) -> Seq<u8> {
    let whole: nat = c / 100;
    let frac: nat = c % 100;
    if frac == 0 {
        dec_digits(whole)
    } else if frac % 10 == 0 {
        dec_digits(whole) + seq![46u8, (48 + frac / 10) as u8]
    } else {
        dec_digits(whole) + seq![46u8, (48 + frac / 10) as u8, (48 + frac % 10) as u8]
    }
}

/// Appends the decimal rendering of a value counted in hundredths.
pub fn append_money(out: &mut Vec<u8>, c: u64)
    ensures
        final(out)@ == old(out)@ + money_digits(c as nat),
{
    let whole: u64 = c / 100;
    let frac: u64 = c % 100;
    append_u64(out, whole);
    if frac != 0 {
        out.push(46);
        let hi: u8 = (frac / 10) as u8 + 48;
        out.push(hi);
        if frac % 10 != 0 {
            let lo: u8 = (frac % 10) as u8 + 48;
            out.push(lo);
        }
    }
    proof {
        assert(final(out)@ =~= old(out)@ + money_digits(c as nat));
    }
}

/// How one byte of a string field is rendered inside a JSON string:
/// quote, backslash and newline get a backslash escape, all else passes
/// through unchanged.
pub open spec fn escaped_byte(b: u8) -> Seq<u8> {
    if b == 34 {
        seq![92u8, 34u8]
    } else if b == 92 {
        seq![92u8, 92u8]
    } else if b == 10 {
        seq![92u8, 110u8]
    } else {
        seq![b]
    }
}

/// The JSON escaping of a whole byte string.
pub open spec fn json_escape(s: Seq<u8>) -> Seq<u8>
    decreases s.len(),
{
    if s.len() == 0 {
        Seq::empty()
    } else {
        json_escape(s.drop_last()) + escaped_byte(s.last())
    }
}

/// Appends the JSON escaping of `s` to the output buffer.
pub fn append_escaped(out: &mut Vec<u8>, s: &[u8])
    ensures
        final(out)@ == old(out)@ + json_escape(s@),
{
    let n: usize = s.len();
    let mut i: usize = 0;
    while i < n
        invariant
            n == s@.len(),
            i <= n,
            out@ == old(out)@ + json_escape(s@.take(i as int)),
        decreases n - i,
    {
        let b: u8 = s[i];
        if b == 34 || b == 92 {
            out.push(92);
            out.push(b);
        } else if b == 10 {
            out.push(92);
            out.push(110);
        } else {
            out.push(b);
        }
        proof {
            assert(s@.take(i + 1).drop_last() =~= s@.take(i as int));
            assert(out@ =~= old(out)@ + json_escape(s@.take(i + 1)));
        }
        i = i + 1;
    }
    proof {
        assert(s@.take(n as int) =~= s@);
    }
}

/// `s` with every comma removed, everything else kept in order.
pub open spec fn strip_commas(s: Seq<u8>) -> Seq<u8>
    decreases s.len(),
{
    if s.len() == 0 {
        Seq::empty()
    } else if s.last() == 44 {
        strip_commas(s.drop_last())
    } else {
        strip_commas(s.drop_last()) + seq![s.last()]
    }
}

/// Copies `s` into a fresh buffer, leaving every comma out.
pub fn strip_commas_exec(s: &[u8]) -> (r: Vec<u8>)
    ensures
        r@ == strip_commas(s@),
{
    let n: usize = s.len();
    let mut out: Vec<u8> = Vec::new();
    let mut i: usize = 0;
    while i < n
        invariant
            n == s@.len(),
            i <= n,
            out@ == strip_commas(s@.take(i as int)),
        decreases n - i,
    {
        let b: u8 = s[i];
        if b != 44 {
            out.push(b);
        }
        proof {
            assert(s@.take(i + 1).drop_last() =~= s@.take(i as int));
            assert(out@ =~= strip_commas(s@.take(i + 1)));
        }
        i = i + 1;
    }
    proof {
        assert(s@.take(n as int) =~= s@);
    }
    out
}

/// Ten to the power `k`.
pub open spec fn pow10(k: nat) -> nat
    decreases k,
{
    if k == 0 {
        1
    } else {
        10 * pow10((k - 1) as nat)
    }
}

/// A number below ten to the `k` renders to at most `k` digits.
pub proof fn lemma_dec_digits_len(n: nat, k: nat)
    requires
        1 <= k,
        n < pow10(k),
    ensures
        1 <= dec_digits(n).len() <= k,
    decreases k,
{
    if n >= 10 {
        assert(pow10(k) == 10 * pow10((k - 1) as nat));
        lemma_dec_digits_len(n / 10, (k - 1) as nat);
    }
}

/// Every rendered digit lies between `0` and `9`; in particular none is
/// a comma or a newline.
pub proof fn lemma_dec_digits_range(n: nat)
    ensures
        forall|i: int|
            0 <= i < dec_digits(n).len() ==> 48 <= #[trigger] dec_digits(n)[i] <= 57,
    decreases n,
{
    if n >= 10 {
        lemma_dec_digits_range(n / 10);
        assert forall|i: int| 0 <= i < dec_digits(n).len() implies 48 <= #[trigger] dec_digits(
            n,
        )[i] <= 57 by {
            if i < dec_digits(n / 10).len() {
                assert(dec_digits(n)[i] == dec_digits(n / 10)[i]);
            }
        }
    }
}

/// A revenue below ten thousand million hundredths renders to at most
/// eleven bytes.
pub proof fn lemma_money_len(c: nat)
    requires
        c < 10000000000,
    ensures
        1 <= money_digits(c).len() <= 11,
{
    assert(pow10(8) == 100000000) by {
        reveal_with_fuel(pow10, 9);
    }
    lemma_dec_digits_len(c / 100, 8);
}

/// Every byte of a rendered revenue is a digit or the decimal point.
pub proof fn lemma_money_range(c: nat)
    ensures
        forall|i: int|
            0 <= i < money_digits(c).len() ==> 46 <= #[trigger] money_digits(c)[i] <= 57,
{
    lemma_dec_digits_range(c / 100);
    assert forall|i: int| 0 <= i < money_digits(c).len() implies 46 <= #[trigger] money_digits(
        c,
    )[i] <= 57 by {
        if i < dec_digits(c / 100).len() {
            assert(money_digits(c)[i] == dec_digits(c / 100)[i]);
        }
    }
}

/// Escaping at most doubles a string.
pub proof fn lemma_json_escape_len(s: Seq<u8>)
    ensures
        s.len() <= json_escape(s).len() <= 2 * s.len(),
    decreases s.len(),
{
    if s.len() > 0 {
        lemma_json_escape_len(s.drop_last());
    }
}

/// Stripping commas never lengthens a string.
pub proof fn lemma_strip_commas_len(s: Seq<u8>)
    ensures
        strip_commas(s).len() <= s.len(),
    decreases s.len(),
{
    if s.len() > 0 {
        lemma_strip_commas_len(s.drop_last());
    }
}

/// The stripped string holds no comma.
pub proof fn lemma_strip_commas_no_comma(s: Seq<u8>)
    ensures
        forall|i: int| 0 <= i < strip_commas(s).len() ==> #[trigger] strip_commas(s)[i] != 44,
    decreases s.len(),
{
    if s.len() > 0 {
        lemma_strip_commas_no_comma(s.drop_last());
        assert forall|i: int| 0 <= i < strip_commas(s).len() implies #[trigger] strip_commas(
            s,
        )[i] != 44 by {
            if i < strip_commas(s.drop_last()).len() {
                assert(strip_commas(s)[i] == strip_commas(s.drop_last())[i]);
            }
        }
    }
}

/// How often the byte `b` occurs in `s`.
pub open spec fn count_byte(s: Seq<u8>, b: u8) -> int
    decreases s.len(),
{
    if s.len() == 0 {
        0
    } else {
        count_byte(s.drop_last(), b) + if s.last() == b {
            1int
        } else {
            0int
        }
    }
}

/// Occurrences add up over concatenation.
pub proof fn lemma_count_byte_app(a: Seq<u8>, c: Seq<u8>, b: u8)
    ensures
        count_byte(a + c, b) == count_byte(a, b) + count_byte(c, b),
    decreases c.len(),
{
    if c.len() == 0 {
        assert(a + c =~= a);
    } else {
        lemma_count_byte_app(a, c.drop_last(), b);
        assert((a + c).drop_last() =~= a + c.drop_last());
    }
}

/// A byte that occurs nowhere counts zero times.
pub proof fn lemma_count_byte_absent(s: Seq<u8>, b: u8)
    requires
        forall|i: int| 0 <= i < s.len() ==> s[i] != b,
    ensures
        count_byte(s, b) == 0,
    decreases s.len(),
{
    if s.len() > 0 {
        assert(forall|i: int| 0 <= i < s.drop_last().len() ==> #[trigger] s.drop_last()[i] != b);
        lemma_count_byte_absent(s.drop_last(), b);
    }
}

/// The inverse of the JSON escaping: a backslash followed by `n` decodes
/// to a newline, a backslash followed by anything else to that byte, and
/// every other byte to itself.
pub open spec fn json_unescape(s: Seq<u8>) -> Seq<u8>
    decreases s.len(),
{
    if s.len() == 0 {
        Seq::empty()
    } else if s[0] == 92 && s.len() >= 2 {
        (if s[1] == 110 {
            seq![10u8]
        } else {
            seq![s[1]]
        }) + json_unescape(s.skip(2))
    } else {
        seq![s[0]] + json_unescape(s.skip(1))
    }
}

/// The escaping can also be peeled off the front.
proof fn lemma_json_escape_front(s: Seq<u8>)
    requires
        s.len() > 0,
    ensures
        json_escape(s) == escaped_byte(s[0]) + json_escape(s.drop_first()),
    decreases s.len(),
{
    if s.len() == 1 {
        assert(s.drop_last() =~= Seq::<u8>::empty());
        assert(s.drop_first() =~= Seq::<u8>::empty());
        assert(json_escape(s) =~= escaped_byte(s[0]) + json_escape(s.drop_first()));
    } else {
        lemma_json_escape_front(s.drop_last());
        assert(s.drop_last().drop_first() =~= s.drop_first().drop_last());
        assert(s.drop_first().last() == s.last());
        assert(json_escape(s) =~= escaped_byte(s[0]) + json_escape(s.drop_first()));
    }
}

/// Defensive escaping loses nothing: decoding the escaped form of any
/// byte string yields the original, so the quoted fields of the JSON
/// output still carry the exact dictionary bytes.
pub proof fn lemma_escape_unescape(s: Seq<u8>)
    ensures
        json_unescape(json_escape(s)) == s,
    decreases s.len(),
{
    if s.len() == 0 {
        assert(json_unescape(json_escape(s)) =~= s);
    } else {
        lemma_json_escape_front(s);
        lemma_escape_unescape(s.drop_first());
        let e = json_escape(s);
        if s[0] == 34 || s[0] == 92 || s[0] == 10 {
            assert(e.skip(2) =~= json_escape(s.drop_first()));
            assert(json_unescape(e) =~= s);
        } else {
            assert(e.skip(1) =~= json_escape(s.drop_first()));
            assert(json_unescape(e) =~= s);
        }
    }
}

/// A byte absent from the input is absent from the stripped output.
pub proof fn lemma_strip_commas_absent(s: Seq<u8>, b: u8)
    requires
        forall|i: int| 0 <= i < s.len() ==> s[i] != b,
    ensures
        forall|i: int| 0 <= i < strip_commas(s).len() ==> #[trigger] strip_commas(s)[i] != b,
    decreases s.len(),
{
    if s.len() > 0 {
        assert(forall|i: int| 0 <= i < s.drop_last().len() ==> #[trigger] s.drop_last()[i] != b);
        lemma_strip_commas_absent(s.drop_last(), b);
        assert forall|i: int| 0 <= i < strip_commas(s).len() implies #[trigger] strip_commas(
            s,
        )[i] != b by {
            if i < strip_commas(s.drop_last()).len() {
                assert(strip_commas(s)[i] == strip_commas(s.drop_last())[i]);
            }
        }
    }
}

} // verus!
