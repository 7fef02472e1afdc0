//! Decimal rendering and parsing of the numeric settings.
//!
//! The scale and denoise levels are spliced into the filename template and
//! into the command line as decimal text; the upscale radio labels ("2x",
//! "16x", ...) are read back as numbers.

use vstd::prelude::*;

verus! {

/// The decimal digits of `n`, most significant first.
pub open spec fn dec_of_nat(n: nat) -> Seq<u8>
    decreases n,
{
    if n < 10 {
        seq![(48 + n) as u8]
    } else {
        dec_of_nat(n / 10) + seq![(48 + n % 10) as u8]
    }
}

/// The decimal rendering of `n`, with a leading minus sign when negative.
pub open spec fn dec_of_int(n: int) -> Seq<u8> {
    if n < 0 {
        seq![45u8] + dec_of_nat((-n) as nat)
    } else {
        dec_of_nat(n as nat)
    }
}

/// Render `m` in decimal.
fn render_u64(m: u64) -> (r: Vec<u8>)
    ensures
        r@ == dec_of_nat(m as nat),
{
    let mut digits: Vec<u8> = Vec::new();
    let mut v: u64 = m;
    proof {
        assert(dec_of_nat(v as nat) + digits@ =~= dec_of_nat(m as nat));
    }
    while v >= 10
        invariant
            dec_of_nat(m as nat) == dec_of_nat(v as nat) + digits@,
        decreases v,
    {
        let ghost v0 = v as nat;
        let ghost ds0 = digits@;
        let d: u8 = (v % 10) as u8;
        digits.insert(0, 48 + d);
        v = v / 10;
        proof {
            assert(dec_of_nat(v0) == dec_of_nat(v0 / 10) + seq![(48 + v0 % 10) as u8]);
            assert(digits@ =~= seq![(48 + v0 % 10) as u8] + ds0);
            assert(dec_of_nat(v as nat) + digits@ =~= dec_of_nat(v0) + ds0);
        }
    }
    let d: u8 = (v % 10) as u8;
    digits.insert(0, 48 + d);
    proof {
        assert(dec_of_nat(v as nat) =~= seq![(48 + v as nat) as u8]);
        assert(digits@ =~= dec_of_nat(m as nat));
    }
    digits
}

/// Render `n` in decimal, minus sign included.
pub fn render_i32(n: i32) -> (r: Vec<u8>)
    ensures
        r@ == dec_of_int(n as int),
{
    if n < 0 {
        let m: u64 = (-(n as i64)) as u64;
        let mut out: Vec<u8> = Vec::new();
        out.push(45);
        let digits = render_u64(m);
        crate::text::extend_bytes(&mut out, &digits);
        proof {
            assert(out@ =~= dec_of_int(n as int));
        }
        out
    } else {
        render_u64(n as u64)
    }
}

/// Every byte of `s` is an ASCII decimal digit.
pub open spec fn all_digits(s: Seq<u8>) -> bool {
    forall|i: int| 0 <= i < s.len() ==> 48 <= #[trigger] s[i] <= 57
}

/// The number written by the digit string `s`, read most significant first.
pub open spec fn dec_val(s: Seq<u8>) -> nat
    decreases s.len(),
{
    if s.len() == 0 {
        0
    } else {
        dec_val(s.take(s.len() - 1)) * 10 + (s[s.len() - 1] - 48) as nat
    }
}

/// The digits of a signed decimal numeral: what follows an optional
/// leading `+` or `-`.
pub open spec fn signed_body(s: Seq<u8>) -> Seq<u8> {
    if s.len() > 0 && (s[0] == 43 || s[0] == 45) {
        s.skip(1)
    } else {
        s
    }
}

/// The numeral carries a leading minus sign.
pub open spec fn is_negative(s: Seq<u8>) -> bool {
    s.len() > 0 && s[0] == 45
}

/// `s` is a signed decimal numeral: an optional sign, then at least one
/// digit and nothing else.
pub open spec fn is_signed_numeral(s: Seq<u8>) -> bool {
    signed_body(s).len() > 0 && all_digits(signed_body(s))
}

/// The number a signed decimal numeral writes.
pub open spec fn signed_val(s: Seq<u8>) -> int {
    if is_negative(s) {
        -(dec_val(signed_body(s)) as int)
    } else {
        dec_val(signed_body(s)) as int
    }
}

/// Parse a decimal digit string. Returns the value exactly when `s` is
/// non-empty, all digits, and the value fits in a `u32`.
pub fn parse_u32(s: &Vec<u8>) -> (r: Option<u32>)
    ensures
        match r {
            Some(v) => s@.len() > 0 && all_digits(s@) && dec_val(s@) == v as nat,
            None => s@.len() == 0 || !all_digits(s@) || dec_val(s@) > u32::MAX,
        },
{
    let n: usize = s.len();
    if n == 0 {
        return None;
    }
    let mut acc: u32 = 0;
    let mut i: usize = 0;
    while i < n
        invariant
            0 <= i <= n == s@.len() <= usize::MAX,
            all_digits(s@.take(i as int)),
            dec_val(s@.take(i as int)) == acc as nat,
        decreases n - i,
    {
        let b = s[i];
        if b < 48 || b > 57 {
            assert(!all_digits(s@));
            return None;
        }
        let d: u32 = (b - 48) as u32;
        if acc > (u32::MAX - d) / 10 {
            proof {
                if all_digits(s@) {
                    assert(s@.take(i + 1).take(i as int) =~= s@.take(i as int));
                    assert(s@.take(i + 1)[i as int] == b);
                    assert(dec_val(s@.take(i + 1)) == acc as nat * 10 + d);
                    assert(acc as nat * 10 + d > u32::MAX) by (nonlinear_arith)
                        requires
                            acc > (u32::MAX - d) / 10,
                            d < 10,
                    ;
                    lemma_dec_val_prefix(s@, i + 1);
                }
            }
            return None;
        }
        proof {
            assert(acc as nat * 10 + d <= u32::MAX) by (nonlinear_arith)
                requires
                    acc <= (u32::MAX - d) / 10,
                    d < 10,
            ;
        }
        acc = acc * 10 + d;
        i = i + 1;
        proof {
            assert(s@.take(i as int).take(i - 1) =~= s@.take(i - 1));
            assert(s@.take(i as int)[i - 1] == b);
            assert(dec_val(s@.take(i as int)) == acc as nat);
        }
    }
    proof {
        assert(s@.take(n as int) =~= s@);
    }
    Some(acc)
}

/// A longer digit prefix never writes a smaller number.
proof fn lemma_dec_val_grows(s: Seq<u8>, i: int)
    requires
        0 < i <= s.len(),
    ensures
        dec_val(s.take(i)) >= dec_val(s.take(i - 1)),
{
    let t = s.take(i);
    assert(t.take(t.len() - 1) =~= s.take(i - 1));
    assert(dec_val(t) == dec_val(s.take(i - 1)) * 10 + (t[i - 1] - 48) as nat);
    assert(dec_val(s.take(i - 1)) * 10 >= dec_val(s.take(i - 1))) by (nonlinear_arith);
}

/// The whole digit string writes at least as much as any of its prefixes.
proof fn lemma_dec_val_prefix(s: Seq<u8>, i: int)
    requires
        0 <= i <= s.len(),
    ensures
        dec_val(s) >= dec_val(s.take(i)),
    decreases s.len() - i,
{
    if i < s.len() {
        lemma_dec_val_grows(s, i + 1);
        lemma_dec_val_prefix(s, i + 1);
    } else {
        assert(s.take(i) =~= s);
    }
}

} // verus!
