//! Chromosome labels and their 5-bit ordinals.

use vstd::prelude::*;

use crate::VariantKeyError;

verus! {

/// An ASCII decimal digit.
pub open spec fn is_digit(b: u8) -> bool {
    48 <= b <= 57
}

/// The length of the run of digits at the start of `s`.
pub open spec fn digit_run(s: Seq<u8>) -> nat
    decreases s.len(),
{
    if s.len() > 0 && is_digit(s[0]) {
        1 + digit_run(s.drop_first())
    } else {
        0
    }
}

/// The value of a sequence of decimal digits.
pub open spec fn digits_value(s: Seq<u8>) -> nat
    decreases s.len(),
{
    if s.len() == 0 {
        0
    } else {
        digits_value(s.drop_last()) * 10 + (s.last() - 48) as nat
    }
}

/// The value of the run of digits at the start of `s`.
pub open spec fn leading_value(s: Seq<u8>) -> nat {
    digits_value(s.take(digit_run(s) as int))
}

/// A `u8` read from the start of `s`: an optional `+` or `-` sign, then the
/// leading run of digits; bytes after the run are ignored. Without a sign
/// the run must not be empty; a value above 255 gives nothing, and after `-`
/// only the value 0 is representable.
pub open spec fn parse_u8(s: Seq<u8>) -> Option<u8> {
    if s.len() > 0 && s[0] == 45 {
        if leading_value(s.drop_first()) == 0 {
            Some(0)
        } else {
            None
        }
    } else if s.len() > 0 && s[0] == 43 {
        if leading_value(s.drop_first()) <= 255 {
            Some(leading_value(s.drop_first()) as u8)
        } else {
            None
        }
    } else if digit_run(s) > 0 && leading_value(s) <= 255 {
        Some(leading_value(s) as u8)
    } else {
        None
    }
}

/// Relies on `atoi::atoi::<u8>` to read an unsigned byte from the start of a
/// label, as `parse_u8` describes: a sign byte is consumed first, the digits
/// are accumulated with checked arithmetic, and the call gives `None` when
/// no byte at all was consumed.
#[verifier::external_body]
fn atoi_u8(text: &[u8]) -> (r: Option<u8>)
    ensures
        r == parse_u8(text@),
{
    atoi::atoi::<u8>(text)
}

/// The decimal digits of `n`, without leading zeros.
pub open spec fn decimal(n: nat) -> Seq<u8>
    decreases n,
{
    if n < 10 {
        seq![(48 + n) as u8]
    } else {
        decimal(n / 10).push((48 + n % 10) as u8)
    }
}

/// The label of a known ordinal: `NA` for 0, the decimal number for 1 to 22,
/// then `X`, `Y` and `MT`.
pub open spec fn ordinal_label(o: u8) -> Seq<u8> {
    if o == 0 {
        seq![78u8, 65u8]
    } else if o <= 22 {
        decimal(o as nat)
    } else if o == 23 {
        seq![88u8]
    } else if o == 24 {
        seq![89u8]
    } else {
        seq![77u8, 84u8]
    }
}

/// `s` without a leading `chr`, if it has one.
pub open spec fn strip_chr(s: Seq<u8>) -> Seq<u8> {
    if s.len() >= 3 && s[0] == 99 && s[1] == 104 && s[2] == 114 {
        s.skip(3)
    } else {
        s
    }
}

/// The ordinal of a label: after an optional `chr`, `X` is 23, `Y` 24, `MT`
/// and `M` 25, and a number read by `parse_u8` is itself if below 23.
pub open spec fn chrom_ordinal(label: Seq<u8>) -> Option<u8> {
    let t = strip_chr(label);
    if t == seq![88u8] {
        Some(23)
    } else if t == seq![89u8] {
        Some(24)
    } else if t == seq![77u8, 84u8] || t == seq![77u8] {
        Some(25)
    } else {
        match parse_u8(t) {
            Some(x) => if x < 23 {
                Some(x)
            } else {
                None
            },
            None => None,
        }
    }
}

/// What `chromosome_to_number` returns for a label.
pub open spec fn ordinal_result(label: Seq<u8>) -> Result<u8, VariantKeyError> {
    match chrom_ordinal(label) {
        Some(x) => Ok(x),
        None => Err(VariantKeyError::InvalidChromosome),
    }
}

proof fn lemma_decimal(n: nat)
    ensures
        decimal(n).len() >= 1,
        forall|i: int| 0 <= i < decimal(n).len() ==> is_digit(#[trigger] decimal(n)[i]),
        digits_value(decimal(n)) == n,
    decreases n,
{
    let d = decimal(n);
    if n >= 10 {
        lemma_decimal(n / 10);
        assert(d.drop_last() =~= decimal(n / 10));
        assert(n % 10 < 10);
        assert(d.last() == (48 + n % 10) as u8);
        assert((d.last() - 48) as nat == n % 10);
        assert(n == (n / 10) * 10 + n % 10) by (nonlinear_arith);
        assert(digits_value(d) == digits_value(decimal(n / 10)) * 10 + n % 10);
    } else {
        assert(d.drop_last() =~= Seq::<u8>::empty());
        assert(digits_value(d.drop_last()) == 0);
        assert(d.last() == (48 + n) as u8);
        assert(digits_value(d) == digits_value(d.drop_last()) * 10 + (d.last() - 48) as nat);
    }
}

proof fn lemma_digit_run_all(s: Seq<u8>)
    requires
        forall|i: int| 0 <= i < s.len() ==> is_digit(#[trigger] s[i]),
    ensures
        digit_run(s) == s.len(),
    decreases s.len(),
{
    if s.len() > 0 {
        let t = s.drop_first();
        assert forall|i: int| 0 <= i < t.len() implies is_digit(#[trigger] t[i]) by {
            assert(t[i] == s[i + 1]);
        }
        lemma_digit_run_all(t);
    }
}

/// The labels of ordinals 1 to 25 read back as their ordinals. (Ordinal 0,
/// `NA`, is decoded but never accepted.)
pub proof fn lemma_chromosome_round_trip(o: u8)
    requires
        1 <= o <= 25,
    ensures
        chrom_ordinal(ordinal_label(o)) == Some(o),
        ordinal_result(ordinal_label(o)) == Ok::<u8, VariantKeyError>(o),
{
    if o <= 22 {
        let d = decimal(o as nat);
        lemma_decimal(o as nat);
        lemma_digit_run_all(d);
        assert(d.take(d.len() as int) =~= d);
        assert(is_digit(d[0]));
        assert(strip_chr(d) == d);
        assert(d != seq![88u8] && d != seq![89u8] && d != seq![77u8, 84u8] && d != seq![77u8]) by {
            if d.len() == 1 {
                assert(d[0] != 88 && d[0] != 89 && d[0] != 77);
            }
            if d.len() == 2 {
                assert(d[0] != 77);
            }
        }
    } else {
        let l = ordinal_label(o);
        assert(strip_chr(l) == l);
    }
}

/// The label of an ordinal, or `InvalidChromosome` above 25.
pub fn decode_chromosome(chrom: u8) -> (r: Result<Vec<u8>, VariantKeyError>)
    ensures
        chrom <= 25 ==> (r matches Ok(v) && v@ == ordinal_label(chrom)),
        chrom > 25 ==> r == Err::<Vec<u8>, VariantKeyError>(VariantKeyError::InvalidChromosome),
{
    if chrom == 0 {
        Ok(vec![78, 65])
    } else if chrom < 10 {
        proof {
            reveal_with_fuel(decimal, 1);
        }
        Ok(vec![48 + chrom])
    } else if chrom <= 22 {
        proof {
            reveal_with_fuel(decimal, 2);
        }
        let v = vec![48 + chrom / 10, 48 + chrom % 10];
        assert(v@ =~= ordinal_label(chrom));
        Ok(v)
    } else if chrom == 23 {
        Ok(vec![88])
    } else if chrom == 24 {
        Ok(vec![89])
    } else if chrom == 25 {
        Ok(vec![77, 84])
    } else {
        Err(VariantKeyError::InvalidChromosome)
    }
}

/// The ordinal of a chromosome label, or `InvalidChromosome`.
pub fn chromosome_to_number(chrom: &[u8]) -> (r: Result<u8, VariantKeyError>)
    ensures
        r == ordinal_result(chrom@),
{
    // 99, 104, 114 spell `chr`
    let chrom = if chrom.len() >= 3 && chrom[0] == 99 && chrom[1] == 104 && chrom[2] == 114 {
        vstd::slice::slice_subrange(chrom, 3, chrom.len())
    } else {
        chrom
    };
    // 88 is `X`, 89 `Y`, 77 `M`, 84 `T`
    if chrom.len() == 1 && chrom[0] == 88 {
        assert(chrom@ =~= seq![88u8]);
        Ok(23)
    } else if chrom.len() == 1 && chrom[0] == 89 {
        assert(chrom@ =~= seq![89u8]);
        Ok(24)
    } else if chrom.len() == 2 && chrom[0] == 77 && chrom[1] == 84 {
        assert(chrom@ =~= seq![77u8, 84u8]);
        Ok(25)
    } else if chrom.len() == 1 && chrom[0] == 77 {
        assert(chrom@ =~= seq![77u8]);
        Ok(25)
    } else {
        match atoi_u8(chrom) {
            Some(x) => {
                if x < 23 {
                    Ok(x)
                } else {
                    Err(VariantKeyError::InvalidChromosome)
                }
            },
            None => Err(VariantKeyError::InvalidChromosome),
        }
    }
}

} // verus!
