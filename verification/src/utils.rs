use vstd::prelude::*;
use crate::types::Timestamp;
use crate::error::ZomeUtilsError;

verus! {

/// Division that rounds toward zero, as Rust's integer `/` does.
pub open spec fn div_toward_zero(a: int, b: int) -> int {
    if a >= 0 {
        a / b
    } else {
        -((-a) / b)
    }
}

/// The whole seconds of a time in microseconds, as kitsune's
/// `Timestamp::as_seconds_and_nanos` gives them: the microseconds divided by
/// a million, rounded toward zero.
fn whole_seconds(ts: Timestamp) -> (secs: i64)
    ensures
        secs == div_toward_zero(ts.0 as int, 1_000_000),
{
    let micros = ts.0;
    if micros >= 0 {
        ((micros as u64) / 1_000_000) as i64
    } else {
        let magnitude: u64 = ((-(micros + 1)) as u64) + 1;
        assert(magnitude == -(micros as int));
        let whole: u64 = magnitude / 1_000_000;
        assert(whole <= 9_223_372_036_854) by {
            assert(magnitude <= 9_223_372_036_854_775_808);
        }
        -(whole as i64)
    }
}

/// The seconds since the UNIX epoch of a timestamp, as an unsigned number
/// (a time before the epoch wraps around).
pub fn seconds_since_epoch(ts: Timestamp) -> (secs: u64)
    ensures
        secs == div_toward_zero(ts.0 as int, 1_000_000) as u64,
{
    let s = whole_seconds(ts);
    s as u64
}

/// True when a search that counts in a byte can run to its end without the
/// count overflowing: at most 255 misses come before a hit or the end.
pub open spec fn byte_count_suffices(matches: Seq<bool>) -> bool {
    matches.len() <= 255 || exists|j: int| 0 <= j <= 255 && j < matches.len() && matches[j]
}

/// The index of the first match, counted in a byte.
pub fn first_match_index(matches: &Vec<bool>) -> (res: Result<u8, ZomeUtilsError>)
    requires
        byte_count_suffices(matches@),
    ensures
        res matches Ok(i) ==> {
            &&& (i as int) < matches@.len()
            &&& matches@[i as int]
            &&& forall|j: int| 0 <= j < i ==> !(#[trigger] matches@[j])
        },
        res is Err ==> {
            &&& res matches Err(ZomeUtilsError::UnknownVariant)
            &&& forall|j: int| 0 <= j < matches@.len() ==> !(#[trigger] matches@[j])
        },
{
    let mut i: u8 = 0;
    let mut k: usize = 0;
    while k < matches.len()
        invariant
            k <= matches@.len(),
            i as int == k as int,
            k <= 255,
            byte_count_suffices(matches@),
            forall|j: int| 0 <= j < k ==> !(#[trigger] matches@[j]),
        decreases matches@.len() - k,
    {
        if matches[k] {
            return Ok(i);
        }
        assert(k < 255) by {
            if k >= 255 {
                assert(!byte_count_suffices(matches@));
            }
        }
        i = i + 1;
        k = k + 1;
    }
    Err(ZomeUtilsError::UnknownVariant)
}

/// The index of the zome of the given name, counted in a byte.
pub fn zome_index_of(zome_names: &Vec<String>, candidate: &String) -> (res: Result<u8, ZomeUtilsError>)
    requires
        byte_count_suffices(zome_names@.map_values(|n: String| n@ == candidate@)),
    ensures
        res matches Ok(i) ==> {
            &&& (i as int) < zome_names@.len()
            &&& zome_names@[i as int]@ == candidate@
            &&& forall|j: int| 0 <= j < i ==> (#[trigger] zome_names@[j])@ != candidate@
        },
        res is Err ==> {
            &&& res matches Err(ZomeUtilsError::UnknownZome)
            &&& forall|j: int| 0 <= j < zome_names@.len() ==> (#[trigger] zome_names@[j])@ != candidate@
        },
{
    let ghost found = zome_names@.map_values(|n: String| n@ == candidate@);
    let mut i: u8 = 0;
    let mut k: usize = 0;
    while k < zome_names.len()
        invariant
            k <= zome_names@.len(),
            found == zome_names@.map_values(|n: String| n@ == candidate@),
            i as int == k as int,
            k <= 255,
            byte_count_suffices(found),
            forall|j: int| 0 <= j < k ==> (#[trigger] zome_names@[j])@ != candidate@,
        decreases zome_names@.len() - k,
    {
        if zome_names[k] == *candidate {
            return Ok(i);
        }
        assert(k < 255) by {
            if k >= 255 {
                assert forall|j: int| 0 <= j <= 255 && j < found.len() implies !found[j] by {
                    assert(found[j] == (zome_names@[j]@ == candidate@));
                }
            }
        }
        i = i + 1;
        k = k + 1;
    }
    Err(ZomeUtilsError::UnknownZome)
}

/// The variant at the given entry definition index.
pub fn variant_at<T>(variants: Vec<T>, entry_index: u8) -> (res: Result<T, ZomeUtilsError>)
    ensures
        (entry_index as int) < variants@.len() ==> res == Ok::<T, ZomeUtilsError>(variants@[entry_index as int]),
        (entry_index as int) >= variants@.len() ==> res == Err::<T, ZomeUtilsError>(ZomeUtilsError::UnknownEntryDefIndex(entry_index)),
{
    if (entry_index as usize) < variants.len() {
        let mut variants = variants;
        let v = variants.remove(entry_index as usize);
        Ok(v)
    } else {
        Err(ZomeUtilsError::UnknownEntryDefIndex(entry_index))
    }
}

/// For each variant, whether it equals the one looked up.
pub open spec fn matches_of<T>(variants: Seq<T>, unknown: T) -> Seq<bool> {
    variants.map_values(|v: T| v == unknown)
}

/// Looking up a variant's index and then the variant at that index gives
/// the variant back: where the search over the variants' matches answers
/// `i`, the variant at `i` is the one looked up, and no earlier one is.
pub proof fn lemma_variant_index_roundtrip<T>(variants: Seq<T>, unknown: T, i: int)
    requires
        0 <= i < variants.len(),
        matches_of(variants, unknown)[i],
        forall|j: int| 0 <= j < i ==> !(#[trigger] matches_of(variants, unknown)[j]),
    ensures
        variants[i] == unknown,
        forall|j: int| 0 <= j < i ==> #[trigger] variants[j] != unknown,
{
    assert forall|j: int| 0 <= j < i implies #[trigger] variants[j] != unknown by {
        assert(!matches_of(variants, unknown)[j]);
    }
}

/// Dividing toward zero gives the whole number of times the divisor fits in
/// the dividend's magnitude, with the dividend's sign: the remainder left
/// over is smaller than the divisor and has the dividend's sign.
pub proof fn lemma_div_toward_zero(a: int, b: int)
    requires
        b > 0,
    ensures
        a >= 0 ==> div_toward_zero(a, b) * b <= a < div_toward_zero(a, b) * b + b,
        a < 0 ==> div_toward_zero(a, b) * b - b < a <= div_toward_zero(a, b) * b,
        a >= 0 ==> div_toward_zero(a, b) >= 0,
        a < 0 ==> div_toward_zero(a, b) <= 0,
{
    if a >= 0 {
        vstd::arithmetic::div_mod::lemma_fundamental_div_mod(a, b);
        vstd::arithmetic::div_mod::lemma_div_pos_is_pos(a, b);
        vstd::arithmetic::div_mod::lemma_mod_pos_bound(a, b);
        assert(div_toward_zero(a, b) * b == b * (a / b)) by (nonlinear_arith)
            requires
                div_toward_zero(a, b) == a / b,
        ;
    } else {
        let n = -a;
        vstd::arithmetic::div_mod::lemma_fundamental_div_mod(n, b);
        vstd::arithmetic::div_mod::lemma_div_pos_is_pos(n, b);
        vstd::arithmetic::div_mod::lemma_mod_pos_bound(n, b);
        let q = n / b;
        let r = n % b;
        assert(div_toward_zero(a, b) * b == -(b * q)) by (nonlinear_arith)
            requires
                div_toward_zero(a, b) == -q,
        ;
        assert(a == -(b * q) - r);
    }
}

} // verus!
