//! Validation of the numeric filters of a corridor query.
//!
//! A filter value is a double-precision number and arrives here as its
//! IEEE 754 binary64 encoding, so that it can be classified and ordered
//! with integer arithmetic alone.

use vstd::prelude::*;

verus! {

/// Encoding of `0.0`, the least success rate and the least volume.
pub const ZERO_BITS: u64 = 0;

/// Encoding of `100.0`, the greatest success rate.
pub const SUCCESS_RATE_MAX_BITS: u64 = 0x4059_0000_0000_0000;

/// Encoding of `1e18`, the greatest volume.
pub const VOLUME_MAX_BITS: u64 = 0x43ab_c16d_674e_c800;

/// The filter that a failure is about.
#[derive(Debug, Clone, Copy, PartialEq, Eq, Structural)]
pub enum FilterParam {
    SuccessRateMin,
    SuccessRateMax,
    VolumeMin,
    VolumeMax,
}

/// Why a set of filters was rejected.
#[derive(Debug, Clone, Copy, PartialEq, Eq, Structural)]
pub enum ValidationFailure {
    /// The value is a NaN (`nan` is true) or an infinity.
    NotFinite { param: FilterParam, nan: bool },
    /// The value, given by its encoding, lies outside the allowed range.
    OutOfRange { param: FilterParam, value: u64 },
    /// The lower bound of a pair is greater than its upper bound.
    MinAboveMax { min: FilterParam, max: FilterParam },
}

/// The eleven exponent bits of an encoding.
pub open spec fn exponent_field(bits: u64) -> u64 {
    (bits >> 52) & 0x7ff
}

/// The fifty-two fraction bits of an encoding.
pub open spec fn fraction_field(bits: u64) -> u64 {
    bits & 0x000f_ffff_ffff_ffff
}

/// Whether the encoding is a NaN.
pub open spec fn is_nan(bits: u64) -> bool {
    exponent_field(bits) == 0x7ff && fraction_field(bits) != 0
}

/// Whether the encoding is a finite number.
pub open spec fn is_finite(bits: u64) -> bool {
    exponent_field(bits) != 0x7ff
}

/// The position of a finite number in the numeric order: its magnitude
/// bits, negated where the sign bit is set. Two finite numbers compare as
/// their positions do; both zeros have position zero.
pub open spec fn order_key(bits: u64) -> int {
    if bits >> 63 == 1 {
        -((bits & 0x7fff_ffff_ffff_ffff) as int)
    } else {
        (bits & 0x7fff_ffff_ffff_ffff) as int
    }
}

/// The verdict on one optional filter value with its allowed range.
pub open spec fn filter_verdict(
    value: Option<u64>,
    min_allowed: u64,
    max_allowed: u64,
    param: FilterParam,
) -> Result<(), ValidationFailure> {
    match value {
        None => Ok(()),
        Some(bits) => if !is_finite(bits) {
            Err(ValidationFailure::NotFinite { param, nan: is_nan(bits) })
        } else if order_key(bits) < order_key(min_allowed) || order_key(bits) > order_key(
            max_allowed,
        ) {
            Err(ValidationFailure::OutOfRange { param, value: bits })
        } else {
            Ok(())
        },
    }
}

/// The verdict on a pair of bounds that are both valid on their own.
pub open spec fn pair_verdict(
    min: Option<u64>,
    max: Option<u64>,
    min_param: FilterParam,
    max_param: FilterParam,
) -> Result<(), ValidationFailure> {
    match (min, max) {
        (Some(low), Some(high)) => if order_key(low) > order_key(high) {
            Err(ValidationFailure::MinAboveMax { min: min_param, max: max_param })
        } else {
            Ok(())
        },
        _ => Ok(()),
    }
}

/// The first verdict if it is a failure, else the second.
pub open spec fn or_else_verdict(
    first: Result<(), ValidationFailure>,
    second: Result<(), ValidationFailure>,
) -> Result<(), ValidationFailure> {
    if first is Err {
        first
    } else {
        second
    }
}

/// The verdict on the four filters of a corridor query: each value on its
/// own, in the order success rate minimum, success rate maximum, volume
/// minimum, volume maximum, then the order within the two pairs. The first
/// failure in that order is the verdict.
pub open spec fn corridor_filters_verdict(
    success_rate_min: Option<u64>,
    success_rate_max: Option<u64>,
    volume_min: Option<u64>,
    volume_max: Option<u64>,
) -> Result<(), ValidationFailure> {
    or_else_verdict(
        filter_verdict(
            success_rate_min,
            ZERO_BITS,
            SUCCESS_RATE_MAX_BITS,
            FilterParam::SuccessRateMin,
        ),
        or_else_verdict(
            filter_verdict(
                success_rate_max,
                ZERO_BITS,
                SUCCESS_RATE_MAX_BITS,
                FilterParam::SuccessRateMax,
            ),
            or_else_verdict(
                filter_verdict(volume_min, ZERO_BITS, VOLUME_MAX_BITS, FilterParam::VolumeMin),
                or_else_verdict(
                    filter_verdict(volume_max, ZERO_BITS, VOLUME_MAX_BITS, FilterParam::VolumeMax),
                    or_else_verdict(
                        pair_verdict(
                            success_rate_min,
                            success_rate_max,
                            FilterParam::SuccessRateMin,
                            FilterParam::SuccessRateMax,
                        ),
                        pair_verdict(
                            volume_min,
                            volume_max,
                            FilterParam::VolumeMin,
                            FilterParam::VolumeMax,
                        ),
                    ),
                ),
            ),
        ),
    )
}

/// Whether an optional value, if present, is finite and within the range.
pub open spec fn within(value: Option<u64>, min_allowed: u64, max_allowed: u64) -> bool {
    match value {
        Some(bits) => is_finite(bits) && order_key(min_allowed) <= order_key(bits) <= order_key(
            max_allowed,
        ),
        None => true,
    }
}

/// Whether two optional bounds, if both present, are in order.
pub open spec fn in_order(min: Option<u64>, max: Option<u64>) -> bool {
    match (min, max) {
        (Some(low), Some(high)) => order_key(low) <= order_key(high),
        _ => true,
    }
}

/// The filters are accepted exactly when every value that is present is
/// finite and within its range and neither pair is inverted. In particular
/// a NaN, an infinity, a negative number or a success rate above one
/// hundred is never accepted, and absent filters always are.
pub proof fn lemma_accepted_iff_valid(
    success_rate_min: Option<u64>,
    success_rate_max: Option<u64>,
    volume_min: Option<u64>,
    volume_max: Option<u64>,
)
    ensures
        corridor_filters_verdict(success_rate_min, success_rate_max, volume_min, volume_max) is Ok
            <==> {
            &&& within(success_rate_min, ZERO_BITS, SUCCESS_RATE_MAX_BITS)
            &&& within(success_rate_max, ZERO_BITS, SUCCESS_RATE_MAX_BITS)
            &&& within(volume_min, ZERO_BITS, VOLUME_MAX_BITS)
            &&& within(volume_max, ZERO_BITS, VOLUME_MAX_BITS)
            &&& in_order(success_rate_min, success_rate_max)
            &&& in_order(volume_min, volume_max)
        },
{
}

/// Computes the position of an encoding in the numeric order.
fn key_of(bits: u64) -> (key: i128)
    ensures
        key == order_key(bits),
{
    let magnitude: u64 = bits & 0x7fff_ffff_ffff_ffff;
    assert(magnitude <= 0x7fff_ffff_ffff_ffff) by (bit_vector)
        requires
            magnitude == bits & 0x7fff_ffff_ffff_ffff,
    ;
    if bits >> 63 == 1 {
        -(magnitude as i128)
    } else {
        magnitude as i128
    }
}

/// Checks one optional filter value: it must be finite and lie between
/// `min_allowed` and `max_allowed`, which are encodings of finite numbers.
pub fn validate_filter(
    value: Option<u64>,
    min_allowed: u64,
    max_allowed: u64,
    param: FilterParam,
) -> (verdict: Result<(), ValidationFailure>)
    ensures
        verdict == filter_verdict(value, min_allowed, max_allowed, param),
{
    match value {
        None => Ok(()),
        Some(bits) => {
            let exponent: u64 = (bits >> 52) & 0x7ff;
            if exponent == 0x7ff {
                let nan = bits & 0x000f_ffff_ffff_ffff != 0;
                Err(ValidationFailure::NotFinite { param, nan })
            } else {
                let key = key_of(bits);
                if key < key_of(min_allowed) || key > key_of(max_allowed) {
                    Err(ValidationFailure::OutOfRange { param, value: bits })
                } else {
                    Ok(())
                }
            }
        },
    }
}

/// Checks that a lower bound does not exceed its upper bound.
fn validate_pair(
    min: Option<u64>,
    max: Option<u64>,
    min_param: FilterParam,
    max_param: FilterParam,
) -> (verdict: Result<(), ValidationFailure>)
    ensures
        verdict == pair_verdict(min, max, min_param, max_param),
{
    match (min, max) {
        (Some(low), Some(high)) => {
            if key_of(low) > key_of(high) {
                Err(ValidationFailure::MinAboveMax { min: min_param, max: max_param })
            } else {
                Ok(())
            }
        },
        _ => Ok(()),
    }
}

/// Validates the filters of a corridor query. Success rates must be finite
/// and lie in `[0, 100]`, volumes must be finite and lie in `[0, 1e18]`, and
/// in each pair the minimum must not exceed the maximum. The first rule that
/// is broken is reported; nothing is clamped.
pub fn validate_corridor_filters(
    success_rate_min: Option<u64>,
    success_rate_max: Option<u64>,
    volume_min: Option<u64>,
    volume_max: Option<u64>,
) -> (verdict: Result<(), ValidationFailure>)
    ensures
        verdict == corridor_filters_verdict(
            success_rate_min,
            success_rate_max,
            volume_min,
            volume_max,
        ),
{
    let v1 = validate_filter(
        success_rate_min,
        ZERO_BITS,
        SUCCESS_RATE_MAX_BITS,
        FilterParam::SuccessRateMin,
    );
    let v2 = validate_filter(
        success_rate_max,
        ZERO_BITS,
        SUCCESS_RATE_MAX_BITS,
        FilterParam::SuccessRateMax,
    );
    let v3 = validate_filter(volume_min, ZERO_BITS, VOLUME_MAX_BITS, FilterParam::VolumeMin);
    let v4 = validate_filter(volume_max, ZERO_BITS, VOLUME_MAX_BITS, FilterParam::VolumeMax);
    let v5 = validate_pair(
        success_rate_min,
        success_rate_max,
        FilterParam::SuccessRateMin,
        FilterParam::SuccessRateMax,
    );
    let v6 = validate_pair(volume_min, volume_max, FilterParam::VolumeMin, FilterParam::VolumeMax);
    if v1.is_err() {
        v1
    } else if v2.is_err() {
        v2
    } else if v3.is_err() {
        v3
    } else if v4.is_err() {
        v4
    } else if v5.is_err() {
        v5
    } else {
        v6
    }
}

} // verus!
