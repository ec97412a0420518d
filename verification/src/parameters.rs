use vstd::prelude::*;

use crate::error::{dim_error, Error};

verus! {

// Kernel and data parameters are real numbers; the comparisons of those
// numbers with zero are made by the caller, and each check here receives their
// outcome (`true` where the original test `value <= 0.0`, or `value < 0.0` for
// a variance, holds) and decides which error, if any, the constructor reports.

/// `i` is the first position at which `flags` holds.
pub open spec fn is_first_flagged(flags: Seq<bool>, i: int) -> bool {
    &&& 0 <= i < flags.len()
    &&& flags[i]
    &&& forall|j: int| 0 <= j < i ==> !flags[j]
}

/// The verdict on a vector parameter named `name` whose entries are
/// non-positive exactly where `non_positive` holds.
pub open spec fn vector_verdict(name: &'static str, non_positive: Seq<bool>) -> Result<(), Error> {
    if non_positive.len() == 0 {
        Err(Error::Empty(name))
    } else if exists|i: int| is_first_flagged(non_positive, i) {
        let i = choose|i: int| is_first_flagged(non_positive, i);
        Err(Error::NonPositiveParameter { name, index: Some(i as usize) })
    } else {
        Ok(())
    }
}

/// The verdict on a scalar parameter named `name`.
pub open spec fn scalar_verdict(name: &'static str, non_positive: bool) -> Result<(), Error> {
    if non_positive {
        Err(Error::NonPositiveParameter { name, index: None })
    } else {
        Ok(())
    }
}

/// The first error of two checks made in turn.
pub open spec fn then_check(first: Result<(), Error>, second: Result<(), Error>) -> Result<(), Error> {
    match first {
        Err(e) => Err(e),
        Ok(_) => second,
    }
}

/// The verdict on a squared-exponential or Matérn kernel's parameters.
pub open spec fn stationary_verdict(sigma_non_positive: bool, length_scale_non_positive: Seq<bool>) -> Result<(), Error> {
    then_check(
        scalar_verdict("sigma", sigma_non_positive),
        vector_verdict("length_scale", length_scale_non_positive),
    )
}

/// The verdict on a periodic kernel's parameters.
pub open spec fn periodic_verdict(
    sigma_non_positive: bool,
    length_scale_non_positive: Seq<bool>,
    period_non_positive: Seq<bool>,
) -> Result<(), Error> {
    then_check(
        stationary_verdict(sigma_non_positive, length_scale_non_positive),
        then_check(
            vector_verdict("period", period_non_positive),
            if length_scale_non_positive.len() != period_non_positive.len() {
                Err(Error::DimensionMismatch {
                    context: "periodic kernel",
                    expected: length_scale_non_positive.len() as usize,
                    actual: period_non_positive.len() as usize,
                })
            } else {
                Ok(())
            },
        ),
    )
}

/// The verdict on a locally periodic kernel's parameters: the periodic factor
/// has unit amplitude, the envelope carries `sigma`.
pub open spec fn locally_periodic_verdict(
    sigma_non_positive: bool,
    periodic_length_scale_non_positive: Seq<bool>,
    period_non_positive: Seq<bool>,
    envelope_length_scale_non_positive: Seq<bool>,
) -> Result<(), Error> {
    if periodic_length_scale_non_positive.len() != envelope_length_scale_non_positive.len() {
        Err(Error::DimensionMismatch {
            context: "locally periodic kernel",
            expected: periodic_length_scale_non_positive.len() as usize,
            actual: envelope_length_scale_non_positive.len() as usize,
        })
    } else {
        then_check(
            periodic_verdict(false, periodic_length_scale_non_positive, period_non_positive),
            stationary_verdict(sigma_non_positive, envelope_length_scale_non_positive),
        )
    }
}

/// Every entry of a vector parameter passes: the vector is not empty and no
/// entry is flagged non-positive.
pub open spec fn all_positive(flags: Seq<bool>) -> bool {
    &&& flags.len() > 0
    &&& forall|i: int| 0 <= i < flags.len() ==> !flags[i]
}

/// A vector parameter is refused as empty when it has no entries, is refused
/// at its first non-positive entry, whatever that entry's position, and is
/// accepted exactly when it is non-empty and no entry is non-positive.
pub proof fn lemma_vector_check(name: &'static str, flags: Seq<bool>)
    ensures
        flags.len() == 0 ==> vector_verdict(name, flags) == Err::<(), Error>(Error::Empty(name)),
        forall|i: int|
            #![trigger flags[i]]
            0 <= i < flags.len() && flags[i] && (forall|j: int| 0 <= j < i ==> !flags[j]) ==> vector_verdict(
                name,
                flags,
            ) == Err::<(), Error>(Error::NonPositiveParameter { name, index: Some(i as usize) }),
        (exists|i: int| 0 <= i < flags.len() && flags[i]) ==> vector_verdict(name, flags) is Err,
        vector_verdict(name, flags) is Ok <==> all_positive(flags),
{
    assert forall|i: int|
        #![trigger flags[i]]
        0 <= i < flags.len() && flags[i] && (forall|j: int| 0 <= j < i ==> !flags[j]) implies vector_verdict(
            name,
            flags,
        ) == Err::<(), Error>(Error::NonPositiveParameter { name, index: Some(i as usize) }) by {
        assert(is_first_flagged(flags, i));
        let k = choose|k: int| is_first_flagged(flags, k);
        assert(k == i) by {
            if k < i {
                assert(!flags[k]);
            }
            if k > i {
                assert(!flags[i]);
            }
        }
    }
    if exists|i: int| 0 <= i < flags.len() && flags[i] {
        let w = choose|i: int| 0 <= i < flags.len() && flags[i];
        lemma_first_flag_exists(flags, w);
    }
    if all_positive(flags) {
        assert(!exists|i: int| is_first_flagged(flags, i));
    }
}

/// A flagged entry at `w` means some entry is the first flagged one.
proof fn lemma_first_flag_exists(flags: Seq<bool>, w: int)
    requires
        0 <= w < flags.len(),
        flags[w],
    ensures
        exists|i: int| is_first_flagged(flags, i),
    decreases w,
{
    if exists|j: int| 0 <= j < w && flags[j] {
        let j = choose|j: int| 0 <= j < w && flags[j];
        lemma_first_flag_exists(flags, j);
    } else {
        assert(is_first_flagged(flags, w));
    }
}

/// A squared-exponential or Matérn kernel is refused for a non-positive
/// `sigma` whatever its length scales; with a positive `sigma` it is refused
/// as empty, or at its first non-positive length scale; and it is accepted
/// exactly when `sigma` and every length scale are positive.
pub proof fn lemma_stationary_check(sigma_non_positive: bool, length_scale: Seq<bool>)
    ensures
        sigma_non_positive ==> stationary_verdict(sigma_non_positive, length_scale) == Err::<(), Error>(
            Error::NonPositiveParameter { name: "sigma", index: None },
        ),
        !sigma_non_positive && length_scale.len() == 0 ==> stationary_verdict(sigma_non_positive, length_scale)
            == Err::<(), Error>(Error::Empty("length_scale")),
        forall|i: int|
            #![trigger length_scale[i]]
            !sigma_non_positive && 0 <= i < length_scale.len() && length_scale[i] && (forall|j: int|
                0 <= j < i ==> !length_scale[j]) ==> stationary_verdict(sigma_non_positive, length_scale)
                == Err::<(), Error>(Error::NonPositiveParameter { name: "length_scale", index: Some(i as usize) }),
        stationary_verdict(sigma_non_positive, length_scale) is Ok <==> !sigma_non_positive && all_positive(
            length_scale,
        ),
{
    lemma_vector_check("length_scale", length_scale);
}

/// A periodic kernel is refused for a non-positive `sigma`; then as the
/// length scales are refused; then as the periods are refused; then, with
/// every parameter positive, when there is not exactly one period per length
/// scale (a surplus on either side). It is accepted exactly when every
/// parameter is positive and the two vectors have the same length.
pub proof fn lemma_periodic_check(sigma_non_positive: bool, length_scale: Seq<bool>, period: Seq<bool>)
    ensures
        sigma_non_positive ==> periodic_verdict(sigma_non_positive, length_scale, period) == Err::<(), Error>(
            Error::NonPositiveParameter { name: "sigma", index: None },
        ),
        !sigma_non_positive && length_scale.len() == 0 ==> periodic_verdict(
            sigma_non_positive,
            length_scale,
            period,
        ) == Err::<(), Error>(Error::Empty("length_scale")),
        forall|i: int|
            #![trigger length_scale[i]]
            !sigma_non_positive && 0 <= i < length_scale.len() && length_scale[i] && (forall|j: int|
                0 <= j < i ==> !length_scale[j]) ==> periodic_verdict(sigma_non_positive, length_scale, period)
                == Err::<(), Error>(Error::NonPositiveParameter { name: "length_scale", index: Some(i as usize) }),
        !sigma_non_positive && all_positive(length_scale) && period.len() == 0 ==> periodic_verdict(
            sigma_non_positive,
            length_scale,
            period,
        ) == Err::<(), Error>(Error::Empty("period")),
        forall|i: int|
            #![trigger period[i]]
            !sigma_non_positive && all_positive(length_scale) && 0 <= i < period.len() && period[i] && (forall|
                j: int,
            | 0 <= j < i ==> !period[j]) ==> periodic_verdict(sigma_non_positive, length_scale, period)
                == Err::<(), Error>(Error::NonPositiveParameter { name: "period", index: Some(i as usize) }),
        !sigma_non_positive && all_positive(length_scale) && all_positive(period) && length_scale.len()
            != period.len() ==> periodic_verdict(sigma_non_positive, length_scale, period) == Err::<(), Error>(
            Error::DimensionMismatch {
                context: "periodic kernel",
                expected: length_scale.len() as usize,
                actual: period.len() as usize,
            },
        ),
        periodic_verdict(sigma_non_positive, length_scale, period) is Ok <==> !sigma_non_positive && all_positive(
            length_scale,
        ) && all_positive(period) && length_scale.len() == period.len(),
{
    lemma_stationary_check(sigma_non_positive, length_scale);
    lemma_vector_check("period", period);
}

/// A locally periodic kernel is refused, before anything else, when its two
/// length-scale vectors differ in length (either way round); then as its
/// unit-amplitude periodic factor is refused; then for a non-positive `sigma`;
/// then at the first non-positive envelope length scale. It is accepted
/// exactly when every parameter is positive and all three vectors have the
/// same length.
pub proof fn lemma_locally_periodic_check(
    sigma_non_positive: bool,
    periodic_length_scale: Seq<bool>,
    period: Seq<bool>,
    envelope_length_scale: Seq<bool>,
)
    ensures
        periodic_length_scale.len() != envelope_length_scale.len() ==> locally_periodic_verdict(
            sigma_non_positive,
            periodic_length_scale,
            period,
            envelope_length_scale,
        ) == Err::<(), Error>(Error::DimensionMismatch {
            context: "locally periodic kernel",
            expected: periodic_length_scale.len() as usize,
            actual: envelope_length_scale.len() as usize,
        }),
        periodic_length_scale.len() == envelope_length_scale.len() ==> locally_periodic_verdict(
            sigma_non_positive,
            periodic_length_scale,
            period,
            envelope_length_scale,
        ) == if periodic_verdict(false, periodic_length_scale, period) is Err {
            periodic_verdict(false, periodic_length_scale, period)
        } else {
            stationary_verdict(sigma_non_positive, envelope_length_scale)
        },
        periodic_length_scale.len() == envelope_length_scale.len() && all_positive(periodic_length_scale)
            && all_positive(period) && periodic_length_scale.len() == period.len() && sigma_non_positive
            ==> locally_periodic_verdict(sigma_non_positive, periodic_length_scale, period, envelope_length_scale)
            == Err::<(), Error>(Error::NonPositiveParameter { name: "sigma", index: None }),
        forall|i: int|
            #![trigger envelope_length_scale[i]]
            periodic_length_scale.len() == envelope_length_scale.len() && all_positive(periodic_length_scale)
                && all_positive(period) && periodic_length_scale.len() == period.len() && !sigma_non_positive && 0
                <= i < envelope_length_scale.len() && envelope_length_scale[i] && (forall|j: int|
                0 <= j < i ==> !envelope_length_scale[j]) ==> locally_periodic_verdict(
                sigma_non_positive,
                periodic_length_scale,
                period,
                envelope_length_scale,
            ) == Err::<(), Error>(Error::NonPositiveParameter { name: "length_scale", index: Some(i as usize) }),
        locally_periodic_verdict(sigma_non_positive, periodic_length_scale, period, envelope_length_scale) is Ok
            <==> !sigma_non_positive && all_positive(periodic_length_scale) && all_positive(period) && all_positive(
            envelope_length_scale,
        ) && periodic_length_scale.len() == period.len() && periodic_length_scale.len()
            == envelope_length_scale.len(),
{
    lemma_periodic_check(false, periodic_length_scale, period);
    lemma_stationary_check(sigma_non_positive, envelope_length_scale);
}

/// Refuses a scalar parameter that is not strictly positive.
pub fn require_positive(name: &'static str, non_positive: bool) -> (res: Result<(), Error>)
    ensures
        res == scalar_verdict(name, non_positive),
        non_positive ==> res == Err::<(), Error>(Error::NonPositiveParameter { name, index: None }),
        !non_positive ==> res == Ok::<(), Error>(()),
{
    if non_positive {
        Err(Error::NonPositiveParameter { name, index: None })
    } else {
        Ok(())
    }
}

/// Refuses an empty vector parameter, or one with an entry that is not
/// strictly positive; the error names the first such entry.
pub fn require_positive_vector(name: &'static str, non_positive: &Vec<bool>) -> (res: Result<(), Error>)
    ensures
        res == vector_verdict(name, non_positive@),
{
    if non_positive.len() == 0 {
        return Err(Error::Empty(name));
    }
    let n = non_positive.len();
    for i in 0..n
        invariant
            n == non_positive@.len(),
            forall|j: int| 0 <= j < i ==> !non_positive@[j],
    {
        if non_positive[i] {
            proof {
                assert(is_first_flagged(non_positive@, i as int));
                let k = choose|k: int| is_first_flagged(non_positive@, k);
                assert(k == i as int) by {
                    if k < i as int {
                        assert(!non_positive@[k]);
                    }
                    if k > i as int {
                        assert(!non_positive@[i as int]);
                    }
                }
            }
            return Err(Error::NonPositiveParameter { name, index: Some(i) });
        }
    }
    assert(!exists|i: int| is_first_flagged(non_positive@, i));
    Ok(())
}

/// Validates the parameters of a squared-exponential or Matérn kernel:
/// `sigma` first, then the length scales.
pub fn check_stationary_parameters(sigma_non_positive: bool, length_scale_non_positive: &Vec<bool>) -> (res: Result<(), Error>)
    ensures
        res == stationary_verdict(sigma_non_positive, length_scale_non_positive@),
{
    match require_positive("sigma", sigma_non_positive) {
        Err(e) => return Err(e),
        Ok(_) => {},
    }
    require_positive_vector("length_scale", length_scale_non_positive)
}

/// Validates the parameters of a periodic kernel: `sigma`, the length scales,
/// the periods, and then that there is one period per length scale.
pub fn check_periodic_parameters(
    sigma_non_positive: bool,
    length_scale_non_positive: &Vec<bool>,
    period_non_positive: &Vec<bool>,
) -> (res: Result<(), Error>)
    ensures
        res == periodic_verdict(sigma_non_positive, length_scale_non_positive@, period_non_positive@),
{
    match check_stationary_parameters(sigma_non_positive, length_scale_non_positive) {
        Err(e) => return Err(e),
        Ok(_) => {},
    }
    match require_positive_vector("period", period_non_positive) {
        Err(e) => return Err(e),
        Ok(_) => {},
    }
    if length_scale_non_positive.len() != period_non_positive.len() {
        return Err(dim_error("periodic kernel", length_scale_non_positive.len(), period_non_positive.len()));
    }
    Ok(())
}

/// Validates the parameters of a locally periodic kernel: the two length-scale
/// vectors must have the same length, then the unit-amplitude periodic factor
/// and the squared-exponential envelope are validated in that order.
pub fn check_locally_periodic_parameters(
    sigma_non_positive: bool,
    periodic_length_scale_non_positive: &Vec<bool>,
    period_non_positive: &Vec<bool>,
    envelope_length_scale_non_positive: &Vec<bool>,
) -> (res: Result<(), Error>)
    ensures
        res == locally_periodic_verdict(
            sigma_non_positive,
            periodic_length_scale_non_positive@,
            period_non_positive@,
            envelope_length_scale_non_positive@,
        ),
{
    if periodic_length_scale_non_positive.len() != envelope_length_scale_non_positive.len() {
        return Err(dim_error(
            "locally periodic kernel",
            periodic_length_scale_non_positive.len(),
            envelope_length_scale_non_positive.len(),
        ));
    }
    match check_periodic_parameters(false, periodic_length_scale_non_positive, period_non_positive) {
        Err(e) => return Err(e),
        Ok(_) => {},
    }
    check_stationary_parameters(sigma_non_positive, envelope_length_scale_non_positive)
}

/// Validates a training data set: one output per input column, then a noise
/// variance that is not negative (`noise_negative` is the outcome of
/// `variance < 0.0`).
pub fn check_data(input_columns: usize, outputs: usize, noise_negative: bool) -> (res: Result<(), Error>)
    ensures
        input_columns != outputs ==> res == Err::<(), Error>(Error::DimensionMismatch {
            context: "gaussian process data",
            expected: input_columns,
            actual: outputs,
        }),
        input_columns == outputs ==> res == scalar_verdict("output_noise_variance", noise_negative),
        input_columns == outputs && noise_negative ==> res == Err::<(), Error>(Error::NonPositiveParameter {
            name: "output_noise_variance",
            index: None,
        }),
        res is Ok <==> input_columns == outputs && !noise_negative,
{
    if input_columns != outputs {
        return Err(dim_error("gaussian process data", input_columns, outputs));
    }
    require_positive("output_noise_variance", noise_negative)
}

} // verus!
