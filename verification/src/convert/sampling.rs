//! Sampling parameters as JSON numbers.

use vstd::prelude::*;
use crate::error::{ConversionError, ConversionErrorV};
use crate::json::{Json, JsonV, Num, NumV};
use crate::model::opt_view;
use crate::text::cat3;
use crate::value::num_as_float;

verus! {

/// The parameter is unset or denotes a finite number.
pub open spec fn is_finite(n: Option<NumV>) -> bool {
    match n {
        Some(n) => num_as_float(n) is Some,
        None => true,
    }
}

/// The error for a parameter at `ptr` that is no finite number.
pub open spec fn not_finite(ptr: Seq<char>) -> ConversionErrorV {
    ConversionErrorV::Other { message: "sampling parameter `"@ + ptr + "` is not a finite number"@ }
}

/// The first parameter that is no finite number is an error.
pub open spec fn sampling_check(
    temperature: Option<NumV>,
    top_p: Option<NumV>,
    frequency_penalty: Option<NumV>,
    presence_penalty: Option<NumV>,
) -> Result<(), ConversionErrorV> {
    if !is_finite(temperature) {
        Err(not_finite("/temperature"@))
    } else if !is_finite(top_p) {
        Err(not_finite("/top_p"@))
    } else if !is_finite(frequency_penalty) {
        Err(not_finite("/frequency_penalty"@))
    } else if !is_finite(presence_penalty) {
        Err(not_finite("/presence_penalty"@))
    } else {
        Ok(())
    }
}

/// The number as a floating-point JSON value; `null` when it is not finite.
pub open spec fn float_json(n: NumV) -> JsonV {
    match num_as_float(n) {
        Some(f) => JsonV::Number(f),
        None => JsonV::Null,
    }
}

fn finite(n: &Option<Num>) -> (r: bool)
    ensures
        r == is_finite(opt_view(*n)),
{
    match n {
        Some(n) => n.to_float().is_some(),
        None => true,
    }
}

fn finite_error(ptr: &str) -> (r: ConversionError)
    ensures
        r@ == not_finite(ptr@),
{
    ConversionError::other(cat3("sampling parameter `", ptr, "` is not a finite number").as_str())
}

/// Rejects sampling parameters that are no finite numbers: JSON cannot carry
/// them.
pub fn check_finite_sampling(
    temperature: &Option<Num>,
    top_p: &Option<Num>,
    frequency_penalty: &Option<Num>,
    presence_penalty: &Option<Num>,
) -> (r: Result<(), ConversionError>)
    ensures
        match r {
            Ok(_) => sampling_check(
                opt_view(*temperature),
                opt_view(*top_p),
                opt_view(*frequency_penalty),
                opt_view(*presence_penalty),
            ) is Ok,
            Err(e) => sampling_check(
                opt_view(*temperature),
                opt_view(*top_p),
                opt_view(*frequency_penalty),
                opt_view(*presence_penalty),
            ) == Err::<(), ConversionErrorV>(e@),
        },
{
    if !finite(temperature) {
        Err(finite_error("/temperature"))
    } else if !finite(top_p) {
        Err(finite_error("/top_p"))
    } else if !finite(frequency_penalty) {
        Err(finite_error("/frequency_penalty"))
    } else if !finite(presence_penalty) {
        Err(finite_error("/presence_penalty"))
    } else {
        Ok(())
    }
}

/// The number as a floating-point JSON value.
pub fn make_float(n: &Num) -> (r: Json)
    ensures
        r@ == float_json(n@),
{
    match n.to_float() {
        Some(f) => Json::Number(f),
        None => Json::Null,
    }
}

} // verus!
