use vstd::prelude::*;
use vstd::std_specs::convert::TryIntoSpec;

verus! {

/// Converts `value` into the primitive type `T`.
///
/// The conversion must succeed: a value that does not fit in `T` is outside the
/// domain of this function.
pub fn convert_to_primitive<F, T>(value: F) -> (r: Result<T, ()>)
    where F: TryInto<T>,
    requires
        <F as TryIntoSpec<T>>::obeys_try_into_spec(),
        value.try_into_spec() is Ok,
    ensures
        r == Ok::<T, ()>(value.try_into_spec()->Ok_0),
{
    Ok(TryInto::<T>::try_into(value).ok().unwrap())
}

} // verus!
