use vstd::prelude::*;

verus! {

/// The busy-wait lock of the spin crate, which guards a mutex's own state.
#[verifier::external_type_specification]
#[verifier::external_body]
#[verifier::reject_recursive_types(T)]
#[verifier::reject_recursive_types(R)]
pub struct ExSpinMutex<T: ?Sized, R>(spin::mutex::SpinMutex<T, R>);

/// The relax strategy of spin's locks that busy-waits.
#[verifier::external_type_specification]
#[verifier::external_body]
pub struct ExSpin(spin::Spin);

/// The scoped access token of `spin::mutex::SpinMutex`; dropping it releases the lock.
#[verifier::external_type_specification]
#[verifier::external_body]
#[verifier::reject_recursive_types(T)]
#[verifier::reject_recursive_types(R)]
pub struct ExSpinGuard<'a, T: 'a + ?Sized, R>(spin::mutex::SpinMutexGuard<'a, T, R>);

/// Relies on spin::mutex::SpinMutex::new: builds an unlocked busy-wait lock
/// around a value.
#[verifier::external_body]
pub(crate) fn spin_mutex<T>(value: T) -> spin::mutex::SpinMutex<T, spin::Spin> {
    spin::mutex::SpinMutex::new(value)
}

/// Relies on spin::mutex::SpinMutex::lock: spins until the lock is free, then holds it.
/// What the guarded value holds is not stated: other threads change it.
pub assume_specification<'a, T: ?Sized, R: spin::RelaxStrategy>[ spin::mutex::SpinMutex::<T, R>::lock ](
    m: &'a spin::mutex::SpinMutex<T, R>,
) -> spin::mutex::SpinMutexGuard<'a, T, R>;

/// Relies on spin's `Deref` for its guard: shared access to the guarded value.
pub assume_specification<'a, 'b, T: ?Sized, R>[ <spin::mutex::SpinMutexGuard<'a, T, R> as core::ops::Deref>::deref ](
    g: &'b spin::mutex::SpinMutexGuard<'a, T, R>,
) -> &'b T;

/// Relies on spin's `DerefMut` for its guard: exclusive access to the guarded
/// value while the guard lives.
pub assume_specification<'a, 'b, T: ?Sized, R>[ <spin::mutex::SpinMutexGuard<'a, T, R> as core::ops::DerefMut>::deref_mut ](
    g: &'b mut spin::mutex::SpinMutexGuard<'a, T, R>,
) -> &'b mut T;

} // verus!
