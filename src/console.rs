use crate::writer::Writer;
use spin::{Mutex, MutexGuard};
use vstd::prelude::*;

verus! {

#[verifier::external_type_specification]
#[verifier::external_body]
#[verifier::reject_recursive_types(T)]
pub struct ExMutex<T: ?Sized>(Mutex<T>);

#[verifier::external_type_specification]
#[verifier::external_body]
#[verifier::reject_recursive_types(T)]
pub struct ExMutexGuard<'a, T: ?Sized + 'a>(MutexGuard<'a, T>);

/// Relies on spin::Mutex::lock: busy-waits until the lock is free and holds
/// it until the guard is dropped.
#[verifier::external_body]
fn acquire(console: &Mutex<Writer>) -> MutexGuard<'_, Writer> {
    console.lock()
}

/// Relies on spin::Mutex::try_lock: one attempt to take the lock, which
/// yields a guard only when the lock was free.
#[verifier::external_body]
fn try_acquire(console: &Mutex<Writer>) -> Option<MutexGuard<'_, Writer>> {
    console.try_lock()
}

/// Relies on MutexGuard's DerefMut: exclusive access to the guarded writer
/// for as long as the guard lives.
#[verifier::external_body]
fn guarded<'a, 'b>(guard: &'a mut MutexGuard<'b, Writer>) -> &'a mut Writer {
    &mut *guard
}

/// Writes `s` through the console shared by every caller: the whole text is
/// written while the lock is held, so no other write can interleave with it.
/// The lock is a spin lock: a caller that already holds it (a fault taken in
/// the middle of a write) must use `try_print` instead, or it spins forever.
pub fn _print(console: &Mutex<Writer>, s: &str) {
    let mut guard = acquire(console);
    let writer = guarded(&mut guard);
    writer.write_string(s);
}

/// Writes `s` through the shared console only if its lock is free at once,
/// and tells whether it did. This is the entry for fault and interrupt
/// paths: when the lock is already held, possibly by the very context that
/// faulted, it gives up and writes nothing rather than wait for a release
/// that may never come.
pub fn try_print(console: &Mutex<Writer>, s: &str) -> (written: bool) {
    match try_acquire(console) {
        Some(mut guard) => {
            let writer = guarded(&mut guard);
            writer.write_string(s);
            true
        },
        None => false,
    }
}

} // verus!
