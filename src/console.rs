use vstd::prelude::*;
use spin::{Mutex, MutexGuard};
use crate::writer::Writer;

verus! {

#[verifier::external_type_specification]
#[verifier::external_body]
#[verifier::reject_recursive_types(T)]
pub struct ExMutex<T: ?Sized>(Mutex<T>);

#[verifier::external_type_specification]
#[verifier::external_body]
#[verifier::reject_recursive_types(T)]
pub struct ExMutexGuard<'a, T: ?Sized + 'a>(MutexGuard<'a, T>);

/// Relies on `spin::Mutex::lock`: spins until the lock is free and hands out
/// the guard that holds it until dropped.
#[verifier::external_body]
fn lock(m: &Mutex<Writer>) -> MutexGuard<'_, Writer> {
    m.lock()
}

/// Relies on `spin::MutexGuard::deref_mut`: the writer that the lock guards.
#[verifier::external_body]
fn guarded<'a, 'b>(g: &'b mut MutexGuard<'a, Writer>) -> &'b mut Writer {
    &mut **g
}

/// Writes `s` through the writer that `writer` guards, holding the lock for
/// the whole string so that no other output comes between its bytes.
pub fn _print(writer: &Mutex<Writer>, s: &str) {
    let mut g = lock(writer);
    let w = guarded(&mut g);
    w.write_string(s);
}

} // verus!
