use vstd::prelude::*;

verus! {

/// Seconds of pointer sampling when it only augments the OS source.
pub const BASE_MOTION_SECONDS: u8 = 10;

/// Seconds of pointer sampling when the OS source failed: twice the base.
pub const FALLBACK_MOTION_SECONDS: u8 = 20;

/// `n` zero bytes.
pub open spec fn zeros(n: nat) -> Seq<u8> {
    Seq::new(n, |i: int| 0u8)
}

/// A buffer of raw random bytes, and whether pointer sampling must make up
/// for a failed OS source.
pub struct Acquired {
    pub buffer: Vec<u8>,
    pub fallback_required: bool,
}

/// Relies on rand_core's `OsRng::try_fill_bytes`, which hands the slice to
/// `getrandom`: it reports whether the OS source filled it. Filling a slice
/// never changes its length.
#[verifier::external_body]
fn os_try_fill(buffer: &mut Vec<u8>) -> (filled: bool)
    ensures
        final(buffer)@.len() == old(buffer)@.len(),
{
    rand_core::RngCore::try_fill_bytes(&mut rand_core::OsRng, buffer.as_mut_slice()).is_ok()
}

/// Settles the outcome of an attempt to fill `buffer` from the OS source: a
/// filled buffer is kept as it is; otherwise it is zeroed and pointer
/// sampling becomes mandatory.
pub fn settle(buffer: Vec<u8>, filled: bool) -> (r: Acquired)
    ensures
        r.fallback_required == !filled,
        filled ==> r.buffer@ == buffer@,
        !filled ==> r.buffer@ == zeros(buffer@.len()),
{
    if filled {
        return Acquired { buffer, fallback_required: false };
    }
    let ghost length = buffer@.len();
    let mut zeroed = buffer;
    let mut k: usize = 0;
    while k < zeroed.len()
        invariant
            k <= zeroed@.len(),
            zeroed@.len() == length,
            forall|i: int| 0 <= i < k ==> zeroed@[i] == 0u8,
        decreases zeroed@.len() - k,
    {
        zeroed.set(k, 0);
        k = k + 1;
    }
    assert(zeroed@ =~= zeros(length));
    Acquired { buffer: zeroed, fallback_required: true }
}

/// A buffer of `length` bytes from the OS source; when that source fails,
/// `length` zero bytes with the fallback flagged.
pub fn acquire(length: u8) -> (r: Acquired)
    ensures
        r.buffer@.len() == length,
        r.fallback_required ==> r.buffer@ == zeros(length as nat),
{
    let mut buffer: Vec<u8> = vec![0u8; length as usize];
    let filled = os_try_fill(&mut buffer);
    settle(buffer, filled)
}

/// The sampling budget in seconds: doubled when the OS source failed.
pub fn motion_seconds(fallback_required: bool) -> (r: u8)
    ensures
        r == if fallback_required {
            FALLBACK_MOTION_SECONDS
        } else {
            BASE_MOTION_SECONDS
        },
        r == (if fallback_required { 2u8 } else { 1u8 }) * BASE_MOTION_SECONDS,
{
    if fallback_required {
        FALLBACK_MOTION_SECONDS
    } else {
        BASE_MOTION_SECONDS
    }
}

} // verus!
