use crate::clock::{since_epoch, wall_clock};
use crate::text::{hex_string, hexadecimal};
use vstd::prelude::*;
use vstd::string::StringExecFns;

verus! {

/// Draws 64 random bits with `rand::random` of the crate `rand`, which
/// panics only where its generator cannot be set up for want of entropy
/// from the operating system. Nothing is claimed of the bits that come back.
#[verifier::external_body]
pub(crate) fn random_u64() -> (bits: u64) {
    rand::random::<u64>()
}

/// The nanoseconds since the Unix epoch that a reading of the clock
/// stands for, as far as 64 bits hold them; zero for no reading.
pub open spec fn timestamp(time: Option<(u64, u32)>) -> u64 {
    match time {
        Some((secs, nanos)) => vstd::wrapping::u64_specs::wrapping_add(
            vstd::wrapping::u64_specs::wrapping_mul(secs, 1_000_000_000),
            nanos as u64,
        ),
        None => 0,
    }
}

/// The id made of a reading of the clock and random bits: both in
/// hexadecimal, the time first.
pub open spec fn task_id_text(time: Option<(u64, u32)>, random: u64) -> Seq<char> {
    hexadecimal(timestamp(time) as nat) + hexadecimal(random as nat)
}

/// Makes the id of a task from a reading of the clock and random bits.
pub fn task_id_from(time: Option<(u64, u32)>, random: u64) -> (id: String)
    ensures
        id@ == task_id_text(time, random),
{
    let stamp: u64 = match time {
        Some((secs, nanos)) => secs.wrapping_mul(1_000_000_000).wrapping_add(nanos as u64),
        None => 0,
    };
    let id = hex_string(stamp);
    id.concat(hex_string(random).as_str())
}

/// Makes a fresh id from the time and random bits.
pub fn generate_uuid() -> (id: String)
    ensures
        exists|time: Option<(u64, u32)>, random: u64| id@ == task_id_text(time, random),
{
    let time = since_epoch(&wall_clock());
    let random = random_u64();
    task_id_from(time, random)
}

} // verus!
