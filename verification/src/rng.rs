use vstd::prelude::*;

verus! {

/// Relies on rand::Rng::gen_range over rand::thread_rng: it returns a value
/// drawn uniformly from the given inclusive range, and panics only when the
/// range is empty, which the precondition rules out.  Nothing is assumed
/// about which value comes back beyond its bounds.
#[verifier::external_body]
pub(crate) fn rand_in_range(lo: u32, hi: u32) -> (r: u32)
    requires
        lo <= hi,
    ensures
        lo <= r <= hi,
{
    rand::Rng::gen_range(&mut rand::thread_rng(), lo..=hi)
}

} // verus!
