use vstd::prelude::*;

verus! {

/// Relies on `rand::random::<u64>`: a value drawn from the thread-local
/// generator. Nothing is promised about which value comes out.
#[verifier::external_body]
fn random_u64() -> (r: u64) {
    rand::random::<u64>()
}

/// Maps a raw draw onto `0 ..= max`.
pub fn int_from_draw(draw: u64, max: usize) -> (r: usize)
    requires
        max < u64::MAX,
    ensures
        r as int == draw as int % (max as int + 1),
        r <= max,
{
    let m: u64 = max as u64 + 1;
    (draw % m) as usize
}

/// A random integer in `min ..= max`.
pub fn random_int(min: usize, max: usize) -> (r: usize)
    requires
        min <= max,
    ensures
        min <= r <= max,
{
    let span: usize = max - min;
    let draw = random_u64();
    if (span as u64) == u64::MAX {
        // the whole range of a 64-bit usize: every draw is already in it
        return draw as usize;
    }
    min + int_from_draw(draw, span)
}

/// `count` fresh random draws.
pub fn random_draws(count: usize) -> (r: Vec<u64>)
    ensures
        r.len() == count,
{
    let mut draws: Vec<u64> = Vec::new();
    let mut i: usize = 0;
    while i < count
        invariant
            i <= count,
            draws.len() == i,
        decreases count - i,
    {
        draws.push(random_u64());
        i = i + 1;
    }
    draws
}

} // verus!
