use vstd::prelude::*;

verus! {

/// The Lehmer (Park–Miller, multiplier 48271) successor of a state, computed
/// in 64-bit arithmetic: the state is widened to `u64` (sign-extended),
/// multiplied with wrap-around, and reduced modulo 2^31 - 1.
pub open spec fn lehmer_next(state: i32) -> i32 {
    ((((state as u64) as int * 48271) % 0x1_0000_0000_0000_0000) % 0x7fff_ffff) as i32
}

/// Lehmer random number generator.
pub struct Rng {
    state: i32,
}

impl Rng {
    pub closed spec fn state(&self) -> i32 {
        self.state
    }

    /// A generator that starts from `state`.
    pub fn with_seed(state: i32) -> (res: Self)
        ensures
            res.state() == state,
    {
        Rng { state }
    }

    /// Advances the generator and returns the new state.
    pub fn next(&mut self) -> (res: i32)
        ensures
            res == lehmer_next(old(self).state()),
            final(self).state() == res,
            0 <= res < 0x7fff_ffff,
    {
        let wide: u64 = self.state as u64;
        let prod: u64 = wide.wrapping_mul(48271);
        let r: u64 = prod % 0x7fff_ffff;
        self.state = r as i32;
        self.state
    }

    /// A number in `arg.start .. arg.end` drawn from the next state.
    pub fn gen_range(&mut self, arg: std::ops::Range<u8>) -> (res: u32)
        requires
            arg.start < arg.end,
        ensures
            final(self).state() == lehmer_next(old(self).state()),
            res == arg.start + (final(self).state() as int) % ((arg.end - arg.start) as int),
            arg.start <= res < arg.end,
    {
        let a = arg.start;
        let b = arg.end;
        let n = self.next();
        let span: usize = (b - a) as usize;
        let res: usize = (a as usize) + (n as usize) % span;
        res as u32
    }

    /// A number in `start ..= end` drawn from the next state.
    pub fn gen_range_inclusive(&mut self, start: u8, end: u8) -> (res: u32)
        requires
            start <= end < 255,
        ensures
            final(self).state() == lehmer_next(old(self).state()),
            res == start + (final(self).state() as int) % ((end + 1 - start) as int),
            start <= res <= end,
    {
        let n = self.next();
        let span: usize = (end + 1 - start) as usize;
        let res: usize = (start as usize) + (n as usize) % span;
        res as u32
    }
}

/// Nanoseconds since the Unix epoch by `web_time::SystemTime::now`, truncated
/// to `i32`, as a seed (0 where the clock reads before the epoch). Trusted:
/// the contract claims nothing of the value, which depends on the time.
#[verifier::external_body]
fn clock_seed() -> i32 {
    match web_time::SystemTime::now().duration_since(web_time::UNIX_EPOCH) {
        Ok(d) => d.as_nanos() as i32,
        Err(_) => 0,
    }
}

impl Default for Rng {
    /// A generator seeded from the clock.
    fn default() -> Self {
        Rng::with_seed(clock_seed())
    }
}

} // verus!
