//! The deterministic random generator of the particle system, and the
//! budget that bounds how many particles an emitter spawns.
use vstd::prelude::*;

verus! {

/// The seed used when none (or zero) is given: xorshift stays at zero
/// forever from a zero state.
pub const PARTICLE_DEFAULT_RNG_SEED: u64 = 0x9E37_79B9_7F4A_7C15;

/// The multiplier that scrambles the xorshift state into the output.
pub const PARTICLE_RNG_MULTIPLIER: u64 = 0x2545_F491_4F6C_DD1D;

/// One xorshift step of the generator's state.
pub open spec fn xorshift_step(s: u64) -> u64 {
    let a = s ^ (s >> 12u64);
    let b = a ^ (a << 25u64);
    b ^ (b >> 27u64)
}

/// The output that a state scrambles into: the state times the multiplier,
/// modulo 2^64.
pub open spec fn scrambled(s: u64) -> u64 {
    ((s as int * PARTICLE_RNG_MULTIPLIER as int) % 0x1_0000_0000_0000_0000) as u64
}

/// A nonzero state stays nonzero under a xorshift step.
pub proof fn lemma_xorshift_nonzero(s: u64)
    requires
        s != 0,
    ensures
        xorshift_step(s) != 0,
{
    let a = s ^ (s >> 12u64);
    let b = a ^ (a << 25u64);
    let c = b ^ (b >> 27u64);
    assert(a != 0) by (bit_vector)
        requires
            s != 0,
            a == s ^ (s >> 12u64),
    ;
    assert(b != 0) by (bit_vector)
        requires
            a != 0,
            b == a ^ (a << 25u64),
    ;
    assert(c != 0) by (bit_vector)
        requires
            b != 0,
            c == b ^ (b >> 27u64),
    ;
}

/// A xorshift64* pseudo-random generator: deterministic for a given seed.
#[derive(Clone, Debug)]
pub struct ParticleRng {
    state: u64,
}

impl ParticleRng {
    /// The current state.
    pub closed spec fn state(&self) -> u64 {
        self.state
    }

    /// The generator's invariant: the state is never zero.
    pub closed spec fn wf(&self) -> bool {
        self.state != 0
    }

    /// A generator from `seed`; a zero seed is replaced with the default
    /// seed.
    pub fn with_seed(seed: u64) -> (r: ParticleRng)
        ensures
            r.wf(),
            r.state() == if seed == 0 {
                PARTICLE_DEFAULT_RNG_SEED
            } else {
                seed
            },
    {
        if seed == 0 {
            ParticleRng { state: PARTICLE_DEFAULT_RNG_SEED }
        } else {
            ParticleRng { state: seed }
        }
    }

    /// Advances the state by one xorshift step and returns the scrambled
    /// new state.
    pub fn next_u64(&mut self) -> (r: u64)
        requires
            old(self).wf(),
        ensures
            final(self).wf(),
            final(self).state() == xorshift_step(old(self).state()),
            r == scrambled(final(self).state()),
    {
        proof {
            lemma_xorshift_nonzero(self.state);
        }
        let mut state: u64 = self.state;
        state = state ^ (state >> 12u64);
        state = state ^ (state << 25u64);
        state = state ^ (state >> 27u64);
        self.state = state;
        state.wrapping_mul(PARTICLE_RNG_MULTIPLIER)
    }
}

impl Default for ParticleRng {
    /// The generator seeded with the default seed.
    fn default() -> (r: ParticleRng)
        ensures
            r.wf(),
            r.state() == PARTICLE_DEFAULT_RNG_SEED,
    {
        ParticleRng::with_seed(PARTICLE_DEFAULT_RNG_SEED)
    }
}

/// How many particles may be spawned when `requested` are asked for: no
/// more than the room left below `max_particles` with `alive` particles
/// live.
pub fn spawn_budget(requested: usize, max_particles: usize, alive: usize) -> (r: usize)
    ensures
        r == if alive >= max_particles {
            0
        } else if requested <= max_particles - alive {
            requested as int
        } else {
            max_particles - alive
        },
{
    let capacity: usize = max_particles.saturating_sub(alive);
    if requested <= capacity {
        requested
    } else {
        capacity
    }
}

} // verus!
