//! Seeding of the runtime's random number generator.
//!
//! The generator is `rand`'s `StdRng`. It is seeded from the clock until the
//! program seeds it explicitly; after that, a request for default seeding
//! leaves it alone.

use vstd::prelude::*;
use rand::SeedableRng;
use crate::error::RuntimeError;

verus! {

#[verifier::external_type_specification]
#[verifier::external_body]
pub struct ExStdRng(rand::rngs::StdRng);

/// The generator that `rand::SeedableRng::seed_from_u64` makes for `StdRng`
/// from `seed`.
pub uninterp spec fn seeded_rng(seed: u64) -> rand::rngs::StdRng;

/// Makes a generator with `rand::SeedableRng::seed_from_u64`, which builds it
/// from the seed alone: the result is `seeded_rng(seed)`, a name for that
/// generator, whose state is not stated further.
#[verifier::external_body]
fn std_rng_from_seed(seed: u64) -> (r: rand::rngs::StdRng)
    ensures
        r == seeded_rng(seed),
{
    rand::rngs::StdRng::seed_from_u64(seed)
}

/// Milliseconds since the Unix epoch by `std::time::SystemTime::now`, zero if the
/// clock is before the epoch. Nothing is claimed of the value: it is the time.
#[verifier::external_body]
fn now_millis() -> u64 {
    std::time::SystemTime::now().duration_since(std::time::UNIX_EPOCH).unwrap_or_default().as_millis() as u64
}

/// The generator, with whether the program has seeded it and the seed it was
/// last seeded with.
pub struct RngState {
    rng: rand::rngs::StdRng,
    user_seeded: bool,
    seed: Ghost<u64>,
}

impl RngState {
    /// Whether the program has seeded the generator explicitly.
    pub closed spec fn is_user_seeded(&self) -> bool {
        self.user_seeded
    }

    /// The seed the generator was last seeded with.
    pub closed spec fn last_seed(&self) -> u64 {
        self.seed@
    }

    /// The generator.
    pub closed spec fn rng(&self) -> rand::rngs::StdRng {
        self.rng
    }

    /// A generator seeded from the clock, not seeded by the program.
    pub fn new() -> (r: Self)
        ensures
            !r.is_user_seeded(),
            r.rng() == seeded_rng(r.last_seed()),
    {
        let now = now_millis();
        RngState { rng: std_rng_from_seed(now), user_seeded: false, seed: Ghost(now) }
    }

    /// The generator itself, to draw values from; drawing does not change
    /// whether or how it was seeded.
    pub fn generator(&mut self) -> (g: &mut rand::rngs::StdRng)
        ensures
            *g == old(self).rng(),
            final(self).rng() == *final(g),
            final(self).is_user_seeded() == old(self).is_user_seeded(),
            final(self).last_seed() == old(self).last_seed(),
    {
        &mut self.rng
    }
}

/// Seed the generator with `opt_seed`, or, when it is `None`, from the clock
/// unless the program has already seeded it.
pub fn rng_seed_with(state: &mut RngState, opt_seed: Option<u64>)
    ensures
        match opt_seed {
            Some(s) => seeded_by_program(*final(state), s),
            None => default_seeding(*old(state), *final(state)),
        },
{
    match opt_seed {
        Some(s) => {
            state.user_seeded = true;
            state.rng = std_rng_from_seed(s);
            state.seed = Ghost(s);
        },
        None => {
            if state.user_seeded {
                return;
            }
            let seed = now_millis();
            state.rng = std_rng_from_seed(seed);
            state.seed = Ghost(seed);
        },
    }
}

/// What seeding with `s` by the program leaves: the generator that `s`
/// makes, marked as seeded by the program.
pub open spec fn seeded_by_program(after: RngState, s: u64) -> bool {
    &&& after.is_user_seeded()
    &&& after.last_seed() == s
    &&& after.rng() == seeded_rng(s)
}

/// Seeding with the same number gives the same generator, so the same
/// sequence of draws, whatever the generators were before.
pub proof fn lemma_same_seed_same_generator(a: RngState, b: RngState, s: u64)
    requires
        seeded_by_program(a, s),
        seeded_by_program(b, s),
    ensures
        a.rng() == b.rng(),
{
}

/// What seeding from the clock does: nothing once the program has seeded the
/// generator; otherwise the generator that the clock's value makes, not
/// marked as seeded by the program.
pub open spec fn default_seeding(before: RngState, after: RngState) -> bool {
    if before.is_user_seeded() {
        &&& after.is_user_seeded()
        &&& after.last_seed() == before.last_seed()
        &&& after.rng() == before.rng()
    } else {
        &&& !after.is_user_seeded()
        &&& after.rng() == seeded_rng(after.last_seed())
    }
}

/// The argument of `random:seed`, as it reads it.
pub enum SeedArg {
    /// `nil`: seed from the clock.
    Nil,
    /// A number, converted to `u64` as the language's numbers convert (the
    /// integer part, saturating).
    Number(u64),
    /// A value of another kind, by its type name.
    Other(String),
}

/// `random:seed(seed = nil)`: seed the generator with the given number, or,
/// with no argument or `nil`, from the clock unless the program has seeded it.
pub fn builtin_random_seed(state: &mut RngState, args: &Vec<SeedArg>) -> (r: Result<(), RuntimeError>)
    ensures
        args@.len() > 1 ==> (r matches Err(RuntimeError::ArityMismatch { message })
            && message@ == "random:seed expects 0 or 1 argument"@ && *final(state) == *old(state)),
        args@.len() == 1 ==> match args@[0] {
            SeedArg::Other(t) => r matches Err(RuntimeError::TypeError { message })
                && message@ == "random:seed expects a number or nil, got "@ + t@ && *final(state) == *old(state),
            SeedArg::Number(n) => r is Ok && seeded_by_program(*final(state), n),
            SeedArg::Nil => r is Ok && default_seeding(*old(state), *final(state)),
        },
        args@.len() == 0 ==> r is Ok && default_seeding(*old(state), *final(state)),
{
    if args.len() == 0 {
        rng_seed_with(state, None);
        return Ok(());
    }
    if args.len() > 1 {
        return Err(RuntimeError::ArityMismatch { message: "random:seed expects 0 or 1 argument".to_owned() });
    }
    match &args[0] {
        SeedArg::Nil => {
            rng_seed_with(state, None);
            Ok(())
        },
        SeedArg::Number(n) => {
            rng_seed_with(state, Some(*n));
            Ok(())
        },
        SeedArg::Other(kind) => {
            let mut m = "random:seed expects a number or nil, got ".to_owned();
            m.append(kind.as_str());
            Err(RuntimeError::TypeError { message: m })
        },
    }
}

/// The argument check of `random()`, which takes no arguments.
pub fn check_random_args(count: usize) -> (r: Result<(), RuntimeError>)
    ensures
        count == 0 ==> r is Ok,
        count != 0 ==> (r matches Err(RuntimeError::ArityMismatch { message })
            && message@ == "random() expects 0 arguments"@),
{
    if count != 0 {
        return Err(RuntimeError::ArityMismatch { message: "random() expects 0 arguments".to_owned() });
    }
    Ok(())
}

} // verus!
