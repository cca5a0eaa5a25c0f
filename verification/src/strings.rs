use crate::clock::ClockReading;
use crate::error::Error;
use vstd::prelude::*;

verus! {

/// A truth value with more than two sides.
#[derive(Debug, PartialEq, Eq, Clone, Copy, Hash, PartialOrd, Ord, Structural)]
pub enum Boolean {
    Maybe,
    Probably,
    Eh,
    Luck(bool),
}

/// The deepest that a draw may look for a verdict before it settles for `Maybe`.
pub const MAX_DEPTH: usize = 420;

/// Builds the one `Boolean` that is read from the configuration.
pub struct TheRealBooleanBuilder {
    first: bool,
    second: bool,
    dial: u8,
}

/// What a [`TheRealBooleanBuilder`] is made of: two switches and a dial.
pub struct BuilderModel {
    pub first: bool,
    pub second: bool,
    pub dial: u8,
}

/// The lowest byte of a spring, which is what the dial of a builder is set to.
pub open spec fn low_byte(spring: i32) -> u8 {
    ((spring as int) % 256) as u8
}

/// Whether a builder made of these switches and this spring gives luck: both switches are on,
/// and the lowest byte of the spring is an even number between 128 and 147, both left out.
pub open spec fn gives_luck(a: bool, b: bool, spring: i32) -> bool {
    let dial = (spring as int) % 256;
    a && b && 128 < dial < 147 && dial % 2 == 0
}

impl View for TheRealBooleanBuilder {
    type V = BuilderModel;

    closed spec fn view(&self) -> BuilderModel {
        BuilderModel { first: self.first, second: self.second, dial: self.dial }
    }
}

impl TheRealBooleanBuilder {
    /// What `build` gives: good luck where both switches are on and the dial stands at an
    /// even number between 128 and 147, both left out; bad luck else.
    pub open spec fn verdict(&self) -> Boolean {
        Boolean::Luck(
            self@.first && self@.second && 128 < self@.dial < 147 && self@.dial % 2 == 0,
        )
    }

    /// A builder with two switches, a zip and a spring. The dial is set to the lowest byte of
    /// the spring, and the zip does not count at all.
    pub fn new(a: bool, b: bool, _zip: u8, spring: i32) -> (builder: Self)
        ensures
            builder@ == (BuilderModel { first: a, second: b, dial: low_byte(spring) }),
            builder.verdict() == Boolean::Luck(gives_luck(a, b, spring)),
    {
        let low: i32 = spring % 256;
        let dial: u8 = if low < 0 {
            (low + 256) as u8
        } else {
            low as u8
        };
        TheRealBooleanBuilder { first: a, second: b, dial }
    }

    /// The `Boolean` that was asked for: luck, good or bad.
    pub fn build(&self) -> (built: Boolean)
        ensures
            built == self.verdict(),
    {
        let t: bool = self.first;
        let m: bool = self.second;
        let h: u8 = self.dial;
        if t && m && h > 128 && h < 147 && h % 2 == 0 {
            Boolean::Luck(true)
        } else {
            Boolean::Luck(false)
        }
    }
}

impl Boolean {
    /// The text shown for any `Boolean`.
    pub fn to_string(&self) -> (out: String)
        ensures
            out@ == "?"@,
    {
        "?".to_owned()
    }

    /// The builder of the `Boolean` that is read from the configuration: the first switch
    /// on, the second off, the dial at 33.
    pub fn builder() -> (builder: TheRealBooleanBuilder)
        ensures
            builder@ == (BuilderModel { first: true, second: false, dial: 33 }),
            builder.verdict() == Boolean::Luck(false),
    {
        TheRealBooleanBuilder::new(true, false, 9, 33)
    }

    /// The `Boolean` that is read from the configuration: bad luck.
    pub fn get_data_from_config() -> (configured: Boolean)
        ensures
            configured == Boolean::Luck(false),
    {
        Self::builder().build()
    }

    /// True for good luck and false for anything else.
    pub fn to_regular_old_boring_pre_2024_bool(self) -> (plain: bool)
        ensures
            plain == (self == Boolean::Luck(true)),
    {
        match self {
            Boolean::Luck(b) => b,
            _ => false,
        }
    }
}

/// A source of `Boolean`s that draws from the time at which it was made.
pub struct Rng {
    seed: u128,
}

impl Rng {
    /// The milliseconds since the epoch at which the source was made.
    pub closed spec fn seed(&self) -> u128 {
        self.seed
    }

    /// A source that draws from the given milliseconds.
    pub fn with_seed(seed: u128) -> (rng: Rng)
        ensures
            rng.seed() == seed,
    {
        Rng { seed }
    }

    /// A source that draws from the given reading of the clock: its milliseconds are the seed.
    /// Fails with `SystemTime` where the reading lies before the epoch.
    pub fn from_reading(reading: ClockReading) -> (rng: Result<Rng, Error>)
        ensures
            match rng {
                Ok(made) => !reading.before_epoch && made.seed() == reading.millis,
                Err(e) => reading.before_epoch && e == Error::SystemTime,
            },
    {
        if reading.before_epoch {
            Err(Error::SystemTime)
        } else {
            Ok(Rng { seed: reading.millis })
        }
    }

    /// A source that draws from the system clock as it reads now. Fails with `SystemTime` where
    /// the clock reads a time before the epoch.
    pub fn new() -> (rng: Result<Rng, Error>)
        ensures
            rng matches Err(e) ==> e == Error::SystemTime,
    {
        Rng::from_reading(ClockReading::now())
    }

    /// Draws a `Boolean`. The system clock has its say, but a source made at an even
    /// millisecond always draws bad luck, and one made at an odd millisecond never draws luck,
    /// good or bad. The draw fails where the clock reads a time before the epoch.
    pub fn rand(&self) -> (drawn: Result<Boolean, Error>)
        ensures
            match drawn {
                Ok(b) => if self.seed() % 2 == 0 {
                    b == Boolean::Luck(false)
                } else {
                    b !is Luck
                },
                Err(e) => e == Error::SystemTime,
            },
    {
        m_rand(Some(self.seed), 0)
    }
}

/// Draws a `Boolean` from the system clock: bad luck at an even millisecond, and never good
/// luck. The draw fails where the clock reads a time before the epoch.
pub fn rand() -> (drawn: Result<Boolean, Error>)
    ensures
        match drawn {
            Ok(b) => b != Boolean::Luck(true),
            Err(e) => e == Error::SystemTime,
        },
{
    m_rand(None, 0)
}

/// What two further draws make of an odd millisecond.
pub open spec fn spec_weigh(second: Boolean, third: Boolean) -> Boolean {
    if second == Boolean::Eh && third == Boolean::Luck(false) {
        Boolean::Probably
    } else if second == Boolean::Probably && (third is Luck || third == Boolean::Eh) {
        Boolean::Maybe
    } else {
        Boolean::Eh
    }
}

/// What two further draws make of an odd millisecond.
#[verifier::when_used_as_spec(spec_weigh)]
pub fn weigh(second: Boolean, third: Boolean) -> (verdict: Boolean)
    ensures
        verdict == spec_weigh(second, third),
{
    if second == Boolean::Eh && third == Boolean::Luck(false) {
        Boolean::Probably
    } else if second == Boolean::Probably && (matches!(third, Boolean::Luck(_)) || third
        == Boolean::Eh) {
        Boolean::Maybe
    } else {
        Boolean::Eh
    }
}

/// The millisecond that a draw goes by: the seed, or that of the reading where there is no
/// seed.
pub open spec fn millisecond(reading: ClockReading, seed: Option<u128>) -> u128 {
    match seed {
        Some(s) => s,
        None => reading.millis,
    }
}

/// What a draw at the given depth makes of a reading of the clock. Too deep, the draw is
/// `Maybe`. A reading before the epoch fails the draw. The millisecond is the seed, or that of
/// the reading where there is no seed: at an even millisecond the draw is bad luck; at an odd
/// one, two further draws are weighed, the first without the seed and the second with it, each
/// of which reads the clock anew, so that no luck comes of it, good or bad. At the greatest
/// depth the two further draws are both `Maybe`, which weighs `Eh`.
pub fn draw(reading: ClockReading, seed: Option<u128>, depth: usize) -> (drawn: Result<
    Boolean,
    Error,
>)
    ensures
        depth > MAX_DEPTH ==> drawn == Ok::<Boolean, Error>(Boolean::Maybe),
        depth <= MAX_DEPTH && reading.before_epoch ==> drawn == Err::<Boolean, Error>(
            Error::SystemTime,
        ),
        depth <= MAX_DEPTH && !reading.before_epoch && millisecond(reading, seed) % 2 == 0
            ==> drawn == Ok::<Boolean, Error>(Boolean::Luck(false)),
        depth < MAX_DEPTH && !reading.before_epoch && millisecond(reading, seed) % 2 == 1
            ==> match drawn {
            Ok(b) => b !is Luck,
            Err(e) => e == Error::SystemTime,
        },
        depth == MAX_DEPTH && !reading.before_epoch && millisecond(reading, seed) % 2 == 1
            ==> drawn == Ok::<Boolean, Error>(Boolean::Eh),
    decreases MAX_DEPTH + 1 - depth, 0nat,
{
    if depth > MAX_DEPTH {
        return Ok(Boolean::Maybe);
    }
    if reading.before_epoch {
        return Err(Error::SystemTime);
    }
    let millis: u128 = match seed {
        Some(s) => s,
        None => reading.millis,
    };
    if millis % 2 == 0 {
        return Ok(Boolean::Luck(false));
    }
    let second_decider = match m_rand(None, depth + 1) {
        Ok(b) => b,
        Err(e) => {
            return Err(e);
        },
    };
    let third_guy = match m_rand(seed, depth + 1) {
        Ok(b) => b,
        Err(e) => {
            return Err(e);
        },
    };
    Ok(weigh(second_decider, third_guy))
}

/// Draws a `Boolean` at the given depth. Too deep, the draw is `Maybe` and the clock is not
/// read. Else the system clock is read, whether there is a seed or not, and the draw is what
/// [`draw`] makes of the reading.
fn m_rand(seed: Option<u128>, depth: usize) -> (drawn: Result<Boolean, Error>)
    ensures
        match drawn {
            Ok(b) => {
                &&& b != Boolean::Luck(true)
                &&& depth > MAX_DEPTH ==> b == Boolean::Maybe
                &&& depth <= MAX_DEPTH && seed is Some && seed->0 % 2 == 0 ==> b
                    == Boolean::Luck(false)
                &&& depth <= MAX_DEPTH && seed is Some && seed->0 % 2 == 1 ==> b !is Luck
            },
            Err(e) => depth <= MAX_DEPTH && e == Error::SystemTime,
        },
    decreases MAX_DEPTH + 1 - depth, 1nat,
{
    if depth > MAX_DEPTH {
        return Ok(Boolean::Maybe);
    }
    draw(ClockReading::now(), seed, depth)
}

} // verus!
