use crate::bytes::{signed_of, SIGN_BIT};
use vstd::prelude::*;

verus! {

/// `std::time::SystemTime`, a point in time as the system clock measures it. Nothing is looked
/// at inside it.
#[verifier::external_type_specification]
#[verifier::external_body]
pub struct ExSystemTime(std::time::SystemTime);

/// `std::time::SystemTimeError`, the error of `SystemTime::duration_since`. Nothing is looked
/// at inside it.
#[verifier::external_type_specification]
#[verifier::external_body]
pub struct ExSystemTimeError(std::time::SystemTimeError);

/// `SystemTime::now` reads the system clock. Nothing is claimed of what it reads.
pub assume_specification[ std::time::SystemTime::now ]() -> (t: std::time::SystemTime);

/// `SystemTime::duration_since` gives the time that has passed since `earlier`, or an error
/// where `earlier` is the later of the two. Nothing is claimed of which it is, nor of the
/// duration.
pub assume_specification[ std::time::SystemTime::duration_since ](
    t: &std::time::SystemTime,
    earlier: std::time::SystemTime,
) -> (elapsed: Result<std::time::Duration, std::time::SystemTimeError>);

/// `SystemTimeError::duration` gives how far the second time lies after the first. Nothing is
/// claimed of the duration.
pub assume_specification[ std::time::SystemTimeError::duration ](
    e: &std::time::SystemTimeError,
) -> (distance: std::time::Duration);

/// `Duration::as_millis` gives the whole milliseconds of a duration. Nothing is claimed of
/// their number.
pub assume_specification[ std::time::Duration::as_millis ](d: &std::time::Duration) -> (millis:
    u128);

/// The constant `std::time::UNIX_EPOCH`, the point in time from which the milliseconds are
/// counted. Nothing is claimed of it.
#[verifier::external_body]
fn unix_epoch() -> (epoch: std::time::SystemTime) {
    std::time::UNIX_EPOCH
}

/// A reading of the system clock: how many milliseconds it is away from the epoch, and on
/// which side.
pub struct ClockReading {
    pub before_epoch: bool,
    pub millis: u128,
}

impl ClockReading {
    /// The reading as signed milliseconds since the epoch: negative before it. A distance too
    /// large for an `i128` wraps around, as a cast does.
    pub open spec fn spec_timestamp(self) -> i128 {
        let after = signed_of(self.millis as nat);
        if !self.before_epoch {
            after
        } else if after == i128::MIN {
            after
        } else {
            (-after) as i128
        }
    }

    /// The reading as signed milliseconds since the epoch.
    #[verifier::when_used_as_spec(spec_timestamp)]
    pub fn timestamp(self) -> (millis: i128)
        ensures
            millis == self.spec_timestamp(),
    {
        let after: i128 = if self.millis < SIGN_BIT {
            self.millis as i128
        } else {
            ((self.millis - SIGN_BIT) as i128) + i128::MIN
        };
        if !self.before_epoch {
            after
        } else if after == i128::MIN {
            after
        } else {
            -after
        }
    }

    /// Reads the system clock.
    pub fn now() -> (reading: ClockReading) {
        match std::time::SystemTime::now().duration_since(unix_epoch()) {
            Ok(elapsed) => ClockReading { before_epoch: false, millis: elapsed.as_millis() },
            Err(behind) => ClockReading {
                before_epoch: true,
                millis: behind.duration().as_millis(),
            },
        }
    }
}

} // verus!
