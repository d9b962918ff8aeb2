//! One step of a pull-based stream.
//!
//! Each stage of a pipeline is driven from outside: the driver polls the
//! source once, hands what it got to [`relay`] with the stage's handler, and
//! acts on the [`Step`] that comes back. A handler either produces a value, or
//! has taken the input in and has nothing to show yet, or fails.
use vstd::prelude::*;

verus! {

/// What one poll of the upstream source gave.
#[derive(Clone, Copy, Debug, PartialEq, Eq)]
pub enum Upstream<T, E> {
    /// An item.
    Item(T),
    /// A failure of the source, to be passed on as it is.
    Failed(E),
    /// The source has no more items.
    Ended,
    /// The source has nothing right now and will wake the driver.
    Idle,
}

/// What a stage hands on for one poll.
#[derive(Clone, Copy, Debug, PartialEq, Eq)]
pub enum Step<T, E> {
    /// A value for the next stage.
    Emit(T),
    /// Nothing yet; the source will wake the driver.
    Pending,
    /// The input was taken in and nothing is ready yet; poll again with the
    /// next input.
    Suspended,
    /// The stream is over.
    Ended,
    /// The stream failed; it stops here.
    Failed(E),
}

/// The step that a handler's result `h` gives.
pub open spec fn settled<U, E>(h: Result<Option<U>, E>) -> Step<U, E> {
    match h {
        Ok(Some(u)) => Step::Emit(u),
        Ok(None) => Step::Suspended,
        Err(e) => Step::Failed(e),
    }
}

/// The step that a handler's result gives.
pub fn settle<U, E>(h: Result<Option<U>, E>) -> (r: Step<U, E>)
    ensures
        r == settled(h),
{
    match h {
        Ok(Some(u)) => Step::Emit(u),
        Ok(None) => Step::Suspended,
        Err(e) => Step::Failed(e),
    }
}

/// Hands an item of the source to `handle` and turns its result into a step;
/// passes a failure, the end, or an idle source on without calling `handle`.
pub fn relay<T, U, E, F: FnOnce(T) -> Result<Option<U>, E>>(up: Upstream<T, E>, handle: F) -> (r:
    Step<U, E>)
    requires
        match up {
            Upstream::Item(x) => handle.requires((x,)),
            _ => true,
        },
    ensures
        match up {
            Upstream::Item(x) => exists|h: Result<Option<U>, E>|
                #[trigger] handle.ensures((x,), h) && r == settled(h),
            Upstream::Failed(e) => r == Step::<U, E>::Failed(e),
            Upstream::Ended => r == Step::<U, E>::Ended,
            Upstream::Idle => r == Step::<U, E>::Pending,
        },
{
    match up {
        Upstream::Item(x) => {
            let h = handle(x);
            settle(h)
        },
        Upstream::Failed(e) => Step::Failed(e),
        Upstream::Ended => Step::Ended,
        Upstream::Idle => Step::Pending,
    }
}

} // verus!
