//! The engine's logical clock: timer events carry the number of ticks
//! elapsed since the previous timer event.

use vstd::prelude::*;

verus! {

/// A relative tick delta issued by the external timer source.
#[derive(Debug)]
pub struct TimerEvent(pub u32);

} // verus!
