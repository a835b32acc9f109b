//! Status of a mixer channel.

use vstd::prelude::*;

verus! {

/// Describes an audio channel status
#[derive(Clone, Copy, Debug, PartialEq, Eq, Structural)]
pub struct ChannelStatus {
    /// Whether the channel is on air (hearable by listeners)
    pub is_on_air: bool,
}

} // verus!
