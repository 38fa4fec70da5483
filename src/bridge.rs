use vstd::prelude::*;

use crate::decode::{decode, decoded, PacketDefinition};

verus! {

/// What a subscriber's receive end of the frame fan-out hands over.
pub enum Delivery {
    /// The next captured frame.
    Frame(Vec<u8>),
    /// The subscriber fell behind and this many frames were dropped for it.
    Lagged(u64),
    /// The fan-out is gone.
    Closed,
    /// The observer's session could not take the last packet.
    SessionGone,
}

/// What a subscriber bridge does next.
pub enum BridgeAction {
    /// Serialize this packet and push it to the observer.
    Send(PacketDefinition),
    /// Wait for the next delivery.
    Wait,
    /// End this bridge.
    Stop,
}

/// Decides a subscriber bridge's next action. Each frame is decoded and sent;
/// a lag is skipped over, so that the bridge goes on with the most recent
/// frames; a closed fan-out or a lost session ends the bridge.
pub fn bridge_step(d: Delivery) -> (r: BridgeAction)
    ensures
        match d {
            Delivery::Frame(raw) => r is Send && decoded(r->Send_0, raw@),
            Delivery::Lagged(_) => r is Wait,
            Delivery::Closed => r is Stop,
            Delivery::SessionGone => r is Stop,
        },
{
    match d {
        Delivery::Frame(raw) => BridgeAction::Send(decode(raw.as_slice())),
        Delivery::Lagged(_) => BridgeAction::Wait,
        Delivery::Closed => BridgeAction::Stop,
        Delivery::SessionGone => BridgeAction::Stop,
    }
}

} // verus!
