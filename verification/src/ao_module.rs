use vstd::prelude::*;

verus! {

/// An identifier on the Arweave network.
pub type ArweaveId = String;

/// The identifier of a transaction.
pub type ArweaveTxId = ArweaveId;

/// The address of a wallet or a process.
pub type ArweaveAddress = ArweaveId;

/// A point in time, in milliseconds.
pub type ArweaveTimestamp = u64;

/// What a message carries.
pub type Payload = String;

/// A message as it reaches a process.
pub struct Message {
    pub id: ArweaveTxId,
    pub timestamp: ArweaveTimestamp,
    pub sender: ArweaveAddress,
    pub payload: Payload,
}

} // verus!
