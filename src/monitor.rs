//! Monitor records: one message bound to one train.
use vstd::prelude::*;

verus! {

/// A monitor: a message in a channel that shows one train. `train_id` is a
/// back-reference for lookup only; dropping a monitor never touches its train.
pub struct Model {
    /// Store-assigned row id; `0` until the record is first inserted.
    pub id: i64,
    pub message_id: u64,
    pub channel_id: u64,
    pub train_id: i64,
}

} // verus!
