use vstd::prelude::*;
use std::sync::mpsc::{Receiver, SyncSender};

verus! {

#[verifier::external_type_specification]
#[verifier::external_body]
#[verifier::reject_recursive_types(T)]
pub struct ExSyncSender<T>(SyncSender<T>);

#[verifier::external_type_specification]
#[verifier::external_body]
#[verifier::reject_recursive_types(T)]
pub struct ExReceiver<T>(Receiver<T>);

/// The two ends of one bounded channel.
#[verifier::reject_recursive_types(T)]
pub struct ChannelPair<T> {
    pub tx: SyncSender<T>,
    pub rx: Receiver<T>,
}

/// Opens a channel that holds up to `buffer_size` messages (`std::sync::mpsc::sync_channel`),
/// returning its sending and receiving ends. Nothing is stated of the ends: each call opens
/// a new channel.
#[verifier::external_body]
fn open_sync_channel<T>(buffer_size: usize) -> (SyncSender<T>, Receiver<T>) {
    std::sync::mpsc::sync_channel::<T>(buffer_size)
}

impl<T> ChannelPair<T> {
    /// The two ends of a new channel that holds up to `buffer_size` messages.
    pub fn new(buffer_size: usize) -> ChannelPair<T> {
        ChannelPair::from_tuple(open_sync_channel::<T>(buffer_size))
    }

    /// Names the two ends of a channel.
    pub fn from_tuple(pair: (SyncSender<T>, Receiver<T>)) -> (p: ChannelPair<T>)
        ensures
            p.tx == pair.0,
            p.rx == pair.1,
    {
        ChannelPair { tx: pair.0, rx: pair.1 }
    }
}

} // verus!
