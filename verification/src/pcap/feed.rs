//! The file that is read and the one who takes its packets, with the calls that were made of
//! them written down one behind the other.

use crate::error::NetToolError;
use crate::pcap::{PacketView, RecordMetadata};
use vstd::prelude::*;

verus! {

/// Reads a file.
pub trait CaptureReader {
    /// Returns as many bytes as were asked for, or fewer at the end of the file.
    fn read(&mut self, wanted: usize) -> Result<Vec<u8>, NetToolError>;
}

/// Takes packets.
pub trait PacketConsumer {
    /// Takes a packet.
    fn consume(&mut self, packet: PacketView<'_>);
}

/// A call and its answer.
pub enum FeedStep {
    /// So many bytes were to be read.
    Read(usize, Result<Vec<u8>, NetToolError>),
    /// A packet was handed over.
    Hand(RecordMetadata, Seq<u8>),
}

/// One who takes packets that is called through a feed.
#[derive(Debug)]
pub struct Receiver<C> {
    inner: C,
}

impl<C: PacketConsumer> Receiver<C> {
    /// The one who takes them.
    pub closed spec fn inner_view(self) -> C {
        self.inner
    }

    /// Wraps one who takes packets.
    pub fn new(inner: C) -> (r: Self)
        ensures
            r.inner_view() == inner,
    {
        Receiver { inner }
    }

    /// Returns the one who takes them.
    pub fn inner(&self) -> (r: &C)
        ensures
            *r == self.inner_view(),
    {
        &self.inner
    }
}

/// A file, with the calls that were made.
pub struct Feed<F> {
    reader: F,
    log: Ghost<Seq<FeedStep>>,
}

impl<F: CaptureReader> Feed<F> {
    /// The calls that were made, in their order, each with its answer.
    pub closed spec fn log(self) -> Seq<FeedStep> {
        self.log@
    }

    /// Nothing was called yet.
    pub fn new(reader: F) -> (r: Self)
        ensures
            r.log() == Seq::<FeedStep>::empty(),
    {
        Feed { reader, log: Ghost(Seq::empty()) }
    }

    /// Reads so many bytes, or fewer at the end of the file.
    ///
    /// # Errors
    ///
    /// Fails as the reader does.
    pub fn read(&mut self, wanted: usize) -> (r: Result<Vec<u8>, NetToolError>)
        ensures
            final(self).log() == old(self).log().push(FeedStep::Read(wanted, r)),
    {
        let r = self.reader.read(wanted);
        self.log = Ghost(self.log@.push(FeedStep::Read(wanted, r)));
        r
    }

    /// Hands a packet over.
    pub fn hand<C: PacketConsumer>(
        &mut self,
        receiver: &mut Receiver<C>,
        metadata: RecordMetadata,
        bytes: &[u8],
    )
        ensures
            final(self).log() == old(self).log().push(FeedStep::Hand(metadata, bytes@)),
    {
        receiver.inner.consume(
            PacketView {
                bytes,
                timestamp_nanoseconds: metadata.timestamp_nanoseconds,
                wire_length: metadata.wire_length,
                queue_id: metadata.queue_id,
            },
        );
        self.log = Ghost(self.log@.push(FeedStep::Hand(metadata, bytes@)));
    }
}

} // verus!
