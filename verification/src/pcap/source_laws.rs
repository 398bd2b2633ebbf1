//! What holds of a capture file as a source of bursts.

use crate::error::NetToolError;
use crate::pcap;
use crate::pcap::feed::FeedStep;
use crate::pcap::{CaptureFileSource, InterfaceDescription, Stage};
use vstd::prelude::*;

verus! {

/// A piece that is longer than what was asked for is cut to that length; a shorter one is taken
/// as it is.
pub proof fn law_pieces_are_cut(piece: Seq<u8>, wanted: int)
    requires
        0 <= wanted,
    ensures
        pcap::cut(piece, wanted).len() <= wanted,
        piece.len() >= wanted ==> pcap::cut(piece, wanted).len() == wanted,
        piece.len() <= wanted ==> pcap::cut(piece, wanted) == piece,
        pcap::cut(piece, wanted) == piece.take(pcap::cut(piece, wanted).len() as int),
{
    assert(piece.take(piece.len() as int) =~= piece);
}

/// A burst hands over what it says, at most as many packets as the burst is large. It is smaller
/// only where the file ends, and only then is the source exhausted.
pub proof fn law_bursts(
    from: Seq<FeedStep>,
    to: Seq<FeedStep>,
    before: CaptureFileSource,
    after: CaptureFileSource,
    r: Result<usize, NetToolError>,
    pieces: Seq<Vec<u8>>,
)
    requires
        pcap::burst_received(from, to, before, after, r, pieces),
    ensures
        r matches Ok(n) ==> {
            &&& n <= before.burst_size()
            &&& after.exhausted() <==> n < before.burst_size()
            &&& pcap::fed(before.stage(), before.interfaces(), pieces) matches Some((_, _, packets))
                && packets.len() == n
        },
        r is Err ==> !after.exhausted(),
        pcap::fed(before.stage(), before.interfaces(), pieces) matches Some((stage, known, _))
            && after.stage() == stage && after.interfaces() == known,
{
}

/// A source that was opened has read a header, and reads bursts of 64 packets.
pub proof fn law_opened_sources(
    from: Seq<FeedStep>,
    to: Seq<FeedStep>,
    source: CaptureFileSource,
    pieces: Seq<Vec<u8>>,
)
    requires
        pcap::header_read(from, to, Ok::<CaptureFileSource, NetToolError>(source), pieces),
    ensures
        source.stage().may_end(),
        source.burst_size() == 64,
        !source.exhausted(),
{
}

/// Without a piece nothing changes and nothing is handed over.
pub proof fn law_nothing_comes_of_nothing(stage: Stage, interfaces: Seq<InterfaceDescription>)
    ensures
        pcap::fed(stage, interfaces, Seq::empty()) == Some(
            (stage, interfaces, Seq::<(pcap::RecordMetadata, Seq<u8>)>::empty()),
        ),
        pcap::steps_of(stage, interfaces, Seq::empty()).len() == 0,
{
}

} // verus!
