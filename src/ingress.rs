//! The per-connection decisions of the ingress listener: what to do with
//! each chunk read from a producer's stream.
use vstd::prelude::*;
use crate::model::Packet;

verus! {

/// The local TCP port that producers connect to.
pub const LISTEN_PORT: u16 = 2104;

/// The size of the buffer that each read of a connection fills at most.
pub const READ_CHUNK_SIZE: usize = 4096;

/// What one read of a connection produced.
#[derive(Clone, Debug, PartialEq, Eq)]
pub enum Chunk {
    /// A read of zero bytes: the peer closed the stream.
    Closed,
    /// The read itself failed.
    ReadFailed,
    /// Bytes arrived and were handed to the packet decoder, with this result.
    Decoded(Option<Packet>),
}

/// What the connection's handler does next.
#[derive(Clone, Debug, PartialEq, Eq)]
pub enum ConnAction {
    /// End this connection's handling; other connections are not affected.
    Stop,
    /// Log a malformed chunk, drop it and read on.
    Skip,
    /// Send the packet to the aggregator and read on.
    Forward(Packet),
}

pub open spec fn chunk_action(c: Chunk) -> ConnAction {
    match c {
        Chunk::Closed => ConnAction::Stop,
        Chunk::ReadFailed => ConnAction::Stop,
        Chunk::Decoded(None) => ConnAction::Skip,
        Chunk::Decoded(Some(p)) => ConnAction::Forward(p),
    }
}

/// Decides on one chunk: closure and read errors end the connection, a
/// decode failure drops the chunk only, a decoded packet is forwarded.
pub fn on_chunk(c: Chunk) -> (r: ConnAction)
    ensures
        r == chunk_action(c),
{
    match c {
        Chunk::Closed => ConnAction::Stop,
        Chunk::ReadFailed => ConnAction::Stop,
        Chunk::Decoded(None) => ConnAction::Skip,
        Chunk::Decoded(Some(p)) => ConnAction::Forward(p),
    }
}

/// Whether the connection is still read after the chunks, and the packets it
/// forwarded, in order. Chunks after a stop are never read.
pub open spec fn connection_run(chunks: Seq<Chunk>) -> (bool, Seq<Packet>)
    decreases chunks.len(),
{
    if chunks.len() == 0 {
        (true, Seq::empty())
    } else {
        let before = connection_run(chunks.drop_last());
        if !before.0 {
            before
        } else {
            match chunk_action(chunks.last()) {
                ConnAction::Stop => (false, before.1),
                ConnAction::Skip => before,
                ConnAction::Forward(p) => (true, before.1.push(p)),
            }
        }
    }
}

/// The packets that the decoder produced for a sequence of chunks.
pub open spec fn decoded_packets(chunks: Seq<Chunk>) -> Seq<Packet>
    decreases chunks.len(),
{
    if chunks.len() == 0 {
        Seq::empty()
    } else {
        match chunks.last() {
            Chunk::Decoded(Some(p)) => decoded_packets(chunks.drop_last()).push(p),
            _ => decoded_packets(chunks.drop_last()),
        }
    }
}

pub open spec fn all_decoded(chunks: Seq<Chunk>) -> bool {
    forall|i: int| 0 <= i < chunks.len() ==> (#[trigger] chunks[i]) is Decoded
}

/// Malformed chunks do not end a connection: as long as the peer neither
/// closes nor fails, the connection stays open and forwards exactly the
/// packets that decoded, in the order they were read.
pub proof fn lemma_malformed_chunks_skipped(chunks: Seq<Chunk>)
    requires
        all_decoded(chunks),
    ensures
        connection_run(chunks) == (true, decoded_packets(chunks)),
    decreases chunks.len(),
{
    if chunks.len() > 0 {
        assert(all_decoded(chunks.drop_last())) by {
            assert forall|i: int| 0 <= i < chunks.drop_last().len() implies (#[trigger] chunks.drop_last()[i]) is Decoded by {
                assert(chunks.drop_last()[i] == chunks[i]);
            }
        }
        assert(chunks.last() == chunks[chunks.len() - 1]);
        lemma_malformed_chunks_skipped(chunks.drop_last());
    }
}

/// After the peer closes or a read fails, nothing more is forwarded.
pub proof fn lemma_stop_is_final(chunks: Seq<Chunk>, rest: Seq<Chunk>)
    requires
        chunks.len() > 0,
        chunk_action(chunks.last()) == ConnAction::Stop,
    ensures
        connection_run(chunks + rest) == (false, connection_run(chunks.drop_last()).1),
    decreases rest.len(),
{
    if rest.len() == 0 {
        assert(chunks + rest =~= chunks);
    } else {
        lemma_stop_is_final(chunks, rest.drop_last());
        assert((chunks + rest).drop_last() =~= chunks + rest.drop_last());
    }
}

} // verus!
