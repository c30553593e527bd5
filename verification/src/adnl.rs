//! Datagram reply reassembly for the encrypted node protocol: a reply
//! larger than one datagram arrives as numbered chunks that must be stitched
//! back together in order, with any missing, repeated, or inconsistent chunk
//! rejected as a protocol violation.

use vstd::prelude::*;
use crate::errors::TransportError;

verus! {

/// One datagram of a chunked reply: its position, the announced chunk
/// count, and its payload.
pub struct DatagramChunk {
    pub index: usize,
    pub total: usize,
    pub payload: Vec<u8>,
}

/// A chunk sequence is coherent when every chunk announces the same total —
/// the sequence's own length — and sits at its own index.
pub open spec fn chunks_coherent(chunks: Seq<DatagramChunk>) -> bool {
    forall|i: int|
        0 <= i < chunks.len() ==> (#[trigger] chunks[i]).index == i && chunks[i].total
            == chunks.len()
}

/// The payload bytes of the first `k` chunks, in order.
pub open spec fn concat_payloads(chunks: Seq<DatagramChunk>, k: int) -> Seq<u8>
    decreases k,
{
    if k <= 0 {
        Seq::empty()
    } else {
        concat_payloads(chunks, k - 1) + chunks[k - 1].payload@
    }
}

/// Reassembles a chunked reply. Succeeds exactly on a coherent, non-empty
/// chunk sequence and yields the payloads concatenated in chunk order;
/// anything else is a protocol violation, never silently reordered.
pub fn reassemble_chunks(chunks: &Vec<DatagramChunk>) -> (r: Result<Vec<u8>, TransportError>)
    ensures
        r matches Ok(_) <==> chunks@.len() > 0 && chunks_coherent(chunks@),
        r matches Ok(b) ==> b@ == concat_payloads(chunks@, chunks@.len() as int),
        r matches Err(e) ==> e == TransportError::ProtocolError,
{
    let n = chunks.len();
    if n == 0 {
        return Err(TransportError::ProtocolError);
    }
    let mut out: Vec<u8> = Vec::new();
    let mut i: usize = 0;
    while i < n
        invariant
            i <= n,
            n == chunks@.len(),
            out@ == concat_payloads(chunks@, i as int),
            forall|j: int|
                0 <= j < i ==> (#[trigger] chunks@[j]).index == j && chunks@[j].total == n,
        decreases n - i,
    {
        let chunk = &chunks[i];
        if chunk.index != i || chunk.total != n {
            return Err(TransportError::ProtocolError);
        }
        let mut k: usize = 0;
        let m = chunk.payload.len();
        let ghost before = out@;
        while k < m
            invariant
                k <= m,
                m == chunks@[i as int].payload@.len(),
                i < n == chunks@.len(),
                out@ == before + chunks@[i as int].payload@.subrange(0, k as int),
            decreases m - k,
        {
            let byte = chunks[i].payload[k];
            out.push(byte);
            proof {
                assert(chunks@[i as int].payload@.subrange(0, k + 1) =~= chunks@[
                    i as int
                ].payload@.subrange(0, k as int).push(chunks@[i as int].payload@[k as int]));
            }
            k = k + 1;
        }
        proof {
            assert(chunks@[i as int].payload@.subrange(
                0,
                chunks@[i as int].payload@.len() as int,
            ) =~= chunks@[i as int].payload@);
            assert(out@ =~= concat_payloads(chunks@, i + 1));
        }
        i = i + 1;
    }
    Ok(out)
}

} // verus!
