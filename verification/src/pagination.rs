//! Transaction-history pagination. A backend returns pages of transaction
//! records in descending logical time; resuming from the cursor of any
//! returned page must skip nothing and repeat nothing while the history is
//! unchanged.

use vstd::prelude::*;
use crate::bytes::{le_val, lemma_le_val_bound, pow256, read_le};
use crate::errors::TransportError;

verus! {

/// One transaction record as the transport layer sees it: its cursor
/// (logical time plus 256-bit hash, as two 128-bit halves).
#[derive(Clone, Copy, PartialEq, Eq, Structural, Debug)]
pub struct TransactionRecord {
    pub lt: u64,
    pub hash_hi: u128,
    pub hash_lo: u128,
}

/// Histories are ordered by strictly descending logical time.
pub open spec fn strictly_descending(h: Seq<TransactionRecord>) -> bool {
    forall|i: int, j: int| 0 <= i < j < h.len() ==> (#[trigger] h[i]).lt > (#[trigger] h[j]).lt
}

/// Number of leading records at or above the cursor `c`; in a descending
/// history this is where the page strictly below `c` starts.
pub open spec fn start_of(h: Seq<TransactionRecord>, c: u64) -> int
    decreases h.len(),
{
    if h.len() == 0 {
        0
    } else if h[0].lt >= c {
        1 + start_of(h.skip(1), c)
    } else {
        0
    }
}

/// The page of at most `k` records that a query with cursor `c` yields:
/// from the start of the history when `c` is absent, otherwise the records
/// strictly below `c`.
pub open spec fn page_of(h: Seq<TransactionRecord>, c: Option<u64>, k: int) -> Seq<
    TransactionRecord,
> {
    let s = match c {
        Option::None => 0,
        Option::Some(lt) => start_of(h, lt),
    };
    h.subrange(s, if s + k <= h.len() { s + k } else { h.len() as int })
}

proof fn lemma_start_of_bounds(h: Seq<TransactionRecord>, c: u64)
    ensures
        0 <= start_of(h, c) <= h.len(),
    decreases h.len(),
{
    if h.len() > 0 && h[0].lt >= c {
        lemma_start_of_bounds(h.skip(1), c);
    }
}

/// In a strictly descending history, the records at or above `c` are exactly
/// the leading `start_of` ones.
proof fn lemma_start_of_split(h: Seq<TransactionRecord>, c: u64)
    requires
        strictly_descending(h),
    ensures
        0 <= start_of(h, c) <= h.len(),
        forall|i: int| 0 <= i < start_of(h, c) ==> (#[trigger] h[i]).lt >= c,
        forall|i: int| start_of(h, c) <= i < h.len() ==> (#[trigger] h[i]).lt < c,
    decreases h.len(),
{
    lemma_start_of_bounds(h, c);
    if h.len() > 0 {
        assert forall|i: int, j: int|
            0 <= i < j < h.skip(1).len() implies (#[trigger] h.skip(1)[i]).lt > (#[trigger] h.skip(
            1,
        )[j]).lt by {
            assert(h.skip(1)[i] == h[i + 1]);
            assert(h.skip(1)[j] == h[j + 1]);
        }
        lemma_start_of_split(h.skip(1), c);
        if h[0].lt >= c {
            assert forall|i: int| 0 <= i < start_of(h, c) implies (#[trigger] h[i]).lt >= c by {
                if i > 0 {
                    assert(h.skip(1)[i - 1] == h[i]);
                }
            }
            assert forall|i: int| start_of(h, c) <= i < h.len() implies (#[trigger] h[i]).lt
                < c by {
                assert(h.skip(1)[i - 1] == h[i]);
            }
        } else {
            assert forall|i: int| 0 <= i < h.len() implies (#[trigger] h[i]).lt < c by {
                if i > 0 {
                    assert(h[0].lt > h[i].lt);
                }
            }
        }
    }
}

/// Determines `start_of` from a position: `n` leading records at or above
/// `c` followed by one below it pin the start down to `n`.
proof fn lemma_start_of_exact(h: Seq<TransactionRecord>, c: u64, n: int)
    requires
        strictly_descending(h),
        0 <= n <= h.len(),
        forall|i: int| 0 <= i < n ==> (#[trigger] h[i]).lt >= c,
        forall|i: int| n <= i < h.len() ==> (#[trigger] h[i]).lt < c,
    ensures
        start_of(h, c) == n,
{
    lemma_start_of_split(h, c);
    let s = start_of(h, c);
    if s < n {
        assert(h[s].lt >= c);
        assert(h[s].lt < c);
    }
    if s > n {
        assert(h[n].lt >= c);
        assert(h[n].lt < c);
    }
}

/// Pagination completeness: against an unchanged, strictly descending
/// history, the page resumed from the cursor of the last record of a first
/// page of length `n` starts exactly at position `n` — together the two
/// pages are one contiguous leading stretch of the history, with no record
/// repeated and none skipped.
pub proof fn lemma_pagination_complete(h: Seq<TransactionRecord>, n: int, m: int)
    requires
        strictly_descending(h),
        0 < n <= h.len(),
        m >= 0,
    ensures
        page_of(h, Option::None, n) == h.subrange(0, n),
        page_of(h, Option::Some(h[n - 1].lt), m) == h.subrange(
            n,
            if n + m <= h.len() { n + m } else { h.len() as int },
        ),
        page_of(h, Option::None, n) + page_of(h, Option::Some(h[n - 1].lt), m) == page_of(
            h,
            Option::None,
            n + m,
        ),
{
    assert(page_of(h, Option::None, n) =~= h.subrange(0, n));
    assert forall|i: int| 0 <= i < n implies (#[trigger] h[i]).lt >= h[n - 1].lt by {
        if i < n - 1 {
            assert(h[i].lt > h[n - 1].lt);
        }
    }
    assert forall|i: int| n <= i < h.len() implies (#[trigger] h[i]).lt < h[n - 1].lt by {
        assert(h[n - 1].lt > h[i].lt);
    }
    lemma_start_of_exact(h, h[n - 1].lt, n);
    assert(page_of(h, Option::None, n) + page_of(h, Option::Some(h[n - 1].lt), m) =~= page_of(
        h,
        Option::None,
        n + m,
    ));
}

/// A strictly descending page holds no duplicate record.
pub proof fn lemma_page_no_duplicates(h: Seq<TransactionRecord>)
    requires
        strictly_descending(h),
    ensures
        forall|i: int, j: int| 0 <= i < j < h.len() ==> h[i] != h[j],
{
    assert forall|i: int, j: int| 0 <= i < j < h.len() implies h[i] != h[j] by {
        assert(h[i].lt > h[j].lt);
    }
}

/// The announced record count of a transactions reply.
pub open spec fn tx_count_of(b: Seq<u8>) -> nat {
    le_val(b.subrange(0, 4))
}

/// The record at position `k` of a transactions reply: logical time, then
/// the 256-bit hash as two 128-bit halves, all least significant byte first.
pub open spec fn tx_record_at(b: Seq<u8>, k: int) -> TransactionRecord {
    let off = 4 + 40 * k;
    TransactionRecord {
        lt: le_val(b.subrange(off, off + 8)) as u64,
        hash_hi: le_val(b.subrange(off + 8, off + 24)) as u128,
        hash_lo: le_val(b.subrange(off + 24, off + 40)) as u128,
    }
}

/// The record sequence a structurally well-formed reply denotes.
pub open spec fn tx_records_of(b: Seq<u8>) -> Seq<TransactionRecord> {
    Seq::new(tx_count_of(b), |k: int| tx_record_at(b, k))
}

/// A transactions reply is structurally well formed when it holds exactly
/// the announced number of fixed-size records after the count field.
pub open spec fn tx_reply_shape_ok(b: Seq<u8>) -> bool {
    b.len() >= 4 && b.len() == 4 + 40 * tx_count_of(b)
}

proof fn lemma_adjacent_implies_descending_at(s: Seq<TransactionRecord>, i: int, j: int)
    requires
        forall|k: int| 0 <= k < s.len() - 1 ==> (#[trigger] s[k]).lt > s[k + 1].lt,
        0 <= i < j < s.len(),
    ensures
        s[i].lt > s[j].lt,
    decreases j - i,
{
    if j > i + 1 {
        lemma_adjacent_implies_descending_at(s, i, j - 1);
    }
}

/// Decodes a transactions reply: the count field, then each record. A reply
/// whose records are not in strictly descending logical time violates the
/// backend contract and is rejected as a protocol error, never reordered.
pub fn decode_transactions_reply(b: &Vec<u8>) -> (r: Result<Vec<TransactionRecord>, TransportError>)
    ensures
        r matches Ok(_) <==> tx_reply_shape_ok(b@) && strictly_descending(tx_records_of(b@)),
        r matches Ok(v) ==> v@ == tx_records_of(b@),
        r matches Err(e) ==> e == TransportError::ProtocolError,
{
    let n = b.len();
    if n < 4 {
        return Err(TransportError::ProtocolError);
    }
    let count128 = read_le(b, 0, 4);
    proof {
        lemma_le_val_bound(b@.subrange(0, 4));
        assert(pow256(4) == 0x1_0000_0000) by {
            reveal_with_fuel(pow256, 5);
        }
    }
    if (n as u128 - 4) != 40 * count128 {
        return Err(TransportError::ProtocolError);
    }
    let count: usize = (count128 * 40) as usize / 40;
    assert(count == tx_count_of(b@));
    let mut out: Vec<TransactionRecord> = Vec::new();
    let mut k: usize = 0;
    while k < count
        invariant
            k <= count,
            n == b@.len(),
            count == tx_count_of(b@),
            n == 4 + 40 * count,
            out@.len() == k,
            forall|i: int| 0 <= i < k ==> out@[i] == tx_record_at(b@, i),
            forall|i: int| 0 <= i < k - 1 ==> (#[trigger] out@[i]).lt > out@[i + 1].lt,
        decreases count - k,
    {
        let off = 4 + 40 * k;
        let lt128 = read_le(b, off, 8);
        proof {
            lemma_le_val_bound(b@.subrange(off as int, off + 8));
            assert(pow256(8) == 0x1_0000_0000_0000_0000) by {
                reveal_with_fuel(pow256, 9);
            }
        }
        let rec = TransactionRecord {
            lt: lt128 as u64,
            hash_hi: read_le(b, off + 8, 16),
            hash_lo: read_le(b, off + 24, 16),
        };
        if k > 0 {
            let prev = out[k - 1];
            if prev.lt <= rec.lt {
                proof {
                    assert(tx_records_of(b@)[k - 1] == tx_record_at(b@, k - 1));
                    assert(tx_records_of(b@)[k as int] == tx_record_at(b@, k as int));
                    assert(!strictly_descending(tx_records_of(b@)));
                }
                return Err(TransportError::ProtocolError);
            }
        }
        out.push(rec);
        k = k + 1;
    }
    proof {
        assert(out@ =~= tx_records_of(b@));
        assert forall|i: int, j: int|
            0 <= i < j < out@.len() implies (#[trigger] out@[i]).lt > (#[trigger] out@[j]).lt by {
            lemma_adjacent_implies_descending_at(out@, i, j);
        }
    }
    Ok(out)
}

/// Serves one page from a history held in descending order: the executable
/// form of `page_of`, used both by the poll-driven backends and by tests.
pub fn select_page(h: &Vec<TransactionRecord>, cursor: Option<u64>, count: usize) -> (page: Vec<
    TransactionRecord,
>)
    requires
        strictly_descending(h@),
    ensures
        page@ == page_of(h@, cursor, count as int),
{
    let n = h.len();
    let mut start: usize = 0;
    match cursor {
        None => {},
        Some(c) => {
            while start < n && h[start as usize].lt >= c
                invariant
                    0 <= start <= n,
                    n == h@.len(),
                    strictly_descending(h@),
                    forall|i: int| 0 <= i < start ==> (#[trigger] h@[i]).lt >= c,
                decreases n - start,
            {
                start = start + 1;
            }
            proof {
                assert forall|i: int| start <= i < h@.len() implies (#[trigger] h@[i]).lt < c by {
                    if i > start {
                        assert(h@[start as int].lt > h@[i].lt);
                    }
                }
                lemma_start_of_exact(h@, c, start as int);
            }
        },
    }
    let end = if count <= n - start {
        start + count
    } else {
        n
    };
    let mut page: Vec<TransactionRecord> = Vec::new();
    let mut i: usize = start;
    while i < end
        invariant
            start <= i <= end <= n,
            n == h@.len(),
            page@ == h@.subrange(start as int, i as int),
        decreases end - i,
    {
        let rec = h[i];
        page.push(rec);
        proof {
            assert(h@.subrange(start as int, i + 1) =~= h@.subrange(start as int, i as int).push(
                h@[i as int],
            ));
        }
        i = i + 1;
    }
    proof {
        assert(page@ =~= page_of(h@, cursor, count as int));
    }
    page
}

} // verus!
