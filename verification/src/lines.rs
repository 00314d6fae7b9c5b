//! Reassembly of newline-terminated records from arbitrarily chunked bytes.

use vstd::prelude::*;

verus! {

/// The byte that terminates a record.
pub const NEWLINE: u8 = 10;

/// The unterminated bytes left over after scanning `bytes` with `carry`
/// already buffered in front of them.
pub open spec fn scan_tail(carry: Seq<u8>, bytes: Seq<u8>) -> Seq<u8>
    decreases bytes.len(),
{
    if bytes.len() == 0 {
        carry
    } else if bytes.last() == NEWLINE {
        Seq::empty()
    } else {
        scan_tail(carry, bytes.drop_last()).push(bytes.last())
    }
}

/// The non-empty records completed while scanning `bytes` with `carry`
/// already buffered in front of them, in order.
pub open spec fn scan_records(carry: Seq<u8>, bytes: Seq<u8>) -> Seq<Seq<u8>>
    decreases bytes.len(),
{
    if bytes.len() == 0 {
        Seq::empty()
    } else if bytes.last() == NEWLINE {
        let before = scan_tail(carry, bytes.drop_last());
        if before.len() == 0 {
            scan_records(carry, bytes.drop_last())
        } else {
            scan_records(carry, bytes.drop_last()).push(before)
        }
    } else {
        scan_records(carry, bytes.drop_last())
    }
}

/// The non-empty newline-terminated records of a whole byte string.
pub open spec fn records_of(bytes: Seq<u8>) -> Seq<Seq<u8>> {
    scan_records(Seq::empty(), bytes)
}

/// The bytes after the last newline of a whole byte string.
pub open spec fn tail_of(bytes: Seq<u8>) -> Seq<u8> {
    scan_tail(Seq::empty(), bytes)
}

/// All chunks joined into one byte string.
pub open spec fn concat_chunks(chunks: Seq<Seq<u8>>) -> Seq<u8>
    decreases chunks.len(),
{
    if chunks.len() == 0 {
        Seq::empty()
    } else {
        concat_chunks(chunks.drop_last()) + chunks.last()
    }
}

/// The carry buffer after feeding `chunks` one by one, starting from `carry`.
pub open spec fn feed_tail(carry: Seq<u8>, chunks: Seq<Seq<u8>>) -> Seq<u8>
    decreases chunks.len(),
{
    if chunks.len() == 0 {
        carry
    } else {
        scan_tail(feed_tail(carry, chunks.drop_last()), chunks.last())
    }
}

/// The records emitted while feeding `chunks` one by one, starting from
/// `carry`: what each single feed emits, joined in order.
pub open spec fn feed_records(carry: Seq<u8>, chunks: Seq<Seq<u8>>) -> Seq<Seq<u8>>
    decreases chunks.len(),
{
    if chunks.len() == 0 {
        Seq::empty()
    } else {
        feed_records(carry, chunks.drop_last()) + scan_records(
            feed_tail(carry, chunks.drop_last()),
            chunks.last(),
        )
    }
}

/// The byte strings held by a vector of owned records.
pub open spec fn records_view(records: Seq<Vec<u8>>) -> Seq<Seq<u8>> {
    Seq::new(records.len(), |i: int| records[i]@)
}

/// Scanning two byte strings one after the other is the same as scanning
/// their concatenation: the second scan starts from the tail the first left.
pub proof fn lemma_scan_split(carry: Seq<u8>, a: Seq<u8>, b: Seq<u8>)
    ensures
        scan_tail(carry, a + b) == scan_tail(scan_tail(carry, a), b),
        scan_records(carry, a + b) == scan_records(carry, a) + scan_records(
            scan_tail(carry, a),
            b,
        ),
    decreases b.len(),
{
    if b.len() == 0 {
        assert(a + b =~= a);
        assert(scan_records(carry, a) + Seq::<Seq<u8>>::empty() =~= scan_records(carry, a));
    } else {
        lemma_scan_split(carry, a, b.drop_last());
        assert((a + b).drop_last() =~= a + b.drop_last());
        assert((a + b).last() == b.last());
        let mid = scan_tail(carry, a);
        let left = scan_records(carry, a);
        let right = scan_records(mid, b.drop_last());
        if b.last() == NEWLINE {
            let before = scan_tail(mid, b.drop_last());
            if before.len() != 0 {
                assert((left + right).push(before) =~= left + right.push(before));
            }
        }
    }
}

/// Chunking invariance: however a byte string is cut into chunks, feeding
/// the chunks one by one emits exactly the records of the whole string, in
/// order, and leaves exactly its unterminated tail in the buffer.
pub proof fn lemma_chunking_invariance(carry: Seq<u8>, chunks: Seq<Seq<u8>>)
    ensures
        feed_records(carry, chunks) == scan_records(carry, concat_chunks(chunks)),
        feed_tail(carry, chunks) == scan_tail(carry, concat_chunks(chunks)),
    decreases chunks.len(),
{
    if chunks.len() != 0 {
        lemma_chunking_invariance(carry, chunks.drop_last());
        lemma_scan_split(carry, concat_chunks(chunks.drop_last()), chunks.last());
    }
}

/// Two ways of cutting the same bytes into chunks emit the same records and
/// leave the same tail.
pub proof fn lemma_same_bytes_same_records(first: Seq<Seq<u8>>, second: Seq<Seq<u8>>)
    requires
        concat_chunks(first) == concat_chunks(second),
    ensures
        feed_records(Seq::empty(), first) == feed_records(Seq::empty(), second),
        feed_records(Seq::empty(), first) == records_of(concat_chunks(first)),
        feed_tail(Seq::empty(), first) == feed_tail(Seq::empty(), second),
{
    lemma_chunking_invariance(Seq::empty(), first);
    lemma_chunking_invariance(Seq::empty(), second);
}

/// No emitted record is empty and none contains a newline, provided the
/// buffered carry held none.
pub proof fn lemma_records_are_lines(carry: Seq<u8>, bytes: Seq<u8>)
    requires
        !carry.contains(NEWLINE),
    ensures
        !scan_tail(carry, bytes).contains(NEWLINE),
        forall|k: int|
            0 <= k < scan_records(carry, bytes).len() ==> {
                &&& (#[trigger] scan_records(carry, bytes)[k]).len() > 0
                &&& !scan_records(carry, bytes)[k].contains(NEWLINE)
            },
    decreases bytes.len(),
{
    if bytes.len() != 0 {
        lemma_records_are_lines(carry, bytes.drop_last());
        let before = scan_tail(carry, bytes.drop_last());
        let earlier = scan_records(carry, bytes.drop_last());
        let now = scan_records(carry, bytes);
        if bytes.last() != NEWLINE {
            let t = before.push(bytes.last());
            assert forall|j: int| 0 <= j < t.len() implies t[j] != NEWLINE by {
                if j < before.len() {
                    assert(before.contains(before[j]));
                }
            }
        } else {
            assert forall|k: int| 0 <= k < now.len() implies (#[trigger] now[k]).len() > 0
                && !now[k].contains(NEWLINE) by {
                if k < earlier.len() {
                    assert(now[k] == earlier[k]);
                }
            }
        }
    } else {
        assert(scan_records(carry, bytes).len() == 0);
    }
}

/// A record as it may stand in a body: not empty, and without a newline.
pub open spec fn is_record(line: Seq<u8>) -> bool {
    line.len() > 0 && !line.contains(NEWLINE)
}

/// The body made of these records, each followed by a newline.
pub open spec fn joined(records: Seq<Seq<u8>>) -> Seq<u8>
    decreases records.len(),
{
    if records.len() == 0 {
        Seq::empty()
    } else {
        joined(records.drop_last()) + records.last().push(NEWLINE)
    }
}

/// Bytes without a newline complete no record and lengthen the carry.
pub proof fn lemma_scan_without_newline(carry: Seq<u8>, bytes: Seq<u8>)
    requires
        !bytes.contains(NEWLINE),
    ensures
        scan_tail(carry, bytes) == carry + bytes,
        scan_records(carry, bytes) == Seq::<Seq<u8>>::empty(),
    decreases bytes.len(),
{
    if bytes.len() == 0 {
        assert(carry + bytes =~= carry);
    } else {
        let front = bytes.drop_last();
        assert(bytes.contains(bytes.last()));
        assert forall|j: int| 0 <= j < front.len() implies front[j] != NEWLINE by {
            assert(bytes.contains(bytes[j]));
        }
        lemma_scan_without_newline(carry, front);
        assert((carry + front).push(bytes.last()) =~= carry + bytes);
    }
}

/// A body made of records, each followed by a newline, scans to exactly
/// those records, in order, with nothing left over.
pub proof fn lemma_joined_records(records: Seq<Seq<u8>>)
    requires
        forall|i: int| 0 <= i < records.len() ==> is_record(#[trigger] records[i]),
    ensures
        records_of(joined(records)) == records,
        tail_of(joined(records)) == Seq::<u8>::empty(),
    decreases records.len(),
{
    if records.len() != 0 {
        let earlier = records.drop_last();
        let line = records.last();
        let ended = line.push(NEWLINE);
        lemma_joined_records(earlier);
        lemma_scan_split(Seq::empty(), joined(earlier), ended);
        lemma_scan_without_newline(Seq::empty(), line);
        assert(ended.drop_last() =~= line);
        assert(Seq::<u8>::empty() + line =~= line);
        assert(scan_records(Seq::empty(), ended) =~= Seq::empty().push(line));
        assert(earlier + Seq::empty().push(line) =~= records);
    }
}

/// Chunking invariance for whole bodies: if the chunks, joined, are a body
/// made of records each followed by a newline, then feeding the chunks one
/// by one emits exactly those records, in order, and leaves nothing
/// buffered, wherever the chunks were cut.
pub proof fn lemma_chunks_of_records(chunks: Seq<Seq<u8>>, records: Seq<Seq<u8>>)
    requires
        forall|i: int| 0 <= i < records.len() ==> is_record(#[trigger] records[i]),
        concat_chunks(chunks) == joined(records),
    ensures
        feed_records(Seq::empty(), chunks) == records,
        feed_tail(Seq::empty(), chunks) == Seq::<u8>::empty(),
{
    lemma_chunking_invariance(Seq::empty(), chunks);
    lemma_joined_records(records);
}

/// Buffers the unterminated end of a byte stream between chunks.
pub struct LineReassembler {
    carry: Vec<u8>,
}

impl View for LineReassembler {
    type V = Seq<u8>;

    /// The bytes received since the last newline.
    closed spec fn view(&self) -> Seq<u8> {
        self.carry@
    }
}

impl LineReassembler {
    /// A reassembler with nothing buffered.
    pub fn new() -> (r: Self)
        ensures
            r@ == Seq::<u8>::empty(),
    {
        LineReassembler { carry: Vec::new() }
    }

    /// The number of bytes buffered while waiting for a newline.
    pub fn buffered(&self) -> (n: usize)
        ensures
            n == self@.len(),
    {
        self.carry.len()
    }

    /// Takes the next chunk and returns the records it completes, in order.
    /// A record may have begun in an earlier chunk; empty records are left
    /// out; what follows the chunk's last newline stays buffered.
    pub fn feed(&mut self, chunk: &[u8]) -> (records: Vec<Vec<u8>>)
        ensures
            records_view(records@) == scan_records(old(self)@, chunk@),
            final(self)@ == scan_tail(old(self)@, chunk@),
    {
        let mut records: Vec<Vec<u8>> = Vec::new();
        let mut i: usize = 0;
        assert(chunk@.take(0) =~= Seq::<u8>::empty());
        assert(records_view(records@) =~= Seq::<Seq<u8>>::empty());
        while i < chunk.len()
            invariant
                0 <= i <= chunk.len(),
                records_view(records@) == scan_records(old(self)@, chunk@.take(i as int)),
                self.carry@ == scan_tail(old(self)@, chunk@.take(i as int)),
            decreases chunk.len() - i,
        {
            let b: u8 = chunk[i];
            proof {
                let next = chunk@.take(i + 1);
                assert(next.drop_last() =~= chunk@.take(i as int));
                assert(next.last() == b);
            }
            if b == NEWLINE {
                if self.carry.len() > 0 {
                    let mut line: Vec<u8> = Vec::new();
                    core::mem::swap(&mut line, &mut self.carry);
                    let ghost before = records@;
                    records.push(line);
                    assert(records_view(records@) =~= records_view(before).push(line@));
                } else {
                    assert(self.carry@ =~= Seq::<u8>::empty());
                }
            } else {
                self.carry.push(b);
            }
            i = i + 1;
        }
        assert(chunk@.take(chunk.len() as int) =~= chunk@);
        records
    }

    /// Ends the stream: hands out what was buffered as a last record if the
    /// stream did not end in a newline, and nothing otherwise.
    pub fn finish(self) -> (last: Option<Vec<u8>>)
        ensures
            self@.len() == 0 ==> last.is_none(),
            self@.len() > 0 ==> last.is_some() && last.unwrap()@ == self@,
    {
        if self.carry.len() == 0 {
            None
        } else {
            Some(self.carry)
        }
    }
}

/// A copy of one record.
pub fn copy_record(record: &Vec<u8>) -> (r: Vec<u8>)
    ensures
        r@ == record@,
{
    let mut copy: Vec<u8> = Vec::new();
    let mut i: usize = 0;
    while i < record.len()
        invariant
            0 <= i <= record.len(),
            copy@ == record@.take(i as int),
        decreases record.len() - i,
    {
        copy.push(record[i]);
        assert(record@.take(i + 1) =~= record@.take(i as int).push(record[i as int]));
        i = i + 1;
    }
    assert(record@.take(record.len() as int) =~= record@);
    copy
}

/// Splits a whole body at once: its newline-terminated records, then the
/// unterminated rest if there is one.
pub fn split_records(body: &[u8]) -> (records: Vec<Vec<u8>>)
    ensures
        records_view(records@) == if tail_of(body@).len() == 0 {
            records_of(body@)
        } else {
            records_of(body@).push(tail_of(body@))
        },
{
    let mut reassembler = LineReassembler::new();
    let mut records = reassembler.feed(body);
    let last = reassembler.finish();
    match last {
        Some(line) => {
            let ghost before = records@;
            records.push(line);
            assert(records_view(records@) =~= records_view(before).push(line@));
        },
        None => {},
    }
    records
}

} // verus!
