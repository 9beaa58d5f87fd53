//! Per-connection TCP buffering/flush protocol.
//!
//! Each established connection is driven by exactly one handler, which feeds
//! every successful read into a [`TcpConn`] state machine. Bytes accumulate
//! in a buffer; once the buffer's length reaches the threshold, the whole
//! buffer is flushed back to the peer and cleared. End of stream closes the
//! machine; bytes still buffered at that point are never echoed.

use vstd::prelude::*;

verus! {

/// One step of the protocol on the accumulated buffer: the newly read bytes
/// are appended, and the whole accumulation is flushed (and the buffer
/// cleared) exactly when its length reaches the threshold.
///
/// Returns the buffer after the step and the bytes flushed by it, if any.
pub open spec fn step_spec(buffered: Seq<u8>, data: Seq<u8>, threshold: nat) -> (Seq<u8>, Option<
    Seq<u8>,
>) {
    let acc = buffered + data;
    if acc.len() >= threshold {
        (Seq::<u8>::empty(), Some(acc))
    } else {
        (acc, None)
    }
}

/// The byte sequence behind an optional flush, for stating contracts.
pub open spec fn flush_view(flush: Option<Vec<u8>>) -> Option<Seq<u8>> {
    match flush {
        Some(f) => Some(f@),
        None => None,
    }
}

/// The state of one TCP connection: its accumulation buffer, the threshold
/// it was opened with, and whether the peer has closed the stream.
pub struct TcpConn {
    /// Bytes received since the last flush, in arrival order.
    pub buf: Vec<u8>,
    /// Minimum byte count that must accumulate before a flush.
    pub threshold: usize,
    /// Whether the peer has closed the connection.
    pub closed: bool,
}

impl TcpConn {
    /// Between steps the buffer is always below the threshold: a step that
    /// reaches it flushes and clears at once.
    pub open spec fn wf(self) -> bool {
        self.buf@.len() < self.threshold || self.buf@.len() == 0
    }

    /// State of a freshly accepted connection: empty buffer, open stream.
    pub fn new(threshold: usize) -> (conn: TcpConn)
        ensures
            conn.buf@ == Seq::<u8>::empty(),
            conn.threshold == threshold,
            !conn.closed,
            conn.wf(),
    {
        TcpConn { buf: Vec::new(), threshold, closed: false }
    }

    /// Feeds one successful read into the connection.
    ///
    /// The read bytes are appended to the buffer. If the buffer's length now
    /// reaches the threshold, the whole accumulation is returned for the
    /// handler to write back to the peer, and the buffer is cleared;
    /// otherwise the bytes are retained and nothing is flushed.
    pub fn on_read(&mut self, data: &Vec<u8>) -> (flush: Option<Vec<u8>>)
        requires
            !old(self).closed,
            data@.len() >= 1,
            old(self).buf@.len() + data@.len() <= usize::MAX,
        ensures
            final(self).threshold == old(self).threshold,
            !final(self).closed,
            final(self).wf(),
            (final(self).buf@, flush_view(flush)) == step_spec(
                old(self).buf@,
                data@,
                old(self).threshold as nat,
            ),
            old(self).buf@.len() + data@.len() >= old(self).threshold ==> (flush matches Some(f)
                && f@ == old(self).buf@ + data@ && final(self).buf@ == Seq::<u8>::empty()),
            old(self).buf@.len() + data@.len() < old(self).threshold ==> (flush is None
                && final(self).buf@ == old(self).buf@ + data@),
    {
        let n: usize = data.len();
        let mut i: usize = 0;
        while i < n
            invariant
                i <= n,
                n == data@.len(),
                old(self).buf@.len() + data@.len() <= usize::MAX,
                self.buf@ == old(self).buf@ + data@.take(i as int),
                self.threshold == old(self).threshold,
                self.closed == old(self).closed,
            decreases n - i,
        {
            self.buf.push(data[i]);
            i = i + 1;
        }
        assert(self.buf@ =~= old(self).buf@ + data@);
        if self.buf.len() >= self.threshold {
            let mut out: Vec<u8> = Vec::new();
            core::mem::swap(&mut out, &mut self.buf);
            Some(out)
        } else {
            None
        }
    }

    /// Records that the peer closed the connection (a read of zero bytes).
    ///
    /// This is the sole normal termination of a handler. Bytes still
    /// buffered are retained but will never be flushed.
    pub fn on_eof(&mut self)
        requires
            !old(self).closed,
        ensures
            final(self).closed,
            final(self).buf == old(self).buf,
            final(self).threshold == old(self).threshold,
    {
        self.closed = true;
    }

    /// How many bytes are currently buffered, awaiting a flush.
    pub fn buffered_len(&self) -> (n: usize)
        ensures
            n == self.buf@.len(),
    {
        self.buf.len()
    }

    /// Whether the peer has closed the connection.
    pub fn is_closed(&self) -> (c: bool)
        ensures
            c == self.closed,
    {
        self.closed
    }
}

/// The buffer contents after a whole sequence of reads has been fed, in
/// order, into a connection that started empty.
pub open spec fn run_buffered(reads: Seq<Seq<u8>>, threshold: nat) -> Seq<u8>
    decreases reads.len(),
{
    if reads.len() == 0 {
        Seq::<u8>::empty()
    } else {
        step_spec(run_buffered(reads.drop_last(), threshold), reads.last(), threshold).0
    }
}

/// The flushes produced, in order, by feeding a whole sequence of reads into
/// a connection that started empty.
pub open spec fn run_flushes(reads: Seq<Seq<u8>>, threshold: nat) -> Seq<Seq<u8>>
    decreases reads.len(),
{
    if reads.len() == 0 {
        Seq::<Seq<u8>>::empty()
    } else {
        let prior = run_flushes(reads.drop_last(), threshold);
        match step_spec(run_buffered(reads.drop_last(), threshold), reads.last(), threshold).1 {
            Some(f) => prior.push(f),
            None => prior,
        }
    }
}

/// All the byte sequences of `chunks` joined in order.
pub open spec fn concat_all(chunks: Seq<Seq<u8>>) -> Seq<u8>
    decreases chunks.len(),
{
    if chunks.len() == 0 {
        Seq::<u8>::empty()
    } else {
        concat_all(chunks.drop_last()) + chunks.last()
    }
}

/// Feeding one more read extends a run by exactly one step: the buffer
/// becomes the step's buffer, and the step's flush, if any, is appended to
/// the run's flushes. This ties each [`TcpConn::on_read`] call, whose
/// contract is stated over [`step_spec`], to the whole-connection model.
pub proof fn lemma_tcp_run_step(reads: Seq<Seq<u8>>, data: Seq<u8>, threshold: nat)
    ensures
        run_buffered(reads.push(data), threshold) == step_spec(
            run_buffered(reads, threshold),
            data,
            threshold,
        ).0,
        run_flushes(reads.push(data), threshold) == (match step_spec(
            run_buffered(reads, threshold),
            data,
            threshold,
        ).1 {
            Some(f) => run_flushes(reads, threshold).push(f),
            None => run_flushes(reads, threshold),
        }),
{
    assert(reads.push(data).drop_last() =~= reads);
    assert(reads.push(data).last() == data);
}

/// No byte is ever dropped or reordered: after any sequence of reads, the
/// flushed bytes followed by the still-buffered bytes are exactly the
/// received bytes, in order. Bytes below the running threshold remain
/// buffered and appear in a later flush, or in no flush at all if the
/// connection closes first.
pub proof fn lemma_tcp_echo_preserves_bytes(reads: Seq<Seq<u8>>, threshold: nat)
    ensures
        concat_all(run_flushes(reads, threshold)) + run_buffered(reads, threshold) == concat_all(
            reads,
        ),
    decreases reads.len(),
{
    if reads.len() == 0 {
        assert(concat_all(run_flushes(reads, threshold)) + run_buffered(reads, threshold)
            =~= concat_all(reads));
    } else {
        let prior_reads = reads.drop_last();
        lemma_tcp_echo_preserves_bytes(prior_reads, threshold);
        let prior_flushes = run_flushes(prior_reads, threshold);
        let prior_buf = run_buffered(prior_reads, threshold);
        let acc = prior_buf + reads.last();
        if acc.len() >= threshold {
            assert(run_flushes(reads, threshold) == prior_flushes.push(acc));
            assert(prior_flushes.push(acc).drop_last() =~= prior_flushes);
            assert(concat_all(prior_flushes.push(acc)) == concat_all(prior_flushes) + acc);
            assert(concat_all(run_flushes(reads, threshold)) + run_buffered(reads, threshold)
                =~= concat_all(reads));
        } else {
            assert(concat_all(run_flushes(reads, threshold)) + run_buffered(reads, threshold)
                =~= concat_all(reads));
        }
    }
}

/// Every flush carries at least the threshold's worth of bytes: nothing is
/// echoed before the cumulative unflushed bytes reach the threshold.
pub proof fn lemma_tcp_flush_meets_threshold(reads: Seq<Seq<u8>>, threshold: nat)
    ensures
        forall|i: int|
            0 <= i < run_flushes(reads, threshold).len() ==> (#[trigger] run_flushes(
                reads,
                threshold,
            )[i]).len() >= threshold,
    decreases reads.len(),
{
    if reads.len() == 0 {
    } else {
        lemma_tcp_flush_meets_threshold(reads.drop_last(), threshold);
        let prior_flushes = run_flushes(reads.drop_last(), threshold);
        let acc = run_buffered(reads.drop_last(), threshold) + reads.last();
        if acc.len() >= threshold {
            assert(run_flushes(reads, threshold) == prior_flushes.push(acc));
            assert(forall|i: int|
                0 <= i < prior_flushes.len() ==> prior_flushes.push(acc)[i] == (
                #[trigger] prior_flushes[i]));
            assert(prior_flushes.push(acc)[prior_flushes.len() as int] == acc);
        }
    }
}

/// Between steps fewer than the threshold's worth of bytes are buffered (or,
/// when the threshold is zero, none at all): whatever stays unflushed when a
/// connection closes is strictly below the threshold.
pub proof fn lemma_tcp_buffered_below_threshold(reads: Seq<Seq<u8>>, threshold: nat)
    ensures
        run_buffered(reads, threshold).len() < threshold || run_buffered(reads, threshold).len()
            == 0,
    decreases reads.len(),
{
    if reads.len() == 0 {
    } else {
        lemma_tcp_buffered_below_threshold(reads.drop_last(), threshold);
    }
}

/// With threshold zero, every read flushes exactly the bytes it delivered:
/// the flushes are the reads themselves and nothing stays buffered.
pub proof fn lemma_tcp_zero_threshold_flushes_every_read(reads: Seq<Seq<u8>>)
    ensures
        run_flushes(reads, 0) == reads,
        run_buffered(reads, 0) == Seq::<u8>::empty(),
    decreases reads.len(),
{
    if reads.len() == 0 {
        assert(run_flushes(reads, 0) =~= reads);
    } else {
        lemma_tcp_zero_threshold_flushes_every_read(reads.drop_last());
        assert(run_buffered(reads.drop_last(), 0) + reads.last() =~= reads.last());
        assert(run_flushes(reads, 0) =~= reads);
    }
}

} // verus!
