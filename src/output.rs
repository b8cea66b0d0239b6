use vstd::prelude::*;

verus! {

/// The bytes a shell has written and nobody has taken yet. The reader of
/// the shell appends; the consumer drains.
pub struct OutputBuffer {
    bytes: Vec<u8>,
}

impl View for OutputBuffer {
    type V = Seq<u8>;

    closed spec fn view(&self) -> Seq<u8> {
        self.bytes@
    }
}

/// One operation on an output buffer: an append of some bytes, or a drain.
pub enum BufferOp {
    Append(Seq<u8>),
    Drain,
}

/// What a drain of a buffer holding `pending` hands out: nothing where it is
/// empty, else all of it.
pub open spec fn drained(pending: Seq<u8>) -> Option<Seq<u8>> {
    if pending.len() == 0 {
        None
    } else {
        Some(pending)
    }
}

/// The bytes that the drains of `ops` hand out, in order, starting from a
/// buffer holding `pending`, and what the buffer holds after them.
pub open spec fn run_ops(pending: Seq<u8>, ops: Seq<BufferOp>) -> (Seq<u8>, Seq<u8>)
    decreases ops.len(),
{
    if ops.len() == 0 {
        (Seq::empty(), pending)
    } else {
        let (out, rest) = run_ops(pending, ops.drop_last());
        match ops.last() {
            BufferOp::Append(b) => (out, rest + b),
            BufferOp::Drain => (out + rest, Seq::empty()),
        }
    }
}

/// All the bytes that the appends of `ops` bring, in order.
pub open spec fn appended(ops: Seq<BufferOp>) -> Seq<u8>
    decreases ops.len(),
{
    if ops.len() == 0 {
        Seq::empty()
    } else {
        match ops.last() {
            BufferOp::Append(b) => appended(ops.drop_last()) + b,
            BufferOp::Drain => appended(ops.drop_last()),
        }
    }
}

/// Whatever the interleaving of appends and drains, each byte is handed out
/// once, in the order it was appended: what the drains handed out, followed
/// by what is still pending, is what was pending at first followed by every
/// appended byte.
pub proof fn lemma_drains_deliver_in_order(pending: Seq<u8>, ops: Seq<BufferOp>)
    ensures
        run_ops(pending, ops).0 + run_ops(pending, ops).1 == pending + appended(ops),
    decreases ops.len(),
{
    if ops.len() > 0 {
        lemma_drains_deliver_in_order(pending, ops.drop_last());
        let (out, rest) = run_ops(pending, ops.drop_last());
        match ops.last() {
            BufferOp::Append(b) => {
                assert(out + (rest + b) =~= (out + rest) + b);
                assert((pending + appended(ops.drop_last())) + b =~= pending + (appended(ops.drop_last()) + b));
            },
            BufferOp::Drain => {
                assert((out + rest) + Seq::<u8>::empty() =~= out + rest);
            },
        }
    } else {
        assert(Seq::<u8>::empty() + pending =~= pending + Seq::<u8>::empty());
    }
}

impl OutputBuffer {
    /// An empty buffer.
    pub fn new() -> (r: OutputBuffer)
        ensures
            r@ == Seq::<u8>::empty(),
    {
        OutputBuffer { bytes: Vec::new() }
    }

    /// Adds `data` after what is pending.
    pub fn append(&mut self, data: &[u8])
        ensures
            final(self)@ == old(self)@ + data@,
    {
        let mut i: usize = 0;
        while i < data.len()
            invariant
                i <= data@.len(),
                self@ == old(self)@ + data@.take(i as int),
            decreases data@.len() - i,
        {
            self.bytes.push(data[i]);
            proof {
                assert(old(self)@ + data@.take(i as int + 1) =~= (old(self)@ + data@.take(i as int)).push(data@[i as int]));
            }
            i += 1;
        }
        proof {
            assert(data@.take(i as int) =~= data@);
        }
    }

    /// Takes everything pending, leaving the buffer empty; `None` where
    /// nothing is pending.
    pub fn drain(&mut self) -> (r: Option<Vec<u8>>)
        ensures
            final(self)@ == Seq::<u8>::empty(),
            match r {
                Some(v) => drained(old(self)@) == Some(v@),
                None => drained(old(self)@) is None,
            },
    {
        if self.bytes.len() == 0 {
            None
        } else {
            let mut out: Vec<u8> = Vec::new();
            std::mem::swap(&mut out, &mut self.bytes);
            Some(out)
        }
    }

    /// Whether nothing is pending.
    pub fn is_empty(&self) -> (r: bool)
        ensures
            r == (self@.len() == 0),
    {
        self.bytes.len() == 0
    }
}

} // verus!
