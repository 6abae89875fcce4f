use vstd::prelude::*;

verus! {

/// A failure of the byte sink during a transmission, carrying the sink's
/// own error.
pub struct TransmitError<E> {
    pub cause: E,
}

/// Whether a write that accepted `accepted` bytes, offered at `offset` of a
/// buffer of `len` bytes, reached the end of the buffer.
pub open spec fn write_completes(offset: nat, len: nat, accepted: nat) -> bool {
    offset + accepted >= len
}

/// Where the next write starts after one that accepted `accepted` bytes.
pub open spec fn offset_after(offset: nat, len: nat, accepted: nat) -> nat {
    if write_completes(offset, len, accepted) {
        len
    } else {
        offset + accepted
    }
}

/// The progress of sending one buffer through a sink that may accept only a
/// part of what it is offered. The caller offers the bytes from `offset()`
/// to the end and reports each outcome to `on_write`.
pub struct Transmission {
    offset: usize,
    len: usize,
}

impl Transmission {
    /// The index of the first byte not yet accepted by the sink.
    pub closed spec fn spec_offset(&self) -> nat {
        self.offset as nat
    }

    /// The length of the buffer being sent.
    pub closed spec fn spec_len(&self) -> nat {
        self.len as nat
    }

    /// No more bytes have been accepted than the buffer holds.
    pub closed spec fn wf(&self) -> bool {
        self.offset <= self.len
    }

    /// The start of sending a buffer of `len` bytes: nothing accepted yet.
    pub fn new(len: usize) -> (r: Self)
        ensures
            r.wf(),
            r.spec_offset() == 0,
            r.spec_len() == len,
    {
        Transmission { offset: 0, len }
    }

    /// The index of the first byte to offer to the sink next.
    pub fn offset(&self) -> (r: usize)
        ensures
            r == self.spec_offset(),
    {
        self.offset
    }

    /// Takes the outcome of one write. A count of accepted bytes advances
    /// the offset, and `Ok(true)` tells that the whole buffer has gone out;
    /// `Ok(false)` asks for another write, also after a count of zero. A
    /// sink error ends the transmission: it comes back as a
    /// `TransmitError`, and the offset stays where it was.
    pub fn on_write<E>(&mut self, outcome: Result<usize, E>) -> (r: Result<bool, TransmitError<E>>)
        requires
            old(self).wf(),
        ensures
            final(self).wf(),
            final(self).spec_len() == old(self).spec_len(),
            match outcome {
                Ok(n) => {
                    &&& r == Ok::<bool, TransmitError<E>>(
                        write_completes(old(self).spec_offset(), old(self).spec_len(), n as nat),
                    )
                    &&& final(self).spec_offset() == offset_after(
                        old(self).spec_offset(),
                        old(self).spec_len(),
                        n as nat,
                    )
                },
                Err(e) => {
                    &&& r == Err::<bool, TransmitError<E>>(TransmitError { cause: e })
                    &&& final(self).spec_offset() == old(self).spec_offset()
                },
            },
    {
        match outcome {
            Ok(n) => {
                if n >= self.len - self.offset {
                    self.offset = self.len;
                    Ok(true)
                } else {
                    self.offset = self.offset + n;
                    Ok(false)
                }
            },
            Err(e) => Err(TransmitError { cause: e }),
        }
    }
}

/// How many bytes a sink that takes at most `cap` bytes per call accepts
/// when it is offered the bytes from `offset` to `len`.
pub open spec fn capped_accept(cap: nat, offset: nat, len: nat) -> nat {
    if cap < len - offset {
        cap
    } else {
        (len - offset) as nat
    }
}

/// The number of writes needed to send the bytes from `offset` to `len`
/// through a sink that takes at most `cap` bytes per call.
pub open spec fn capped_writes(cap: nat, offset: nat, len: nat) -> nat
    decreases len - offset,
{
    let n = capped_accept(cap, offset, len);
    if cap == 0 || write_completes(offset, len, n) {
        1
    } else {
        1 + capped_writes(cap, offset_after(offset, len, n), len)
    }
}

/// The bytes of `buf` from `offset` on, in the order in which a sink that
/// takes at most `cap` bytes per call accepts them.
pub open spec fn capped_output(buf: Seq<u8>, cap: nat, offset: nat) -> Seq<u8>
    decreases buf.len() - offset,
{
    let n = capped_accept(cap, offset, buf.len());
    let chunk = buf.subrange(offset as int, (offset + n) as int);
    if cap == 0 || write_completes(offset, buf.len(), n) {
        chunk
    } else {
        chunk + capped_output(buf, cap, offset_after(offset, buf.len(), n))
    }
}

proof fn lemma_capped_from(buf: Seq<u8>, cap: nat, offset: nat)
    requires
        cap > 0,
        offset < buf.len(),
    ensures
        capped_writes(cap, offset, buf.len()) == ((buf.len() - offset) + cap - 1) as int / cap as int,
        capped_output(buf, cap, offset) == buf.subrange(offset as int, buf.len() as int),
    decreases buf.len() - offset,
{
    let len = buf.len();
    let rest = (len - offset) as int;
    let n = capped_accept(cap, offset, len);
    if write_completes(offset, len, n) {
        assert(rest <= cap);
        vstd::arithmetic::div_mod::lemma_fundamental_div_mod_converse(rest + cap - 1, cap as int, 1, rest - 1);
        assert(buf.subrange(offset as int, (offset + n) as int) =~= buf.subrange(offset as int, len as int));
    } else {
        assert(n == cap);
        lemma_capped_from(buf, cap, offset + cap);
        vstd::arithmetic::div_mod::lemma_div_plus_one(rest - 1, cap as int);
        assert(cap + (rest - 1) == rest + cap - 1);
        assert((len - (offset + cap)) + cap - 1 == rest - 1);
        assert(buf.subrange(offset as int, (offset + cap) as int) + buf.subrange((offset + cap) as int, len as int)
            =~= buf.subrange(offset as int, len as int));
    }
}

/// Sending a buffer of `buf.len()` bytes through a sink that accepts at most
/// `cap` bytes per call, where the buffer is longer than `cap`, takes exactly
/// `ceil(buf.len() / cap)` writes, and the sink receives every byte of the
/// buffer once, in order.
pub proof fn lemma_capped_sink_sends_all(buf: Seq<u8>, cap: nat)
    requires
        cap > 0,
        buf.len() > cap,
    ensures
        capped_writes(cap, 0, buf.len()) == (buf.len() + cap - 1) as int / cap as int,
        capped_output(buf, cap, 0) == buf,
{
    lemma_capped_from(buf, cap, 0);
    assert(buf.subrange(0, buf.len() as int) =~= buf);
}

} // verus!
