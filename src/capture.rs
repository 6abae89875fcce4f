use vstd::prelude::*;

verus! {

/// The most bytes a capture record holds.
pub const CAPTURE_CAPACITY: usize = 8;

/// Whether receiving `b` while `buf` is pending ends the record: a NUL, a
/// carriage return, or a full buffer.
pub open spec fn flushes(buf: Seq<u8>, b: u8) -> bool {
    b == 0 || b == 13 || buf.len() >= 8
}

/// The pending bytes after receiving `b` while `buf` is pending.
pub open spec fn pending_after(buf: Seq<u8>, b: u8) -> Seq<u8> {
    if flushes(buf, b) {
        Seq::empty()
    } else {
        buf.push(b)
    }
}

/// The pending bytes, and the records completed on the way, after the bytes
/// of `input` are received one by one while `buf` is pending.
pub open spec fn feed(buf: Seq<u8>, input: Seq<u8>) -> (Seq<u8>, Seq<Seq<u8>>)
    decreases input.len(),
{
    if input.len() == 0 {
        (buf, Seq::empty())
    } else {
        let (pending, records) = feed(buf, input.drop_last());
        let b = input.last();
        (
            pending_after(pending, b),
            if flushes(pending, b) {
                records.push(pending)
            } else {
                records
            },
        )
    }
}

/// Whether `s` holds neither a NUL nor a carriage return.
pub open spec fn no_delimiters(s: Seq<u8>) -> bool {
    forall|i: int| 0 <= i < s.len() ==> #[trigger] s[i] != 0 && s[i] != 13
}

/// Bytes received from a serial line, gathered into records that end at a
/// NUL, a carriage return, or when the buffer is full.
pub struct CaptureBuffer {
    bytes: Vec<u8>,
}

impl View for CaptureBuffer {
    type V = Seq<u8>;

    closed spec fn view(&self) -> Seq<u8> {
        self.bytes@
    }
}

impl CaptureBuffer {
    /// The pending bytes never exceed the capacity.
    pub open spec fn wf(&self) -> bool {
        self@.len() <= 8
    }

    /// An empty buffer.
    pub fn new() -> (r: Self)
        ensures
            r.wf(),
            r@ == Seq::<u8>::empty(),
    {
        CaptureBuffer { bytes: Vec::new() }
    }

    /// The number of pending bytes.
    pub fn len(&self) -> (r: usize)
        ensures
            r == self@.len(),
    {
        self.bytes.len()
    }

    /// The pending bytes.
    pub fn as_bytes(&self) -> (r: &[u8])
        ensures
            r@ == self@,
    {
        self.bytes.as_slice()
    }

    /// Takes one received byte. A NUL, a carriage return, or any byte that
    /// arrives while the buffer is full completes the record: the pending
    /// bytes are returned, the buffer becomes empty, and the byte itself is
    /// dropped. Any other byte is appended and nothing is returned.
    pub fn on_byte(&mut self, byte: u8) -> (r: Option<Vec<u8>>)
        requires
            old(self).wf(),
        ensures
            final(self).wf(),
            final(self)@ == pending_after(old(self)@, byte),
            flushes(old(self)@, byte) <==> r.is_some(),
            r matches Some(rec) ==> rec@ == old(self)@,
    {
        if byte == 0 || byte == 13 || self.bytes.len() >= CAPTURE_CAPACITY {
            let mut record: Vec<u8> = Vec::new();
            std::mem::swap(&mut record, &mut self.bytes);
            Some(record)
        } else {
            self.bytes.push(byte);
            None
        }
    }
}

proof fn lemma_feed_no_flush(buf: Seq<u8>, input: Seq<u8>)
    requires
        no_delimiters(input),
        buf.len() + input.len() <= 8,
    ensures
        feed(buf, input) == (buf + input, Seq::<Seq<u8>>::empty()),
    decreases input.len(),
{
    if input.len() > 0 {
        let init = input.drop_last();
        assert(no_delimiters(init)) by {
            assert forall|i: int| 0 <= i < init.len() implies #[trigger] init[i] != 0 && init[i] != 13 by {
                assert(init[i] == input[i]);
            }
        }
        lemma_feed_no_flush(buf, init);
        assert(input.last() == input[input.len() - 1]);
        assert((buf + init).push(input.last()) =~= buf + input);
    }
}

/// Receiving a run of at most eight bytes without a NUL or a carriage return
/// and then a carriage return, starting from an empty buffer, completes one
/// record that holds exactly that run, and leaves the buffer empty.
pub proof fn lemma_record_ends_at_return(text: Seq<u8>)
    requires
        text.len() <= 8,
        no_delimiters(text),
    ensures
        feed(Seq::empty(), text.push(13)) == (Seq::<u8>::empty(), seq![text]),
{
    let input = text.push(13);
    assert(input.drop_last() =~= text);
    lemma_feed_no_flush(Seq::empty(), text);
    assert(Seq::<u8>::empty() + text =~= text);
    assert(Seq::<Seq<u8>>::empty().push(text) =~= seq![text]);
}

/// From an empty buffer, eight bytes without a NUL or a carriage return
/// complete no record and fill the buffer; a ninth such byte completes a
/// record of the first eight, is itself dropped, and leaves the buffer
/// empty.
pub proof fn lemma_full_buffer_flushes(input: Seq<u8>)
    requires
        input.len() == 9,
        no_delimiters(input),
    ensures
        feed(Seq::empty(), input.subrange(0, 8)) == (input.subrange(0, 8), Seq::<Seq<u8>>::empty()),
        feed(Seq::empty(), input) == (Seq::<u8>::empty(), seq![input.subrange(0, 8)]),
{
    let first = input.subrange(0, 8);
    assert(no_delimiters(first)) by {
        assert forall|i: int| 0 <= i < first.len() implies #[trigger] first[i] != 0 && first[i] != 13 by {
            assert(first[i] == input[i]);
        }
    }
    lemma_feed_no_flush(Seq::empty(), first);
    assert(Seq::<u8>::empty() + first =~= first);
    assert(input.drop_last() =~= first);
    assert(Seq::<Seq<u8>>::empty().push(first) =~= seq![first]);
}

} // verus!
