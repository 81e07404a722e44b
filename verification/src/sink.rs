//! The in-memory sink: the one output destination that lives inside the
//! library. The file and standard-output sinks perform I/O and live with
//! the caller, which hands them the same chunks in the same order.

use vstd::prelude::*;

verus! {

/// A write-only, append-only in-memory collector.
pub struct BufferSink {
    data: String,
}

impl View for BufferSink {
    type V = Seq<char>;

    closed spec fn view(&self) -> Seq<char> {
        self.data@
    }
}

impl BufferSink {
    /// An empty collector.
    pub fn new() -> (r: BufferSink)
        ensures
            r@ == Seq::<char>::empty(),
    {
        let r = BufferSink { data: String::new() };
        proof {
            assert(r@ =~= Seq::<char>::empty());
        }
        r
    }

    /// Appends one chunk; nothing already written moves or changes.
    pub fn write_text(&mut self, chunk: &str)
        ensures
            final(self)@ == old(self)@ + chunk@,
    {
        self.data.append(chunk);
    }

    /// A memory buffer holds everything as soon as it is written, so
    /// flushing changes nothing.
    pub fn flush(&mut self)
        ensures
            final(self)@ == old(self)@,
    {
    }

    /// Finalizes the sink and hands its contents back.
    pub fn into_string(self) -> (r: String)
        ensures
            r@ == self@,
    {
        self.data
    }
}

} // verus!
