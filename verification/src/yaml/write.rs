//! Writing text to a byte sink.
use vstd::prelude::*;
use vstd::string::StringSliceAdditionalSpecFns;

verus! {

/// Hands the text that a YAML emitter writes to a byte writer, and keeps the
/// bytes handed over so far.
pub struct IoAdapter<'a, T> {
    inner: &'a mut T,
    written: Ghost<Seq<u8>>,
}

impl<'a, T> IoAdapter<'a, T> {
    /// The writer that receives the text.
    pub closed spec fn writer(self) -> &'a mut T {
        self.inner
    }

    /// The bytes handed to the writer so far, in order.
    pub closed spec fn written(self) -> Seq<u8> {
        self.written@
    }

    /// Create a new `IoAdapter` that wraps the given writer; nothing has been
    /// written through it yet.
    pub fn new(writer: &'a mut T) -> (r: IoAdapter<'a, T>)
        ensures
            *r.writer() == *old(writer),
            *final(writer) == *final(r.writer()),
            r.written() == Seq::<u8>::empty(),
    {
        IoAdapter { inner: writer, written: Ghost(Seq::empty()) }
    }
}

/// The error of a text sink.
#[verifier::external_type_specification]
#[verifier::external_body]
pub struct ExFmtError(std::fmt::Error);

/// Calls `std::io::Write::write_all` on the adapter's writer, which writes
/// all the bytes or fails; a failure is reported as `std::fmt::Error`.
/// Claims that the bytes are handed to the adapter's writer; what the writer
/// does with them, and so the outcome, is not claimed.
#[verifier::external_body]
fn write_all<T: std::io::Write>(adapter: &mut IoAdapter<'_, T>, bytes: &[u8]) -> (r: Result<(), std::fmt::Error>)
    ensures
        final(adapter).written() == old(adapter).written() + bytes@,
{
    adapter.inner.write_all(bytes).map_err(|_| std::fmt::Error)
}

impl<'a, T: std::io::Write> IoAdapter<'a, T> {
    /// Writes the UTF-8 bytes of `s` to the writer; any I/O error is
    /// reported as `std::fmt::Error`.
    pub fn write_str(&mut self, s: &str) -> (r: Result<(), std::fmt::Error>)
        ensures
            final(self).written() == old(self).written() + s.spec_bytes(),
    {
        write_all(self, s.as_bytes())
    }
}

} // verus!
