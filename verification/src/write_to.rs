//! Text written into a buffer of fixed size. What does not fit is cut off,
//! and the writer remembers that it was.

use vstd::prelude::*;
use vstd::string::StringSliceAdditionalSpecFns;
use vstd::utf8::{valid_utf8, valid_utf8_concat};

verus! {

/// The text did not fit into the buffer.
#[derive(Clone, Copy, Debug, PartialEq, Eq, Structural)]
pub struct WriteError;

/// `core::str::Utf8Error`, the reason why bytes are no text. Nothing is said
/// of what it holds.
#[verifier::external_type_specification]
#[verifier::external_body]
pub struct ExUtf8Error(core::str::Utf8Error);

/// `core::str::from_utf8`. Believed, not proved: bytes that are valid UTF-8
/// are accepted, and the string slice that comes back holds the bytes that
/// went in.
#[verifier::external_body]
fn str_from_utf8<'a>(bytes: &'a [u8]) -> (r: Result<&'a str, core::str::Utf8Error>)
    ensures
        valid_utf8(bytes@) ==> r is Ok,
        r is Ok ==> r->Ok_0.spec_bytes() == bytes@,
{
    core::str::from_utf8(bytes)
}

/// A writer into a borrowed buffer.
pub struct WriteTo<'a> {
    buffer: &'a mut [u8],
    /// The number of bytes that were handed to the writer. It is greater
    /// than the size of the buffer once a text was cut off.
    used: usize,
}

impl<'a> WriteTo<'a> {
    /// The size of the buffer.
    pub closed spec fn capacity(&self) -> nat {
        self.buffer@.len()
    }

    /// The number of bytes that were handed to the writer.
    pub closed spec fn used(&self) -> nat {
        self.used as nat
    }

    /// What the buffer holds.
    pub closed spec fn bytes(&self) -> Seq<u8> {
        self.buffer@
    }

    /// Whether a text was cut off.
    pub open spec fn overflowed(&self) -> bool {
        self.used() > self.capacity()
    }

    /// The bytes of the texts written so far, while none was cut off.
    pub open spec fn written(&self) -> Seq<u8>
        recommends
            !self.overflowed(),
    {
        self.bytes().take(self.used() as int)
    }

    /// Whether the writer is in order: while nothing was cut off, what was
    /// written is valid UTF-8.
    pub open spec fn wf(&self) -> bool {
        !self.overflowed() ==> valid_utf8(self.written())
    }

    /// A writer at the start of `buffer`.
    pub fn new(buffer: &'a mut [u8]) -> (w: Self)
        ensures
            w.wf(),
            w.used() == 0,
            w.capacity() == old(buffer)@.len(),
            w.bytes() == old(buffer)@,
    {
        let w = WriteTo { buffer, used: 0 };
        assert(w.written() =~= Seq::<u8>::empty());
        w
    }

    /// The number of bytes that were handed to the writer.
    pub fn bytes_handed(&self) -> (n: usize)
        ensures
            n == self.used(),
    {
        self.used
    }

    /// The size of the buffer.
    pub fn size(&self) -> (n: usize)
        ensures
            n == self.capacity(),
    {
        self.buffer.len()
    }

    /// Writes `s` behind what was written before, as far as it fits. It is
    /// an error if `s` does not fit whole, and every write after that is an
    /// error that changes nothing.
    pub fn write_str(&mut self, s: &str) -> (r: Result<(), WriteError>)
        requires
            old(self).wf(),
            old(self).used() + s.spec_bytes().len() <= usize::MAX,
        ensures
            final(self).wf(),
            final(self).capacity() == old(self).capacity(),
            old(self).overflowed() ==> r is Err && final(self).used() == old(self).used()
                && final(self).bytes() == old(self).bytes(),
            !old(self).overflowed() ==> {
                let room = old(self).capacity() - old(self).used();
                let taken = if s.spec_bytes().len() <= room {
                    s.spec_bytes().len() as int
                } else {
                    room
                };
                &&& r is Ok <==> s.spec_bytes().len() <= room
                &&& final(self).used() == old(self).used() + s.spec_bytes().len()
                &&& final(self).bytes() == old(self).written() + s.spec_bytes().take(taken)
                    + old(self).bytes().skip(old(self).used() + taken)
            },
    {
        if self.used > self.buffer.len() {
            return Err(WriteError);
        }
        let raw_s: &[u8] = s.as_bytes();
        let capacity: usize = self.buffer.len();
        let room: usize = capacity - self.used;
        let write_num: usize = if raw_s.len() <= room {
            raw_s.len()
        } else {
            room
        };
        let start: usize = self.used;
        let ghost before = self.buffer@;
        let mut i: usize = 0;
        while i < write_num
            invariant
                i <= write_num,
                write_num <= raw_s@.len(),
                start + write_num <= capacity,
                before.len() == capacity,
                self.used == start,
                self.buffer@.len() == before.len(),
                self.buffer@ == before.take(start as int) + raw_s@.take(i as int) + before.skip(
                    start + i,
                ),
            decreases write_num - i,
        {
            self.buffer[start + i] = raw_s[i];
            i = i + 1;
            assert(self.buffer@ =~= before.take(start as int) + raw_s@.take(i as int)
                + before.skip(start + i));
        }
        self.used = start + raw_s.len();
        proof {
            if raw_s@.len() <= room {
                assert(raw_s@.take(write_num as int) =~= raw_s@);
                assert(self.buffer@.take(self.used as int) =~= before.take(start as int)
                    + raw_s@);
                vstd::utf8::encode_utf8_valid_utf8(s@);
                valid_utf8_concat(before.take(start as int), raw_s@);
            }
        }
        if write_num < raw_s.len() {
            Err(WriteError)
        } else {
            Ok(())
        }
    }

    /// The text that was written, unless some of it was cut off.
    pub fn as_str(self) -> (r: Option<&'a str>)
        requires
            self.wf(),
        ensures
            r is Some <==> !self.overflowed(),
            r is Some ==> r->Some_0.spec_bytes() == self.written(),
    {
        if self.used <= self.buffer.len() {
            let used: usize = self.used;
            let whole: &'a [u8] = self.buffer;
            let text: &'a [u8] = vstd::slice::slice_subrange(whole, 0, used);
            match str_from_utf8(text) {
                Ok(s) => Some(s),
                Err(_) => None,
            }
        } else {
            None
        }
    }
}

/// Writes `text` at the start of `buffer` and hands it back as the buffer
/// holds it. It is an error if `text` does not fit.
pub fn show<'a>(buffer: &'a mut [u8], text: &str) -> (r: Result<&'a str, WriteError>)
    ensures
        r is Ok <==> text.spec_bytes().len() <= old(buffer)@.len(),
        r is Ok ==> r->Ok_0.spec_bytes() == text.spec_bytes(),
{
    let mut w = WriteTo::new(buffer);
    let needed: usize = text.as_bytes().len();
    if needed > w.buffer.len() {
        return Err(WriteError);
    }
    match w.write_str(text) {
        Ok(()) => {},
        Err(e) => {
            return Err(e);
        },
    }
    proof {
        assert(w.written() =~= text.spec_bytes());
    }
    match w.as_str() {
        Some(s) => Ok(s),
        None => Err(WriteError),
    }
}

} // verus!
