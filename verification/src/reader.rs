//! Opening an entry and reading its payload.
//!
//! A [`ReaderBuilder`] is an entry whose method has been accepted and whose
//! payload has not been located. [`ReaderBuilder::seek_to_data`] turns it into
//! a [`Reader`], which is fed the bytes of the storage and fills the caller's
//! buffers.

use vstd::prelude::*;
use vstd::slice::slice_subrange;
use crate::engine::{clean_window, restarts, Decompressor, Engine, WINDOW_SIZE};
use crate::error::{MethodNotSupported, NotAnArchive, Truncated};
use crate::header::{is_local_header, payload_gap, payload_skip, FileHeader, DEFLATE, STORED};
use crate::model::{drains, min, reads, ReaderState};

verus! {

/// What one call of [`Reader::read`] achieved.
#[derive(Debug, Clone, Copy, PartialEq, Eq)]
pub struct Progress {
    /// Bytes written to the front of the caller's buffer.
    pub copied: usize,
    /// Bytes used up at the front of the input.
    pub consumed: usize,
}

impl Progress {
    /// The read used up input and delivered nothing although the buffer had
    /// `room`: the entry is not at its end, and the read is to be made again.
    pub fn stalled(&self, room: usize) -> (again: bool)
        ensures
            again == (self.copied == 0 && self.consumed > 0 && room > 0),
    {
        self.copied == 0 && self.consumed > 0 && room > 0
    }
}

enum ReaderImpl<'a> {
    Stored { remaining: u64 },
    Deflate { decompressor: &'a mut Engine, out_pos: u16, read_cursor: u16 },
}

impl<'a> ReaderImpl<'a> {
    spec fn state(&self) -> ReaderState {
        match self {
            ReaderImpl::Stored { remaining } => ReaderState::Stored { remaining: *remaining as nat },
            ReaderImpl::Deflate { decompressor, out_pos, read_cursor } => ReaderState::Deflate {
                inflater: decompressor.inflater(),
                window: decompressor.window(),
                out_pos: *out_pos as nat,
                read_cursor: *read_cursor as nat,
            },
        }
    }
}

/// An entry that is accepted for reading and not yet located in the storage.
pub struct ReaderBuilder<'a> {
    imp: ReaderImpl<'a>,
    start: u64,
}

/// The payload of one entry as a stream of bytes.
pub struct Reader<'a>(ReaderImpl<'a>);

impl<'a> View for Reader<'a> {
    type V = ReaderState;

    closed spec fn view(&self) -> ReaderState {
        self.0.state()
    }
}

/// Copies the leading bytes of `src` to the front of `buf`, as many as fit,
/// and returns their number.
pub fn copy_prefix(src: &[u8], buf: &mut [u8]) -> (n: usize)
    ensures
        n == min(src@.len() as int, old(buf)@.len() as int),
        final(buf)@ == src@.take(n as int) + old(buf)@.skip(n as int),
{
    let n: usize = if src.len() <= buf.len() {
        src.len()
    } else {
        buf.len()
    };
    let mut i: usize = 0;
    while i < n
        invariant
            i <= n,
            n <= src@.len(),
            n <= buf@.len(),
            buf@.len() == old(buf)@.len(),
            forall|j: int| 0 <= j < i ==> buf@[j] == src@[j],
            forall|j: int| i <= j < buf@.len() ==> buf@[j] == old(buf)@[j],
        decreases n - i,
    {
        buf[i] = src[i];
        i += 1;
    }
    assert(buf@ =~= src@.take(n as int) + old(buf)@.skip(n as int));
    n
}

impl<'a> ReaderBuilder<'a> {
    /// The state in which the reader of this entry starts.
    pub closed spec fn state(&self) -> ReaderState {
        self.imp.state()
    }

    /// Offset of the entry's local file header in the storage.
    pub closed spec fn offset(&self) -> u64 {
        self.start
    }

    /// Accepts an entry for reading if its method is stored, or is deflate
    /// and the session can inflate. Every other entry is refused, and the
    /// decompressor stays as it was.
    ///
    /// A stored entry leaves the decompressor alone. A deflated entry borrows
    /// its engine, which is allocated on first use and reset: the inflater is
    /// put back to the start of a stream and the window is cleared, whatever
    /// was read before.
    pub fn new(header: FileHeader, decompressor: &'a mut Decompressor) -> (r: Result<
        Self,
        MethodNotSupported,
    >)
        ensures
            r is Ok <==> header.method == STORED || (header.method == DEFLATE && old(
                decompressor,
            ).supports_deflate()),
            r is Err ==> *final(decompressor) == *old(decompressor),
            r matches Ok(builder) ==> {
                &&& builder.offset() == header.start
                &&& builder.state().wf()
                &&& header.method == STORED ==> {
                    &&& builder.state() == (ReaderState::Stored { remaining: header.len as nat })
                    &&& *final(decompressor) == *old(decompressor)
                }
                &&& header.method == DEFLATE ==> {
                    &&& builder.state() is Deflate
                    &&& restarts(old(decompressor).engine(), builder.state()->inflater)
                    &&& builder.state()->window == clean_window()
                    &&& builder.state()->out_pos == 0
                    &&& builder.state()->read_cursor == 0
                    &&& final(decompressor).engine() is Some
                    &&& final(decompressor).supports_deflate()
                }
            },
    {
        if header.method == STORED {
            Ok(ReaderBuilder { imp: ReaderImpl::Stored { remaining: header.len }, start: header.start })
        } else if header.method == DEFLATE {
            match decompressor.acquire() {
                Some(engine) => Ok(
                    ReaderBuilder {
                        imp: ReaderImpl::Deflate { decompressor: engine, out_pos: 0, read_cursor: 0 },
                        start: header.start,
                    },
                ),
                None => Err(MethodNotSupported),
            }
        } else {
            Err(MethodNotSupported)
        }
    }

    /// Offset of the entry's local file header in the storage: where the
    /// bytes for [`ReaderBuilder::seek_to_data`] are read.
    pub fn start(&self) -> (start: u64)
        ensures
            start == self.offset(),
    {
        self.start
    }

    /// Locates the payload. `prefix` holds the bytes of the storage from
    /// [`ReaderBuilder::start`] on, `LOCAL_HEADER_LEN` of them or more.
    ///
    /// If they begin a local file header, the result is the reader of the
    /// entry and the number of bytes to skip after the fixed part of the
    /// header to stand on the payload. Anything else is refused, and the
    /// entry cannot be read.
    pub fn seek_to_data(self, prefix: &[u8]) -> (r: Result<(Reader<'a>, i64), NotAnArchive>)
        ensures
            r is Ok <==> is_local_header(prefix@),
            r matches Ok((reader, skip)) ==> reader@ == self.state() && skip == payload_gap(
                prefix@,
            ),
    {
        match payload_skip(prefix) {
            Ok(skip) => Ok((Reader(self.imp), skip)),
            Err(e) => Err(e),
        }
    }
}

impl<'a> Reader<'a> {
    /// Whether the next read takes bytes from its input. While this is
    /// false, a read may be given an empty input.
    pub fn needs_input(&self) -> (b: bool)
        ensures
            b == self@.needs_input(),
    {
        match &self.0 {
            ReaderImpl::Stored { remaining } => *remaining > 0,
            ReaderImpl::Deflate { out_pos, read_cursor, .. } => *read_cursor == *out_pos,
        }
    }

    /// The bytes that a stored entry has still to deliver.
    pub fn remaining(&self) -> (left: Option<u64>)
        ensures
            left == match self@ {
                ReaderState::Stored { remaining } => Some(remaining as u64),
                ReaderState::Deflate { .. } => None,
            },
    {
        match &self.0 {
            ReaderImpl::Stored { remaining } => Some(*remaining),
            ReaderImpl::Deflate { .. } => None,
        }
    }

    /// Hands out bytes that are already inflated, as many as fit into `buf`,
    /// and returns their number. No input is touched and the inflater does
    /// not run.
    pub fn drain(&mut self, buf: &mut [u8]) -> (copied: usize)
        requires
            old(self)@.wf(),
        ensures
            final(self)@.wf(),
            drains(old(self)@, old(buf)@, final(self)@, final(buf)@, copied as nat),
    {
        match &mut self.0 {
            ReaderImpl::Stored { .. } => {
                assert(buf@ =~= Seq::<u8>::empty().take(0) + buf@.skip(0));
                0
            },
            ReaderImpl::Deflate { decompressor, out_pos, read_cursor } => {
                let pending = decompressor.slice(*read_cursor as usize, *out_pos as usize);
                let copied = copy_prefix(pending, buf);
                *read_cursor = (*read_cursor as usize + copied) as u16;
                copied
            },
        }
    }

    /// Takes up one run of the inflater and hands out what it wrote.
    ///
    /// The inflater has run from where the window is filled next, has used
    /// `consumed` bytes of its input and has written `written` bytes. The
    /// cursors move to the two ends of what was written, and as much of it as
    /// fits goes to the front of `buf`. A stored entry has no window and
    /// delivers nothing.
    pub fn after_inflate(&mut self, consumed: usize, written: usize, buf: &mut [u8]) -> (progress:
        Progress)
        requires
            old(self)@.wf(),
            old(self)@.pending().len() == 0,
            old(self)@.fill_start() + written <= WINDOW_SIZE,
        ensures
            final(self)@.wf(),
            progress.consumed == consumed,
            drains(
                old(self)@.filled(written as nat),
                old(buf)@,
                final(self)@,
                final(buf)@,
                progress.copied as nat,
            ),
    {
        match &mut self.0 {
            ReaderImpl::Stored { .. } => {},
            ReaderImpl::Deflate { out_pos, read_cursor, .. } => {
                let start: usize = if *out_pos as usize == WINDOW_SIZE {
                    0
                } else {
                    *out_pos as usize
                };
                *read_cursor = start as u16;
                *out_pos = (start + written) as u16;
            },
        }
        let copied = self.drain(buf);
        Progress { copied, consumed }
    }

    /// Reads the next bytes of the entry into the front of `buf`.
    ///
    /// `input` holds the bytes that the storage has ready at its cursor; it
    /// is empty only when the storage is at its end. The result tells how
    /// many bytes were delivered and how many bytes of `input` were used up;
    /// the caller moves the cursor of the storage past those.
    ///
    /// A stored entry delivers the front of `input`, up to what the entry has
    /// left. A deflated entry delivers what is pending in the window; if
    /// nothing is, the inflater first runs once on `input`. A read may
    /// deliver less than `buf` has room for, and a deflated entry may use up
    /// input without delivering anything yet, which [`Progress::stalled`]
    /// tells. A stored entry is at its end
    /// when it has nothing left; a deflated entry is at its end when a read
    /// that was offered an empty input delivers nothing. Neither the length
    /// nor a checksum of a deflated entry is checked.
    ///
    /// The one failure is a stored entry whose storage ends before the entry
    /// does; it changes nothing.
    pub fn read(&mut self, input: &[u8], buf: &mut [u8]) -> (r: Result<Progress, Truncated>)
        requires
            old(self)@.wf(),
        ensures
            final(self)@.wf(),
            r is Err <==> old(self)@.starved(input@.len(), old(buf)@.len()),
            r is Err ==> final(self)@ == old(self)@ && final(buf)@ == old(buf)@,
            r matches Ok(progress) ==> reads(
                old(self)@,
                input@,
                old(buf)@,
                final(self)@,
                final(buf)@,
                progress.copied as nat,
                progress.consumed as nat,
            ),
    {
        let step: Option<(usize, usize)> = match &mut self.0 {
            ReaderImpl::Stored { remaining } => {
                if *remaining > 0 && buf.len() > 0 && input.len() == 0 {
                    return Err(Truncated);
                }
                let limit: usize = if *remaining < input.len() as u64 {
                    *remaining as usize
                } else {
                    input.len()
                };
                let copied = copy_prefix(slice_subrange(input, 0, limit), buf);
                *remaining = *remaining - copied as u64;
                assert(input@.subrange(0, limit as int).take(copied as int) =~= input@.take(
                    copied as int,
                ));
                return Ok(Progress { copied, consumed: copied });
            },
            ReaderImpl::Deflate { decompressor, out_pos, read_cursor } => {
                if *read_cursor == *out_pos {
                    let start: usize = if *out_pos as usize == WINDOW_SIZE {
                        0
                    } else {
                        *out_pos as usize
                    };
                    Some(decompressor.inflate(input, start))
                } else {
                    None
                }
            },
        };
        match step {
            Some((consumed, written)) => Ok(self.after_inflate(consumed, written, buf)),
            None => {
                let copied = self.drain(buf);
                Ok(Progress { copied, consumed: 0 })
            },
        }
    }
}

} // verus!
