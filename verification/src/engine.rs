//! The inflate engine that one archive session shares among its entries: the
//! state of the inflater and the window it writes to.

use vstd::prelude::*;
use vstd::slice::slice_subrange;

verus! {

/// Capacity of the output window, which is also the farthest distance a
/// deflate stream can reach back.
pub const WINDOW_SIZE: usize = 32768;

/// A window with every byte cleared.
pub open spec fn clean_window() -> Seq<u8> {
    Seq::new(WINDOW_SIZE as nat, |i: int| 0u8)
}

/// `miniz_oxide::inflate::core::DecompressorOxide`, the state of one inflate
/// stream. Nothing inside it is visible to the proofs.
#[verifier::external_type_specification]
#[verifier::external_body]
pub struct ExDecompressorOxide(miniz_oxide::inflate::core::DecompressorOxide);

/// `miniz_oxide::inflate::TINFLStatus`, the verdict of one inflate step. The
/// readers do not look at it.
#[verifier::external_type_specification]
#[verifier::external_body]
pub struct ExTINFLStatus(miniz_oxide::inflate::TINFLStatus);

/// What `miniz_oxide::inflate::core::decompress` makes of its arguments: the
/// state of the inflater after the call, the output buffer after the call,
/// the number of input bytes read and the number of bytes written. The call
/// reads nothing but its arguments, so the same arguments give the same
/// result; what the result is takes the whole of inflate to say.
pub uninterp spec fn inflated(
    r: miniz_oxide::inflate::core::DecompressorOxide,
    in_buf: Seq<u8>,
    out: Seq<u8>,
    out_pos: usize,
    flags: u32,
) -> (miniz_oxide::inflate::core::DecompressorOxide, Seq<u8>, usize, usize);

/// What `DecompressorOxide::init` makes of a state: the same state, set to
/// begin a new stream.
pub uninterp spec fn restarted(
    r: miniz_oxide::inflate::core::DecompressorOxide,
) -> miniz_oxide::inflate::core::DecompressorOxide;

/// `DecompressorOxide::new` builds the state of a stream that has not begun.
/// Nothing is claimed of it.
pub assume_specification[ miniz_oxide::inflate::core::DecompressorOxide::new ]() -> (r:
    miniz_oxide::inflate::core::DecompressorOxide);

/// `DecompressorOxide::init` puts the state back to the start of a stream.
///
/// Trusted: the state after the call depends on the state before it alone.
pub assume_specification[ miniz_oxide::inflate::core::DecompressorOxide::init ](
    r: &mut miniz_oxide::inflate::core::DecompressorOxide,
)
    ensures
        *final(r) == restarted(*old(r)),
;

/// `miniz_oxide::inflate::core::decompress` inflates from `in_buf` into `out`,
/// writing from `out_pos` on, and returns its verdict, the number of input
/// bytes it read and the number of bytes it wrote.
///
/// Trusted, for a call with no flag set on a buffer of `WINDOW_SIZE` bytes,
/// which is then used round and round: the state and the buffer after the
/// call and the two counts are what `inflated` names; the call reads no more
/// than `in_buf` holds, writes no further than the end of `out`, and `out`
/// keeps its length. The verdict is not named. Other flags are left out:
/// with the flag for a buffer that does not wrap, a state that stopped in
/// the middle of a match can reach before the buffer.
pub assume_specification[ miniz_oxide::inflate::core::decompress ](
    r: &mut miniz_oxide::inflate::core::DecompressorOxide,
    in_buf: &[u8],
    out: &mut [u8],
    out_pos: usize,
    flags: u32,
) -> (res: (miniz_oxide::inflate::TINFLStatus, usize, usize))
    requires
        flags == 0,
        old(out)@.len() == WINDOW_SIZE,
    ensures
        (*final(r), final(out)@, res.1, res.2) == inflated(
            *old(r),
            in_buf@,
            old(out)@,
            out_pos,
            flags,
        ),
        final(out)@.len() == old(out)@.len(),
        res.1 <= in_buf@.len(),
        out_pos <= old(out)@.len() ==> out_pos + res.2 <= old(out)@.len(),
;

/// The output window of the inflater: a fixed block of `WINDOW_SIZE` bytes
/// that is written round and round.
pub struct InflateBuffer([u8; WINDOW_SIZE]);

impl View for InflateBuffer {
    type V = Seq<u8>;

    closed spec fn view(&self) -> Seq<u8> {
        self.0@
    }
}

impl Default for InflateBuffer {
    fn default() -> (buffer: Self)
        ensures
            buffer@ == clean_window(),
    {
        InflateBuffer([0u8; WINDOW_SIZE])
    }
}

/// An inflater together with its window.
pub struct Engine {
    state: miniz_oxide::inflate::core::DecompressorOxide,
    window: InflateBuffer,
}

impl Engine {
    /// The state of the inflater.
    pub closed spec fn inflater(&self) -> miniz_oxide::inflate::core::DecompressorOxide {
        self.state
    }

    /// What the window holds.
    pub closed spec fn window(&self) -> Seq<u8> {
        self.window@
    }

    /// An engine with a new inflater and a clean window.
    pub fn new() -> (engine: Self)
        ensures
            engine.window() == clean_window(),
    {
        Engine {
            state: miniz_oxide::inflate::core::DecompressorOxide::new(),
            window: InflateBuffer::default(),
        }
    }

    /// Puts the inflater back to the start of a stream and clears the window,
    /// so that nothing of an earlier entry is left.
    pub fn reset(&mut self)
        ensures
            final(self).inflater() == restarted(old(self).inflater()),
            final(self).window() == clean_window(),
    {
        self.state.init();
        self.window = InflateBuffer::default();
    }

    /// The bytes of the window from `from` up to `to`.
    pub fn slice(&self, from: usize, to: usize) -> (bytes: &[u8])
        requires
            from <= to <= WINDOW_SIZE,
        ensures
            bytes@ == self.window().subrange(from as int, to as int),
    {
        slice_subrange(self.window.0.as_slice(), from, to)
    }

    /// Runs one step of the inflater on `input`, writing into the window from
    /// `at` on. Returns how many bytes of `input` were read and how many
    /// bytes were written.
    pub fn inflate(&mut self, input: &[u8], at: usize) -> (step: (usize, usize))
        requires
            at <= WINDOW_SIZE,
        ensures
            (final(self).inflater(), final(self).window(), step.0, step.1) == inflated(
                old(self).inflater(),
                input@,
                old(self).window(),
                at,
                0,
            ),
            step.0 <= input@.len(),
            at + step.1 <= WINDOW_SIZE,
            final(self).window().len() == WINDOW_SIZE,
    {
        let (_status, consumed, written) = miniz_oxide::inflate::core::decompress(
            &mut self.state,
            input,
            &mut self.window.0,
            at,
            0,
        );
        (consumed, written)
    }
}

/// The inflater `after` is one that has been put back to the start of a
/// stream: the inflater of the engine `before`, restarted, or a new one,
/// restarted, where there was no engine.
pub open spec fn restarts(
    before: Option<Engine>,
    after: miniz_oxide::inflate::core::DecompressorOxide,
) -> bool {
    match before {
        Some(engine) => after == restarted(engine.inflater()),
        None => exists|new: miniz_oxide::inflate::core::DecompressorOxide|
            after == #[trigger] restarted(new),
    }
}

/// The engine of one archive session. It is allocated when the first deflated
/// entry is opened and lent to one reader at a time. A session may also be
/// set up without the ability to inflate; it then reads stored entries only.
pub struct Decompressor {
    deflate: Option<Box<Engine>>,
    enabled: bool,
}

impl Decompressor {
    /// The engine, once one has been allocated.
    pub closed spec fn engine(&self) -> Option<Engine> {
        match self.deflate {
            Some(engine) => Some(*engine),
            None => None,
        }
    }

    /// Whether this session can read deflated entries.
    pub closed spec fn supports_deflate(&self) -> bool {
        self.enabled
    }

    /// A session that cannot read deflated entries.
    pub fn without_deflate() -> (decompressor: Self)
        ensures
            !decompressor.supports_deflate(),
            decompressor.engine() is None,
    {
        Decompressor { deflate: None, enabled: false }
    }

    /// Whether this session can read deflated entries.
    pub fn can_inflate(&self) -> (enabled: bool)
        ensures
            enabled == self.supports_deflate(),
    {
        self.enabled
    }

    /// Lends out the engine, ready for a new entry: allocated if this is its
    /// first use, and reset in any case. A session without the ability to
    /// inflate lends nothing and stays as it is.
    pub fn acquire(&mut self) -> (lent: Option<&mut Engine>)
        ensures
            lent is Some <==> old(self).supports_deflate(),
            lent is None ==> *final(self) == *old(self),
            lent matches Some(engine) ==> {
                &&& restarts(old(self).engine(), engine.inflater())
                &&& engine.window() == clean_window()
                &&& final(self).engine() == Some(*final(engine))
                &&& final(self).supports_deflate()
            },
    {
        if !self.enabled {
            return None;
        }
        if self.deflate.is_none() {
            self.deflate = Some(Box::new(Engine::new()));
        }
        match &mut self.deflate {
            Some(boxed) => {
                let engine: &mut Engine = &mut **boxed;
                engine.reset();
                Some(engine)
            },
            None => None,
        }
    }
}

impl Default for Decompressor {
    /// A session that can read deflated entries and has not allocated its
    /// engine yet.
    fn default() -> (decompressor: Self)
        ensures
            decompressor.supports_deflate(),
            decompressor.engine() is None,
    {
        Decompressor { deflate: None, enabled: true }
    }
}

} // verus!
