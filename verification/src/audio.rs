//! Audio on the client: which captured buffers are worth sending, how a
//! received frame fills the playback buffer, and the buffers the codec
//! writes into.
use vstd::prelude::*;

verus! {

/// Sample rate of captured and played audio: 48 kHz.
pub const SAMPLE_RATE: u32 = 48_000;

/// Samples in one 20 ms frame at 48 kHz.
pub const FRAME_SIZE: usize = 960;

/// Bits per second that the encoder aims at: 64 kbps.
pub const BITRATE: i32 = 64_000;

/// A captured buffer is sent only if some sample is louder than this.
pub const SENSITIVITY: i32 = 32;

/// How loud a sample is.
pub open spec fn magnitude(s: i16) -> int {
    if s < 0 {
        -(s as int)
    } else {
        s as int
    }
}

/// Some sample is louder than [`SENSITIVITY`].
pub open spec fn spec_audible(samples: Seq<i16>) -> bool {
    exists|i: int| 0 <= i < samples.len() && magnitude(#[trigger] samples[i]) > SENSITIVITY
}

/// Whether a captured buffer holds sound worth sending: some sample is
/// louder than [`SENSITIVITY`]. The loudness of `i16::MIN` does not fit in an
/// `i16`, so such a sample is not accepted.
pub fn is_audible(samples: &[i16]) -> (r: bool)
    requires
        forall|i: int| 0 <= i < samples@.len() ==> samples@[i] != i16::MIN,
    ensures
        r == spec_audible(samples@),
{
    let mut i: usize = 0;
    while i < samples.len()
        invariant
            i <= samples@.len(),
            forall|k: int| 0 <= k < samples@.len() ==> samples@[k] != i16::MIN,
            forall|k: int| 0 <= k < i ==> magnitude(#[trigger] samples@[k]) <= SENSITIVITY,
        decreases samples.len() - i,
    {
        let s = samples[i];
        let loud = if s < 0 {
            -s
        } else {
            s
        };
        if loud as i32 > SENSITIVITY {
            return true;
        }
        i = i + 1;
    }
    false
}

/// The playback buffer after a frame was taken: as much of `src` as fits,
/// then silence; all silence when there was no frame.
pub open spec fn spec_played(len: nat, src: Option<&[i16]>) -> Seq<i16> {
    Seq::new(
        len,
        |i: int|
            match src {
                Some(s) => if i < s@.len() {
                    s@[i]
                } else {
                    0i16
                },
                None => 0i16,
            },
    )
}

/// Fills a playback buffer from a received frame: the frame's samples as far
/// as they fit, silence after them, and silence throughout when no frame came.
pub fn fill_output(out: &mut [i16], src: Option<&[i16]>)
    ensures
        final(out)@ == spec_played(old(out)@.len(), src),
        final(out)@.len() == old(out)@.len(),
        forall|i: int|
            0 <= i < final(out)@.len() ==> #[trigger] final(out)@[i] == match src {
                Some(s) => if i < s@.len() {
                    s@[i]
                } else {
                    0i16
                },
                None => 0i16,
            },
{
    let n = out.len();
    let mut i: usize = 0;
    while i < n
        invariant
            n == out@.len(),
            n == old(out)@.len(),
            i <= n,
            forall|k: int|
                0 <= k < i ==> #[trigger] out@[k] == spec_played(n as nat, src)[k],
        decreases n - i,
    {
        let v: i16 = match src {
            Some(s) => if i < s.len() {
                s[i]
            } else {
                0
            },
            None => 0,
        };
        out[i] = v;
        i = i + 1;
    }
    assert(out@ =~= spec_played(n as nat, src));
}

/// Playback keeps the buffer's length, copies the frame into every place
/// that both have, and is silent everywhere else.
pub proof fn lemma_played(len: nat, src: Option<&[i16]>)
    ensures
        spec_played(len, src).len() == len,
        src matches Some(s) ==> forall|i: int|
            0 <= i < len && i < s@.len() ==> #[trigger] spec_played(len, src)[i] == s@[i],
        src matches Some(s) ==> forall|i: int|
            s@.len() <= i < len ==> #[trigger] spec_played(len, src)[i] == 0,
        src is None ==> forall|i: int| 0 <= i < len ==> #[trigger] spec_played(len, src)[i] == 0,
{
}

/// The buffer that the encoder writes a frame into: two bytes per sample,
/// zeroed.
pub fn encode_buffer(samples: usize) -> (r: Vec<u8>)
    requires
        samples * 2 <= usize::MAX,
    ensures
        r@ == Seq::new((samples * 2) as nat, |i: int| 0u8),
{
    let r = vec![0u8; samples * 2];
    assert(r@ =~= Seq::new((samples * 2) as nat, |i: int| 0u8));
    r
}

/// The buffer that the decoder writes a frame into: [`FRAME_SIZE`] samples,
/// zeroed.
pub fn decode_buffer() -> (r: Vec<i16>)
    ensures
        r@ == Seq::new(FRAME_SIZE as nat, |i: int| 0i16),
{
    let r = vec![0i16; FRAME_SIZE];
    assert(r@ =~= Seq::new(FRAME_SIZE as nat, |i: int| 0i16));
    r
}

/// Keeps what the codec wrote: the first `written` elements of its buffer
/// (all of it when `written` is not smaller).
pub fn keep_written<T>(buf: Vec<T>, written: usize) -> (r: Vec<T>)
    ensures
        r@ == (if written < buf@.len() {
            buf@.take(written as int)
        } else {
            buf@
        }),
{
    let mut buf = buf;
    buf.truncate(written);
    buf
}

} // verus!
