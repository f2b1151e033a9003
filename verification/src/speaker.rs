use vstd::prelude::*;

verus! {

/// Sample rate of the speaker in Hz.
pub const SAMPLE_FREQ: u32 = 24_000;

/// Number of entries in the sine wave table.
pub const SINE_WAVE_TABLE_LEN: usize = 256;

/// Number of samples in one audio buffer.
pub const AUDIO_BUF_SAMPLES: usize = 9600;

/// Number of bytes of 16-bit PCM that fill one audio buffer.
pub const BYTES_PER_BUF: usize = AUDIO_BUF_SAMPLES * 2;

/// One past the largest phase: 256 table entries of `0x10000` steps each.
pub const PHASE_END: u32 = 0x100_0000;

/// The phase at which sample `n` of a tone with phase increment `step`
/// reads the table: it starts at 0 and advances by `step` per sample,
/// wrapping at 2^32, and comes back by `PHASE_END` whenever it reaches
/// `PHASE_END`.
pub open spec fn tone_phase(step: u32, n: nat) -> int
    decreases n,
{
    if n == 0 {
        0
    } else {
        let p = (tone_phase(step, (n - 1) as nat) + step) % 0x1_0000_0000;
        if p >= PHASE_END {
            p - PHASE_END
        } else {
            p
        }
    }
}

/// The table entry that sample `n` of the tone reads.
pub open spec fn tone_entry(table: Seq<u32>, step: u32, n: nat) -> u32 {
    table[tone_phase(step, n) / 0x1_0000]
}

/// Every sample of a buffer of the tone reads inside the table, and scaling
/// it by `volume` fits in 32 bits.
pub open spec fn tone_fits(table: Seq<u32>, step: u32, volume: u32) -> bool {
    forall|n: nat|
        n < AUDIO_BUF_SAMPLES ==> {
            &&& 0 <= #[trigger] tone_phase(step, n) < PHASE_END
            &&& volume * tone_entry(table, step, n) <= u32::MAX
        }
}

/// One buffer of a tone: sample `n` is the table entry at `tone_phase(step,
/// n) / 0x10000`, times `volume`, over 256.
pub fn sine_samples(table: &[u32], step: u32, volume: u32) -> (buf: Vec<u32>)
    requires
        table@.len() == SINE_WAVE_TABLE_LEN,
        tone_fits(table@, step, volume),
    ensures
        buf@.len() == AUDIO_BUF_SAMPLES,
        forall|n: int|
            0 <= n < AUDIO_BUF_SAMPLES ==> #[trigger] buf@[n] == volume * tone_entry(
                table@,
                step,
                n as nat,
            ) / 256,
{
    let mut pos: u32 = 0;
    let mut buf: Vec<u32> = Vec::new();
    let mut n: usize = 0;
    while n < AUDIO_BUF_SAMPLES
        invariant
            table@.len() == SINE_WAVE_TABLE_LEN,
            tone_fits(table@, step, volume),
            n <= AUDIO_BUF_SAMPLES,
            buf@.len() == n,
            pos == tone_phase(step, n as nat),
            forall|m: int|
                0 <= m < n ==> #[trigger] buf@[m] == volume * tone_entry(table@, step, m as nat)
                    / 256,
        decreases AUDIO_BUF_SAMPLES - n,
    {
        assert(0 <= tone_phase(step, n as nat) < PHASE_END);
        let index: u32 = pos >> 16;
        assert(pos >> 16u32 == pos / 0x1_0000) by (bit_vector);
        let wave: u32 = table[index as usize];
        assert(volume * wave <= u32::MAX);
        let scaled: u32 = volume * wave;
        assert(scaled >> 8u32 == scaled / 256) by (bit_vector);
        buf.push(scaled >> 8);
        pos = pos.wrapping_add(step);
        if pos >= PHASE_END {
            pos = pos - PHASE_END;
        }
        assert(pos == tone_phase(step, (n + 1) as nat));
        n = n + 1;
    }
    buf
}

/// Whether a buffer of the tone reads inside the table and scales without
/// overflow, which `sine_samples` needs.
pub fn tone_is_safe(table: &[u32], step: u32, volume: u32) -> (b: bool)
    requires
        table@.len() == SINE_WAVE_TABLE_LEN,
    ensures
        b == tone_fits(table@, step, volume),
{
    let mut pos: u32 = 0;
    let mut n: usize = 0;
    while n < AUDIO_BUF_SAMPLES
        invariant
            table@.len() == SINE_WAVE_TABLE_LEN,
            n <= AUDIO_BUF_SAMPLES,
            pos == tone_phase(step, n as nat),
            forall|m: nat|
                m < n ==> {
                    &&& 0 <= #[trigger] tone_phase(step, m) < PHASE_END
                    &&& volume * tone_entry(table@, step, m) <= u32::MAX
                },
        decreases AUDIO_BUF_SAMPLES - n,
    {
        if pos >= PHASE_END {
            assert(!(0 <= tone_phase(step, n as nat) < PHASE_END));
            return false;
        }
        let index: u32 = pos >> 16;
        assert(pos >> 16u32 == pos / 0x1_0000) by (bit_vector);
        let wave: u32 = table[index as usize];
        if wave > 0 && volume > u32::MAX / wave {
            assert(volume * wave > u32::MAX) by (nonlinear_arith)
                requires
                    wave > 0,
                    volume > u32::MAX / wave,
            ;
            assert(!(volume * tone_entry(table@, step, n as nat) <= u32::MAX));
            return false;
        }
        assert(volume * wave <= u32::MAX) by (nonlinear_arith)
            requires
                wave == 0 || volume <= u32::MAX / wave,
        ;
        pos = pos.wrapping_add(step);
        if pos >= PHASE_END {
            pos = pos - PHASE_END;
        }
        n = n + 1;
    }
    true
}

/// The 16-bit little-endian value of bytes `2 * k` and `2 * k + 1`.
pub open spec fn pcm_word(bytes: Seq<u8>, k: int) -> int {
    bytes[2 * k] + 256 * bytes[2 * k + 1]
}

/// Sample `k` of an audio buffer filled from `bytes` of 16-bit
/// little-endian PCM at `volume`: the word times `volume` over 256 where
/// there is a whole word, the midpoint 32768 past the end of the data.
pub open spec fn pcm_sample(bytes: Seq<u8>, volume: u32, k: int) -> int {
    if 2 * k + 2 <= bytes.len() {
        volume * pcm_word(bytes, k) / 256
    } else {
        32768
    }
}

/// Scaling every whole word of the buffer by `volume` fits in 32 bits.
pub open spec fn pcm_fits(bytes: Seq<u8>, volume: u32) -> bool {
    forall|k: int|
        0 <= k < AUDIO_BUF_SAMPLES && 2 * k + 2 <= bytes.len() ==> volume * #[trigger] pcm_word(
            bytes,
            k,
        ) <= u32::MAX
}

/// Whether every whole word of the buffer scales by `volume` without
/// overflow, which `fill_buf` needs.
pub fn pcm_is_safe(bytes: &[u8], volume: u32) -> (b: bool)
    ensures
        b == pcm_fits(bytes@, volume),
{
    let mut k: usize = 0;
    while k < AUDIO_BUF_SAMPLES
        invariant
            k <= AUDIO_BUF_SAMPLES,
            forall|m: int|
                0 <= m < k && 2 * m + 2 <= bytes@.len() ==> volume * #[trigger] pcm_word(bytes@, m)
                    <= u32::MAX,
        decreases AUDIO_BUF_SAMPLES - k,
    {
        if bytes.len() >= 2 && k <= (bytes.len() - 2) / 2 {
            let word: u32 = (bytes[2 * k] as u32) + (bytes[2 * k + 1] as u32) * 256;
            assert(word == pcm_word(bytes@, k as int));
            if word > 0 && volume > u32::MAX / word {
                assert(volume * word > u32::MAX) by (nonlinear_arith)
                    requires
                        word > 0,
                        volume > u32::MAX / word,
                ;
                return false;
            }
            assert(volume * word <= u32::MAX) by (nonlinear_arith)
                requires
                    word == 0 || volume <= u32::MAX / word,
            ;
        }
        k = k + 1;
    }
    true
}

/// Fills an audio buffer from what was read of a PCM file: `None` when the
/// read failed. Says whether playback ends with this buffer: when the read
/// failed (the buffer is then silent zeros) or the data ran out before the
/// buffer was full.
pub fn fill_buf(read: Option<&[u8]>, volume: u32) -> (res: (Vec<u32>, bool))
    requires
        read matches Some(bytes) ==> pcm_fits(bytes@, volume),
    ensures
        res.0@.len() == AUDIO_BUF_SAMPLES,
        match read {
            None => res.1 && forall|k: int| 0 <= k < AUDIO_BUF_SAMPLES ==> #[trigger] res.0@[k] == 0,
            Some(bytes) => {
                &&& res.1 == (bytes@.len() < BYTES_PER_BUF)
                &&& forall|k: int|
                    0 <= k < AUDIO_BUF_SAMPLES ==> #[trigger] res.0@[k] == pcm_sample(
                        bytes@,
                        volume,
                        k,
                    )
            },
        },
{
    let mut buf: Vec<u32> = Vec::new();
    match read {
        None => {
            let mut k: usize = 0;
            while k < AUDIO_BUF_SAMPLES
                invariant
                    k <= AUDIO_BUF_SAMPLES,
                    buf@.len() == k,
                    forall|m: int| 0 <= m < k ==> #[trigger] buf@[m] == 0,
                decreases AUDIO_BUF_SAMPLES - k,
            {
                buf.push(0);
                k = k + 1;
            }
            (buf, true)
        },
        Some(bytes) => {
            let mut done = false;
            let mut k: usize = 0;
            while k < AUDIO_BUF_SAMPLES
                invariant
                    pcm_fits(bytes@, volume),
                    k <= AUDIO_BUF_SAMPLES,
                    buf@.len() == k,
                    done == (bytes@.len() < 2 * k),
                    forall|m: int| 0 <= m < k ==> #[trigger] buf@[m] == pcm_sample(bytes@, volume, m),
                decreases AUDIO_BUF_SAMPLES - k,
            {
                if bytes.len() >= 2 && k <= (bytes.len() - 2) / 2 {
                    let lo: u8 = bytes[2 * k];
                    let hi: u8 = bytes[2 * k + 1];
                    let word: u32 = (lo as u32) + (hi as u32) * 256;
                    assert(word == pcm_word(bytes@, k as int));
                    assert(volume * word <= u32::MAX);
                    let scaled: u32 = volume * word;
                    assert(scaled >> 8u32 == scaled / 256) by (bit_vector);
                    buf.push(scaled >> 8);
                } else {
                    buf.push(32768);
                    done = true;
                }
                k = k + 1;
            }
            (buf, done)
        },
    }
}

/// The bookkeeping of playing a PCM file through two alternating buffers:
/// while one buffer plays, the next part of the file is read into the
/// other. Playback ends after the first buffer whose read said it was the
/// last has played.
pub struct PcmPlayback {
    offset: usize,
    done: bool,
}

/// The abstract state of a playback.
pub struct PcmPlaybackView {
    /// Where the next read starts in the file.
    pub offset: nat,
    /// The buffer playing now is the last.
    pub done: bool,
}

impl View for PcmPlayback {
    type V = PcmPlaybackView;

    closed spec fn view(&self) -> PcmPlaybackView {
        PcmPlaybackView { offset: self.offset as nat, done: self.done }
    }
}

impl PcmPlayback {
    /// A playback that has read nothing yet.
    pub fn new() -> (p: Self)
        ensures
            p@ == (PcmPlaybackView { offset: 0, done: false }),
    {
        Self { offset: 0, done: false }
    }

    /// Where the next read starts, without moving on.
    pub fn next_offset(&self) -> (offset: usize)
        ensures
            offset == self@.offset,
    {
        self.offset
    }

    /// Where the next read starts; the one after starts a buffer's worth
    /// of bytes later.
    pub fn next_read(&mut self) -> (offset: usize)
        requires
            old(self)@.offset + BYTES_PER_BUF <= usize::MAX,
        ensures
            offset == old(self)@.offset,
            final(self)@ == (PcmPlaybackView {
                offset: old(self)@.offset + BYTES_PER_BUF as nat,
                ..old(self)@
            }),
    {
        let offset = self.offset;
        self.offset = self.offset + BYTES_PER_BUF;
        offset
    }

    /// Records whether the first read said it was the last.
    pub fn first_read(&mut self, done: bool)
        ensures
            final(self)@ == (PcmPlaybackView { done, ..old(self)@ }),
    {
        self.done = done;
    }

    /// A buffer finished playing while the next one was read; `next_done`
    /// is what that read said. Returns whether playback stops here: when
    /// the buffer that finished was the last. Otherwise the next buffer
    /// starts playing.
    pub fn buffer_played(&mut self, next_done: bool) -> (stop: bool)
        ensures
            stop == old(self)@.done,
            final(self)@ == (if stop {
                old(self)@
            } else {
                PcmPlaybackView { done: next_done, ..old(self)@ }
            }),
    {
        if self.done {
            return true;
        }
        self.done = next_done;
        false
    }
}

/// A tone with a zero phase increment stays on the first table entry: the
/// buffer is flat.
pub proof fn lemma_zero_step_is_flat(n: nat)
    ensures
        tone_phase(0, n) == 0,
    decreases n,
{
    if n > 0 {
        lemma_zero_step_is_flat((n - 1) as nat);
    }
}

/// A phase increment below `PHASE_END` keeps every phase inside the table.
pub proof fn lemma_small_step_stays_in_table(step: u32, n: nat)
    requires
        step < PHASE_END,
    ensures
        0 <= tone_phase(step, n) < PHASE_END,
    decreases n,
{
    if n > 0 {
        lemma_small_step_stays_in_table(step, (n - 1) as nat);
    }
}

} // verus!
