//! Sound output: the wave format agreed with the client, interleaving of
//! per-channel sample buffers, and the bookkeeping of the streaming loop
//! (chunk sizes, buffer bounds, timestamps and how each chunk is shaped).

use vstd::prelude::*;

verus! {

/// Wave format tag of linear PCM.
pub const WAVE_FORMAT_PCM: u16 = 1;

/// A wave format of the sound channel.
#[derive(Debug, Clone, Copy, PartialEq, Eq, Structural)]
pub struct AudioFormat {
    /// Wave format tag.
    pub format: u16,
    pub n_channels: u16,
    pub n_samples_per_sec: u32,
    pub n_avg_bytes_per_sec: u32,
    pub n_block_align: u16,
    pub bits_per_sample: u16,
}

/// Two formats are the same stream: same tag, rate, channel count and
/// sample width.
pub open spec fn formats_match(a: AudioFormat, b: AudioFormat) -> bool {
    a.format == b.format && a.n_samples_per_sec == b.n_samples_per_sec && a.n_channels
        == b.n_channels && a.bits_per_sample == b.bits_per_sample
}

/// Some client format is the same stream as `f`.
pub open spec fn client_offers(client: Seq<AudioFormat>, f: AudioFormat) -> bool {
    exists|j: int| 0 <= j < client.len() && formats_match(f, #[trigger] client[j])
}

/// The server format to use: of the server formats that some client format
/// matches, the one with the highest index.
pub fn find_matching_format(server_formats: &[AudioFormat], client_formats: &[AudioFormat]) -> (r:
    Option<usize>)
    ensures
        match r {
            Some(i) => i < server_formats@.len() && client_offers(client_formats@, server_formats@[i as int])
                && forall|k: int| i < k < server_formats@.len() ==> !client_offers(client_formats@, #[trigger] server_formats@[k]),
            None => forall|k: int| 0 <= k < server_formats@.len() ==> !client_offers(client_formats@, #[trigger] server_formats@[k]),
        },
{
    let mut idx: usize = server_formats.len();
    while idx > 0
        invariant
            idx <= server_formats@.len(),
            forall|k: int| idx <= k < server_formats@.len() ==> !client_offers(client_formats@, #[trigger] server_formats@[k]),
        decreases idx,
    {
        idx = idx - 1;
        let s = server_formats[idx];
        let mut j: usize = 0;
        while j < client_formats.len()
            invariant
                j <= client_formats@.len(),
                idx < server_formats@.len(),
                s == server_formats@[idx as int],
                forall|k: int| idx < k < server_formats@.len() ==> !client_offers(client_formats@, #[trigger] server_formats@[k]),
                forall|m: int| 0 <= m < j ==> !formats_match(s, #[trigger] client_formats@[m]),
            decreases client_formats.len() - j,
        {
            let c = client_formats[j];
            if s.format == c.format && s.n_samples_per_sec == c.n_samples_per_sec && s.n_channels == c.n_channels
                && s.bits_per_sample == c.bits_per_sample {
                assert(formats_match(s, client_formats@[j as int]));
                return Some(idx);
            }
            j = j + 1;
        }
    }
    None
}

/// The 16-bit PCM format offered for `sample_rate` and `channels`.
pub open spec fn pcm_format(sample_rate: u32, channels: u16) -> AudioFormat {
    AudioFormat {
        format: WAVE_FORMAT_PCM,
        n_channels: channels,
        n_samples_per_sec: sample_rate,
        n_avg_bytes_per_sec: (sample_rate * channels * 2) as u32,
        n_block_align: (channels * 2) as u16,
        bits_per_sample: 16,
    }
}

/// Sound channel state of one connection: the offered formats, the one the
/// client agreed to, and whether samples may be streamed.
pub struct MacAudioHandler {
    formats: Vec<AudioFormat>,
    selected_format: Option<usize>,
    ready: bool,
}

impl MacAudioHandler {
    pub closed spec fn formats_view(&self) -> Seq<AudioFormat> {
        self.formats@
    }

    pub closed spec fn selected(&self) -> Option<usize> {
        self.selected_format
    }

    pub closed spec fn is_ready(&self) -> bool {
        self.ready
    }

    /// Offers one 16-bit PCM format for the captured rate and channels.
    pub fn new(sample_rate: u32, channels: u16) -> (h: Self)
        requires
            sample_rate * channels * 2 <= u32::MAX,
            channels * 2 <= u16::MAX,
        ensures
            h.formats_view() == seq![pcm_format(sample_rate, channels)],
            h.selected() is None,
            !h.is_ready(),
    {
        let mut formats: Vec<AudioFormat> = Vec::new();
        formats.push(
            AudioFormat {
                format: WAVE_FORMAT_PCM,
                n_channels: channels,
                n_samples_per_sec: sample_rate,
                n_avg_bytes_per_sec: sample_rate * (channels as u32) * 2,
                n_block_align: channels * 2,
                bits_per_sample: 16,
            },
        );
        assert(formats@ =~= seq![pcm_format(sample_rate, channels)]);
        MacAudioHandler { formats, selected_format: None, ready: false }
    }

    /// The offered formats.
    pub fn get_formats(&self) -> (f: &[AudioFormat])
        ensures
            f@ == self.formats_view(),
    {
        self.formats.as_slice()
    }

    /// The client's formats arrived: the matching server format is
    /// selected and streaming is enabled; without a match nothing changes.
    pub fn start(&mut self, client_formats: &[AudioFormat]) -> (r: Option<u16>)
        requires
            old(self).formats_view().len() <= u16::MAX + 1,
        ensures
            final(self).formats_view() == old(self).formats_view(),
            match r {
                Some(i) => {
                    &&& i < old(self).formats_view().len()
                    &&& client_offers(client_formats@, old(self).formats_view()[i as int])
                    &&& forall|k: int| i < k < old(self).formats_view().len() ==> !client_offers(client_formats@, #[trigger] old(self).formats_view()[k])
                    &&& final(self).selected() == Some(i as usize)
                    &&& final(self).is_ready()
                },
                None => {
                    &&& forall|k: int| 0 <= k < old(self).formats_view().len() ==> !client_offers(client_formats@, #[trigger] old(self).formats_view()[k])
                    &&& final(self).selected() == old(self).selected()
                    &&& final(self).is_ready() == old(self).is_ready()
                },
            },
    {
        match find_matching_format(self.formats.as_slice(), client_formats) {
            Some(idx) => {
                self.selected_format = Some(idx);
                self.ready = true;
                Some(idx as u16)
            },
            None => None,
        }
    }

    /// Streaming stops and the selection is forgotten.
    pub fn stop(&mut self)
        ensures
            final(self).formats_view() == old(self).formats_view(),
            final(self).selected() is None,
            !final(self).is_ready(),
    {
        self.ready = false;
        self.selected_format = None;
    }

    /// Whether samples may be streamed.
    pub fn ready(&self) -> (b: bool)
        ensures
            b == self.is_ready(),
    {
        self.ready
    }

    /// The agreed format's index, if any.
    pub fn selected_format(&self) -> (s: Option<usize>)
        ensures
            s == self.selected(),
    {
        self.selected_format
    }
}

/// The interleaving of per-channel buffers: sample `i` of every channel in
/// channel order, then sample `i + 1`, for `n` samples.
pub open spec fn interleaved<T>(buffers: Seq<Seq<T>>, n: nat) -> Seq<T> {
    Seq::new(buffers.len() * n, |k: int| buffers[k % (buffers.len() as int)][k / (buffers.len() as int)])
}

/// Sample buffer conversions.
pub struct AudioConverter;

proof fn lemma_interleave_index(k: int, nc: int, i: int, c: int)
    requires
        nc > 0,
        0 <= c < nc,
        0 <= i,
        k == i * nc + c,
    ensures
        k % nc == c,
        k / nc == i,
{
    vstd::arithmetic::div_mod::lemma_fundamental_div_mod_converse(k, nc, i, c);
}

impl AudioConverter {
    /// Interleaves per-channel buffers: `[[L0, L1], [R0, R1]]` with two
    /// samples gives `[L0, R0, L1, R1]`.
    pub fn interleave<T: Copy>(buffers: &[&[T]], num_samples: usize) -> (out: Vec<T>)
        requires
            forall|c: int| 0 <= c < buffers@.len() ==> num_samples <= (#[trigger] buffers@[c])@.len(),
            buffers@.len() * num_samples <= usize::MAX,
        ensures
            out@ == interleaved(buffers@.map_values(|b: &[T]| b@), num_samples as nat),
    {
        let ghost bufs = buffers@.map_values(|b: &[T]| b@);
        let nc = buffers.len();
        let mut out: Vec<T> = Vec::new();
        let mut i: usize = 0;
        while i < num_samples
            invariant
                nc == buffers@.len(),
                bufs == buffers@.map_values(|b: &[T]| b@),
                forall|c: int| 0 <= c < buffers@.len() ==> num_samples <= (#[trigger] buffers@[c])@.len(),
                nc * num_samples <= usize::MAX,
                i <= num_samples,
                out@.len() == i * nc,
                forall|k: int| 0 <= k < out@.len() ==> out@[k] == bufs[k % (nc as int)][k / (nc as int)],
            decreases num_samples - i,
        {
            assert(i * nc + nc <= nc * num_samples) by (nonlinear_arith)
                requires
                    i < num_samples,
            ;
            let mut c: usize = 0;
            while c < nc
                invariant
                    nc == buffers@.len(),
                    bufs == buffers@.map_values(|b: &[T]| b@),
                    forall|c2: int| 0 <= c2 < buffers@.len() ==> num_samples <= (#[trigger] buffers@[c2])@.len(),
                    i < num_samples,
                    i * nc + nc <= usize::MAX,
                    c <= nc,
                    out@.len() == i * nc + c,
                    forall|k: int| 0 <= k < out@.len() ==> out@[k] == bufs[k % (nc as int)][k / (nc as int)],
                decreases nc - c,
            {
                let b: &[T] = buffers[c];
                let x = b[i];
                let ghost k0 = out@.len() as int;
                out.push(x);
                proof {
                    lemma_interleave_index(k0, nc as int, i as int, c as int);
                    assert(bufs[c as int] == b@);
                }
                c = c + 1;
            }
            proof {
                assert((i + 1) * nc == i * nc + nc) by (nonlinear_arith);
            }
            i = i + 1;
        }
        assert(out@.len() == nc * num_samples) by (nonlinear_arith)
            requires
                out@.len() == i * nc,
                i == num_samples,
        ;
        assert(bufs.len() == nc);
        assert(out@ =~= interleaved(bufs, num_samples as nat));
        out
    }
}

// ---------------------------------------------------------------------------
// Streaming loop bookkeeping
// ---------------------------------------------------------------------------

/// Length of the fade applied at the start of sound, in milliseconds.
pub const FADE_MS: u32 = 5;

/// Chunks the sample buffer may hold before the oldest are dropped
/// (half a second of 20 ms chunks).
pub const MAX_BUFFER_CHUNKS: usize = 25;

/// Interleaved samples per 20 ms chunk.
pub fn audio_frame_size(sample_rate: u32, channels: u16) -> (n: usize)
    requires
        (sample_rate / 50) * channels <= usize::MAX,
    ensures
        n == (sample_rate / 50) * channels,
{
    (sample_rate as usize / 50) * channels as usize
}

/// Frames over which sound fades in.
pub fn fade_frames(sample_rate: u32) -> (n: usize)
    requires
        sample_rate * FADE_MS <= u32::MAX,
    ensures
        n == sample_rate * FADE_MS / 1000,
{
    (sample_rate * FADE_MS / 1000) as usize
}

/// Duration of one chunk in whole milliseconds.
pub fn chunk_duration_ms(frame_size_interleaved: usize, sample_rate: u32, channels: u16) -> (ms: u64)
    requires
        sample_rate > 0,
        channels > 0,
        frame_size_interleaved * 1000 <= u64::MAX,
    ensures
        ms == (frame_size_interleaved * 1000) / (sample_rate * channels),
{
    assert(sample_rate * channels <= u64::MAX) by (nonlinear_arith)
        requires
            sample_rate <= u32::MAX,
            channels <= u16::MAX,
    ;
    assert(sample_rate * channels > 0) by (nonlinear_arith)
        requires
            sample_rate > 0,
            channels > 0,
    ;
    (frame_size_interleaved as u64 * 1000) / (sample_rate as u64 * channels as u64)
}

/// Samples to drop from the front of a buffer of `buffer_len` samples so
/// that at most `MAX_BUFFER_CHUNKS` chunks remain.
pub fn ring_excess(buffer_len: usize, frame_size_interleaved: usize) -> (n: usize)
    requires
        frame_size_interleaved * MAX_BUFFER_CHUNKS <= usize::MAX,
    ensures
        n == (if buffer_len > frame_size_interleaved * MAX_BUFFER_CHUNKS {
            buffer_len - frame_size_interleaved * MAX_BUFFER_CHUNKS
        } else {
            0
        }),
{
    let max_buffer_samples = frame_size_interleaved * MAX_BUFFER_CHUNKS;
    if buffer_len > max_buffer_samples {
        buffer_len - max_buffer_samples
    } else {
        0
    }
}

/// A chunk of silence for a buffer underrun: two zero bytes per sample.
pub fn silence_wave(frame_size_interleaved: usize) -> (w: Vec<u8>)
    requires
        frame_size_interleaved * 2 <= usize::MAX,
    ensures
        w@ == Seq::new((frame_size_interleaved * 2) as nat, |i: int| 0u8),
{
    let n = frame_size_interleaved * 2;
    let mut w: Vec<u8> = Vec::new();
    let mut i: usize = 0;
    while i < n
        invariant
            i <= n,
            w@ == Seq::new(i as nat, |k: int| 0u8),
        decreases n - i,
    {
        w.push(0);
        i = i + 1;
        assert(w@ =~= Seq::new(i as nat, |k: int| 0u8));
    }
    w
}

/// How a chunk of sound is shaped before it is sent.
#[derive(Debug, Clone, Copy, PartialEq, Eq, Structural)]
pub enum ChunkShaping {
    /// Sound starts after silence: ramp it in.
    FadeIn,
    /// Sound jumps from the end of the last chunk: blend across the jump.
    Crossfade,
    /// Sent as it is.
    Unchanged,
}

/// The shaping of the next chunk: fade in after silence, crossfade a jump
/// between two sounding chunks, else nothing.
pub open spec fn spec_chunk_shaping(was_silent: bool, silent: bool, discontinuous: bool) -> ChunkShaping {
    if was_silent && !silent {
        ChunkShaping::FadeIn
    } else if !was_silent && !silent && discontinuous {
        ChunkShaping::Crossfade
    } else {
        ChunkShaping::Unchanged
    }
}

/// State of the streaming loop between chunks.
pub struct AudioStreamState {
    /// Samples per channel sent since streaming began.
    pub samples_sent: u64,
    /// Whether the last chunk was silent (or there was none).
    pub was_silent: bool,
}

impl AudioStreamState {
    /// Before the first chunk: nothing sent, silence assumed.
    pub fn new() -> (s: Self)
        ensures
            s.samples_sent == 0,
            s.was_silent,
    {
        AudioStreamState { samples_sent: 0, was_silent: true }
    }

    /// A full chunk is taken: how to shape it; it becomes the last chunk.
    pub fn on_chunk(&mut self, silent: bool, discontinuous: bool) -> (s: ChunkShaping)
        ensures
            s == spec_chunk_shaping(old(self).was_silent, silent, discontinuous),
            final(self).was_silent == silent,
            final(self).samples_sent == old(self).samples_sent,
    {
        let s = if self.was_silent && !silent {
            ChunkShaping::FadeIn
        } else if !self.was_silent && !silent && discontinuous {
            ChunkShaping::Crossfade
        } else {
            ChunkShaping::Unchanged
        };
        self.was_silent = silent;
        s
    }

    /// Too few samples buffered (or the client not ready): silence follows.
    pub fn on_underrun(&mut self)
        ensures
            final(self).was_silent,
            final(self).samples_sent == old(self).samples_sent,
    {
        self.was_silent = true;
    }

    /// Timestamp of the next wave: the first sample's capture time plus the
    /// play time of what was sent, in milliseconds, truncated to 32 bits.
    pub fn wave_timestamp(&self, base_timestamp_ms: u64, sample_rate: u32) -> (ts: u32)
        requires
            sample_rate > 0,
            self.samples_sent * 1000 <= u64::MAX,
            base_timestamp_ms + (self.samples_sent as int) * 1000 / (sample_rate as int) <= u64::MAX,
        ensures
            ts == (base_timestamp_ms + (self.samples_sent as int) * 1000 / (sample_rate as int)) as u32,
    {
        let offset_ms = (self.samples_sent * 1000) / sample_rate as u64;
        let t = base_timestamp_ms + offset_ms;
        #[verifier::truncate]
        (t as u32)
    }

    /// A wave was sent: count its samples per channel.
    pub fn record_sent(&mut self, frame_size_interleaved: usize, channels: u16)
        requires
            channels > 0,
            old(self).samples_sent + (frame_size_interleaved as int) / (channels as int) <= u64::MAX,
        ensures
            final(self).samples_sent == old(self).samples_sent + (frame_size_interleaved as int) / (channels as int),
            final(self).was_silent == old(self).was_silent,
    {
        let per_channel = frame_size_interleaved / channels as usize;
        self.samples_sent = self.samples_sent + per_channel as u64;
    }
}

} // verus!
