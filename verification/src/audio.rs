//! PCM mixing of the captured audio inputs and the pacing of the audio track.
use vstd::prelude::*;
use std::sync::mpsc::Receiver;

verus! {

/// Sample rate of the recorded audio track.
pub const SAMPLE_RATE: u64 = 48_000;
/// Interleaved channels of the recorded audio track.
pub const CHANNELS: usize = 2;
/// Bytes per 16-bit sample.
pub const BYTES_PER_SAMPLE: usize = 2;
/// Frames handed to the encoder at a time (20 ms at 48 kHz).
pub const CHUNK_FRAMES: usize = 960;
/// Bytes in one chunk of interleaved 16-bit stereo audio.
pub const CHUNK_BYTES: usize = 3840;

/// Most inputs that one mixing pass adds up without overflowing a 32-bit sum.
pub const MAX_MIX_INPUTS: usize = 65536;

/// `std::sync::mpsc::Receiver`, the receiving end of a channel; opaque here.
#[verifier::external_type_specification]
#[verifier::external_body]
#[verifier::reject_recursive_types(T)]
pub struct ExReceiver<T>(Receiver<T>);

/// The little-endian signed 16-bit sample that starts at byte `o` of `chunk`.
pub open spec fn sample_at(chunk: Seq<u8>, o: int) -> int {
    let v = chunk[o] as int + 256 * (chunk[o + 1] as int);
    if v >= 32768 {
        v - 65536
    } else {
        v
    }
}

/// Sum of the samples at byte `o` over all `chunks`.
pub open spec fn sample_sum(chunks: Seq<Seq<u8>>, o: int) -> int
    decreases chunks.len(),
{
    if chunks.len() == 0 {
        0
    } else {
        sample_sum(chunks.drop_last(), o) + sample_at(chunks.last(), o)
    }
}

/// `v` limited to the range of `i16`.
pub open spec fn clamp_i16(v: int) -> int {
    if v < -32768 {
        -32768
    } else if v > 32767 {
        32767
    } else {
        v
    }
}

/// Length of the shortest chunk (zero when there is none).
pub open spec fn shortest(chunks: Seq<Seq<u8>>) -> nat
    decreases chunks.len(),
{
    if chunks.len() == 0 {
        0
    } else if chunks.len() == 1 {
        chunks[0].len()
    } else {
        let rest = shortest(chunks.drop_last());
        if chunks.last().len() < rest {
            chunks.last().len()
        } else {
            rest
        }
    }
}

/// Length of the mixed output: the shortest input, rounded down to whole samples.
pub open spec fn mixed_len(chunks: Seq<Seq<u8>>) -> nat {
    (shortest(chunks) - shortest(chunks) % 2) as nat
}

/// Low byte of the little-endian encoding of the 16-bit value `m`.
pub open spec fn low_byte(m: int) -> int {
    (m % 65536) % 256
}

/// High byte of the little-endian encoding of the 16-bit value `m`.
pub open spec fn high_byte(m: int) -> int {
    (m % 65536) / 256
}

/// The byte-wise views of a list of chunks.
pub open spec fn views(chunks: Seq<Vec<u8>>) -> Seq<Seq<u8>> {
    chunks.map_values(|c: Vec<u8>| c@)
}

/// The result of mixing `chunks`: each output sample is the clamped sum of the input samples.
pub open spec fn is_mix_of(out: Seq<u8>, chunks: Seq<Seq<u8>>) -> bool {
    &&& out.len() == mixed_len(chunks)
    &&& forall|k: int|
        0 <= k < out.len() / 2 ==> {
            &&& #[trigger] out[2 * k] == low_byte(clamp_i16(sample_sum(chunks, 2 * k)))
            &&& out[2 * k + 1] == high_byte(clamp_i16(sample_sum(chunks, 2 * k)))
        }
}

/// What one mixing pass produces from the chunks that arrived: silence when none did.
pub open spec fn mixed_output(got: Seq<Seq<u8>>) -> Seq<u8> {
    if got.len() == 0 {
        Seq::new(CHUNK_BYTES as nat, |i: int| 0u8)
    } else {
        mix_result(got)
    }
}

/// The unique byte sequence that `is_mix_of` describes.
pub open spec fn mix_result(chunks: Seq<Seq<u8>>) -> Seq<u8> {
    Seq::new(
        mixed_len(chunks),
        |i: int|
            if i % 2 == 0 {
                low_byte(clamp_i16(sample_sum(chunks, i))) as u8
            } else {
                high_byte(clamp_i16(sample_sum(chunks, i - 1))) as u8
            },
    )
}

proof fn lemma_shortest_bound(chunks: Seq<Seq<u8>>, i: int)
    requires
        0 <= i < chunks.len(),
    ensures
        shortest(chunks) <= chunks[i].len(),
    decreases chunks.len(),
{
    if chunks.len() > 1 && i < chunks.len() - 1 {
        lemma_shortest_bound(chunks.drop_last(), i);
    }
}

proof fn lemma_is_mix_unique(out: Seq<u8>, chunks: Seq<Seq<u8>>)
    requires
        is_mix_of(out, chunks),
    ensures
        out == mix_result(chunks),
{
    let r = mix_result(chunks);
    assert forall|i: int| 0 <= i < out.len() implies out[i] == r[i] by {
        let k = i / 2;
        assert(0 <= k < out.len() / 2);
        let m = clamp_i16(sample_sum(chunks, 2 * k));
        assert(0 <= low_byte(m) < 256);
        assert(0 <= high_byte(m) < 256);
        if i % 2 == 0 {
            assert(i == 2 * k);
            assert(out[2 * k] == low_byte(m));
        } else {
            assert(i == 2 * k + 1);
            assert(out[2 * k + 1] == high_byte(m));
        }
    }
    assert(out =~= r);
}

/// Sample value of the two bytes `lo`, `hi` read as a little-endian `i16`.
fn read_sample(lo: u8, hi: u8) -> (s: i32)
    ensures
        s == sample_at(seq![lo, hi], 0),
        -32768 <= s <= 32767,
{
    let v: i32 = lo as i32 + 256 * (hi as i32);
    if v >= 32768 {
        v - 65536
    } else {
        v
    }
}

/// Mixes 16-bit little-endian PCM chunks by adding their samples, clamping
/// the sum to the `i16` range instead of wrapping.
pub fn mix_pcm_i16(chunks: &[Vec<u8>]) -> (out: Vec<u8>)
    requires
        chunks@.len() <= MAX_MIX_INPUTS,
    ensures
        is_mix_of(out@, views(chunks@)),
        out@ == mix_result(views(chunks@)),
{
    let ghost cs = views(chunks@);
    let n = chunks.len();
    // length of the shortest chunk
    let mut length: usize = 0;
    let mut i: usize = 0;
    while i < n
        invariant
            i <= n,
            n == chunks@.len(),
            cs == views(chunks@),
            length == shortest(cs.take(i as int)),
        decreases n - i,
    {
        let l = chunks[i].len();
        proof {
            assert(cs.take(i as int + 1).drop_last() =~= cs.take(i as int));
            assert(cs.take(i as int + 1).last() == chunks@[i as int]@);
            if i == 0 {
                assert(cs.take(1).len() == 1);
            }
        }
        if i == 0 || l < length {
            length = l;
        }
        i = i + 1;
    }
    proof {
        assert(cs.take(n as int) =~= cs);
    }
    let even = length - length % 2;
    let mut out: Vec<u8> = Vec::new();
    let mut o: usize = 0;
    while o < even
        invariant
            n == chunks@.len(),
            n <= MAX_MIX_INPUTS,
            cs == views(chunks@),
            length == shortest(cs),
            even == mixed_len(cs),
            even % 2 == 0,
            o % 2 == 0,
            o <= even,
            out@.len() == o,
            forall|k: int|
                0 <= k < o / 2 ==> {
                    &&& #[trigger] out@[2 * k] == low_byte(clamp_i16(sample_sum(cs, 2 * k)))
                    &&& out@[2 * k + 1] == high_byte(clamp_i16(sample_sum(cs, 2 * k)))
                },
        decreases even - o,
    {
        let mut sum: i32 = 0;
        let mut j: usize = 0;
        while j < n
            invariant
                j <= n,
                n == chunks@.len(),
                n <= MAX_MIX_INPUTS,
                cs == views(chunks@),
                length == shortest(cs),
                o + 1 < even <= length,
                sum == sample_sum(cs.take(j as int), o as int),
                -32768 * j <= sum <= 32767 * j,
            decreases n - j,
        {
            proof {
                lemma_shortest_bound(cs, j as int);
                assert(cs.take(j as int + 1).drop_last() =~= cs.take(j as int));
                assert(cs.take(j as int + 1).last() == chunks@[j as int]@);
            }
            let c = &chunks[j];
            let s = read_sample(c[o], c[o + 1]);
            assert(s == sample_at(c@, o as int));
            sum = sum + s;
            j = j + 1;
        }
        proof {
            assert(cs.take(n as int) =~= cs);
        }
        let mixed: i32 = if sum < -32768 {
            -32768
        } else if sum > 32767 {
            32767
        } else {
            sum
        };
        let u: i32 = if mixed < 0 {
            mixed + 65536
        } else {
            mixed
        };
        assert(u == mixed % 65536);
        let lo = (u % 256) as u8;
        let hi = (u / 256) as u8;
        let ghost old_out = out@;
        out.push(lo);
        out.push(hi);
        proof {
            assert forall|k: int| 0 <= k < (o + 2) / 2 implies {
                &&& #[trigger] out@[2 * k] == low_byte(clamp_i16(sample_sum(cs, 2 * k)))
                &&& out@[2 * k + 1] == high_byte(clamp_i16(sample_sum(cs, 2 * k)))
            } by {
                if k < o / 2 {
                    assert(out@[2 * k] == old_out[2 * k]);
                    assert(out@[2 * k + 1] == old_out[2 * k + 1]);
                } else {
                    assert(2 * k == o);
                }
            }
        }
        o = o + 2;
    }
    proof {
        lemma_is_mix_unique(out@, cs);
    }
    out
}

/// Mixes the chunks that arrived in one pass; silence of one chunk when none did.
pub fn mix_received(chunks: &[Vec<u8>]) -> (out: Vec<u8>)
    requires
        chunks@.len() <= MAX_MIX_INPUTS,
    ensures
        out@ == mixed_output(views(chunks@)),
{
    if chunks.len() == 0 {
        let mut out: Vec<u8> = Vec::new();
        while out.len() < CHUNK_BYTES
            invariant
                out@.len() <= CHUNK_BYTES,
                forall|i: int| 0 <= i < out@.len() ==> out@[i] == 0u8,
            decreases CHUNK_BYTES - out@.len(),
        {
            out.push(0u8);
        }
        assert(out@ =~= Seq::new(CHUNK_BYTES as nat, |i: int| 0u8));
        out
    } else {
        mix_pcm_i16(chunks)
    }
}

/// `Receiver::try_recv`: takes the chunk waiting on `receiver`, if any, without
/// blocking. Nothing is stated of the result: which chunk waits, if any, depends
/// on the capturing threads.
#[verifier::external_body]
fn try_receive(receiver: &Receiver<Vec<u8>>) -> Option<Vec<u8>> {
    receiver.try_recv().ok()
}

/// Mixes whatever chunk each input has ready now; inputs with nothing ready
/// are left out, so a stalled input does not hold back the others.
pub fn mix_available(receivers: &[Receiver<Vec<u8>>]) -> (out: Vec<u8>)
    requires
        receivers@.len() <= MAX_MIX_INPUTS,
    ensures
        exists|got: Seq<Seq<u8>>| got.len() <= receivers@.len() && out@ == mixed_output(got),
{
    let mut chunks: Vec<Vec<u8>> = Vec::new();
    let mut i: usize = 0;
    while i < receivers.len()
        invariant
            i <= receivers@.len(),
            chunks@.len() <= i,
        decreases receivers@.len() - i,
    {
        if let Some(chunk) = try_receive(&receivers[i]) {
            chunks.push(chunk);
        }
        i = i + 1;
    }
    let out = mix_received(&chunks);
    assert(views(chunks@).len() <= receivers@.len());
    out
}

/// What the audio pacing loop does next.
#[derive(Clone, Copy, Debug, PartialEq, Eq, Structural)]
pub enum MixStep {
    /// The clock is paused: discard what the inputs captured and wait.
    DrainWhilePaused,
    /// Less than one chunk is due yet: wait.
    Wait,
    /// Stopping, and the track has caught up with the clock: end the track.
    Finish,
    /// Hand this many frames of mixed audio to the encoder.
    Send(usize),
}

/// The step that the audio loop takes, given whether it is stopping, whether
/// the clock is paused, how many frames the clock calls for and how many were sent.
pub open spec fn mix_step_of(stopping: bool, paused: bool, target_frames: u64, sent_frames: u64) -> MixStep {
    let remaining = if target_frames >= sent_frames { target_frames - sent_frames } else { 0 };
    if paused && !stopping {
        MixStep::DrainWhilePaused
    } else if remaining < CHUNK_FRAMES && !stopping {
        MixStep::Wait
    } else if remaining == 0 && stopping {
        MixStep::Finish
    } else if remaining < CHUNK_FRAMES {
        MixStep::Send(remaining as usize)
    } else {
        MixStep::Send(CHUNK_FRAMES)
    }
}

pub fn mix_step(stopping: bool, paused: bool, target_frames: u64, sent_frames: u64) -> (step: MixStep)
    ensures
        step == mix_step_of(stopping, paused, target_frames, sent_frames),
{
    let remaining = target_frames.saturating_sub(sent_frames);
    if paused && !stopping {
        MixStep::DrainWhilePaused
    } else if remaining < CHUNK_FRAMES as u64 && !stopping {
        MixStep::Wait
    } else if remaining == 0 && stopping {
        MixStep::Finish
    } else if remaining < CHUNK_FRAMES as u64 {
        MixStep::Send(remaining as usize)
    } else {
        MixStep::Send(CHUNK_FRAMES)
    }
}

/// The audio track never runs ahead of the clock: a send is at most one chunk
/// and at most what the clock calls for, and a stopping loop always makes progress.
pub proof fn law_audio_never_runs_ahead(stopping: bool, paused: bool, target_frames: u64, sent_frames: u64)
    ensures
        mix_step_of(stopping, paused, target_frames, sent_frames) matches MixStep::Send(n) ==> {
            &&& 0 < n <= CHUNK_FRAMES
            &&& sent_frames + n <= target_frames
        },
        stopping ==> (mix_step_of(stopping, paused, target_frames, sent_frames) is Finish
            || mix_step_of(stopping, paused, target_frames, sent_frames) is Send),
{
}

/// Mixing a single input gives that input back, sample for sample.
pub proof fn law_single_input_passes_through(chunk: Seq<u8>)
    requires
        chunk.len() % 2 == 0,
    ensures
        mix_result(seq![chunk]) == chunk,
{
    let cs = seq![chunk];
    assert(cs.drop_last() =~= Seq::<Seq<u8>>::empty());
    assert(shortest(cs) == chunk.len());
    let r = mix_result(cs);
    assert forall|i: int| 0 <= i < chunk.len() implies r[i] == chunk[i] by {
        let o = if i % 2 == 0 { i } else { i - 1 };
        assert(o % 2 == 0 && 0 <= o && o + 1 < chunk.len());
        assert(cs.last() == chunk);
        assert(sample_sum(cs.drop_last(), o) == 0);
        assert(sample_sum(cs, o) == sample_at(chunk, o));
        let v = chunk[o] as int + 256 * (chunk[o + 1] as int);
        let m = clamp_i16(sample_at(chunk, o));
        assert(m == sample_at(chunk, o));
        assert(m % 65536 == v);
        assert(v % 256 == chunk[o] as int);
        assert(v / 256 == chunk[o + 1] as int);
    }
    assert(r =~= chunk);
}

/// The order of the inputs does not change the mix.
pub proof fn law_mix_is_symmetric(a: Seq<u8>, b: Seq<u8>)
    ensures
        mix_result(seq![a, b]) == mix_result(seq![b, a]),
{
    let ab = seq![a, b];
    let ba = seq![b, a];
    assert(ab.drop_last() =~= seq![a]);
    assert(ba.drop_last() =~= seq![b]);
    assert(seq![a].drop_last() =~= Seq::<Seq<u8>>::empty());
    assert(seq![b].drop_last() =~= Seq::<Seq<u8>>::empty());
    assert(ab.last() == b && ba.last() == a);
    assert(seq![a].last() == a && seq![b].last() == b);
    assert(shortest(seq![a]) == a.len());
    assert(shortest(seq![b]) == b.len());
    assert(shortest(ab) == shortest(ba));
    assert forall|o: int| sample_sum(ab, o) == sample_sum(ba, o) by {
        assert(sample_sum(seq![a], o) == sample_sum(Seq::<Seq<u8>>::empty(), o) + sample_at(a, o));
        assert(sample_sum(seq![b], o) == sample_sum(Seq::<Seq<u8>>::empty(), o) + sample_at(b, o));
    }
    assert(mix_result(ab) =~= mix_result(ba));
}

/// An audio input that the recorder captures.
#[derive(Debug, Clone, PartialEq, Eq)]
pub enum InputKind {
    /// What the system plays (loopback of the default output device).
    System,
    /// A microphone: the one with the given device id, or the default one.
    Microphone(Option<String>),
}

/// The inputs to capture, system audio first.
pub open spec fn inputs_of(system_audio: bool, microphone: bool, microphone_id: Option<String>) -> Seq<InputKind> {
    let system = if system_audio { seq![InputKind::System] } else { Seq::empty() };
    if microphone {
        system.push(InputKind::Microphone(microphone_id))
    } else {
        system
    }
}

/// The inputs that a recording opens: system audio when asked for, then the
/// microphone when asked for; none when neither is, and then no audio
/// pipeline runs at all.
pub fn audio_inputs(system_audio: bool, microphone: bool, microphone_id: Option<String>) -> (r: Vec<InputKind>)
    ensures
        r@ == inputs_of(system_audio, microphone, microphone_id),
{
    let mut r: Vec<InputKind> = Vec::new();
    if system_audio {
        r.push(InputKind::System);
    }
    if microphone {
        r.push(InputKind::Microphone(microphone_id));
    }
    r
}

/// The chunks of `data` that `take_chunks` cuts off, in order.
pub open spec fn whole_chunks(data: Seq<u8>) -> Seq<Seq<u8>> {
    Seq::new(
        data.len() / (CHUNK_BYTES as nat),
        |i: int| data.subrange(i * CHUNK_BYTES, (i + 1) * CHUNK_BYTES),
    )
}

/// Cuts every whole chunk of [`CHUNK_BYTES`] bytes off the front of `buffer`,
/// in order, and leaves the rest (less than one chunk) in it.
pub fn take_chunks(buffer: &mut Vec<u8>) -> (chunks: Vec<Vec<u8>>)
    ensures
        chunks@.len() == old(buffer)@.len() / (CHUNK_BYTES as nat),
        forall|i: int| 0 <= i < chunks@.len() ==> (#[trigger] chunks@[i])@ == whole_chunks(old(buffer)@)[i],
        final(buffer)@ == old(buffer)@.subrange(chunks@.len() * CHUNK_BYTES, old(buffer)@.len() as int),
{
    let ghost data = buffer@;
    let n = buffer.len();
    let count = n / CHUNK_BYTES;
    let mut chunks: Vec<Vec<u8>> = Vec::new();
    let mut k: usize = 0;
    while k < count
        invariant
            buffer@ == data,
            n == data.len(),
            count == n / CHUNK_BYTES,
            k <= count,
            chunks@.len() == k,
            forall|i: int| 0 <= i < k ==> (#[trigger] chunks@[i])@ == whole_chunks(data)[i],
        decreases count - k,
    {
        proof {
            assert((k + 1) * CHUNK_BYTES <= count * CHUNK_BYTES) by (nonlinear_arith)
                requires
                    k < count,
            ;
            assert(count * CHUNK_BYTES <= n) by (nonlinear_arith)
                requires
                    count == n / CHUNK_BYTES,
            ;
        }
        let start = k * CHUNK_BYTES;
        let piece = vstd::slice::slice_to_vec(
            vstd::slice::slice_subrange(buffer.as_slice(), start, start + CHUNK_BYTES),
        );
        chunks.push(piece);
        k = k + 1;
    }
    proof {
        assert(count * CHUNK_BYTES <= n) by (nonlinear_arith)
            requires
                count == n / CHUNK_BYTES,
        ;
    }
    let used = count * CHUNK_BYTES;
    let mut rest: Vec<u8> = Vec::new();
    let mut j: usize = used;
    while j < n
        invariant
            buffer@ == data,
            n == data.len(),
            used <= j <= n,
            rest@ == data.subrange(used as int, j as int),
        decreases n - j,
    {
        rest.push(buffer[j]);
        assert(data.subrange(used as int, j as int + 1) =~= data.subrange(used as int, j as int).push(data[j as int]));
        j = j + 1;
    }
    *buffer = rest;
    chunks
}

/// Cutting chunks loses and reorders nothing: the chunks, followed by what
/// stays in the buffer, give back the bytes that were there.
pub proof fn law_chunks_keep_every_byte(data: Seq<u8>)
    ensures
        ({
            let cs = whole_chunks(data);
            let used = cs.len() * CHUNK_BYTES;
            &&& used <= data.len()
            &&& data.len() - used < CHUNK_BYTES
            &&& forall|i: int| 0 <= i < cs.len() ==> (#[trigger] cs[i]).len() == CHUNK_BYTES
            &&& forall|i: int, b: int|
                0 <= i < cs.len() && 0 <= b < CHUNK_BYTES ==> #[trigger] cs[i][b] == data[i * CHUNK_BYTES + b]
        }),
{
    let cs = whole_chunks(data);
    let q = data.len() / (CHUNK_BYTES as nat);
    assert(q * CHUNK_BYTES <= data.len() && data.len() - q * CHUNK_BYTES < CHUNK_BYTES) by (nonlinear_arith)
        requires
            q == data.len() / (CHUNK_BYTES as nat),
    ;
    assert forall|i: int| 0 <= i < cs.len() implies (#[trigger] cs[i]).len() == CHUNK_BYTES by {
        assert((i + 1) * CHUNK_BYTES <= q * CHUNK_BYTES) by (nonlinear_arith)
            requires
                0 <= i < q,
        ;
        assert(0 <= i * CHUNK_BYTES) by (nonlinear_arith)
            requires
                0 <= i,
        ;
    }
    assert forall|i: int, b: int|
        0 <= i < cs.len() && 0 <= b < CHUNK_BYTES implies #[trigger] cs[i][b] == data[i * CHUNK_BYTES + b] by {
        assert((i + 1) * CHUNK_BYTES <= q * CHUNK_BYTES) by (nonlinear_arith)
            requires
                0 <= i < q,
        ;
        assert(0 <= i * CHUNK_BYTES) by (nonlinear_arith)
            requires
                0 <= i,
        ;
    }
}

/// Taking out the chunk at `k` takes its sample out of the sum.
proof fn lemma_sum_remove(s: Seq<Seq<u8>>, k: int, o: int)
    requires
        0 <= k < s.len(),
    ensures
        sample_sum(s, o) == sample_at(s[k], o) + sample_sum(s.remove(k), o),
    decreases s.len(),
{
    if k == s.len() - 1 {
        assert(s.remove(k) =~= s.drop_last());
    } else {
        lemma_sum_remove(s.drop_last(), k, o);
        assert(s.drop_last().remove(k) =~= s.remove(k).drop_last());
        assert(s.remove(k).last() == s.last());
    }
}

/// Taking out the chunk at `k` of two or more leaves the shortest of the rest
/// and that chunk.
proof fn lemma_shortest_remove(s: Seq<Seq<u8>>, k: int)
    requires
        0 <= k < s.len(),
        s.len() >= 2,
    ensures
        shortest(s) == if s[k].len() < shortest(s.remove(k)) { s[k].len() } else { shortest(s.remove(k)) },
    decreases s.len(),
{
    if s.len() == 2 {
        assert(s.drop_last() =~= seq![s[0]]);
        assert(shortest(seq![s[0]]) == s[0].len());
        assert(shortest(seq![s[1]]) == s[1].len());
        assert(shortest(s) == if s[1].len() < s[0].len() { s[1].len() } else { s[0].len() });
        if k == 0 {
            assert(s.remove(0) =~= seq![s[1]]);
        } else {
            assert(s.remove(1) =~= seq![s[0]]);
        }
    } else if k == s.len() - 1 {
        assert(s.remove(k) =~= s.drop_last());
    } else {
        lemma_shortest_remove(s.drop_last(), k);
        assert(s.drop_last().remove(k) =~= s.remove(k).drop_last());
        assert(s.remove(k).last() == s.last());
    }
}

/// Chunks that are the same up to order have the same sums and the same shortest length.
proof fn lemma_reordered(a: Seq<Seq<u8>>, b: Seq<Seq<u8>>)
    requires
        a.to_multiset() == b.to_multiset(),
    ensures
        shortest(a) == shortest(b),
        forall|o: int| #[trigger] sample_sum(a, o) == sample_sum(b, o),
    decreases b.len(),
{
    broadcast use vstd::seq_lib::group_to_multiset_ensures;

    vstd::seq_lib::to_multiset_len(a);
    vstd::seq_lib::to_multiset_len(b);
    assert(a.len() == b.len());
    if b.len() == 0 {
        assert(a.len() == 0);
    } else {
        let x = b.last();
        let rest = b.drop_last();
        assert(rest.push(x) =~= b);
        assert(b.to_multiset() == rest.to_multiset().insert(x));
        assert(b.to_multiset().count(x) > 0);
        assert(a.contains(x));
        let k = choose|k: int| 0 <= k < a.len() && a[k] == x;
        assert(a.remove(k).to_multiset() == a.to_multiset().remove(x));
        assert(a.remove(k).to_multiset() =~= rest.to_multiset());
        lemma_reordered(a.remove(k), rest);
        assert forall|o: int| #[trigger] sample_sum(a, o) == sample_sum(b, o) by {
            lemma_sum_remove(a, k, o);
        }
        if b.len() == 1 {
            assert(a[0] == x);
        } else {
            lemma_shortest_remove(a, k);
        }
    }
}

/// The order of the inputs never changes the mix, for any number of inputs.
pub proof fn law_mix_ignores_order(a: Seq<Seq<u8>>, b: Seq<Seq<u8>>)
    requires
        a.to_multiset() == b.to_multiset(),
    ensures
        mix_result(a) == mix_result(b),
{
    lemma_reordered(a, b);
    assert(mix_result(a) =~= mix_result(b));
}

/// A stopping track is ended only once it has caught up with the clock; until
/// then, paused or not, it is sent what is still due, one chunk at a time.
pub proof fn law_stopping_track_catches_up(paused: bool, target_frames: u64, sent_frames: u64)
    ensures
        mix_step_of(true, paused, target_frames, sent_frames) is Finish ==> sent_frames >= target_frames,
        sent_frames < target_frames ==> mix_step_of(true, paused, target_frames, sent_frames) == MixStep::Send(
            if target_frames - sent_frames < CHUNK_FRAMES {
                (target_frames - sent_frames) as usize
            } else {
                CHUNK_FRAMES
            },
        ),
        sent_frames >= target_frames ==> mix_step_of(true, paused, target_frames, sent_frames) is Finish,
{
}

} // verus!
