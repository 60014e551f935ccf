//! Handling of captured video: turning a captured frame into the bottom-up
//! image the encoder takes, and pacing the video track on the recording clock.
use vstd::prelude::*;
use crate::clock::{ticks, ticks_of, sat_sub};

verus! {

/// The byte of the encoder image at row `row` (counted from the top of the
/// buffer) and byte column `col`: rows are written bottom-up, the image is
/// cropped to the smaller of the two sizes, and the rest is black.
pub open spec fn flipped_byte(
    pixels: Seq<u8>,
    sw: int,
    sh: int,
    tw: int,
    th: int,
    row: int,
    col: int,
) -> u8 {
    let cw = if sw < tw { sw } else { tw };
    let ch = if sh < th { sh } else { th };
    let sy = th - 1 - row;
    if 0 <= sy < ch && col < cw * 4 {
        pixels[sy * (sw * 4) + col]
    } else {
        0u8
    }
}

/// The byte at row `row`, byte column `col` of an image `w` bytes wide.
pub open spec fn byte_at(image: Seq<u8>, w: int, row: int, col: int) -> u8 {
    image[row * w + col]
}

/// `out` is the `tw` by `th` BGRA encoder image of the `sw` by `sh` frame `pixels`.
pub open spec fn is_flipped_frame(out: Seq<u8>, pixels: Seq<u8>, sw: int, sh: int, tw: int, th: int) -> bool {
    &&& out.len() == th * (tw * 4)
    &&& forall|row: int, col: int|
        0 <= row < th && 0 <= col < tw * 4 ==> #[trigger] byte_at(out, tw * 4, row, col)
            == flipped_byte(pixels, sw, sh, tw, th, row, col)
}

proof fn lemma_row_index(row: int, col: int, w: int, rows: int)
    by (nonlinear_arith)
    requires
        0 <= row < rows,
        0 <= col < w,
    ensures
        0 <= row * w + col < rows * w,
        row * w + col < (row + 1) * w,
        (row + 1) * w == row * w + w,
        row * w >= 0,
{
}

proof fn lemma_row_next(row: int, w: int, rows: int)
    by (nonlinear_arith)
    requires
        0 <= row < rows,
        0 <= w,
    ensures
        (row + 1) * w == row * w + w,
        (row + 1) * w <= rows * w,
        row * w >= 0,
{
}

proof fn lemma_row_order(r: int, row: int, w: int, c: int)
    by (nonlinear_arith)
    requires
        0 <= r < row,
        0 <= c < w,
    ensures
        r * w + c < row * w,
{
}

proof fn lemma_grow(a: int, b: int, w: int)
    by (nonlinear_arith)
    requires
        0 <= a <= b,
        0 <= w,
    ensures
        a * w <= b * w,
{
}

/// Copies a captured `sw` by `sh` BGRA frame into a `tw` by `th` image for the
/// encoder: upside down (the encoder takes rows bottom-up), cropped to the
/// target, and padded with black.
pub fn flip_frame(pixels: &[u8], sw: usize, sh: usize, tw: usize, th: usize) -> (out: Vec<u8>)
    requires
        sw * sh * 4 <= pixels@.len(),
        th * (tw * 4) <= usize::MAX,
    ensures
        is_flipped_frame(out@, pixels@, sw as int, sh as int, tw as int, th as int),
{
    let plen = pixels.len();
    let cw = if sw < tw { sw } else { tw };
    let ch = if sh < th { sh } else { th };
    proof {
        if th > 0 {
            lemma_grow(1, th as int, tw as int * 4);
        }
    }
    let row_bytes: usize = if th == 0 { 0 } else { tw * 4 };
    let ghost w = tw as int * 4;
    assert(th > 0 ==> row_bytes == w);
    let mut out: Vec<u8> = Vec::new();
    let mut row: usize = 0;
    while row < th
        invariant
            th > 0 ==> row_bytes == w,
            w == tw as int * 4,
            th * w <= usize::MAX,
            sw * sh * 4 <= pixels@.len(),
            plen == pixels@.len(),
            cw == (if sw < tw { sw } else { tw }),
            ch == (if sh < th { sh } else { th }),
            row <= th,
            out@.len() == row * w,
            forall|r: int, c: int|
                0 <= r < row && 0 <= c < w ==> #[trigger] byte_at(out@, w, r, c) == flipped_byte(
                    pixels@,
                    sw as int,
                    sh as int,
                    tw as int,
                    th as int,
                    r,
                    c,
                ),
        decreases th - row,
    {
        let sy = th - 1 - row;
        let mut col: usize = 0;
        proof {
            lemma_row_next(row as int, w, th as int);
        }
        while col < row_bytes
            invariant
                row < th,
                row_bytes == w,
                w == tw as int * 4,
                th * w <= usize::MAX,
                (row + 1) * w <= th * w,
                (row + 1) * w == row * w + w,
                sw * sh * 4 <= pixels@.len(),
                plen == pixels@.len(),
            plen == pixels@.len(),
                cw == (if sw < tw { sw } else { tw }),
                ch == (if sh < th { sh } else { th }),
                sy == th - 1 - row,
                col <= w,
                out@.len() == row * w + col,
                forall|r: int, c: int|
                    0 <= r < row && 0 <= c < w ==> #[trigger] byte_at(out@, w, r, c)
                        == flipped_byte(pixels@, sw as int, sh as int, tw as int, th as int, r, c),
                forall|c: int|
                    0 <= c < col ==> #[trigger] byte_at(out@, w, row as int, c) == flipped_byte(
                        pixels@,
                        sw as int,
                        sh as int,
                        tw as int,
                        th as int,
                        row as int,
                        c,
                    ),
            decreases w - col,
        {
            let ghost before = out@;
            let b: u8 = if sy < ch && col < cw * 4 {
                proof {
                    lemma_row_index(sy as int, col as int, sw as int * 4, sh as int);
                    lemma_grow(1, sh as int, sw as int * 4);
                    assert(sw * sh * 4 == sh * (sw * 4)) by (nonlinear_arith);
                }
                let stride = sw * 4;
                let start = sy * stride;
                pixels[start + col]
            } else {
                0u8
            };
            out.push(b);
            proof {
                assert forall|r: int, c: int|
                    0 <= r < row && 0 <= c < w implies #[trigger] byte_at(out@, w, r, c)
                    == flipped_byte(pixels@, sw as int, sh as int, tw as int, th as int, r, c) by {
                    lemma_row_order(r, row as int, w, c);
                    assert(byte_at(before, w, r, c) == before[r * w + c]);
                }
                assert forall|c: int| 0 <= c < col + 1 implies #[trigger] byte_at(
                    out@,
                    w,
                    row as int,
                    c,
                ) == flipped_byte(pixels@, sw as int, sh as int, tw as int, th as int, row as int, c) by {
                    if c < col {
                        assert(byte_at(before, w, row as int, c) == before[row * w + c]);
                    }
                }
            }
            col = col + 1;
        }
        proof {
            assert forall|r: int, c: int|
                0 <= r < row + 1 && 0 <= c < w implies #[trigger] byte_at(out@, w, r, c)
                == flipped_byte(pixels@, sw as int, sh as int, tw as int, th as int, r, c) by {
                if r < row {
                } else {
                    assert(r == row);
                }
            }
        }
        row = row + 1;
    }
    out
}

/// The encoder time stamp, in ticks, of the frame shown at `elapsed`
/// nanoseconds: rounded down to the frame grid while recording, one frame
/// period before the end when stopping.
pub open spec fn frame_timestamp_of(stopping: bool, elapsed: u64, frame_period: u64, frame_ticks: i64) -> int {
    if stopping {
        ticks_of(sat_sub(elapsed, frame_period))
    } else {
        (ticks_of(elapsed) / (frame_ticks as int)) * (frame_ticks as int)
    }
}

pub fn frame_timestamp(stopping: bool, elapsed: u64, frame_period: u64, frame_ticks: i64) -> (t: i64)
    requires
        frame_ticks > 0,
    ensures
        t == frame_timestamp_of(stopping, elapsed, frame_period, frame_ticks),
        t >= 0,
{
    if stopping {
        ticks(elapsed.saturating_sub(frame_period))
    } else {
        let t = ticks(elapsed);
        let q = t / frame_ticks;
        proof {
            assert(q * frame_ticks <= t) by (nonlinear_arith)
                requires
                    q == t / frame_ticks,
                    frame_ticks > 0,
                    t >= 0,
            ;
            assert(q * frame_ticks >= 0) by (nonlinear_arith)
                requires
                    q == t / frame_ticks,
                    frame_ticks > 0,
                    t >= 0,
            ;
        }
        q * frame_ticks
    }
}

/// What one pass of the video pacing loop hands to the encoder.
pub struct VideoStep {
    /// Time stamps at which the latest frame is sent, in order.
    pub sends: Vec<i64>,
    /// The time stamp of the last frame sent so far.
    pub last: Option<i64>,
}

/// The sends of one pass: nothing while paused (unless stopping), without a
/// frame, or when the time stamp has not moved on; otherwise the latest frame,
/// first anchored at zero if nothing was sent yet.
pub open spec fn video_sends_of(stopping: bool, paused: bool, timestamp: i64, last: Option<i64>, has_frame: bool) -> Seq<i64> {
    if (stopping || !paused) && (last matches Some(l) ==> timestamp > l) && has_frame {
        match last {
            None => if timestamp > 0 {
                seq![0i64, timestamp]
            } else {
                seq![0i64]
            },
            Some(l) => seq![timestamp],
        }
    } else {
        Seq::empty()
    }
}

/// Decides which frames one pass of the video loop sends.
pub fn video_step(stopping: bool, paused: bool, timestamp: i64, last: Option<i64>, has_frame: bool) -> (s: VideoStep)
    ensures
        s.sends@ == video_sends_of(stopping, paused, timestamp, last, has_frame),
        s.last == (if s.sends@.len() == 0 { last } else { Some(s.sends@.last()) }),
{
    let mut sends: Vec<i64> = Vec::new();
    let mut new_last = last;
    let due = match last {
        None => true,
        Some(l) => timestamp > l,
    };
    if (stopping || !paused) && due && has_frame {
        if new_last.is_none() {
            sends.push(0);
            new_last = Some(0);
        }
        let anchor = match new_last {
            Some(l) => l,
            None => 0,
        };
        if timestamp > anchor {
            sends.push(timestamp);
            new_last = Some(timestamp);
        }
    }
    assert(sends@ =~= video_sends_of(stopping, paused, timestamp, last, has_frame));
    VideoStep { sends, last: new_last }
}

/// The video track's time stamps only move forward: every frame of a pass is
/// later than the last one sent, the frames of a pass are in order, and the
/// first frame of a recording is at zero.
pub proof fn law_video_time_stamps_increase(stopping: bool, paused: bool, timestamp: i64, last: Option<i64>, has_frame: bool)
    requires
        timestamp >= 0,
        last matches Some(l) ==> l >= 0,
    ensures
        ({
            let s = video_sends_of(stopping, paused, timestamp, last, has_frame);
            &&& forall|i: int, j: int| 0 <= i < j < s.len() ==> s[i] < s[j]
            &&& last matches Some(l) ==> forall|i: int| 0 <= i < s.len() ==> s[i] > l
            &&& last is None && s.len() > 0 ==> s[0] == 0
        }),
{
}

/// The frames sent over a run of passes of the video loop, and the time stamp
/// of the last one sent; each pass is (stopping, paused, time stamp, whether
/// a frame is there), and `start` is the last time stamp sent before the run.
pub open spec fn video_run(passes: Seq<(bool, bool, i64, bool)>, start: Option<i64>) -> (Seq<i64>, Option<i64>)
    decreases passes.len(),
{
    if passes.len() == 0 {
        (Seq::empty(), start)
    } else {
        let before = video_run(passes.drop_last(), start);
        let p = passes.last();
        let s = video_sends_of(p.0, p.1, p.2, before.1, p.3);
        (before.0 + s, if s.len() == 0 { before.1 } else { Some(s.last()) })
    }
}

/// Over a whole recording the video track's time stamps strictly increase:
/// every frame sent is later than the one before, the first is at zero, and
/// the loop remembers the last one sent.
pub proof fn law_video_run_increases(passes: Seq<(bool, bool, i64, bool)>, start: Option<i64>)
    requires
        forall|i: int| 0 <= i < passes.len() ==> (#[trigger] passes[i]).2 >= 0,
        start matches Some(l) ==> l >= 0,
    ensures
        ({
            let (sends, last) = video_run(passes, start);
            &&& forall|i: int, j: int| 0 <= i < j < sends.len() ==> sends[i] < sends[j]
            &&& start matches Some(l) ==> forall|i: int| 0 <= i < sends.len() ==> sends[i] > l
            &&& start is None && sends.len() > 0 ==> sends[0] == 0
            &&& sends.len() == 0 ==> last == start
            &&& sends.len() > 0 ==> last == Some(sends.last())
            &&& last matches Some(l) ==> l >= 0
        }),
    decreases passes.len(),
{
    if passes.len() > 0 {
        let rest = passes.drop_last();
        assert forall|i: int| 0 <= i < rest.len() implies (#[trigger] rest[i]).2 >= 0 by {
            assert(rest[i] == passes[i]);
        }
        law_video_run_increases(rest, start);
        let before = video_run(rest, start);
        let p = passes.last();
        assert(p == passes[passes.len() - 1]);
        law_video_time_stamps_increase(p.0, p.1, p.2, before.1, p.3);
        let s = video_sends_of(p.0, p.1, p.2, before.1, p.3);
        let all = before.0 + s;
        assert forall|i: int, j: int| 0 <= i < j < all.len() implies all[i] < all[j] by {
            if j < before.0.len() {
            } else if i < before.0.len() {
                assert(before.1 == Some(before.0.last()));
                assert(all[i] <= before.0.last());
                assert(all[j] == s[j - before.0.len()]);
            } else {
                assert(all[i] == s[i - before.0.len()]);
                assert(all[j] == s[j - before.0.len()]);
            }
        }
        assert(start matches Some(l) ==> forall|i: int| 0 <= i < all.len() ==> all[i] > l) by {
            if start is Some {
                let l = start->0;
                assert forall|i: int| 0 <= i < all.len() implies all[i] > l by {
                    if i >= before.0.len() {
                        assert(all[i] == s[i - before.0.len()]);
                        if before.0.len() > 0 {
                            assert(before.0.last() > l);
                        }
                    }
                }
            }
        }
        if start is None && all.len() > 0 {
            if before.0.len() == 0 {
                assert(all[0] == s[0]);
            }
        }
        if s.len() > 0 {
            assert(all.last() == s.last());
        }
    }
}

/// While recording, every time stamp lies on the frame grid: a whole number of
/// frame periods.
pub proof fn law_time_stamps_on_the_frame_grid(elapsed: u64, frame_period: u64, frame_ticks: i64)
    requires
        frame_ticks > 0,
    ensures
        frame_timestamp_of(false, elapsed, frame_period, frame_ticks) % (frame_ticks as int) == 0,
        frame_timestamp_of(false, elapsed, frame_period, frame_ticks) >= 0,
{
    let t = ticks_of(elapsed);
    let f = frame_ticks as int;
    let q = t / f;
    assert(t >= 0);
    assert((q * f) % f == 0 && q * f >= 0) by (nonlinear_arith)
        requires
            f > 0,
            t >= 0,
            q == t / f,
    {
        vstd::arithmetic::div_mod::lemma_mod_multiples_basic(q, f);
    }
}

} // verus!
