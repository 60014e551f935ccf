use purple_capture::audio::{
    mix_available, mix_pcm_i16, mix_received, mix_step, MixStep, CHUNK_BYTES, CHUNK_FRAMES,
};
use std::sync::mpsc;
use purple_capture::audio::{audio_inputs, InputKind};
use purple_capture::audio::take_chunks;

#[test]
fn stalled_first_input_preserves_every_healthy_chunk() {
    let (_stalled, first) = mpsc::sync_channel(8);
    let (healthy, second) = mpsc::sync_channel(8);
    let inputs = [first, second];
    for value in 1_u8..=100 {
        let chunk = vec![value; CHUNK_BYTES];
        healthy.send(chunk.clone()).unwrap();
        assert_eq!(mix_available(&inputs), chunk);
    }
    drop(healthy);
    assert_eq!(mix_available(&inputs), vec![0; CHUNK_BYTES]);
}

#[test]
fn mixing_clamps_instead_of_wrapping() {
    assert_eq!(
        mix_pcm_i16(&[
            30000_i16.to_le_bytes().to_vec(),
            10000_i16.to_le_bytes().to_vec()
        ]),
        i16::MAX.to_le_bytes()
    );
    assert_eq!(
        mix_pcm_i16(&[
            (-30000_i16).to_le_bytes().to_vec(),
            (-10000_i16).to_le_bytes().to_vec()
        ]),
        i16::MIN.to_le_bytes()
    );
}

#[test]
fn mixing_adds_samples_and_stops_at_the_shortest_even_length() {
    let a: Vec<u8> = [100_i16, -200, 7].iter().flat_map(|s| s.to_le_bytes()).collect();
    let mut b: Vec<u8> = [1_i16, 2].iter().flat_map(|s| s.to_le_bytes()).collect();
    b.push(0xff);
    let out = mix_pcm_i16(&[a, b]);
    let expected: Vec<u8> = [101_i16, -198].iter().flat_map(|s| s.to_le_bytes()).collect();
    assert_eq!(out, expected);
}

#[test]
fn a_single_input_passes_through() {
    let chunk: Vec<u8> = (0..64_u8).collect();
    assert_eq!(mix_pcm_i16(&[chunk.clone()]), chunk);
}

#[test]
fn mixing_is_symmetric() {
    let a: Vec<u8> = [20000_i16, -5].iter().flat_map(|s| s.to_le_bytes()).collect();
    let b: Vec<u8> = [20000_i16, 9].iter().flat_map(|s| s.to_le_bytes()).collect();
    assert_eq!(mix_pcm_i16(&[a.clone(), b.clone()]), mix_pcm_i16(&[b, a]));
}

#[test]
fn nothing_received_gives_one_chunk_of_silence() {
    assert_eq!(mix_received(&[]), vec![0_u8; CHUNK_BYTES]);
    assert_eq!(mix_received(&[vec![1, 0]]), vec![1, 0]);
}

#[test]
fn pacing_waits_drains_sends_and_finishes() {
    let chunk = CHUNK_FRAMES as u64;
    assert_eq!(mix_step(false, true, 100_000, 0), MixStep::DrainWhilePaused);
    assert_eq!(mix_step(false, false, chunk - 1, 0), MixStep::Wait);
    assert_eq!(mix_step(false, false, 10 * chunk, 0), MixStep::Send(CHUNK_FRAMES));
    assert_eq!(mix_step(true, true, 1000, 1000), MixStep::Finish);
    assert_eq!(mix_step(true, false, 1000 + 5, 1000), MixStep::Send(5));
    assert_eq!(mix_step(true, false, 0, 1000), MixStep::Finish);
}

#[test]
fn inputs_open_system_audio_first() {
    assert!(audio_inputs(false, false, Some("mic".to_string())).is_empty());
    assert_eq!(audio_inputs(true, false, None), vec![InputKind::System]);
    assert_eq!(
        audio_inputs(true, true, Some("mic-1".to_string())),
        vec![InputKind::System, InputKind::Microphone(Some("mic-1".to_string()))]
    );
    assert_eq!(audio_inputs(false, true, None), vec![InputKind::Microphone(None)]);
}

#[test]
fn captured_bytes_are_cut_into_whole_chunks() {
    let data: Vec<u8> = (0..(2 * CHUNK_BYTES + 10)).map(|i| (i % 251) as u8).collect();
    let mut buffer = data.clone();
    let chunks = take_chunks(&mut buffer);
    assert_eq!(chunks.len(), 2);
    assert_eq!(chunks[0], data[..CHUNK_BYTES].to_vec());
    assert_eq!(chunks[1], data[CHUNK_BYTES..2 * CHUNK_BYTES].to_vec());
    assert_eq!(buffer, data[2 * CHUNK_BYTES..].to_vec());
    let mut short = vec![1_u8; CHUNK_BYTES - 1];
    assert!(take_chunks(&mut short).is_empty());
    assert_eq!(short.len(), CHUNK_BYTES - 1);
}

#[test]
fn mixing_three_inputs_ignores_their_order() {
    let a: Vec<u8> = [100_i16, -30000].iter().flat_map(|s| s.to_le_bytes()).collect();
    let b: Vec<u8> = [7_i16, -5000, 1].iter().flat_map(|s| s.to_le_bytes()).collect();
    let c: Vec<u8> = [-50_i16, 2].iter().flat_map(|s| s.to_le_bytes()).collect();
    let first = mix_pcm_i16(&[a.clone(), b.clone(), c.clone()]);
    assert_eq!(first, mix_pcm_i16(&[c.clone(), a.clone(), b.clone()]));
    assert_eq!(first, mix_pcm_i16(&[b, c, a]));
    let expected: Vec<u8> = [57_i16, i16::MIN].iter().flat_map(|s| s.to_le_bytes()).collect();
    assert_eq!(first, expected);
}
