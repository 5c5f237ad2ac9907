use soundfarmer::playback::Sound;
use soundfarmer::ratio::Ratio;

fn ramp_buffer(len: usize) -> Vec<u8> {
    let mut data: Vec<u8> = Vec::new();
    for i in 0..len {
        data.push((i % 256) as u8);
    }
    data
}

fn full_volume() -> Ratio {
    Ratio::new(1, 1).unwrap()
}

#[test]
fn scrub_sets_position_at_next_callback() {
    let mut sound = Sound::new(vec![0u8; 1000], full_volume());
    sound.send_position(Ratio::new(1, 2).unwrap());
    sound.callback(0);
    assert_eq!(sound.position(), 500);
}

#[test]
fn lazy_default_opens_loop_to_full_buffer() {
    let mut sound = Sound::new(vec![9u8; 250], full_volume());
    sound.callback(0);
    assert_eq!(sound.loop_begin(), 0);
    assert_eq!(sound.loop_end(), 250);
}

#[test]
fn samples_follow_buffer_at_full_volume() {
    let mut sound = Sound::new(ramp_buffer(16), full_volume());
    let out = sound.callback(4);
    assert_eq!(out, vec![0, 1, 2, 3]);
    assert_eq!(sound.position(), 4);
}

#[test]
fn loop_wrap_at_end() {
    let mut sound = Sound::new(ramp_buffer(1000), full_volume());
    sound.send_loop_begin(Ratio::new(100, 1000).unwrap());
    sound.send_loop_end(Ratio::new(200, 1000).unwrap());
    sound.send_position(Ratio::new(199, 1000).unwrap());
    let out = sound.callback(1);
    assert_eq!(out, vec![199]);
    assert_eq!(sound.position(), 200);
    let out = sound.callback(1);
    assert_eq!(out, vec![100]);
    assert_eq!(sound.position(), 101);
}

#[test]
fn resend_same_ratio_once_vs_twice() {
    let mut once = Sound::new(vec![0u8; 640], full_volume());
    once.send_position(Ratio::new(3, 8).unwrap());
    once.callback(0);

    let mut twice = Sound::new(vec![0u8; 640], full_volume());
    twice.send_position(Ratio::new(3, 8).unwrap());
    twice.send_position(Ratio::new(3, 8).unwrap());
    twice.callback(0);

    assert_eq!(once.position(), 240);
    assert_eq!(twice.position(), once.position());
}

#[test]
fn last_update_wins_per_kind() {
    let mut sound = Sound::new(vec![0u8; 1000], full_volume());
    sound.send_position(Ratio::new(1, 4).unwrap());
    sound.send_position(Ratio::new(3, 4).unwrap());
    sound.send_loop_end(Ratio::new(1, 2).unwrap());
    sound.send_loop_end(Ratio::new(9, 10).unwrap());
    sound.callback(0);
    assert_eq!(sound.position(), 750);
    assert_eq!(sound.loop_end(), 900);
    assert_eq!(sound.loop_begin(), 0);
}

#[test]
fn out_of_range_reads_are_silent() {
    let mut sound = Sound::new(vec![7u8; 10], full_volume());
    sound.send_loop_begin(Ratio::new(1, 1).unwrap());
    sound.send_loop_end(Ratio::new(1, 1).unwrap());
    sound.send_position(Ratio::new(1, 1).unwrap());
    let out = sound.callback(3);
    assert_eq!(out, vec![0, 0, 0]);
}

#[test]
fn volume_scales_samples() {
    let mut sound = Sound::new(vec![200u8; 8], Ratio::new(1, 4).unwrap());
    let out = sound.callback(2);
    assert_eq!(out, vec![50, 50]);
}

#[test]
fn empty_buffer_plays_silence() {
    let mut sound = Sound::new(Vec::new(), full_volume());
    let out = sound.callback(4);
    assert_eq!(out, vec![0, 0, 0, 0]);
}
