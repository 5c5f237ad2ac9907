use soundfarmer::downsample::downsample;

#[test]
fn picks_nearest_earlier_samples() {
    let src: Vec<u8> = vec![0, 10, 20, 30, 40, 50, 60, 70, 80, 90];
    let out = downsample(&src, 5).unwrap();
    assert_eq!(out, vec![0, 20, 40, 60, 80]);
}

#[test]
fn repeats_samples_when_growing() {
    let src: Vec<u8> = vec![1, 2];
    let out = downsample(&src, 4).unwrap();
    assert_eq!(out, vec![1, 1, 2, 2]);
}

#[test]
fn is_deterministic() {
    let mut src: Vec<u8> = Vec::new();
    for i in 0..977u32 {
        src.push((i * 37 % 251) as u8);
    }
    let a = downsample(&src, 64).unwrap();
    let b = downsample(&src, 64).unwrap();
    assert_eq!(a, b);
}

#[test]
fn rejects_an_empty_source() {
    let src: Vec<u8> = Vec::new();
    assert!(downsample(&src, 5).is_none());
}

#[test]
fn rejects_an_empty_target() {
    let src: Vec<u8> = vec![1, 2, 3];
    assert!(downsample(&src, 0).is_none());
}
