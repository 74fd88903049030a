use visio_core::audio_playout::AudioPlayoutBuffer;

#[test]
fn push_and_pull() {
    let mut buf = AudioPlayoutBuffer::new();
    let samples = vec![100i16, 200, 300, 400, 500];
    buf.push_samples(&samples);

    let mut out = vec![0i16; 3];
    let n = buf.pull_samples(&mut out);
    assert_eq!(n, 3);
    assert_eq!(out, vec![100, 200, 300]);

    let mut out2 = vec![0i16; 5];
    let n2 = buf.pull_samples(&mut out2);
    assert_eq!(n2, 2);
    assert_eq!(out2, vec![400, 500, 0, 0, 0]);
}

#[test]
fn overflow_drops_oldest() {
    let mut buf = AudioPlayoutBuffer::with_capacity(4);

    buf.push_samples(&[1, 2, 3, 4]);
    buf.push_samples(&[5, 6]);

    let mut out = vec![0i16; 6];
    let n = buf.pull_samples(&mut out);
    assert_eq!(n, 4);
    assert_eq!(out, vec![3, 4, 5, 6, 0, 0]);
}

#[test]
fn pull_empty_returns_silence() {
    let mut buf = AudioPlayoutBuffer::new();
    let mut out = vec![99i16; 3];
    let n = buf.pull_samples(&mut out);
    assert_eq!(n, 0);
    assert_eq!(out, vec![0, 0, 0]);
}

#[test]
fn clear_empties_buffer() {
    let mut buf = AudioPlayoutBuffer::new();
    buf.push_samples(&[1, 2, 3]);
    buf.clear();

    let mut out = vec![0i16; 3];
    let n = buf.pull_samples(&mut out);
    assert_eq!(n, 0);
}

#[test]
fn push_larger_than_capacity_keeps_newest() {
    let mut buf = AudioPlayoutBuffer::with_capacity(3);
    buf.push_samples(&[1, 2, 3, 4, 5, 6, 7]);
    let mut out = vec![0i16; 4];
    assert_eq!(buf.pull_samples(&mut out), 3);
    assert_eq!(out, vec![5, 6, 7, 0]);
}

#[test]
fn zero_capacity_keeps_nothing() {
    let mut buf = AudioPlayoutBuffer::with_capacity(0);
    buf.push_samples(&[1, 2]);
    let mut out = vec![7i16; 2];
    assert_eq!(buf.pull_samples(&mut out), 0);
    assert_eq!(out, vec![0, 0]);
}
