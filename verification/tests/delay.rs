use sparrow::engine::delay::{latency_samples, pass_on, DelayLine};

fn bits(samples: &[f32]) -> Vec<u32> {
    samples.iter().map(|s| s.to_bits()).collect()
}

#[test]
fn a_line_starts_with_silence() {
    let mut line = DelayLine::new(3);
    assert_eq!(line.fill(3), bits(&[0.0, 0.0, 0.0]));
}

#[test]
fn samples_come_out_after_the_delay() {
    let mut line = DelayLine::new(2);
    assert_eq!(line.push(&bits(&[0.5, -0.5])), 2);
    assert_eq!(line.fill(3), bits(&[0.0, 0.0, 0.5]));
    assert_eq!(line.push(&bits(&[0.25])), 1);
    assert_eq!(line.pull(), (-0.5f32).to_bits());
    assert_eq!(line.pull(), 0.25f32.to_bits());
}

#[test]
fn a_full_line_takes_no_more() {
    let mut line = DelayLine::new(2);
    assert_eq!(line.push(&bits(&[1.0, 2.0, 3.0])), 2);
    assert_eq!(line.push(&bits(&[4.0])), 0);
    assert_eq!(line.fill(5), bits(&[0.0, 0.0, 1.0, 2.0, 0.0]));
    assert_eq!(line.push(&bits(&[4.0, 5.0, 6.0, 7.0, 8.0])), 4);
    assert_eq!(line.fill(4), bits(&[4.0, 5.0, 6.0, 7.0]));
}

#[test]
fn an_empty_line_gives_silence() {
    let mut line = DelayLine::new(1);
    assert_eq!(line.pull(), 0);
    assert_eq!(line.pull(), 0);
    assert_eq!(line.fill(2), vec![0, 0]);
    assert_eq!(line.fill(0), Vec::<u32>::new());
    assert_eq!(line.push(&bits(&[1.5])), 1);
    assert_eq!(line.pull(), 1.5f32.to_bits());
}

#[test]
fn a_line_that_never_runs_dry_only_delays() {
    let latency = 16;
    let mut line = DelayLine::new(latency);
    let mut written: Vec<u32> = vec![0; latency];
    let mut read: Vec<u32> = Vec::new();
    let mut next: u32 = 1;
    for round in 0..200usize {
        let data: Vec<u32> = (0..(round * 7) % 13).map(|i| next + i as u32).collect();
        next += data.len() as u32;
        let kept = line.push(&data);
        written.extend_from_slice(&data[..kept]);
        let wanted = usize::min((round * 5) % 11, written.len() - read.len());
        read.extend(line.fill(wanted));
    }
    assert!(read.len() > 500);
    assert_eq!(read[..], written[..read.len()]);
}

#[test]
fn a_line_that_runs_dry_loses_nothing() {
    let latency = 4;
    let mut line = DelayLine::new(latency);
    let mut written: Vec<u32> = vec![0; latency];
    let mut drawn: Vec<u32> = Vec::new();
    let mut held = latency;
    let mut next: u32 = 1;
    let mut starved = 0;
    for round in 0..200usize {
        let data: Vec<u32> = (0..(round * 5) % 7).map(|i| next + i as u32).collect();
        next += data.len() as u32;
        let kept = line.push(&data);
        assert_eq!(kept, usize::min(data.len(), 2 * latency - held));
        written.extend_from_slice(&data[..kept]);
        held += kept;
        let samples = line.fill((round * 3) % 11);
        let genuine = usize::min(held, samples.len());
        drawn.extend_from_slice(&samples[..genuine]);
        assert!(samples[genuine..].iter().all(|&s| s == 0));
        starved += samples.len() - genuine;
        held -= genuine;
    }
    assert!(starved > 0);
    drawn.extend(line.fill(held));
    assert_eq!(drawn, written);
}

#[test]
fn input_is_handed_on_only_to_an_output() {
    let mut line = DelayLine::new(1);
    assert_eq!(pass_on(false, &mut line, &bits(&[1.0, 2.0, 3.0])), 3);
    assert_eq!(line.fill(2), vec![0, 0]);
    assert_eq!(pass_on(true, &mut line, &bits(&[1.0, 2.0, 3.0])), 2);
    assert_eq!(line.fill(3), bits(&[1.0, 2.0, 0.0]));
}

#[test]
fn a_delay_counts_every_channel() {
    assert_eq!(latency_samples(13230, 2), 26460);
    assert_eq!(latency_samples(0, 2), 0);
}
