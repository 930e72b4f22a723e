use sparrow::engine::audio::{
    find_device, has_selected, input_device_info, loudest_bin, output_device_info,
    stream_buffer_size, Analyser,
};
use sparrow::engine::delay::DelayLine;
use sparrow::engine::{BufferSize, Config};
use sparrow::number::Single;

fn single(x: f32) -> Single {
    Single { bits: x.to_bits() }
}

fn names(list: &[&str]) -> Vec<String> {
    list.iter().map(|n| n.to_string()).collect()
}

#[test]
fn the_current_device_is_selected() {
    let all = names(&["mic", "line", "mic"]);
    let info = input_device_info(&all, Some("mic"));
    let listed: Vec<(String, bool)> =
        info.iter().map(|d| (d.to_string(), d.selected)).collect();
    assert_eq!(
        listed,
        vec![("mic".to_string(), true), ("line".to_string(), false), ("mic".to_string(), true)]
    );
    assert!(has_selected(&info));
    assert!(!has_selected(&input_device_info(&all, None)));
    assert!(!has_selected(&output_device_info(&all, Some("speaker"))));
    assert!(has_selected(&output_device_info(&all, Some("line"))));
    assert!(!has_selected(&output_device_info(&names(&[]), Some("line"))));
}

#[test]
fn a_device_is_found_by_name() {
    let all = names(&["mic", "line", "mic"]);
    assert_eq!(find_device(&all, "mic"), Some(0));
    assert_eq!(find_device(&all, "line"), Some(1));
    assert_eq!(find_device(&all, "Line"), None);
}

#[test]
fn stream_buffers_are_small() {
    assert_eq!(stream_buffer_size(None), None);
    assert_eq!(stream_buffer_size(Some(15)), Some(256));
    assert_eq!(stream_buffer_size(Some(256)), Some(256));
    assert_eq!(stream_buffer_size(Some(512)), Some(512));
}

#[test]
fn configurations_have_sizes_and_periods() {
    let sizes = [
        (BufferSize::XS, 1024),
        (BufferSize::S, 2048),
        (BufferSize::M, 4096),
        (BufferSize::L, 8192),
        (BufferSize::XL, 16384),
    ];
    for (size, samples) in sizes {
        let config = Config::new(size, 250);
        assert_eq!(config.buffer_size, samples);
        assert_eq!(config.min_period, 250_000_000);
    }
    assert_eq!(Config::new(BufferSize::M, 0).min_period, 0);
}

fn analyser(buffer_size: usize, min_period: u128) -> Analyser {
    Analyser::new(&Config { buffer_size, min_period }, 1000)
}

#[test]
fn input_is_collected_until_the_buffer_is_full() {
    let mut a = analyser(4, 100);
    assert!(!a.accept(&[1, 2, 3], 3, 1001));
    assert_eq!(a.frames(), vec![(Single { bits: 1 }, Single { bits: 2 })]);
    assert!(!a.accept(&[4, 5, 6], 3, 5000));
    let full = vec![
        (Single { bits: 1 }, Single { bits: 2 }),
        (Single { bits: 3 }, Single { bits: 4 }),
    ];
    assert_eq!(a.frames(), full);
    // Full and over time: the next input is dropped and the buffer analysed.
    assert!(a.accept(&[7], 1, 5000));
    assert_eq!(a.frames(), full);
    a.record(single(440.0));
    assert!(a.frames().is_empty());
    assert_eq!(a.frequencies(), (single(440.0), single(0.0)));
}

#[test]
fn only_samples_that_were_taken_up_count() {
    let mut a = analyser(4, 0);
    assert!(!a.accept(&[1, 2, 3, 4], 2, 1001));
    assert_eq!(a.frames(), vec![(Single { bits: 1 }, Single { bits: 2 })]);
    assert!(!a.accept(&[9, 9, 9], 0, 1002));
    assert!(!a.accept(&[3, 4], 2, 1003));
    assert!(!a.accept(&[5], 0, 9000));
    assert!(a.accept(&[5], 1, 9000));
}

#[test]
fn analyses_keep_their_distance() {
    let mut a = analyser(2, 100);
    assert!(!a.accept(&[1, 2], 2, 1000));
    assert!(!a.accept(&[3, 4], 2, 1100));
    assert!(a.accept(&[3, 4], 2, 1101));
    assert_eq!(a.progress(1151), (50, 101));
    a.record(single(1.0));
    assert!(!a.accept(&[3, 4], 2, 1102));
    assert!(!a.accept(&[5, 6], 2, 1201));
    assert!(a.accept(&[5, 6], 2, 1301));
    a.record(single(2.0));
    assert_eq!(a.frequencies(), (single(2.0), single(1.0)));
    assert_eq!(a.progress(1301), (0, 200));
    assert_eq!(a.progress(1000), (0, 200));
}

#[test]
fn input_is_heard_and_delayed() {
    let mut line = DelayLine::new(1);
    let mut a = analyser(2, 0);
    assert!(!a.hear(true, &mut line, &[5, 6], 1001));
    // The line had room for one.
    assert!(a.frames().is_empty());
    assert_eq!(line.fill(2), vec![0, 5]);
    assert!(!a.hear(true, &mut line, &[6], 1002));
    assert_eq!(a.frames(), vec![(Single { bits: 5 }, Single { bits: 6 })]);
    assert!(a.hear(false, &mut line, &[7, 8, 9], 1003));
    assert_eq!(line.fill(2), vec![6, 0]);
}

#[test]
fn the_loudest_bin_is_found() {
    let norms = |list: &[f32]| -> Vec<Single> { list.iter().map(|&x| single(x)).collect() };
    assert_eq!(loudest_bin(&norms(&[])), 0);
    assert_eq!(loudest_bin(&norms(&[9.0])), 0);
    assert_eq!(loudest_bin(&norms(&[0.0, 0.0, 0.0, 0.0])), 0);
    assert_eq!(loudest_bin(&norms(&[0.1, 2.0, 2.0, 1.0, 9.0, 9.0, 9.0, 9.0])), 1);
    assert_eq!(loudest_bin(&norms(&[0.1, f32::NAN, 0.2, 0.2, 0.0, 0.0, 0.0, 0.0])), 2);
    assert_eq!(loudest_bin(&norms(&[f32::NAN, f32::NAN, 1.0, 1.0])), 0);
    assert_eq!(loudest_bin(&norms(&[-1.0, 3.0, f32::INFINITY, 0.0, 0.0, 0.0])), 2);
}
