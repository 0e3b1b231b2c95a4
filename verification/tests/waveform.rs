use audio_visualizer::amplitude::Amplitude;
use audio_visualizer::waveform::{waveform, Point, Segment, UNITS_PER_AMPLITUDE};

fn amplitudes(numerators: &[i16]) -> Vec<Amplitude> {
    numerators.iter().map(|n| Amplitude { numerator: *n }).collect()
}

#[test]
fn the_waveform_joins_each_point_to_the_next() {
    let segments = waveform(&amplitudes(&[0, 32767, -32767, 16384]), 100, 600);
    let first = Point { x: 0, y: 300 };
    let second = Point { x: 25, y: 100 };
    let third = Point { x: 50, y: 500 };
    let fourth = Point { x: 75, y: 200 };
    assert_eq!(
        segments,
        vec![
            Segment { from: first, to: second },
            Segment { from: second, to: third },
            Segment { from: third, to: fourth },
        ]
    );
}

#[test]
fn fewer_than_two_amplitudes_have_no_segment() {
    assert_eq!(waveform(&[], 100, 600), Vec::<Segment>::new());
    assert_eq!(waveform(&amplitudes(&[123]), 100, 600), Vec::<Segment>::new());
}

#[test]
fn full_scale_deflects_by_two_hundred_units() {
    assert_eq!(UNITS_PER_AMPLITUDE, 200);
    let segments = waveform(&amplitudes(&[i16::MAX, i16::MIN]), 10, 0);
    assert_eq!(
        segments,
        vec![Segment { from: Point { x: 0, y: -200 }, to: Point { x: 5, y: 200 } }]
    );
}

#[test]
fn small_amplitudes_round_towards_the_midline() {
    let segments = waveform(&amplitudes(&[163, -163, 164, -164]), 4, 101);
    assert_eq!(
        segments,
        vec![
            Segment { from: Point { x: 0, y: 50 }, to: Point { x: 1, y: 50 } },
            Segment { from: Point { x: 1, y: 50 }, to: Point { x: 2, y: 49 } },
            Segment { from: Point { x: 2, y: 49 }, to: Point { x: 3, y: 51 } },
        ]
    );
}

#[test]
fn a_silent_snapshot_is_a_flat_line() {
    let silent = vec![Amplitude::silence(); 2048];
    let segments = waveform(&silent, 1024, 768);
    assert_eq!(segments.len(), 2047);
    for (i, segment) in segments.iter().enumerate() {
        assert_eq!(segment.from, Point { x: (i / 2) as u32, y: 384 });
        assert_eq!(segment.to, Point { x: ((i + 1) / 2) as u32, y: 384 });
    }
}
