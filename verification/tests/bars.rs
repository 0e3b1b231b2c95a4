use audio_visualizer::amplitude::Amplitude;
use audio_visualizer::bars::{aim, Bar, BarAggregator, Smoothing};
use audio_visualizer::ring::RingBuffer;

fn amplitudes(numerators: &[i16]) -> Vec<Amplitude> {
    numerators.iter().map(|n| Amplitude { numerator: *n }).collect()
}

fn fifth() -> Smoothing {
    Smoothing::new(1, 5).unwrap()
}

#[test]
fn a_silent_ring_of_a_hundred_gives_ten_bars_of_height_zero() {
    let ring = RingBuffer::new(100, Amplitude::silence());
    let snapshot = ring.as_vec();
    assert_eq!(snapshot.len(), 100);
    let mut aggregator = BarAggregator::new(10, fifth());
    let drawn = aggregator.update(&snapshot, 800, 600);
    assert_eq!(drawn.len(), 10);
    for (bar, rectangle) in drawn.iter().enumerate() {
        assert_eq!(rectangle.height, 0);
        assert_eq!(rectangle.y, 600);
        assert_eq!(rectangle.x, 80 * bar as u32);
        assert_eq!(rectangle.width, 72);
    }
    assert_eq!(aggregator.levels(), vec![0u32; 10]);
}

#[test]
fn no_bars_nothing_drawn() {
    let mut aggregator = BarAggregator::new(0, fifth());
    assert_eq!(aggregator.update(&amplitudes(&[1, 2, 3]), 800, 600), Vec::<Bar>::new());
    assert_eq!(aggregator.update(&[], 800, 600), Vec::<Bar>::new());
    assert_eq!(aggregator.levels(), Vec::<u32>::new());
}

#[test]
fn an_empty_snapshot_keeps_bars_at_zero() {
    let mut aggregator = BarAggregator::new(3, fifth());
    let drawn = aggregator.update(&[], 300, 100);
    assert_eq!(
        drawn,
        vec![
            Bar { x: 0, y: 100, width: 90, height: 0 },
            Bar { x: 100, y: 100, width: 90, height: 0 },
            Bar { x: 200, y: 100, width: 90, height: 0 },
        ]
    );
}

#[test]
fn fewer_amplitudes_than_bars_aim_at_zero() {
    let mut aggregator = BarAggregator::new(5, Smoothing::new(1, 1).unwrap());
    let loud = amplitudes(&[32767, 32767, 32767]);
    let drawn = aggregator.update(&loud, 500, 100);
    assert_eq!(drawn.len(), 5);
    assert_eq!(aggregator.levels(), vec![0u32; 5]);
}

#[test]
fn a_bar_aims_at_four_fifths_of_the_height_times_the_mean_magnitude() {
    assert_eq!(aim(&amplitudes(&[32767, 32767, 32767, 32767]), 100), 80);
    assert_eq!(aim(&amplitudes(&[-32767, 32767, -32767, 32767]), 100), 80);
    assert_eq!(aim(&amplitudes(&[16384, -16384, 0, 0]), 100), 20);
    assert_eq!(aim(&amplitudes(&[32767]), 600), 480);
    assert_eq!(aim(&amplitudes(&[0, 0, 0]), 600), 0);
    assert_eq!(aim(&amplitudes(&[1, 1]), 600), 0);
    assert_eq!(aim(&[], 600), 0);
    assert_eq!(aim(&amplitudes(&[i16::MIN, i16::MIN]), 100_000), 80_002);
    assert_eq!(aim(&amplitudes(&[i16::MIN]), u32::MAX), 3_436_078_696);
}

#[test]
fn bars_move_a_fifth_of_the_way_each_tick() {
    let snapshot = amplitudes(&[32767, 32767, 32767, 32767, 16384, -16384, 0, 0]);
    let mut aggregator = BarAggregator::new(2, fifth());
    let first = aggregator.update(&snapshot, 640, 100);
    assert_eq!(
        first,
        vec![
            Bar { x: 0, y: 84, width: 288, height: 16 },
            Bar { x: 320, y: 96, width: 288, height: 4 },
        ]
    );
    let second = aggregator.update(&snapshot, 640, 100);
    assert_eq!(
        second,
        vec![
            Bar { x: 0, y: 71, width: 288, height: 29 },
            Bar { x: 320, y: 92, width: 288, height: 8 },
        ]
    );
    assert_eq!(aggregator.levels(), vec![29, 8]);
}

#[test]
fn what_is_left_over_at_the_end_of_the_snapshot_is_ignored() {
    let mut even = BarAggregator::new(2, Smoothing::new(1, 1).unwrap());
    let mut odd = BarAggregator::new(2, Smoothing::new(1, 1).unwrap());
    even.update(&amplitudes(&[100, 200, 300, 400]), 10, 1000);
    odd.update(&amplitudes(&[100, 200, 300, 400, 32767]), 10, 1000);
    assert_eq!(even.levels(), odd.levels());
    assert_eq!(even.levels(), vec![3, 8]);
}

#[test]
fn bars_fall_back_when_the_sound_stops() {
    let mut aggregator = BarAggregator::new(1, Smoothing::new(1, 2).unwrap());
    aggregator.update(&amplitudes(&[32767, 32767]), 10, 100);
    assert_eq!(aggregator.levels(), vec![40]);
    aggregator.update(&amplitudes(&[0, 0]), 10, 100);
    assert_eq!(aggregator.levels(), vec![20]);
    aggregator.update(&amplitudes(&[0, 0]), 10, 100);
    assert_eq!(aggregator.levels(), vec![10]);
}

#[test]
fn a_bar_taller_than_a_shrunken_display_starts_above_it() {
    let mut aggregator = BarAggregator::new(1, Smoothing::new(0, 1).unwrap());
    let mut jump = BarAggregator::new(1, Smoothing::new(1, 1).unwrap());
    jump.update(&amplitudes(&[32767]), 10, 1000);
    assert_eq!(jump.levels(), vec![800]);
    assert_eq!(jump.update(&amplitudes(&[32767]), 10, 1000)[0].y, 200);
    aggregator.update(&amplitudes(&[32767]), 10, 1000);
    assert_eq!(aggregator.levels(), vec![0]);
    let mut slow = BarAggregator::new(1, Smoothing::new(1, 100).unwrap());
    let mut steady = BarAggregator::new(1, Smoothing::new(1, 1).unwrap());
    steady.update(&amplitudes(&[32767]), 10, 1000);
    slow.update(&amplitudes(&[32767]), 10, 100_000);
    assert_eq!(slow.levels(), vec![800]);
    let drawn = slow.update(&amplitudes(&[0]), 10, 500);
    assert_eq!(drawn, vec![Bar { x: 0, y: -292, width: 9, height: 792 }]);
}

#[test]
fn smoothing_factors_are_fractions_from_zero_to_one() {
    assert!(Smoothing::new(0, 1).is_some());
    assert!(Smoothing::new(1, 5).is_some());
    assert!(Smoothing::new(5, 5).is_some());
    assert!(Smoothing::new(u32::MAX, u32::MAX).is_some());
    assert!(Smoothing::new(6, 5).is_none());
    assert!(Smoothing::new(0, 0).is_none());
    assert!(Smoothing::new(1, 0).is_none());
}

#[test]
fn one_tick_of_smoothing() {
    assert_eq!(fifth().apply(0, 80), 16);
    assert_eq!(fifth().apply(16, 80), 29);
    assert_eq!(fifth().apply(100, 80), 96);
    assert_eq!(fifth().apply(80, 80), 80);
    assert_eq!(fifth().apply(79, 80), 80);
    assert_eq!(fifth().apply(81, 80), 80);
    assert_eq!(Smoothing::new(1, 1).unwrap().apply(3, 1000), 1000);
    assert_eq!(Smoothing::new(0, 1).unwrap().apply(3, 1000), 3);
    assert_eq!(Smoothing::new(1, 2).unwrap().apply(0, u32::MAX), 2_147_483_648);
    assert_eq!(Smoothing::new(1, u32::MAX).unwrap().apply(u32::MAX, 0), u32::MAX - 1);
}

fn settles(start: u32, target: u32, factor: Smoothing) {
    let mut height = start;
    let mut ticks: u32 = 0;
    while height != target {
        let next = factor.apply(height, target);
        if start <= target {
            assert!(height < next && next <= target);
        } else {
            assert!(height > next && next >= target);
        }
        height = next;
        ticks += 1;
        assert!(ticks <= start.abs_diff(target));
    }
    assert_eq!(factor.apply(height, target), target);
}

#[test]
fn smoothing_converges_monotonically() {
    settles(0, 100, fifth());
    settles(200, 100, fifth());
    settles(0, 1, Smoothing::new(1, 1000).unwrap());
    settles(5000, 0, Smoothing::new(1, 1000).unwrap());
    settles(0, 480, Smoothing::new(999, 1000).unwrap());
    settles(7, 7, fifth());
    let mut rising: Vec<u32> = vec![0];
    for _ in 0..6 {
        rising.push(fifth().apply(rising[rising.len() - 1], 100));
    }
    assert_eq!(rising, vec![0, 20, 36, 49, 60, 68, 75]);
}
