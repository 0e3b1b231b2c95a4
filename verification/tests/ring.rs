use audio_visualizer::amplitude::Amplitude;
use audio_visualizer::ring::RingBuffer;

fn ring_after(capacity: usize, pushes: usize) -> RingBuffer<usize> {
    let mut ring = RingBuffer::new(capacity, 0);
    for value in 1..=pushes {
        ring.push(value);
    }
    ring
}

#[test]
fn five_pushes_into_four_slots_drop_the_first() {
    let mut ring = RingBuffer::new(4, 0.0f32);
    for value in [0.1f32, 0.2, 0.3, 0.4, 0.5] {
        ring.push(value);
    }
    assert_eq!(ring.as_vec(), vec![0.2f32, 0.3, 0.4, 0.5]);
}

#[test]
fn a_fresh_ring_of_a_hundred_is_a_hundred_zeros() {
    let ring = RingBuffer::new(100, 0.0f32);
    assert_eq!(ring.as_vec(), vec![0.0f32; 100]);
    let silent = RingBuffer::new(100, Amplitude::silence());
    assert_eq!(silent.as_vec(), vec![Amplitude { numerator: 0 }; 100]);
}

#[test]
fn snapshot_always_has_capacity_values() {
    for pushes in [0usize, 1, 4, 5, 6, 10, 11, 1000] {
        let ring = ring_after(5, pushes);
        assert_eq!(ring.as_vec().len(), 5);
        assert_eq!(ring.capacity(), 5);
    }
}

#[test]
fn fewer_pushes_than_slots_keep_the_fill_in_front() {
    assert_eq!(ring_after(5, 0).as_vec(), vec![0, 0, 0, 0, 0]);
    assert_eq!(ring_after(5, 2).as_vec(), vec![0, 0, 0, 1, 2]);
    assert_eq!(ring_after(5, 5).as_vec(), vec![1, 2, 3, 4, 5]);
}

#[test]
fn more_pushes_than_slots_keep_the_last_in_order() {
    assert_eq!(ring_after(5, 6).as_vec(), vec![2, 3, 4, 5, 6]);
    assert_eq!(ring_after(5, 13).as_vec(), vec![9, 10, 11, 12, 13]);
    assert_eq!(ring_after(1, 7).as_vec(), vec![7]);
    for pushes in 3usize..40 {
        let expected: Vec<usize> = (pushes - 2..=pushes).collect();
        assert_eq!(ring_after(3, pushes).as_vec(), expected);
    }
}

#[test]
fn reading_twice_gives_the_same() {
    let ring = ring_after(4, 9);
    let first = ring.as_vec();
    let second = ring.as_vec();
    assert_eq!(first, second);
    assert_eq!(first, vec![6, 7, 8, 9]);
}

#[test]
fn a_ring_of_one_keeps_the_last_value() {
    let mut ring = RingBuffer::new(1, 0u8);
    assert_eq!(ring.capacity(), 1);
    assert_eq!(ring.as_vec(), vec![0]);
    ring.push(3);
    ring.push(4);
    assert_eq!(ring.as_vec(), vec![4]);
}
