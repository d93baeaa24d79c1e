use stressor::worker::{
    compression_round_trip, disambiguator_from, gather_counts, keep_working,
    new_disambiguator, next_count, ram_access, ram_access_unit, random_block, spin_unit,
    total_count, UnitBatch, FLUSH_INTERVAL, HASH_MAX, HASH_MIN,
};

#[test]
fn the_total_is_the_sum_of_the_counters() {
    assert_eq!(total_count(&vec![3, 4, 5]), 12);
    assert_eq!(total_count(&Vec::new()), 0);
    assert_eq!(total_count(&vec![u64::MAX - 1, 1]), u64::MAX as u128);
}

#[test]
fn a_sum_beyond_sixty_four_bits_is_exact() {
    assert_eq!(total_count(&vec![u64::MAX, 1]), 1u128 << 64);
    assert_eq!(total_count(&vec![u64::MAX; 1000]), 1000 * (u64::MAX as u128));
    let mut published = vec![0, 0];
    assert_eq!(gather_counts(&vec![u64::MAX, u64::MAX], &mut published), 2 * (u64::MAX as u128));
    assert_eq!(published, vec![u64::MAX, u64::MAX]);
}

#[test]
fn results_are_published_slot_by_slot() {
    let mut published = vec![9, 9, 9];
    assert_eq!(gather_counts(&vec![1, 2, 3], &mut published), 6);
    assert_eq!(published, vec![1, 2, 3]);

    let mut wider = vec![9, 9, 9, 9];
    assert_eq!(gather_counts(&vec![1, 2], &mut wider), 3);
    assert_eq!(wider, vec![1, 2, 9, 9]);

    let mut narrower = vec![9];
    assert_eq!(gather_counts(&vec![5, 6, 7], &mut narrower), 18);
    assert_eq!(narrower, vec![5]);

    let mut none: Vec<u64> = Vec::new();
    assert_eq!(gather_counts(&Vec::new(), &mut none), 0);
}

#[test]
fn a_worker_goes_on_until_stopped_or_out_of_time() {
    let second: u128 = 1_000_000_000;
    assert!(keep_working(false, 0, 1));
    assert!(keep_working(false, second - 1, 1));
    assert!(!keep_working(false, second, 1));
    assert!(!keep_working(true, 0, 1));
    assert!(!keep_working(false, 0, 0));
    assert!(keep_working(false, 4294967294 * second, u32::MAX));
    assert!(!keep_working(false, u128::MAX, u32::MAX));
}

#[test]
fn units_are_flushed_every_hundred_thousand() {
    assert_eq!(FLUSH_INTERVAL, 100_000);
    let mut batch = UnitBatch::new();
    let mut flushed = 0u64;
    for unit in 1..=250_000u64 {
        match batch.record() {
            Some(n) => {
                assert_eq!(n, FLUSH_INTERVAL);
                assert_eq!(unit % FLUSH_INTERVAL, 0);
                flushed += n;
            }
            None => assert_ne!(unit % FLUSH_INTERVAL, 0),
        }
    }
    assert_eq!(flushed, 200_000);
    assert_eq!(batch.drain(), Some(50_000));
    assert_eq!(batch.drain(), None);
}

#[test]
fn an_empty_batch_has_nothing_to_drain() {
    let mut batch = UnitBatch::new();
    assert_eq!(batch.drain(), None);
    assert_eq!(batch.record(), None);
    assert_eq!(batch.drain(), Some(1));
}

#[test]
fn a_spin_unit_multiplies_out_to_zero() {
    let expected = |seed: u64| {
        let mut acc = 1u64;
        for i in 1..1000u64 {
            acc = acc.wrapping_mul(i ^ seed);
        }
        acc
    };
    for seed in [0u64, 1, 7, 1000, u64::MAX] {
        assert_eq!(spin_unit(seed), expected(seed));
    }
    assert_eq!(spin_unit(3), 0);
}

#[test]
fn compression_restores_the_block() {
    let block: Vec<u8> = (0..10_000u32).map(|i| (i * 31 % 251) as u8).collect();
    assert_eq!(compression_round_trip(&block), Ok(block.clone()));
    assert_eq!(compression_round_trip(&Vec::new()), Ok(Vec::new()));
    let zeros = vec![0u8; 65536];
    assert_eq!(compression_round_trip(&zeros), Ok(zeros.clone()));
}

#[test]
fn a_random_block_has_the_size_asked_for() {
    for size in [0usize, 1, 1024, 100_000] {
        assert_eq!(random_block(size).unwrap().len(), size);
    }
    let block = random_block(4096).unwrap();
    assert!(block.iter().any(|&b| b != 0));
    assert_eq!(compression_round_trip(&block), Ok(block.clone()));
}

#[test]
fn a_memory_unit_writes_and_reads() {
    let mut buffer = vec![0u8; 4];
    assert_eq!(ram_access(&mut buffer, 2, 77, 2), 77);
    assert_eq!(buffer, vec![0, 0, 77, 0]);
    assert_eq!(ram_access(&mut buffer, 0, 5, 3), 0);
    assert_eq!(buffer, vec![5, 0, 77, 0]);
}

#[test]
fn a_random_memory_unit_changes_one_byte_at_most() {
    for _ in 0..200 {
        let before = vec![7u8; 16];
        let mut buffer = before.clone();
        let read = ram_access_unit(&mut buffer);
        assert_eq!(buffer.len(), 16);
        let changed = buffer.iter().zip(before.iter()).filter(|(a, b)| a != b).count();
        assert!(changed <= 1);
        assert!(buffer.contains(&read));
    }
    let mut one = vec![0u8];
    let read = ram_access_unit(&mut one);
    assert_eq!(one[0], read);
}

#[test]
fn random_positions_reach_the_whole_buffer() {
    let mut buffer = vec![0u8; 4];
    let mut touched = [false; 4];
    for _ in 0..2000 {
        let before = buffer.clone();
        ram_access_unit(&mut buffer);
        for i in 0..4 {
            if buffer[i] != before[i] {
                touched[i] = true;
            }
        }
    }
    assert!(touched.iter().all(|&t| t));
}

#[test]
fn a_disambiguator_has_four_digits() {
    assert_eq!((HASH_MIN, HASH_MAX), (1000, 9998));
    assert_eq!(disambiguator_from(0), 1000);
    assert_eq!(disambiguator_from(8998), 9998);
    let mut seen_different = false;
    let first = new_disambiguator();
    for _ in 0..500 {
        let h = new_disambiguator();
        assert!((1000..=9998).contains(&h));
        assert_eq!(h.to_string().len(), 4);
        seen_different |= h != first;
    }
    assert!(seen_different);
}

#[test]
fn a_worker_counts_finished_units_and_stops_at_a_fault() {
    assert_eq!(next_count(0, true), Some(1));
    assert_eq!(next_count(41, true), Some(42));
    assert_eq!(next_count(41, false), None);
    assert_eq!(next_count(0, false), None);
    assert_eq!(next_count(u64::MAX - 1, true), Some(u64::MAX));
    assert_eq!(next_count(u64::MAX, true), None);
    let outcomes = [true, true, true, false, true];
    let mut count = 0;
    for finished in outcomes {
        match next_count(count, finished) {
            Some(next) => count = next,
            None => break,
        }
    }
    assert_eq!(count, 3);
}
