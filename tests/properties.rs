use dudero::{check_buffer, check_iter, DuderoContext, DuderoError, DuderoResult, MAX_LEN, MIN_LEN};

fn sample_bytes(n: usize) -> Vec<u8> {
    let mut state: u32 = 0x1234_5678;
    let mut out = Vec::new();
    for _ in 0..n {
        state ^= state << 13;
        state ^= state >> 17;
        state ^= state << 5;
        out.push((state >> 24) as u8);
    }
    out
}

#[test]
fn every_short_length_is_too_short() {
    for len in 0..MIN_LEN {
        assert_eq!(check_buffer(&vec![0x5Au8; len]), Err(DuderoError::TooShort));
        assert_eq!(check_buffer(&sample_bytes(len)), Err(DuderoError::TooShort));
    }
}

#[test]
fn every_long_length_is_too_long() {
    for len in [MAX_LEN + 1, MAX_LEN + 2, 40000] {
        assert_eq!(check_buffer(&vec![0x5Au8; len]), Err(DuderoError::TooLong));
    }
}

#[test]
fn fifteen_bytes_of_any_value_are_too_short() {
    for b in [0x00u8, 0x42, 0xFF] {
        assert_eq!(check_buffer(&vec![b; 15]), Err(DuderoError::TooShort));
    }
}

#[test]
fn checking_twice_gives_the_same_verdict() {
    let buf = sample_bytes(1000);
    let first = check_buffer(&buf);
    assert!(first.is_ok());
    assert_eq!(check_buffer(&buf), first);
    assert_eq!(check_buffer(&buf.clone()), first);
}

#[test]
fn finish_is_repeatable() {
    let mut ctx = DuderoContext::new();
    ctx.add_bytes(sample_bytes(300).into_iter()).unwrap();
    let before = ctx.clone();
    let first = ctx.finish();
    assert_eq!(ctx.finish(), first);
    assert_eq!(ctx.finish(), first);
    assert_eq!(ctx, before);
    assert_eq!(ctx.len(), 300);
}

#[test]
fn single_adds_match_bulk_adds_for_every_split() {
    let data = sample_bytes(200);
    let mut single = DuderoContext::new();
    for b in data.iter() {
        single.add(*b).unwrap();
    }
    for split in [0usize, 1, 17, 100, 199, 200] {
        let mut bulk = DuderoContext::new();
        bulk.add_bytes(data[..split].to_vec().into_iter()).unwrap();
        bulk.add_bytes(data[split..].to_vec().into_iter()).unwrap();
        assert_eq!(bulk, single);
        assert_eq!(bulk.finish(), single.finish());
    }
    assert_eq!(single.finish(), check_buffer(&data));
}

#[test]
fn length_counts_every_added_byte() {
    let mut ctx = DuderoContext::new();
    for (i, b) in sample_bytes(50).into_iter().enumerate() {
        ctx.add(b).unwrap();
        assert_eq!(ctx.len(), i + 1);
        assert!(!ctx.is_empty());
    }
}

#[test]
fn all_0xff_is_bad() {
    assert_eq!(check_buffer(&vec![0xFFu8; 64]), Ok(DuderoResult::BadRandomness));
}

#[test]
fn exactly_max_len_of_zeros_is_judged() {
    assert_eq!(check_buffer(&vec![0u8; MAX_LEN]), Ok(DuderoResult::BadRandomness));
}

#[test]
fn exactly_max_len_of_counter_looks_random() {
    let buf: Vec<u8> = (0..MAX_LEN).map(|i| i as u8).collect();
    assert_eq!(check_buffer(&buf), Ok(DuderoResult::LooksRandom));
}

#[test]
fn statistic_at_threshold_looks_random() {
    // Bins 11,3,3,3,2,2,1,1,1,1,1,1,1,1,0,0: sum of squared deviations 100, expected 2.
    let buf = [0x00u8, 0x00, 0x00, 0x00, 0x00, 0x01, 0x11, 0x22, 0x23, 0x33, 0x44, 0x55, 0x67, 0x89, 0xAB, 0xCD];
    assert_eq!(check_buffer(&buf), Ok(DuderoResult::LooksRandom));
}

#[test]
fn statistic_just_above_threshold_is_bad() {
    // Bins 11,3,3,3,3,1,1,1,1,1,1,1,1,1,0,0: sum of squared deviations 102, expected 2.
    let buf = [0x00u8, 0x00, 0x00, 0x00, 0x00, 0x01, 0x11, 0x22, 0x23, 0x33, 0x44, 0x45, 0x67, 0x89, 0xAB, 0xCD];
    assert_eq!(check_buffer(&buf), Ok(DuderoResult::BadRandomness));
}

#[test]
fn finish_below_min_len_is_too_short() {
    let mut ctx = DuderoContext::new();
    assert_eq!(ctx.finish(), Err(DuderoError::TooShort));
    for b in (0u8..15).map(|i| i * 17) {
        ctx.add(b).unwrap();
    }
    assert_eq!(ctx.finish(), Err(DuderoError::TooShort));
    ctx.add(0xFF).unwrap();
    assert_eq!(ctx.finish(), Ok(DuderoResult::LooksRandom));
}

#[test]
fn add_bytes_stops_at_the_limit() {
    let mut ctx = DuderoContext::new();
    ctx.add_bytes(vec![0x42u8; MAX_LEN - 2].into_iter()).unwrap();
    assert_eq!(ctx.add_bytes(vec![0x42u8; 5].into_iter()), Err(DuderoError::TooLong));
    assert_eq!(ctx.len(), MAX_LEN);
    assert_eq!(ctx.add(0x00), Err(DuderoError::TooLong));
    assert_eq!(ctx.len(), MAX_LEN);
}

#[test]
fn extend_keeps_the_first_max_len_bytes() {
    let mut ctx = DuderoContext::new();
    ctx.extend(vec![0x42u8; MAX_LEN + 10].into_iter());
    assert_eq!(ctx.len(), MAX_LEN);
    let mut full = DuderoContext::new();
    full.add_bytes(vec![0x42u8; MAX_LEN].into_iter()).unwrap();
    assert_eq!(ctx, full);
}

#[test]
fn check_iter_bounds_match_check_buffer() {
    assert_eq!(check_iter(vec![0u8; 15].into_iter()), Err(DuderoError::TooShort));
    assert_eq!(check_iter(vec![0u8; MAX_LEN + 1].into_iter()), Err(DuderoError::TooLong));
    let data = sample_bytes(500);
    assert_eq!(check_iter(data.iter().copied()), check_buffer(&data));
}

#[test]
fn default_is_a_new_context() {
    let ctx = DuderoContext::default();
    assert_eq!(ctx, DuderoContext::new());
    assert!(ctx.is_empty());
    assert_eq!(ctx.len(), 0);
}

#[test]
fn error_messages_name_the_bounds() {
    assert_eq!(DuderoError::TooShort.message(), "Buffer too short (minimum 16 bytes)");
    assert_eq!(DuderoError::TooLong.message(), "Buffer too long (maximum 32768 bytes)");
}
