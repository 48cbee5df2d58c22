use garland::adc_rand_seed::adc_seed;

#[test]
fn get_1111_0000() {
    let expectations: heapless::Vec<u32, 64> = heapless::Vec::from_slice(&[
        0x0000_0001, // LSB = 1
        0x0000_00FF, // LSB = 1
        0x0000_FFFF, // LSB = 1
        0xFFFF_FFFF, // LSB = 1
        0x0000_0000, // LSB = 0
        0x0000_00FE, // LSB = 0
        0x0000_FFFE, // LSB = 0
        0xFFFF_FFFE, // LSB = 0
    ])
    .unwrap();

    assert_eq!(0b1111_0000, adc_seed(&expectations));
}

#[test]
fn seed_of_no_samples_is_zero() {
    let samples: heapless::Vec<u32, 64> = heapless::Vec::new();
    assert_eq!(0, adc_seed(&samples));
}

#[test]
fn seed_uses_every_position() {
    // One set bit walks the seed from the top: sample i alone contributes
    // bit (len - 1 - i).
    for i in 0..8usize {
        let mut samples: heapless::Vec<u32, 64> = heapless::Vec::new();
        for j in 0..8usize {
            samples.push(if i == j { 1 } else { 0 }).unwrap();
        }
        assert_eq!(1u64 << (7 - i), adc_seed(&samples));
    }
}

#[test]
fn seed_folds_full_width() {
    let mut samples: heapless::Vec<u32, 64> = heapless::Vec::new();
    for _ in 0..64usize {
        samples.push(0x3).unwrap();
    }
    assert_eq!(u64::MAX, adc_seed(&samples));
}
