use sayall::dsp::{clamp_to_i16, smooth};

#[test]
fn smoothing_averages_inner_samples_and_keeps_the_ends() {
    assert_eq!(smooth(&[0, 4, 8, 4]), vec![0, 4, 6, 4]);
    assert_eq!(smooth(&[-1, -2, -3]), vec![-1, -2, -3]);
    assert_eq!(smooth(&[10, 20]), vec![10, 20]);
    assert_eq!(smooth(&[]), Vec::<i32>::new());
    assert_eq!(smooth(&[i16::MAX, i16::MAX, i16::MAX]), vec![32767, 32767, 32767]);
}

#[test]
fn clamping_saturates_at_the_pcm_range() {
    assert_eq!(clamp_to_i16(40_000), i16::MAX);
    assert_eq!(clamp_to_i16(-40_000), i16::MIN);
    assert_eq!(clamp_to_i16(-5), -5);
}
