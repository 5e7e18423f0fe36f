use taup::volume::{Volume, DEFAULT_STEP};

#[test]
fn new_clamps_to_the_scale() {
    assert_eq!(Volume::new(-5).percent(), 0);
    assert_eq!(Volume::new(0).percent(), 0);
    assert_eq!(Volume::new(40).percent(), 40);
    assert_eq!(Volume::new(100).percent(), 100);
    assert_eq!(Volume::new(101).percent(), 100);
    assert_eq!(Volume::new(i64::MAX).percent(), 100);
    assert_eq!(Volume::new(i64::MIN).percent(), 0);
    assert_eq!(Volume::full().percent(), 100);
    assert_eq!(Volume::silent().percent(), 0);
}

#[test]
fn raise_by_fifty_from_forty_gives_ninety() {
    let v = Volume::new(40).raise(Some(50));
    assert_eq!(v.percent(), 90);
    assert_eq!(v.report(), "volume: 90%");
}

#[test]
fn raise_without_amount_uses_the_default_step() {
    assert_eq!(DEFAULT_STEP, 20);
    assert_eq!(Volume::new(40).raise(None).percent(), 60);
    assert_eq!(Volume::new(79).raise(None).percent(), 99);
    assert_eq!(Volume::new(80).raise(None).percent(), 100);
    assert_eq!(Volume::new(81).raise(None).percent(), 100);
    assert_eq!(Volume::new(100).raise(None).percent(), 100);
}

#[test]
fn lower_without_amount_uses_the_default_step() {
    assert_eq!(Volume::new(40).lower(None).percent(), 20);
    assert_eq!(Volume::new(21).lower(None).percent(), 1);
    assert_eq!(Volume::new(20).lower(None).percent(), 0);
    assert_eq!(Volume::new(19).lower(None).percent(), 0);
    assert_eq!(Volume::new(0).lower(None).percent(), 0);
}

#[test]
fn raise_clamps_at_full() {
    assert_eq!(Volume::new(40).raise(Some(60)).percent(), 100);
    assert_eq!(Volume::new(40).raise(Some(61)).percent(), 100);
    assert_eq!(Volume::new(40).raise(Some(59)).percent(), 99);
    assert_eq!(Volume::new(40).raise(Some(i64::MAX)).percent(), 100);
}

#[test]
fn lower_clamps_at_silence() {
    assert_eq!(Volume::new(40).lower(Some(40)).percent(), 0);
    assert_eq!(Volume::new(40).lower(Some(41)).percent(), 0);
    assert_eq!(Volume::new(40).lower(Some(39)).percent(), 1);
    assert_eq!(Volume::new(40).lower(Some(i64::MAX)).percent(), 0);
}

#[test]
fn negative_steps_stay_on_the_scale() {
    assert_eq!(Volume::new(40).raise(Some(-10)).percent(), 30);
    assert_eq!(Volume::new(40).raise(Some(-50)).percent(), 0);
    assert_eq!(Volume::new(40).raise(Some(i64::MIN)).percent(), 0);
    assert_eq!(Volume::new(40).lower(Some(-10)).percent(), 50);
    assert_eq!(Volume::new(40).lower(Some(-70)).percent(), 100);
    assert_eq!(Volume::new(40).lower(Some(i64::MIN)).percent(), 100);
}

#[test]
fn repeated_raises_reach_exactly_full_from_every_level() {
    for start in 0..=100i64 {
        let mut v = Volume::new(start);
        for _ in 0..5 {
            v = v.raise(None);
            assert!(v.percent() <= 100);
        }
        assert_eq!(v.percent(), 100);
        assert_eq!(v.raise(None).percent(), 100);
    }
}

#[test]
fn repeated_lowers_reach_exactly_silence_from_every_level() {
    for start in 0..=100i64 {
        let mut v = Volume::new(start);
        for _ in 0..5 {
            v = v.lower(None);
        }
        assert_eq!(v.percent(), 0);
        assert!(v.is_silent());
        assert_eq!(v.lower(None).percent(), 0);
    }
}

#[test]
fn raises_by_one_percent_take_as_many_steps_as_the_distance() {
    let mut v = Volume::new(37);
    for k in 1..=63u8 {
        v = v.raise(Some(1));
        assert_eq!(v.percent(), 37 + k);
    }
    assert_eq!(v.percent(), 100);
}

#[test]
fn mute_toggle_is_its_own_inverse_only_from_full() {
    assert_eq!(Volume::full().toggle_mute().percent(), 0);
    assert_eq!(Volume::full().toggle_mute().toggle_mute().percent(), 100);
    for start in 1..100i64 {
        let muted = Volume::new(start).toggle_mute();
        assert_eq!(muted.percent(), 0);
        let back = muted.toggle_mute();
        assert_eq!(back.percent(), 100);
        assert_ne!(back, Volume::new(start));
    }
}

#[test]
fn mute_toggle_from_silence_restores_full() {
    assert_eq!(Volume::silent().toggle_mute().percent(), 100);
    assert_eq!(Volume::silent().toggle_mute().toggle_mute().percent(), 0);
}

#[test]
fn report_writes_the_level_in_decimal() {
    assert_eq!(Volume::new(0).report(), "volume: 0%");
    assert_eq!(Volume::new(7).report(), "volume: 7%");
    assert_eq!(Volume::new(40).report(), "volume: 40%");
    assert_eq!(Volume::new(100).report(), "volume: 100%");
}
