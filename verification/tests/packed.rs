use fp32_with_flag::{FP32WithFlag, PackError};

fn pack(val: f32, flag: bool) -> FP32WithFlag {
    FP32WithFlag::new(val.to_bits(), flag).unwrap()
}

fn value(p: &FP32WithFlag) -> f32 {
    f32::from_bits(p.get_val())
}

#[test]
fn test_test_set_get_flag() {
    let mut fp1_m = pack(10.0, true);
    let fp2_m = pack(2.0, false);
    assert_eq!(fp1_m.get_flag(), true);
    assert_eq!(fp2_m.get_flag(), false);
    fp1_m.set_flag(false);
    assert_eq!(fp1_m.get_flag(), false);
    fp1_m.set_flag(true);
    assert_eq!(fp1_m.get_flag(), true);
}

#[test]
fn test_test_set_get_val() {
    // 10.0_f32 is an exact number in the last bit has zero.
    let mut fp1_m = pack(10.0, true);
    // 2.0_f32 is an exact number in the last bit has zero.
    let fp2_m = pack(2.0, false);
    // 3.3_f32 is not exact number in the last bit has one.
    // So it will not give the same number.
    let fp3_m = pack(3.3, false);
    assert_eq!(value(&fp1_m), 10.0_f32);
    assert_eq!(value(&fp2_m), 2.0_f32);
    assert_ne!(value(&fp3_m), 3.3_f32);
    assert_eq!(fp1_m.set_val(2.0_f32.to_bits()), Ok(()));
    assert_eq!(value(&fp1_m), 2.0_f32);
    assert_eq!(fp1_m.get_flag(), true);
    fp1_m.set_flag(false);
    assert_eq!(value(&fp1_m), 2.0_f32);
    assert_eq!(fp1_m.get_flag(), false);
}

#[test]
fn test_test_neg_zero() {
    let fp1_m = pack(-0.0, false);
    assert_eq!(value(&fp1_m), -0.0_f32);
    let fp1_m = pack(-0.0, true);
    assert_eq!(value(&fp1_m), -0.0_f32);

    let mut fp1_m = pack(10.0, false);
    assert_eq!(fp1_m.set_val((-0.0_f32).to_bits()), Ok(()));
    assert_eq!(value(&fp1_m), -0.0_f32);
    fp1_m.set_flag(true);
    assert_eq!(value(&fp1_m), -0.0_f32);
    assert_eq!(fp1_m.get_flag(), true);
}

#[test]
fn test_test_pos_zero() {
    let fp1_m = pack(0.0, false);
    assert_eq!(value(&fp1_m), 0.0_f32);
    let fp1_m = pack(0.0, true);
    assert_eq!(value(&fp1_m), 0.0_f32);

    let mut fp1_m = pack(10.0, false);
    assert_eq!(fp1_m.set_val(0.0_f32.to_bits()), Ok(()));
    assert_eq!(value(&fp1_m), 0.0_f32);
    fp1_m.set_flag(true);
    assert_eq!(value(&fp1_m), 0.0_f32);
    assert_eq!(fp1_m.get_flag(), true);
}

#[test]
fn test_test_neg_infnity() {
    let fp1_m = pack(f32::NEG_INFINITY, false);
    assert_eq!(value(&fp1_m), f32::NEG_INFINITY);
    let fp1_m = pack(f32::NEG_INFINITY, true);
    assert_eq!(value(&fp1_m), f32::NEG_INFINITY);

    let mut fp1_m = pack(10.0, false);
    assert_eq!(fp1_m.set_val(f32::NEG_INFINITY.to_bits()), Ok(()));
    assert_eq!(value(&fp1_m), f32::NEG_INFINITY);
    fp1_m.set_flag(true);
    assert_eq!(value(&fp1_m), f32::NEG_INFINITY);
    assert_eq!(fp1_m.get_flag(), true);
}

#[test]
fn test_test_pos_infnity() {
    let fp1_m = pack(f32::INFINITY, false);
    assert_eq!(value(&fp1_m), f32::INFINITY);
    let fp1_m = pack(f32::INFINITY, true);
    assert_eq!(value(&fp1_m), f32::INFINITY);

    let mut fp1_m = pack(10.0, false);
    assert_eq!(fp1_m.set_val(f32::INFINITY.to_bits()), Ok(()));
    assert_eq!(value(&fp1_m), f32::INFINITY);
    fp1_m.set_flag(true);
    assert_eq!(value(&fp1_m), f32::INFINITY);
    assert_eq!(fp1_m.get_flag(), true);
}

#[test]
#[should_panic]
fn test_test_nan_create_struct() {
    // f32::NAN
    // NOTE: There are more then one NAN.
    let _fp1_m = pack(f32::NAN, false);
}

#[test]
fn test_test_nan_set_val() {
    // f32::NAN
    // NOTE: There are more then one NAN.
    let mut fp1_m = pack(10.0, false);
    let res = fp1_m.set_val(f32::NAN.to_bits());
    assert!(res.is_err());
    assert_ne!(value(&fp1_m).to_string(), f32::NAN.to_string());
}

// Every NaN pattern this test names: quiet and signaling, of either sign,
// with the smallest and the largest fraction.
const NANS: [u32; 7] = [
    0x7fc0_0000,
    0xffc0_0000,
    0x7f80_0001,
    0xff80_0001,
    0x7fff_ffff,
    0xffff_ffff,
    0x7fa0_0000,
];

#[test]
fn new_refuses_every_kind_of_nan() {
    for bits in NANS {
        assert!(f32::from_bits(bits).is_nan());
        assert_eq!(FP32WithFlag::new(bits, false).err(), Some(PackError::InvalidValue));
        assert_eq!(FP32WithFlag::new(bits, true).err(), Some(PackError::InvalidValue));
    }
    assert_eq!(
        FP32WithFlag::new(f32::NAN.to_bits(), true).err(),
        Some(PackError::InvalidValue)
    );
}

#[test]
fn set_val_refuses_nan_and_keeps_state() {
    for flag in [false, true] {
        for bits in NANS {
            let mut p = pack(10.0, flag);
            assert_eq!(p.set_val(bits), Err(PackError::InvalidValue));
            assert_eq!(p.get_val(), 10.0_f32.to_bits());
            assert_eq!(p.get_flag(), flag);
        }
    }
    // The same after the value was stored with a loss.
    let mut p = pack(3.3, true);
    let before = p.get_val();
    assert_eq!(p.set_val(f32::NAN.to_bits()), Err(PackError::InvalidValue));
    assert_eq!(p.get_val(), before);
    assert_eq!(p.get_flag(), true);
}

#[test]
fn even_patterns_round_trip_exactly() {
    let values: [f32; 10] = [
        2.0,
        10.0,
        0.0,
        -0.0,
        1.0,
        -1.0,
        0.5,
        1024.0,
        f32::from_bits(0x7f7f_fffe),
        f32::MIN_POSITIVE,
    ];
    for v in values {
        assert_eq!(v.to_bits() & 1, 0, "{v} has an odd pattern");
        for flag in [false, true] {
            let p = pack(v, flag);
            assert_eq!(p.get_val(), v.to_bits());
            assert_eq!(p.get_flag(), flag);
        }
    }
}

#[test]
fn odd_patterns_lose_one_ulp_towards_zero() {
    // 3.3 as a single is 0x40533333.
    assert_eq!(3.3_f32.to_bits(), 0x4053_3333);
    for flag in [false, true] {
        let p = pack(3.3, flag);
        assert_eq!(p.get_val(), 0x4053_3332);
        assert_eq!(p.get_flag(), flag);
        let back = value(&p);
        assert_ne!(back, 3.3_f32);
        assert!(back < 3.3_f32);
        // One unit in the last place of 3.3 is 2^-22.
        assert_eq!(3.3_f32 - back, 2.0_f32.powi(-22));

        let n = pack(-3.3, flag);
        assert_eq!(n.get_val(), 0xc053_3332);
        assert_eq!(value(&n) - (-3.3_f32), 2.0_f32.powi(-22));
    }
}

#[test]
fn odd_extremes_lose_one_ulp() {
    // The largest finite number and the smallest subnormal are both odd.
    assert_eq!(f32::MAX.to_bits(), 0x7f7f_ffff);
    assert_eq!(pack(f32::MAX, true).get_val(), 0x7f7f_fffe);
    let tiny = f32::from_bits(1);
    let p = pack(tiny, true);
    assert_eq!(p.get_val(), 0);
    assert_eq!(value(&p), 0.0);
    assert_eq!(p.get_flag(), true);
    let p = pack(-tiny, false);
    assert_eq!(p.get_val(), 0x8000_0000);
    assert_eq!(p.get_flag(), false);
}

#[test]
fn zeros_and_infinities_keep_their_sign_bit() {
    let specials: [f32; 4] = [0.0, -0.0, f32::INFINITY, f32::NEG_INFINITY];
    for v in specials {
        for flag in [false, true] {
            let mut p = pack(v, flag);
            assert_eq!(p.get_val(), v.to_bits());
            assert_eq!(value(&p).is_sign_negative(), v.is_sign_negative());
            p.set_flag(!flag);
            assert_eq!(p.get_val(), v.to_bits());
            assert_eq!(p.get_flag(), !flag);

            let mut q = pack(10.0, flag);
            assert_eq!(q.set_val(v.to_bits()), Ok(()));
            assert_eq!(q.get_val(), v.to_bits());
            assert_eq!(q.get_flag(), flag);
        }
    }
}

#[test]
fn flag_writes_never_change_the_value() {
    for v in [10.0_f32, 3.3, -7.25, 0.0, f32::INFINITY, f32::MAX] {
        for first in [false, true] {
            let mut p = pack(v, first);
            let read = p.get_val();
            for second in [false, true, true, false, true] {
                p.set_flag(second);
                assert_eq!(p.get_val(), read);
                assert_eq!(p.get_flag(), second);
            }
        }
    }
}

#[test]
fn value_writes_never_change_the_flag() {
    for flag in [false, true] {
        let mut p = pack(1.0, flag);
        for v in [2.0_f32, 3.3, -0.0, f32::NEG_INFINITY, f32::MAX, 1.0e-40] {
            assert_eq!(p.set_val(v.to_bits()), Ok(()));
            assert_eq!(p.get_val(), v.to_bits() & !1);
            assert_eq!(p.get_flag(), flag);
        }
    }
}

#[test]
fn reading_does_not_disturb_what_is_stored() {
    let p = pack(3.3, true);
    let first = p.get_val();
    assert_eq!(p.get_flag(), true);
    assert_eq!(p.get_val(), first);
    assert_eq!(p.get_flag(), true);
}

#[test]
fn copies_are_independent() {
    let a = pack(7.0, false);
    let mut b = a;
    b.set_flag(true);
    assert_eq!(b.set_val(8.0_f32.to_bits()), Ok(()));
    assert_eq!(value(&a), 7.0);
    assert_eq!(a.get_flag(), false);
    assert_eq!(value(&b), 8.0);
    assert_eq!(b.get_flag(), true);
}

#[test]
fn an_instance_is_four_bytes() {
    assert_eq!(std::mem::size_of::<FP32WithFlag>(), 4);
    assert_eq!(std::mem::size_of::<[FP32WithFlag; 100]>(), 400);
    assert_eq!(std::mem::size_of_val(&pack(f32::INFINITY, true)), 4);
    assert_eq!(std::mem::size_of_val(&pack(0.0, false)), 4);
}

#[test]
fn construct_write_value_write_flag() {
    let mut p = pack(10.0, true);
    assert_eq!(value(&p), 10.0);
    assert_eq!(p.get_flag(), true);

    assert_eq!(p.set_val(2.0_f32.to_bits()), Ok(()));
    assert_eq!(value(&p), 2.0);
    assert_eq!(p.get_flag(), true);

    p.set_flag(false);
    assert_eq!(p.get_flag(), false);
    assert_eq!(value(&p), 2.0);
}

#[test]
fn marked_elements_of_an_array() {
    let mut items = [pack(7.0, false); 100];
    for (i, item) in items.iter_mut().enumerate() {
        if i % 2 == 0 {
            item.set_flag(true);
        }
    }
    let mut accu: f32 = 0.0;
    for item in &items {
        if item.get_flag() {
            accu += value(item) * 2.0 + 128.0;
        }
    }
    assert_eq!(accu, 7100.0);
}
