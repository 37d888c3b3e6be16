use softfloat_wrapper::RoundingMode;

#[test]
fn rounding_mode_codes() {
    assert_eq!(RoundingMode::TiesToEven.to_softfloat(), 0);
    assert_eq!(RoundingMode::TowardZero.to_softfloat(), 1);
    assert_eq!(RoundingMode::TowardNegative.to_softfloat(), 2);
    assert_eq!(RoundingMode::TowardPositive.to_softfloat(), 3);
    assert_eq!(RoundingMode::TiesToAway.to_softfloat(), 4);
}

#[test]
fn rounding_mode_codes_are_distinct() {
    let modes = [
        RoundingMode::TiesToEven,
        RoundingMode::TowardZero,
        RoundingMode::TowardNegative,
        RoundingMode::TowardPositive,
        RoundingMode::TiesToAway,
    ];
    for i in 0..modes.len() {
        for j in 0..modes.len() {
            assert_eq!(modes[i].to_softfloat() == modes[j].to_softfloat(), i == j);
        }
    }
}
