use opt3001::opt_measurment::{
    InvalidField, OptMesurment, MAX_CENTILUX, MAX_EXPONENT, MAX_FRACTIONAL,
};

#[test]
fn new_accepts_every_field_in_range() {
    for exponent in 0..=11u8 {
        for fractional in 0..=4095u16 {
            let m = OptMesurment::new(exponent, fractional).unwrap();
            assert_eq!(m.exponent(), exponent);
            assert_eq!(m.fractional(), fractional);
        }
    }
}

#[test]
fn new_rejects_exponent_out_of_range() {
    for exponent in 12..=255u8 {
        assert_eq!(OptMesurment::new(exponent, 0), Err(InvalidField));
        assert_eq!(OptMesurment::new(exponent, 4095), Err(InvalidField));
    }
}

#[test]
fn new_rejects_fractional_out_of_range() {
    for fractional in 4096..=65535u16 {
        assert_eq!(OptMesurment::new(0, fractional), Err(InvalidField));
        assert_eq!(OptMesurment::new(11, fractional), Err(InvalidField));
    }
}

#[test]
fn new_rejects_both_out_of_range() {
    assert_eq!(OptMesurment::new(12, 4096), Err(InvalidField));
    assert_eq!(OptMesurment::new(255, 65535), Err(InvalidField));
}

#[test]
fn bounds_are_the_documented_ones() {
    assert_eq!(MAX_EXPONENT, 11);
    assert_eq!(MAX_FRACTIONAL, 4095);
    assert_eq!(MAX_CENTILUX, 8_386_560);
    assert!(OptMesurment::new(MAX_EXPONENT, MAX_FRACTIONAL).is_ok());
}

#[test]
fn centilux_is_mantissa_times_power_of_two() {
    assert_eq!(OptMesurment::new(0, 0).unwrap().get_centilux(), 0);
    assert_eq!(OptMesurment::new(0, 1).unwrap().get_centilux(), 1);
    assert_eq!(OptMesurment::new(0, 4095).unwrap().get_centilux(), 4095);
    assert_eq!(OptMesurment::new(1, 1).unwrap().get_centilux(), 2);
    assert_eq!(OptMesurment::new(4, 100).unwrap().get_centilux(), 1600);
    assert_eq!(OptMesurment::new(7, 1234).unwrap().get_centilux(), 157_952);
    assert_eq!(OptMesurment::new(11, 0).unwrap().get_centilux(), 0);
    assert_eq!(OptMesurment::new(11, 1).unwrap().get_centilux(), 2048);
    for exponent in 0..=11u8 {
        for fractional in 0..=4095u16 {
            let m = OptMesurment::new(exponent, fractional).unwrap();
            assert_eq!(m.get_centilux(), (1u32 << exponent) * fractional as u32);
        }
    }
}

#[test]
fn centilux_never_decreases_when_a_field_grows() {
    for exponent in 0..=11u8 {
        for fractional in 0..=4095u16 {
            let here = OptMesurment::new(exponent, fractional).unwrap().get_centilux();
            if exponent < 11 {
                let up = OptMesurment::new(exponent + 1, fractional).unwrap().get_centilux();
                assert!(here <= up);
            }
            if fractional < 4095 {
                let up = OptMesurment::new(exponent, fractional + 1).unwrap().get_centilux();
                assert!(here <= up);
            }
        }
    }
}

#[test]
fn centilux_maximum_only_at_the_largest_fields() {
    let mut hits = 0;
    for exponent in 0..=11u8 {
        for fractional in 0..=4095u16 {
            let c = OptMesurment::new(exponent, fractional).unwrap().get_centilux();
            assert!(c <= 8_386_560);
            if c == 8_386_560 {
                hits += 1;
                assert_eq!((exponent, fractional), (11, 4095));
            }
        }
    }
    assert_eq!(hits, 1);
    assert_eq!(OptMesurment::new(11, 4095).unwrap().get_centilux(), 8_386_560);
}

#[test]
fn to_compact_puts_exponent_above_inverted_mantissa() {
    assert_eq!(OptMesurment::new(0, 0).unwrap().to_compact(), 0x0FFF);
    assert_eq!(OptMesurment::new(0, 4095).unwrap().to_compact(), 0x0000);
    assert_eq!(OptMesurment::new(4, 100).unwrap().to_compact(), 0x4F9B);
    assert_eq!(OptMesurment::new(11, 4095).unwrap().to_compact(), 0xB000);
    assert_eq!(OptMesurment::new(11, 0).unwrap().to_compact(), 0xBFFF);
    assert_eq!(OptMesurment::new(1, 0x0F0).unwrap().to_compact(), 0x1F0F);
}

#[test]
fn from_compact_reads_exponent_and_inverted_mantissa() {
    let m = OptMesurment::from_compact(0x4F9B).unwrap();
    assert_eq!((m.exponent(), m.fractional()), (4, 100));
    let m = OptMesurment::from_compact(0x0000).unwrap();
    assert_eq!((m.exponent(), m.fractional()), (0, 4095));
    let m = OptMesurment::from_compact(0x0FFF).unwrap();
    assert_eq!((m.exponent(), m.fractional()), (0, 0));
    let m = OptMesurment::from_compact(0xBFFF).unwrap();
    assert_eq!((m.exponent(), m.fractional()), (11, 0));
    let m = OptMesurment::from_compact(0xB000).unwrap();
    assert_eq!((m.exponent(), m.fractional()), (11, 4095));
}

#[test]
fn from_compact_rejects_exponents_above_eleven() {
    assert_eq!(OptMesurment::from_compact(0xC000), Err(InvalidField));
    assert_eq!(OptMesurment::from_compact(0xCFFF), Err(InvalidField));
    assert_eq!(OptMesurment::from_compact(0xF123), Err(InvalidField));
    assert_eq!(OptMesurment::from_compact(0xFFFF), Err(InvalidField));
    for word in 0..=0xFFFFu16 {
        assert_eq!(OptMesurment::from_compact(word).is_ok(), word < 0xC000);
    }
}

#[test]
fn pack_then_unpack_returns_the_measurement() {
    for exponent in 0..=11u8 {
        for fractional in 0..=4095u16 {
            let m = OptMesurment::new(exponent, fractional).unwrap();
            assert_eq!(OptMesurment::from_compact(m.to_compact()), Ok(m));
        }
    }
}

#[test]
fn unpack_then_pack_returns_the_word() {
    for word in 0..0xC000u16 {
        let m = OptMesurment::from_compact(word).unwrap();
        assert_eq!(m.to_compact(), word);
    }
}

#[test]
fn inverted_exponent_bits_never_round_trip() {
    for exponent in 0..=11u8 {
        for fractional in 0..=4095u16 {
            let m = OptMesurment::new(exponent, fractional).unwrap();
            let flipped = m.to_compact() ^ 0xF000;
            let back = OptMesurment::from_compact(flipped);
            assert_ne!(back, Ok(m));
            match back {
                Ok(other) => {
                    assert!(exponent >= 4);
                    assert_eq!(other.exponent(), 15 - exponent);
                    assert_eq!(other.fractional(), fractional);
                }
                Err(e) => {
                    assert!(exponent < 4);
                    assert_eq!(e, InvalidField);
                }
            }
        }
    }
}

#[test]
fn unmasked_mantissa_with_inverted_exponent_never_decodes() {
    // Inverting the exponent bits and taking the mantissa from the whole
    // word, top four bits included, leaves no word that passes validation.
    for word in 0..=0xFFFFu16 {
        let exponent = ((word ^ 0xF000) >> 12) as u8;
        let fractional = word ^ 0x0FFF;
        assert_eq!(OptMesurment::new(exponent, fractional), Err(InvalidField));
    }
}

#[test]
fn conversions_agree_with_the_codec() {
    let m = OptMesurment::new(4, 100).unwrap();
    let word: u16 = m.into();
    assert_eq!(word, 0x4F9B);
    assert_eq!(u16::from(m), m.to_compact());
    assert_eq!(OptMesurment::try_from(0x4F9Bu16), Ok(m));
    assert_eq!(OptMesurment::try_from(0xC000u16), Err(InvalidField));
    let back: Result<OptMesurment, InvalidField> = 0x4F9Bu16.try_into();
    assert_eq!(back, Ok(m));
}

#[test]
fn four_and_one_hundred_is_sixteen_lux() {
    let m = OptMesurment::new(4, 100).unwrap();
    assert_eq!(m.exponent(), 4);
    assert_eq!(m.fractional(), 100);
    assert_eq!(m.get_centilux(), 1600);
    assert_eq!(m.get_centilux() as f32 / 100.0, 16.0f32);
    assert_eq!(m.to_string(), "16 lux");
    assert_eq!(m.to_string_alternate(), "1600 lux");
}

#[test]
fn lux_text_has_at_most_two_decimals() {
    assert_eq!(OptMesurment::new(0, 0).unwrap().to_string(), "0 lux");
    assert_eq!(OptMesurment::new(0, 1).unwrap().to_string(), "0.01 lux");
    assert_eq!(OptMesurment::new(0, 10).unwrap().to_string(), "0.1 lux");
    assert_eq!(OptMesurment::new(0, 25).unwrap().to_string(), "0.25 lux");
    assert_eq!(OptMesurment::new(0, 100).unwrap().to_string(), "1 lux");
    assert_eq!(OptMesurment::new(0, 105).unwrap().to_string(), "1.05 lux");
    assert_eq!(OptMesurment::new(0, 4095).unwrap().to_string(), "40.95 lux");
    assert_eq!(OptMesurment::new(3, 1000).unwrap().to_string(), "80 lux");
    assert_eq!(OptMesurment::new(11, 4095).unwrap().to_string(), "83865.6 lux");
}

#[test]
fn centilux_text_is_the_whole_number() {
    assert_eq!(OptMesurment::new(0, 0).unwrap().to_string_alternate(), "0 lux");
    assert_eq!(OptMesurment::new(0, 7).unwrap().to_string_alternate(), "7 lux");
    assert_eq!(OptMesurment::new(0, 10).unwrap().to_string_alternate(), "10 lux");
    assert_eq!(OptMesurment::new(0, 4095).unwrap().to_string_alternate(), "4095 lux");
    assert_eq!(OptMesurment::new(11, 4095).unwrap().to_string_alternate(), "8386560 lux");
    for exponent in 0..=11u8 {
        for fractional in 0..=4095u16 {
            let m = OptMesurment::new(exponent, fractional).unwrap();
            assert_eq!(m.to_string_alternate(), format!("{} lux", m.get_centilux()));
        }
    }
}

#[test]
fn lux_text_matches_the_floating_point_rendering() {
    for exponent in 0..=11u8 {
        for fractional in 0..=4095u16 {
            let m = OptMesurment::new(exponent, fractional).unwrap();
            let lux = m.get_centilux() as f32 / 100f32;
            assert_eq!(m.to_string(), format!("{} lux", lux));
        }
    }
}
