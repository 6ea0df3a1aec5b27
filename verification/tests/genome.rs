use kitties::{combine_dna, recombine, Kitty, KittyGender};

fn bit(byte: u8, k: u8) -> bool {
    (byte >> k) & 1 == 1
}

#[test]
fn gender_is_male_exactly_for_an_even_first_byte() {
    for x in 0..=255u8 {
        let mut dna = [0xffu8; 16];
        dna[0] = x;
        let expected = if x % 2 == 0 { KittyGender::Male } else { KittyGender::Female };
        assert_eq!(Kitty(dna).gender(), expected);
    }
}

#[test]
fn gender_reads_only_the_first_byte() {
    let mut dna = [0u8; 16];
    for i in 1..16 {
        dna[i] = 1;
    }
    assert_eq!(Kitty(dna).gender(), KittyGender::Male);
    dna[0] = 1;
    for i in 1..16 {
        dna[i] = 2;
    }
    assert_eq!(Kitty(dna).gender(), KittyGender::Female);
}

#[test]
fn combine_dna_of_the_worked_example() {
    assert_eq!(combine_dna(0b10101010, 0b00001111, 0b00000001), 0b10101011);
}

#[test]
fn combine_dna_more_exact_values() {
    assert_eq!(combine_dna(0b11110000, 0b10101010, 0b00111100), 0b11101000);
    assert_eq!(combine_dna(0x12, 0x34, 0x0f), 0x14);
    assert_eq!(combine_dna(0x00, 0xff, 0x5a), 0x5a);
    assert_eq!(combine_dna(0xff, 0x00, 0x5a), 0xa5);
}

#[test]
fn combine_dna_with_an_empty_selector_gives_the_first_parent() {
    for dna1 in 0..=255u8 {
        for dna2 in 0..=255u8 {
            assert_eq!(combine_dna(dna1, dna2, 0x00), dna1);
        }
    }
}

#[test]
fn combine_dna_with_a_full_selector_gives_the_second_parent() {
    for dna1 in 0..=255u8 {
        for dna2 in 0..=255u8 {
            assert_eq!(combine_dna(dna1, dna2, 0xff), dna2);
        }
    }
}

#[test]
fn combine_dna_takes_every_bit_from_the_selected_parent() {
    let mut dna1 = 0u32;
    while dna1 < 256 {
        let mut dna2 = 0u32;
        while dna2 < 256 {
            for selector in 0..=255u8 {
                let (a, b) = (dna1 as u8, dna2 as u8);
                let r = combine_dna(a, b, selector);
                assert_eq!(r, (a & !selector) | (b & selector));
                for k in 0..8u8 {
                    let expected = if bit(selector, k) { bit(b, k) } else { bit(a, k) };
                    assert_eq!(bit(r, k), expected);
                }
            }
            dna2 += 3;
        }
        dna1 += 5;
    }
}

#[test]
fn combine_dna_keeps_what_the_parents_share() {
    for dna in 0..=255u8 {
        for selector in 0..=255u8 {
            assert_eq!(combine_dna(dna, dna, selector), dna);
        }
    }
}

#[test]
fn recombine_works_byte_by_byte() {
    let dna1 = [
        0xaa, 0x00, 0xff, 0x12, 0x34, 0x56, 0x78, 0x9a, 0xbc, 0xde, 0xf0, 0x01, 0x02, 0x03, 0x04,
        0x05,
    ];
    let dna2 = [
        0x0f, 0xff, 0x00, 0xfe, 0xdc, 0xba, 0x98, 0x76, 0x54, 0x32, 0x10, 0x0f, 0x0e, 0x0d, 0x0c,
        0x0b,
    ];
    let selector = [
        0x01, 0x5a, 0x5a, 0x0f, 0xf0, 0x00, 0xff, 0x33, 0xcc, 0x55, 0xaa, 0x80, 0x7f, 0x01, 0xfe,
        0x99,
    ];
    let child = recombine(&dna1, &dna2, &selector);
    assert_eq!(
        child,
        [
            0xab, 0x5a, 0xa5, 0x1e, 0xd4, 0x56, 0x98, 0xba, 0x74, 0x9a, 0x50, 0x01, 0x0e, 0x03,
            0x0c, 0x0d
        ]
    );
    for i in 0..16 {
        assert_eq!(child[i], (dna1[i] & !selector[i]) | (dna2[i] & selector[i]));
        for k in 0..8u8 {
            let expected =
                if bit(selector[i], k) { bit(dna2[i], k) } else { bit(dna1[i], k) };
            assert_eq!(bit(child[i], k), expected);
        }
    }
}

#[test]
fn recombine_with_constant_selectors_gives_a_parent() {
    let dna1 = [0x11u8; 16];
    let dna2 = [0xeeu8; 16];
    assert_eq!(recombine(&dna1, &dna2, &[0x00; 16]), dna1);
    assert_eq!(recombine(&dna1, &dna2, &[0xff; 16]), dna2);
    assert_eq!(recombine(&dna1, &dna2, &[0x0f; 16]), [0x1e; 16]);
}

#[test]
fn recombine_leaves_its_arguments_alone() {
    let dna1 = [0x11u8; 16];
    let dna2 = [0xeeu8; 16];
    let selector = [0xf0u8; 16];
    let child = recombine(&dna1, &dna2, &selector);
    assert_eq!(child, [0xe1; 16]);
    assert_ne!(child, dna1);
    assert_ne!(child, dna2);
    assert_ne!(child, selector);
}

#[test]
fn combine_dna_is_a_parent_exactly_for_a_selector_uniform_where_they_differ() {
    let mut dna1 = 0u32;
    while dna1 < 256 {
        let mut dna2 = 0u32;
        while dna2 < 256 {
            for selector in 0..=255u8 {
                let (a, b) = (dna1 as u8, dna2 as u8);
                let r = combine_dna(a, b, selector);
                assert_eq!(r == a, selector & (a ^ b) == 0);
                assert_eq!(r == b, !selector & (a ^ b) == 0);
                assert_eq!((r ^ a) & !(a ^ b), 0);
            }
            dna2 += 7;
        }
        dna1 += 3;
    }
}

#[test]
fn combine_dna_reaches_every_byte_between_the_parents() {
    let (dna1, dna2) = (0b1100_1010u8, 0b1010_0110u8);
    let mut reached = 0;
    for target in 0..=255u8 {
        if (target ^ dna1) & !(dna1 ^ dna2) == 0 {
            assert_eq!(combine_dna(dna1, dna2, target ^ dna1), target);
            reached += 1;
        }
    }
    assert_eq!(reached, 16);
}
