use csd_asic_proxy::bytes::{swap_words, u32_from_le, u32_to_le, u64_to_le, zero_bytes};
use csd_asic_proxy::digest::sha256d;
use csd_asic_proxy::hextext::{format_hex, from_hex, parse_hex_u32, splits_into_pairs, to_hex};
use csd_asic_proxy::proxy::job::btc_prev_hash;
use csd_asic_proxy::stratum::job::stratum_prev_hash;
use csd_asic_proxy::text::{is_blank, same_text, trim};

fn counting_hash() -> [u8; 32] {
    let mut h = [0u8; 32];
    for i in 0..32 {
        h[i] = i as u8;
    }
    h
}

#[test]
fn trim_drops_unicode_white_space() {
    assert_eq!(trim("\u{3000} \t ab c\u{85}\r\n"), "ab c");
    assert_eq!(trim(""), "");
    assert_eq!(trim(" \n "), "");
    assert_eq!(trim("\u{200b}x"), "\u{200b}x");
    for code in 0u32..0x11_0000 {
        if let Some(c) = char::from_u32(code) {
            assert_eq!(csd_asic_proxy::text::char_is_space(c), c.is_whitespace());
        }
    }
}

#[test]
fn blank_lines_are_told_apart() {
    assert!(is_blank(""));
    assert!(is_blank(" \t\r\n\u{2003}"));
    assert!(!is_blank(" x "));
    assert!(same_text("ab", "ab"));
    assert!(!same_text("ab", "aB"));
}

#[test]
fn hex_is_written_in_lower_case() {
    assert_eq!(to_hex(&[]), "");
    assert_eq!(to_hex(&[0x00, 0x0f, 0xa5, 0xff]), "000fa5ff");
}

#[test]
fn hex_is_read_leniently() {
    assert_eq!(from_hex(" 00FfA5 \n"), vec![0x00, 0xff, 0xa5]);
    assert_eq!(from_hex("abc"), vec![0xab]);
    assert_eq!(from_hex(""), Vec::<u8>::new());
    assert_eq!(from_hex("zz1g+f-1f+"), vec![0, 0, 15, 0, 0]);
    assert_eq!(from_hex("\u{e9}11"), vec![0, 0x11]);
}

#[test]
fn lenient_hex_matches_the_standard_library() {
    for hi in 0u8..128 {
        for lo in 0u8..128 {
            let text: String = vec!['0', '0', hi as char, lo as char, '0', '0'].into_iter().collect();
            let want = u8::from_str_radix(&text[2..4], 16).unwrap_or(0);
            assert_eq!(from_hex(&text), vec![0, want, 0]);
        }
    }
}

#[test]
fn a_pair_must_not_split_a_character() {
    assert!(splits_into_pairs("00ff"));
    assert!(splits_into_pairs("abc"));
    assert!(splits_into_pairs("\u{e9}0"));
    assert!(!splits_into_pairs("a\u{e9}b"));
    assert!(!splits_into_pairs("\u{20ac}0"));
    assert!(splits_into_pairs("\u{3000}ab"));
}

#[test]
fn hex_reads_back_what_was_written() {
    let all: Vec<u8> = (0u8..=255).collect();
    assert_eq!(from_hex(&to_hex(&all)), all);
}

#[test]
fn numbers_are_read_in_base_sixteen() {
    assert_eq!(parse_hex_u32("0"), Some(0));
    assert_eq!(parse_hex_u32("+1f"), Some(31));
    assert_eq!(parse_hex_u32("FFFFffff"), Some(u32::MAX));
    assert_eq!(parse_hex_u32("0000000000000000ffffffff"), Some(u32::MAX));
    assert_eq!(parse_hex_u32("100000000"), None);
    for text in ["", "+", "-1", "++1", " 1", "1 ", "0x1", "g", "\u{e9}"] {
        assert_eq!(parse_hex_u32(text), None);
        assert!(u32::from_str_radix(text, 16).is_err());
    }
}

#[test]
fn numbers_are_written_with_leading_zeros() {
    for (v, w) in [(0u64, 8usize), (1, 8), (0xdead_beef, 8), (0x1_2345_6789, 8), (u64::MAX, 16), (15, 0)] {
        assert_eq!(format_hex(v, w), format!("{:0w$x}", v, w = w));
    }
    assert_eq!(format_hex(255, 8), "000000ff");
    assert_eq!(parse_hex_u32(&format_hex(0x65a1_b2c3, 8)), Some(0x65a1_b2c3));
}

#[test]
fn previous_hash_has_its_words_reversed() {
    let want = "03020100070605040b0a09080f0e0d0c13121110171615141b1a19181f1e1d1c";
    assert_eq!(btc_prev_hash(&counting_hash()), want);
    assert_eq!(stratum_prev_hash(&counting_hash()), want);
    assert_eq!(swap_words(&swap_words(&counting_hash())), counting_hash());
}

#[test]
fn little_endian_bytes() {
    assert_eq!(u32_to_le(0x0102_0304), [4, 3, 2, 1]);
    assert_eq!(u32_from_le([4, 3, 2, 1]), 0x0102_0304);
    assert_eq!(u64_to_le(0x0102_0304_0506_0708), 0x0102_0304_0506_0708u64.to_le_bytes());
    assert_eq!(zero_bytes(3), vec![0, 0, 0]);
}

#[test]
fn double_hash_of_known_inputs() {
    assert_eq!(
        to_hex(&sha256d(b"")),
        "5df6e0e2761359d30a8275058e299fcc0381534545f55cf43e41983f5d4c9456"
    );
    assert_eq!(
        to_hex(&sha256d(b"abc")),
        "4f8b42c22dd3729b519ba6f68d2da7cc5b2d606d05daed5ad5128cc03e6c6358"
    );
}
