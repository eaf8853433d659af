use dsa_learning::audio::rounding::round_to_single;
use dsa_learning::audio::single::{add_single, divide_single, NOT_A_NUMBER};

struct Numbers(u64);

impl Numbers {
    fn next(&mut self) -> u64 {
        self.0 = self.0.wrapping_mul(6364136223846793005).wrapping_add(1442695040888963407);
        self.0 >> 16
    }

    fn bits(&mut self) -> u32 {
        let raw = self.next() as u32;
        match self.next() % 8 {
            0 => raw & 0x807f_ffff,
            1 => (raw & 0x807f_ffff) | 0x3f00_0000,
            2 => (raw & 0x80ff_ffff) | 0x3f00_0000,
            3 => (raw & 0x83ff_ffff) | 0x3c00_0000,
            4 => raw | 0x7f00_0000,
            _ => raw,
        }
    }
}

fn same(found: u32, expected: f32) -> bool {
    if expected.is_nan() {
        f32::from_bits(found).is_nan()
    } else {
        found == expected.to_bits()
    }
}

fn check_sum(a: u32, b: u32) {
    let expected = f32::from_bits(a) + f32::from_bits(b);
    let found = add_single(a, b);
    assert!(same(found, expected), "{:#010x} + {:#010x}: found {:#010x}, expected {:#010x}", a, b, found, expected.to_bits());
}

fn check_quotient(a: u32, n: u16) {
    let expected = f32::from_bits(a) / (n as usize as f32);
    let found = divide_single(a, n);
    assert!(same(found, expected), "{:#010x} / {}: found {:#010x}, expected {:#010x}", a, n, found, expected.to_bits());
}

const SPECIAL: &[u32] = &[
    0x0000_0000,
    0x8000_0000,
    0x0000_0001,
    0x8000_0001,
    0x007f_ffff,
    0x0080_0000,
    0x0080_0001,
    0x00ff_ffff,
    0x3f80_0000,
    0xbf80_0000,
    0x3f7f_ffff,
    0x3f80_0001,
    0x3400_0000,
    0x3380_0000,
    0x3300_0000,
    0x3280_0000,
    0x4b00_0000,
    0x4b80_0000,
    0x7f7f_ffff,
    0xff7f_ffff,
    0x7f00_0000,
    0x7f80_0000,
    0xff80_0000,
    0x7fc0_0000,
    0xffc0_0001,
    0x7f80_0001,
    0x3eaa_aaab,
    0x3f00_0000,
    0x4000_0000,
];

#[test]
fn sums_of_special_values() {
    for &a in SPECIAL {
        for &b in SPECIAL {
            check_sum(a, b);
        }
    }
    assert_eq!(add_single(0x7f80_0000, 0xff80_0000), NOT_A_NUMBER);
    assert_eq!(add_single(0x3f80_0000, 0xbf80_0000), 0);
    assert_eq!(add_single(0x8000_0000, 0x8000_0000), 0x8000_0000);
    assert_eq!(add_single(0x8000_0000, 0), 0);
    assert_eq!(add_single(0x7f7f_ffff, 0x7f7f_ffff), 0x7f80_0000);
}

#[test]
fn sums_agree_with_the_machine() {
    let mut numbers = Numbers(7);
    for _ in 0..400_000 {
        let a = numbers.bits();
        let b = numbers.bits();
        check_sum(a, b);
        check_sum(a, b ^ 0x8000_0000);
    }
}

#[test]
fn sums_of_neighbours_agree_with_the_machine() {
    let mut numbers = Numbers(8);
    for _ in 0..200_000 {
        let a = numbers.bits();
        let shift = (numbers.next() % 30) as u32;
        let field = (a >> 23) & 0xff;
        let lower = field.saturating_sub(shift);
        let b = (numbers.next() as u32 & 0x807f_ffff) | (lower << 23);
        check_sum(a, b);
        check_sum(b, a);
    }
}

#[test]
fn quotients_of_special_values() {
    for &a in SPECIAL {
        for n in [1u16, 2, 3, 4, 5, 6, 7, 8, 10, 255, 256, 1000, 32768, 65535] {
            check_quotient(a, n);
        }
    }
    assert_eq!(divide_single(0x3f80_0000, 2), 0x3f00_0000);
    assert_eq!(divide_single(0x8000_0000, 3), 0x8000_0000);
    assert_eq!(divide_single(0x7f80_0000, 3), 0x7f80_0000);
}

#[test]
fn quotients_agree_with_the_machine() {
    let mut numbers = Numbers(9);
    for _ in 0..400_000 {
        let a = numbers.bits();
        let n = (numbers.next() % 65535) as u16 + 1;
        check_quotient(a, n);
        check_quotient(a, (n % 8) + 1);
    }
}

#[test]
fn rounding_of_ratios() {
    assert_eq!(round_to_single(false, 1, 1, 0), 1.0f32.to_bits());
    assert_eq!(round_to_single(true, 1, 2, 0), (-0.5f32).to_bits());
    assert_eq!(round_to_single(false, 1, 3, 0), (1.0f32 / 3.0).to_bits());
    assert_eq!(round_to_single(false, 0, 7, 5), 0);
    assert_eq!(round_to_single(true, 0, 7, 5), 0x8000_0000);
    assert_eq!(round_to_single(false, 1, 1, 128), 0x7f80_0000);
    assert_eq!(round_to_single(false, 0xff_ffff, 1, 104), f32::MAX.to_bits());
    assert_eq!(round_to_single(false, 0x1ff_ffff, 1, 103), 0x7f80_0000);
    assert_eq!(round_to_single(false, 1, 1, -149), 1);
    assert_eq!(round_to_single(false, 1, 2, -149), 0);
    assert_eq!(round_to_single(false, 3, 2, -149), 2);
    assert_eq!(round_to_single(false, 1, 1, -150), 0);
    assert_eq!(round_to_single(false, 3, 1, -150), 2);
}
