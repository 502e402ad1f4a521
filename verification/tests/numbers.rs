use spec_windows::binary64::Binary64;

fn number(x: f64) -> Binary64 {
    Binary64 { bits: x.to_bits() }
}

fn cells(x: f64, width: usize) -> usize {
    let filled = ((x.clamp(0.0, 100.0) / 100.0) * width as f64).round() as usize;
    filled.min(width)
}

fn check(x: f64) {
    assert_eq!(number(x).to_rounded_text(), format!("{x:.0}"), "text of {x:e}");
    for width in [0, 1, 7, 10, 63, 1000, 1 << 40, usize::MAX] {
        assert_eq!(number(x).filled_cells(width), cells(x, width), "{x:e} in {width} cells");
    }
}

struct Random(u64);

impl Random {
    fn next(&mut self) -> u64 {
        self.0 = self.0.wrapping_mul(6364136223846793005).wrapping_add(1442695040888963407);
        let x = self.0 ^ (self.0 >> 33);
        x.wrapping_mul(0xff51afd7ed558ccd) ^ (x >> 29)
    }
}

#[test]
fn rounded_texts_are_exact() {
    assert_eq!(number(0.0).to_rounded_text(), "0");
    assert_eq!(number(-0.0).to_rounded_text(), "-0");
    assert_eq!(number(0.5).to_rounded_text(), "0");
    assert_eq!(number(1.5).to_rounded_text(), "2");
    assert_eq!(number(2.5).to_rounded_text(), "2");
    assert_eq!(number(49.7).to_rounded_text(), "50");
    assert_eq!(number(-3.2).to_rounded_text(), "-3");
    assert_eq!(number(1e22).to_rounded_text(), "10000000000000000000000");
    assert_eq!(number(f64::NAN).to_rounded_text(), "NaN");
    assert_eq!(number(f64::INFINITY).to_rounded_text(), "inf");
    assert_eq!(number(f64::NEG_INFINITY).to_rounded_text(), "-inf");
}

#[test]
fn filled_cells_are_exact() {
    assert_eq!(number(0.0).filled_cells(10), 0);
    assert_eq!(number(4.9).filled_cells(10), 0);
    assert_eq!(number(5.0).filled_cells(10), 1);
    assert_eq!(number(51.0).filled_cells(10), 5);
    assert_eq!(number(55.0).filled_cells(10), 6);
    assert_eq!(number(94.9).filled_cells(10), 9);
    assert_eq!(number(95.0).filled_cells(10), 10);
    assert_eq!(number(250.0).filled_cells(10), 10);
    assert_eq!(number(-1.0).filled_cells(10), 0);
    assert_eq!(number(f64::NAN).filled_cells(10), 0);
    assert_eq!(number(f64::INFINITY).filled_cells(10), 10);
}

#[test]
fn special_numbers_agree_with_the_hardware() {
    for x in [
        0.0,
        f64::MIN_POSITIVE,
        f64::from_bits(1),
        f64::from_bits(0x000f_ffff_ffff_ffff),
        f64::MAX,
        f64::EPSILON,
        f64::INFINITY,
        f64::NAN,
        f64::from_bits(0x7ff0_0000_0000_0001),
        9007199254740992.0,
        9007199254740993.0,
        4503599627370495.5,
        4503599627370497.5,
        99.99999999999999,
        100.00000000000001,
    ] {
        check(x);
        check(-x);
    }
}

#[test]
fn percentages_agree_with_the_hardware() {
    for i in 0..=2000u32 {
        let x = i as f64 / 20.0;
        let bits = x.to_bits();
        check(x);
        check(f64::from_bits(bits + 1));
        check(f64::from_bits(bits.saturating_sub(1)));
    }
}

#[test]
fn random_numbers_agree_with_the_hardware() {
    let mut random = Random(1);
    for _ in 0..3000 {
        check(f64::from_bits(random.next()));
        check((random.next() >> 11) as f64 / (1u64 << 53) as f64 * 120.0 - 10.0);
    }
}

#[test]
fn order_agrees_with_the_hardware() {
    let mut random = Random(2);
    let mut numbers = vec![0.0, -0.0, 1.0, -1.0, f64::NAN, f64::INFINITY, f64::NEG_INFINITY];
    numbers.push(f64::MIN_POSITIVE);
    numbers.push(f64::from_bits(1));
    for _ in 0..200 {
        numbers.push(f64::from_bits(random.next()));
    }
    for a in &numbers {
        for b in &numbers {
            assert_eq!(number(*a).at_least(number(*b)), a >= b, "{a:e} {b:e}");
        }
    }
}

#[test]
fn more_usage_never_fills_fewer_cells() {
    let mut last = 0;
    for i in 0..=1000u32 {
        let now = number(i as f64 / 10.0).filled_cells(37);
        assert!(now >= last);
        last = now;
    }
    assert_eq!(last, 37);
}
