use wasm_value::arith::{ArithmeticOps, Integer};

#[test]
fn wrapping_add_sub_mul() {
    assert_eq!(ArithmeticOps::add(i32::MAX, 1i32), i32::MIN);
    assert_eq!(ArithmeticOps::sub(i32::MIN, 1i32), i32::MAX);
    assert_eq!(ArithmeticOps::mul(0x10000i32, 0x10000i32), 0);
    assert_eq!(ArithmeticOps::mul(-3i32, 7i32), -21);
    assert_eq!(ArithmeticOps::add(u32::MAX, 2u32), 1);
    assert_eq!(ArithmeticOps::sub(0u32, 1u32), u32::MAX);
    assert_eq!(ArithmeticOps::mul(0x8000_0001u32, 2u32), 2);
    assert_eq!(ArithmeticOps::add(i64::MAX, i64::MAX), -2);
    assert_eq!(ArithmeticOps::sub(3i64, 5i64), -2);
    assert_eq!(ArithmeticOps::mul(i64::MIN, -1i64), i64::MIN);
    assert_eq!(ArithmeticOps::add(u64::MAX, 1u64), 0);
    assert_eq!(ArithmeticOps::sub(1u64, 2u64), u64::MAX);
    assert_eq!(ArithmeticOps::mul(u64::MAX, u64::MAX), 1);
}

#[test]
fn division_rounds_towards_zero() {
    assert_eq!(ArithmeticOps::div(-7i32, 2i32), -3);
    assert_eq!(ArithmeticOps::div(7i32, -2i32), -3);
    assert_eq!(ArithmeticOps::div(-7i32, -2i32), 3);
    assert_eq!(ArithmeticOps::div(i32::MIN, -1i32), i32::MIN);
    assert_eq!(ArithmeticOps::div(i64::MIN, -1i64), i64::MIN);
    assert_eq!(ArithmeticOps::div(-9i64, 4i64), -2);
    assert_eq!(ArithmeticOps::div(u32::MAX, 2u32), 0x7fff_ffff);
    assert_eq!(ArithmeticOps::div(u64::MAX, u64::MAX), 1);
}

#[test]
fn remainder_has_the_sign_of_the_dividend() {
    assert_eq!(Integer::rem(-7i32, 2i32), -1);
    assert_eq!(Integer::rem(7i32, -2i32), 1);
    assert_eq!(Integer::rem(i32::MIN, -1i32), 0);
    assert_eq!(Integer::rem(i64::MIN, -1i64), 0);
    assert_eq!(Integer::rem(-9i64, 4i64), -1);
    assert_eq!(Integer::rem(10u32, 3u32), 1);
    assert_eq!(Integer::rem(u64::MAX, 10u64), 5);
}

#[test]
fn division_and_remainder_recompose() {
    for (x, d) in [(-7i32, 2i32), (7, -2), (i32::MIN, -1), (i32::MIN, 3), (5, 9)] {
        let q = ArithmeticOps::div(x, d);
        let r = Integer::rem(x, d);
        assert_eq!(ArithmeticOps::add(ArithmeticOps::mul(q, d), r), x);
    }
}

#[test]
fn sub_undoes_add() {
    for (x, y) in [(i32::MAX, 5i32), (-3, i32::MIN), (0, 0)] {
        assert_eq!(ArithmeticOps::sub(ArithmeticOps::add(x, y), y), x);
    }
    for (x, y) in [(u64::MAX, 5u64), (3, u64::MAX)] {
        assert_eq!(ArithmeticOps::add(ArithmeticOps::sub(x, y), y), x);
    }
}

#[test]
fn bit_counts() {
    assert_eq!(<i32 as Integer<i32>>::leading_zeros(1), 31);
    assert_eq!(<i32 as Integer<i32>>::leading_zeros(0), 32);
    assert_eq!(<i32 as Integer<i32>>::leading_zeros(-1), 0);
    assert_eq!(<u32 as Integer<u32>>::leading_zeros(0x00ff_0000), 8);
    assert_eq!(<i64 as Integer<i64>>::leading_zeros(1), 63);
    assert_eq!(<u64 as Integer<u64>>::leading_zeros(0), 64);
    assert_eq!(<i32 as Integer<i32>>::trailing_zeros(8), 3);
    assert_eq!(<i32 as Integer<i32>>::trailing_zeros(0), 32);
    assert_eq!(<u32 as Integer<u32>>::trailing_zeros(0x8000_0000), 31);
    assert_eq!(<i64 as Integer<i64>>::trailing_zeros(i64::MIN), 63);
    assert_eq!(<u64 as Integer<u64>>::trailing_zeros(0), 64);
    assert_eq!(<i32 as Integer<i32>>::count_ones(-1), 32);
    assert_eq!(<u32 as Integer<u32>>::count_ones(0b1011), 3);
    assert_eq!(<i64 as Integer<i64>>::count_ones(-1), 64);
    assert_eq!(<u64 as Integer<u64>>::count_ones(0), 0);
    assert_eq!(<u64 as Integer<u64>>::count_ones(0xf0f0), 8);
}

#[test]
fn rotations() {
    assert_eq!(Integer::rotl(0x8000_0001u32, 1u32), 3);
    assert_eq!(Integer::rotr(3u32, 1u32), 0x8000_0001);
    assert_eq!(Integer::rotl(0x1234_5678u32, 32u32), 0x1234_5678);
    assert_eq!(Integer::rotl(0x1234_5678u32, 36u32), 0x2345_6781);
    assert_eq!(Integer::rotl(i32::MIN, 1i32), 1);
    assert_eq!(Integer::rotr(1i32, 1i32), i32::MIN);
    assert_eq!(Integer::rotl(1i32, -1i32), i32::MIN);
    assert_eq!(Integer::rotl(1u64, 65u64), 2);
    assert_eq!(Integer::rotr(1u64, 1u64), 1 << 63);
    assert_eq!(Integer::rotl(-2i64, 1i64), -3);
    assert_eq!(Integer::rotr(i64::MIN, 63i64), 1);
    for k in [0u32, 1, 13, 31, 32, 100] {
        assert_eq!(Integer::rotr(Integer::rotl(0xdead_beefu32, k), k), 0xdead_beef);
    }
}

#[test]
fn rotation_moves_each_bit() {
    let x = 0x9abc_def1u32;
    for k in [0u32, 3, 31, 40] {
        let r = Integer::rotl(x, k);
        for i in 0..32u32 {
            assert_eq!((r >> i) & 1, (x >> ((i + 32 - k % 32) % 32)) & 1);
        }
    }
    let y = 0x0123_4567_89ab_cdefu64;
    let r = Integer::rotl(y, 70u64);
    for i in 0..64u32 {
        assert_eq!((r >> i) & 1, (y >> ((i + 64 - 70 % 64) % 64)) & 1);
    }
}
