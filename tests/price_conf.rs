use pyth_client::price_conf::{MAX_PD_V_I64, MAX_PD_V_U64, MIN_PD_V_I64, PD_EXPO, PD_SCALE};
use pyth_client::PriceConf;

fn pc(price: i64, conf: u64, expo: i32) -> PriceConf {
    PriceConf { price, conf, expo }
}

fn pc_scaled(price: i64, conf: u64, cur_expo: i32, expo: i32) -> PriceConf {
    PriceConf { price, conf, expo: cur_expo }.scale_to_exponent(expo).unwrap()
}

fn normalize_succeeds(price1: PriceConf, expected: PriceConf) {
    assert_eq!(price1.normalize().unwrap(), expected);
}

fn normalize_fails(price1: PriceConf) {
    assert_eq!(price1.normalize(), None);
}

fn div_succeeds(price1: PriceConf, price2: PriceConf, expected: PriceConf) {
    assert_eq!(price1.div(&price2).unwrap(), expected);
}

fn div_fails(price1: PriceConf, price2: PriceConf) {
    let result = price1.div(&price2);
    assert_eq!(result, None);
}

fn mul_succeeds(price1: PriceConf, price2: PriceConf, expected: PriceConf) {
    assert_eq!(price1.mul(&price2).unwrap(), expected);
}

fn mul_fails(price1: PriceConf, price2: PriceConf) {
    let result = price1.mul(&price2);
    assert_eq!(result, None);
}

#[test]
fn test_normalize() {
    normalize_succeeds(
        pc(2 * (PD_SCALE as i64), 3 * PD_SCALE, 0),
        pc(2 * (PD_SCALE as i64) / 100, 3 * PD_SCALE / 100, 2),
    );

    normalize_succeeds(
        pc(-2 * (PD_SCALE as i64), 3 * PD_SCALE, 0),
        pc(-2 * (PD_SCALE as i64) / 100, 3 * PD_SCALE / 100, 2),
    );

    // the max values are a factor of 10^11 larger than MAX_PD_V
    let expo = -(PD_EXPO - 2);
    let scale_i64 = (PD_SCALE as i64) * 100;
    let scale_u64 = scale_i64 as u64;
    normalize_succeeds(pc(i64::MAX, 1, 0), pc(i64::MAX / scale_i64, 0, expo));
    normalize_succeeds(pc(i64::MIN, 1, 0), pc(i64::MIN / scale_i64, 0, expo));
    normalize_succeeds(pc(1, u64::MAX, 0), pc(0, u64::MAX / scale_u64, expo));

    // exponent overflows
    normalize_succeeds(pc(i64::MAX, 1, i32::MAX - expo), pc(i64::MAX / scale_i64, 0, i32::MAX));
    normalize_fails(pc(i64::MAX, 1, i32::MAX - expo + 1));
    normalize_succeeds(pc(i64::MAX, 1, i32::MIN), pc(i64::MAX / scale_i64, 0, i32::MIN + expo));

    normalize_succeeds(pc(1, u64::MAX, i32::MAX - expo), pc(0, u64::MAX / scale_u64, i32::MAX));
    normalize_fails(pc(1, u64::MAX, i32::MAX - expo + 1));
}

#[test]
fn test_div() {
    div_succeeds(pc(1, 1, 0), pc(1, 1, 0), pc_scaled(1, 2, 0, PD_EXPO));
    div_succeeds(pc(1, 1, -8), pc(1, 1, -8), pc_scaled(1, 2, 0, PD_EXPO));
    div_succeeds(pc(10, 1, 0), pc(1, 1, 0), pc_scaled(10, 11, 0, PD_EXPO));
    div_succeeds(pc(1, 1, 1), pc(1, 1, 0), pc_scaled(10, 20, 0, PD_EXPO + 1));
    div_succeeds(pc(1, 1, 0), pc(5, 1, 0), pc_scaled(20, 24, -2, PD_EXPO));

    // Negative numbers
    div_succeeds(pc(-1, 1, 0), pc(1, 1, 0), pc_scaled(-1, 2, 0, PD_EXPO));
    div_succeeds(pc(1, 1, 0), pc(-1, 1, 0), pc_scaled(-1, 2, 0, PD_EXPO));
    div_succeeds(pc(-1, 1, 0), pc(-1, 1, 0), pc_scaled(1, 2, 0, PD_EXPO));

    // Different exponents in the two inputs
    div_succeeds(pc(100, 10, -8), pc(2, 1, -7), pc_scaled(500_000_000, 300_000_000, -8, PD_EXPO - 1));
    div_succeeds(pc(100, 10, -4), pc(2, 1, 0), pc_scaled(500_000, 300_000, -8, PD_EXPO + -4));

    // Test with end range of possible inputs where the output should not lose precision.
    div_succeeds(pc(MAX_PD_V_I64, MAX_PD_V_U64, 0), pc(MAX_PD_V_I64, MAX_PD_V_U64, 0), pc_scaled(1, 2, 0, PD_EXPO));
    div_succeeds(pc(MAX_PD_V_I64, MAX_PD_V_U64, 0), pc(1, 1, 0), pc_scaled(MAX_PD_V_I64, 2 * MAX_PD_V_U64, 0, PD_EXPO));
    div_succeeds(
        pc(1, 1, 0),
        pc(MAX_PD_V_I64, MAX_PD_V_U64, 0),
        pc((PD_SCALE as i64) / MAX_PD_V_I64, 2 * (PD_SCALE / MAX_PD_V_U64), PD_EXPO),
    );

    div_succeeds(pc(MIN_PD_V_I64, MAX_PD_V_U64, 0), pc(MIN_PD_V_I64, MAX_PD_V_U64, 0), pc_scaled(1, 2, 0, PD_EXPO));
    div_succeeds(pc(MIN_PD_V_I64, MAX_PD_V_U64, 0), pc(1, 1, 0), pc_scaled(MIN_PD_V_I64, 2 * MAX_PD_V_U64, 0, PD_EXPO));
    div_succeeds(
        pc(1, 1, 0),
        pc(MIN_PD_V_I64, MAX_PD_V_U64, 0),
        pc((PD_SCALE as i64) / MIN_PD_V_I64, 2 * (PD_SCALE / MAX_PD_V_U64), PD_EXPO),
    );

    div_succeeds(pc(1, MAX_PD_V_U64, 0), pc(1, MAX_PD_V_U64, 0), pc_scaled(1, 2 * MAX_PD_V_U64, 0, PD_EXPO));
    // This fails because the confidence interval is too large to be represented in PD_EXPO
    div_fails(pc(MAX_PD_V_I64, MAX_PD_V_U64, 0), pc(1, MAX_PD_V_U64, 0));

    // Unnormalized tests below here

    // More realistic inputs (get BTC price in ETH)
    let ten_e7: i64 = 10000000;
    let uten_e7: u64 = 10000000;
    div_succeeds(
        pc(520010 * ten_e7, 310 * uten_e7, -8),
        pc(38591 * ten_e7, 18 * uten_e7, -8),
        pc(1347490347, 1431804, -8),
    );

    // Test with end range of possible inputs to identify overflow
    // These inputs will lose precision due to the initial normalization.
    // Get the rounded versions of these inputs in order to compute the expected results.
    let normed = pc(i64::MAX, u64::MAX, 0).normalize().unwrap();

    div_succeeds(pc(i64::MAX, u64::MAX, 0), pc(i64::MAX, u64::MAX, 0), pc_scaled(1, 4, 0, PD_EXPO));
    div_succeeds(
        pc(i64::MAX, u64::MAX, 0),
        pc(1, 1, 0),
        pc_scaled(normed.price, 3 * (normed.price as u64), normed.expo, normed.expo + PD_EXPO),
    );
    div_succeeds(
        pc(1, 1, 0),
        pc(i64::MAX, u64::MAX, 0),
        pc((PD_SCALE as i64) / normed.price, 3 * (PD_SCALE / (normed.price as u64)), PD_EXPO - normed.expo),
    );

    div_succeeds(pc(i64::MAX, 1, 0), pc(i64::MAX, 1, 0), pc_scaled(1, 0, 0, PD_EXPO));
    div_succeeds(
        pc(i64::MAX, 1, 0),
        pc(1, 1, 0),
        pc_scaled(normed.price, normed.price as u64, normed.expo, normed.expo + PD_EXPO),
    );
    div_succeeds(
        pc(1, 1, 0),
        pc(i64::MAX, 1, 0),
        pc((PD_SCALE as i64) / normed.price, PD_SCALE / (normed.price as u64), PD_EXPO - normed.expo),
    );

    // Price is zero pre-normalization
    div_succeeds(pc(0, 1, 0), pc(1, 1, 0), pc_scaled(0, 1, 0, PD_EXPO));
    div_succeeds(pc(0, 1, 0), pc(100, 1, 0), pc_scaled(0, 1, -2, PD_EXPO));
    div_fails(pc(1, 1, 0), pc(0, 1, 0));

    // Normalizing the input when the confidence is >> price produces a price of 0.
    div_fails(pc(1, 1, 0), pc(1, u64::MAX, 0));
    div_succeeds(
        pc(1, u64::MAX, 0),
        pc(1, 1, 0),
        pc_scaled(0, normed.conf, normed.expo, normed.expo + PD_EXPO),
    );

    // Exponent under/overflow.
    div_succeeds(pc(1, 1, i32::MAX), pc(1, 1, 0), pc(PD_SCALE as i64, 2 * PD_SCALE, i32::MAX + PD_EXPO));
    div_fails(pc(1, 1, i32::MAX), pc(1, 1, -1));

    div_succeeds(pc(1, 1, i32::MIN - PD_EXPO), pc(1, 1, 0), pc(PD_SCALE as i64, 2 * PD_SCALE, i32::MIN));
    div_succeeds(pc(1, 1, i32::MIN), pc(1, 1, PD_EXPO), pc(PD_SCALE as i64, 2 * PD_SCALE, i32::MIN));
    div_fails(pc(1, 1, i32::MIN - PD_EXPO), pc(1, 1, 1));
}

#[test]
fn test_mul() {
    mul_succeeds(pc(1, 1, 0), pc(1, 1, 0), pc(1, 2, 0));
    mul_succeeds(pc(1, 1, -8), pc(1, 1, -8), pc(1, 2, -16));
    mul_succeeds(pc(10, 1, 0), pc(1, 1, 0), pc(10, 11, 0));
    mul_succeeds(pc(1, 1, 1), pc(1, 1, 0), pc(1, 2, 1));
    mul_succeeds(pc(1, 1, 0), pc(5, 1, 0), pc(5, 6, 0));

    // Different exponents in the two inputs
    mul_succeeds(pc(100, 10, -8), pc(2, 1, -7), pc(200, 120, -15));
    mul_succeeds(pc(100, 10, -4), pc(2, 1, 0), pc(200, 120, -4));

    // Zero
    mul_succeeds(pc(0, 10, -4), pc(2, 1, 0), pc(0, 20, -4));
    mul_succeeds(pc(2, 1, 0), pc(0, 10, -4), pc(0, 20, -4));

    // Test with end range of possible inputs where the output should not lose precision.
    mul_succeeds(
        pc(MAX_PD_V_I64, MAX_PD_V_U64, 0),
        pc(MAX_PD_V_I64, MAX_PD_V_U64, 0),
        pc(MAX_PD_V_I64 * MAX_PD_V_I64, 2 * MAX_PD_V_U64 * MAX_PD_V_U64, 0),
    );
    mul_succeeds(pc(MAX_PD_V_I64, MAX_PD_V_U64, 0), pc(1, 1, 0), pc(MAX_PD_V_I64, 2 * MAX_PD_V_U64, 0));
    mul_succeeds(pc(1, MAX_PD_V_U64, 0), pc(3, 1, 0), pc(3, 1 + 3 * MAX_PD_V_U64, 0));

    mul_succeeds(pc(1, MAX_PD_V_U64, 0), pc(1, MAX_PD_V_U64, 0), pc(1, 2 * MAX_PD_V_U64, 0));
    mul_succeeds(
        pc(MAX_PD_V_I64, MAX_PD_V_U64, 0),
        pc(1, MAX_PD_V_U64, 0),
        pc(MAX_PD_V_I64, MAX_PD_V_U64 + MAX_PD_V_U64 * MAX_PD_V_U64, 0),
    );

    // Unnormalized tests below here
    let ten_e7: i64 = 10000000;
    let uten_e7: u64 = 10000000;
    mul_succeeds(
        pc(3 * (PD_SCALE as i64), 3 * PD_SCALE, PD_EXPO),
        pc(2 * (PD_SCALE as i64), 4 * PD_SCALE, PD_EXPO),
        pc(6 * ten_e7 * ten_e7, 18 * uten_e7 * uten_e7, -14),
    );

    // Test with end range of possible inputs to identify overflow
    // These inputs will lose precision due to the initial normalization.
    // Get the rounded versions of these inputs in order to compute the expected results.
    let normed = pc(i64::MAX, u64::MAX, 0).normalize().unwrap();

    mul_succeeds(
        pc(i64::MAX, u64::MAX, 0),
        pc(i64::MAX, u64::MAX, 0),
        pc(normed.price * normed.price, 4 * ((normed.price * normed.price) as u64), normed.expo * 2),
    );
    mul_succeeds(pc(i64::MAX, u64::MAX, 0), pc(1, 1, 0), pc(normed.price, 3 * (normed.price as u64), normed.expo));

    mul_succeeds(pc(i64::MAX, 1, 0), pc(i64::MAX, 1, 0), pc(normed.price * normed.price, 0, normed.expo * 2));
    mul_succeeds(pc(i64::MAX, 1, 0), pc(1, 1, 0), pc(normed.price, normed.price as u64, normed.expo));

    // Exponent under/overflow.
    mul_succeeds(pc(1, 1, i32::MAX), pc(1, 1, 0), pc(1, 2, i32::MAX));
    mul_succeeds(pc(1, 1, i32::MAX), pc(1, 1, -1), pc(1, 2, i32::MAX - 1));
    mul_fails(pc(1, 1, i32::MAX), pc(1, 1, 1));

    mul_succeeds(pc(1, 1, i32::MIN), pc(1, 1, 0), pc(1, 2, i32::MIN));
    mul_succeeds(pc(1, 1, i32::MIN), pc(1, 1, 1), pc(1, 2, i32::MIN + 1));
    mul_fails(pc(1, 1, i32::MIN), pc(1, 1, -1));
}
