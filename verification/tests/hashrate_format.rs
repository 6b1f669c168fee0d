use stratum_tunnel::hashfmt::format_hashrate;
use stratum_tunnel::hashfmt::format_hashrate_milli;
use stratum_tunnel::hashfmt::u64_to_dec_string;
use stratum_tunnel::miner::MinerInfo;

#[test]
fn zero_renders_as_plain_zero() {
    assert_eq!(format_hashrate(0), "0 H/s");
}

#[test]
fn kilo_range_gets_two_decimals() {
    assert_eq!(format_hashrate(1500), "1.50 KH/s");
}

#[test]
fn mega_range_gets_one_decimal() {
    assert_eq!(format_hashrate(12_345_000), "12.3 MH/s");
}

#[test]
fn giga_range_gets_no_decimals() {
    assert_eq!(format_hashrate(250_000_000_000), "250 GH/s");
}

#[test]
fn tera_and_peta_units() {
    assert_eq!(format_hashrate(1_000_000_000_000), "1.00 TH/s");
    assert_eq!(format_hashrate(7_500_000_000_000_000), "7.50 PH/s");
}

#[test]
fn below_one_hash_per_second() {
    // 0.5 H/s in fixed point
    assert_eq!(format_hashrate_milli(500), "0.50 H/s");
    assert_eq!(format_hashrate_milli(994), "0.99 H/s");
    // 0.999 H/s rounds up at the second decimal
    assert_eq!(format_hashrate_milli(999), "1.00 H/s");
}

#[test]
fn last_printed_digit_rounds_to_nearest() {
    // 12.36 MH/s rounds up at one decimal
    assert_eq!(format_hashrate(12_360_000), "12.4 MH/s");
    // 51.249 and 51.250 H/s straddle the rounding boundary
    assert_eq!(format_hashrate_milli(51_249), "51.2 H/s");
    assert_eq!(format_hashrate_milli(51_250), "51.3 H/s");
    // 999.5 H/s carries into the next figure, as 0-decimal rounding
    assert_eq!(format_hashrate_milli(999_500), "1000 H/s");
}

#[test]
fn milli_and_whole_agree() {
    assert_eq!(format_hashrate_milli(1_500_000), format_hashrate(1500));
    assert_eq!(format_hashrate_milli(51_200), "51.2 H/s");
}

#[test]
fn boundaries_between_digit_counts() {
    assert_eq!(format_hashrate(9), "9.00 H/s");
    assert_eq!(format_hashrate(10), "10.0 H/s");
    assert_eq!(format_hashrate(99), "99.0 H/s");
    assert_eq!(format_hashrate(100), "100 H/s");
    assert_eq!(format_hashrate(999), "999 H/s");
    assert_eq!(format_hashrate(1000), "1.00 KH/s");
}

#[test]
fn decimal_rendering() {
    assert_eq!(u64_to_dec_string(0), "0");
    assert_eq!(u64_to_dec_string(7), "7");
    assert_eq!(u64_to_dec_string(1234567890), "1234567890");
    assert_eq!(u64_to_dec_string(u64::MAX), "18446744073709551615");
}

#[test]
fn miner_info_formatter_matches() {
    assert_eq!(MinerInfo::format_hashrate(1500), "1.50 KH/s");
    assert_eq!(MinerInfo::format_hashrate(0), "0 H/s");
}
