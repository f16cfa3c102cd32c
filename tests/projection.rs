use paganois::decimal::{parse_amount, parse_decimal, parse_rate};
use paganois::fetch::{rate_from_reply, ExchangeRate, ExchangeRates, FetchError, Reply};
use paganois::gradient::{gradient_colour, Rgb};
use paganois::money::{currency_text, format_amount, rate_text};
use paganois::projection::{project, SalaryProjection, NANOS_PER_UNIT};
use paganois::report::build_report;
use paganois::status::{status_of, Status};

const NANOS: i128 = NANOS_PER_UNIT;

fn rates_with_bid(bid: &str) -> ExchangeRates {
    ExchangeRates {
        usd_brl: ExchangeRate {
            code: "USD".to_string(),
            code_in: "BRL".to_string(),
            name: "Dólar Americano/Real Brasileiro".to_string(),
            high: "5.6500".to_string(),
            low: "5.5500".to_string(),
            var_bid: "0.0300".to_string(),
            pct_change: "0.54".to_string(),
            bid: bid.to_string(),
            ask: "5.6100".to_string(),
            timestamp: "1700000000".to_string(),
            create_date: "2023-11-14 19:13:20".to_string(),
        },
    }
}

fn ok_reply(bid: &str) -> Reply {
    Reply::Received { status: 200, body: Some(rates_with_bid(bid)) }
}

#[test]
fn current_salary_is_salary_times_bid() {
    let p = project(5000, 5_600_000, 5_505_000);
    assert_eq!(p.current_salary, 28_000 * NANOS);
    let p = project(1234, 4_321_987, 0);
    assert_eq!(p.current_salary, 1234 * 4_321_987 * 1000);
    assert_eq!(p.previous_salary, 0);
    let p = project(0, 5_000_000, 6_000_000);
    assert_eq!(p.current_salary, 0);
    let p = project(u16::MAX, u64::MAX, u64::MAX);
    assert_eq!(p.current_salary, 65535 * (u64::MAX as i128) * 1000);
    assert_eq!(p.salary_diff, 0);
}

#[test]
fn discounts_take_one_and_half_percent() {
    let p = project(5000, 5_600_000, 5_505_000);
    assert_eq!(p.discount1, 27_720 * NANOS);
    assert_eq!(p.discount0_5, 27_860 * NANOS);
    assert!(p.discount1 <= p.discount0_5);
    assert_eq!(p.discount_diff, -140 * NANOS);
    let p = project(7, 1, 0);
    assert_eq!(p.discount1 * 100, p.current_salary * 99);
    assert_eq!(p.discount0_5 * 1000, p.current_salary * 995);
}

#[test]
fn salary_diff_sign_selects_status() {
    let up = project(5000, 5_600_000, 5_505_000);
    assert_eq!(up.salary_diff, up.current_salary - up.previous_salary);
    assert_eq!(status_of(up.salary_diff), Status::Affirmative);
    let down = project(3000, 5_000_000, 6_000_000);
    assert_eq!(status_of(down.salary_diff), Status::Warning);
    let same = project(3000, 5_000_000, 5_000_000);
    assert_eq!(same.salary_diff, 0);
    assert_eq!(status_of(same.salary_diff), Status::Warning);
    assert_eq!(status_of(1), Status::Affirmative);
    assert_eq!(status_of(-1), Status::Warning);
}

#[test]
fn formatted_amount_parses_back_within_half_a_cent() {
    let samples: Vec<i128> = vec![
        0,
        1,
        4_999_999,
        5_000_000,
        15_000_000,
        -25_000_001,
        27_525_000_000_000,
        475 * NANOS,
        -3000 * NANOS,
        123_456_789_012_345,
        -987_654_321_987_654_321,
        10_i128.pow(37) + 4_999_999,
        -(10_i128.pow(37)) - 15_000_000,
    ];
    for x in samples {
        let text = format_amount(x);
        let back = parse_amount(&text).unwrap();
        let diff = back * 1000 - x;
        assert!(diff <= 5_000_000 && diff >= -5_000_000, "{} -> {}", x, text);
    }
}

#[test]
fn amounts_round_to_even_cents() {
    assert_eq!(format_amount(28_000 * NANOS), "28000.00");
    assert_eq!(format_amount(-140 * NANOS), "-140.00");
    assert_eq!(format_amount(5_505_000_000), "5.50");
    assert_eq!(format_amount(5_515_000_000), "5.52");
    assert_eq!(format_amount(5_505_000_001), "5.51");
    assert_eq!(format_amount(-5_505_000_000), "-5.50");
    assert_eq!(format_amount(-1), "0.00");
    assert_eq!(format_amount(9_995_000_000), "10.00");
    assert_eq!(format_amount(50_000_000), "0.05");
    assert_eq!(currency_text(27_525 * NANOS), "R$ 27525.00");
    assert_eq!(rate_text(5_505_000), "R$ 5.50");
    assert_eq!(rate_text(5_600_000), "R$ 5.60");
}

#[test]
fn decimals_parse_to_millionths() {
    assert_eq!(parse_decimal("5.60"), Some(5_600_000));
    assert_eq!(parse_decimal("5.505"), Some(5_505_000));
    assert_eq!(parse_decimal("28000"), Some(28_000_000_000));
    assert_eq!(parse_decimal("0.000001"), Some(1));
    assert_eq!(parse_decimal("007.5"), Some(7_500_000));
    assert_eq!(parse_decimal(""), None);
    assert_eq!(parse_decimal("."), None);
    assert_eq!(parse_decimal("5."), None);
    assert_eq!(parse_decimal(".5"), None);
    assert_eq!(parse_decimal("5.1234567"), None);
    assert_eq!(parse_decimal("5,60"), None);
    assert_eq!(parse_decimal("5.6a"), None);
    assert_eq!(parse_decimal("abc"), None);
    assert_eq!(parse_decimal("-1"), None);
    assert_eq!(parse_decimal(" 5.60"), None);
    assert_eq!(parse_decimal("340282366920938463463374607431768"), Some(340282366920938463463374607431768000000));
    assert_eq!(parse_decimal("340282366920938463463374607431768.211455"), Some(u128::MAX));
    assert_eq!(parse_decimal("340282366920938463463374607431768.211456"), None);
    assert_eq!(parse_decimal("340282366920938463463374607431769"), None);
    assert_eq!(parse_rate("18446744073709.551615"), Some(u64::MAX));
    assert_eq!(parse_rate("18446744073709.551616"), None);
    assert_eq!(parse_amount("-140.00"), Some(-140_000_000));
    assert_eq!(parse_amount("475.00"), Some(475_000_000));
    assert_eq!(parse_amount("-"), None);
    assert_eq!(parse_amount("--1"), None);
}

#[test]
fn fetch_network_failure_is_reported() {
    assert_eq!(rate_from_reply(&Reply::Unreachable), Err(FetchError::Network));
}

#[test]
fn fetch_http_status_is_reported() {
    let reply = Reply::Received { status: 503, body: Some(rates_with_bid("5.60")) };
    assert_eq!(rate_from_reply(&reply), Err(FetchError::Http(503)));
    let reply = Reply::Received { status: 404, body: None };
    assert_eq!(rate_from_reply(&reply), Err(FetchError::Http(404)));
    let reply = Reply::Received { status: 199, body: None };
    assert_eq!(rate_from_reply(&reply), Err(FetchError::Http(199)));
}

#[test]
fn fetch_decode_failure_is_reported() {
    let reply = Reply::Received { status: 200, body: None };
    assert_eq!(rate_from_reply(&reply), Err(FetchError::Decode));
}

#[test]
fn fetch_invalid_bid_is_reported() {
    assert_eq!(rate_from_reply(&ok_reply("abc")), Err(FetchError::InvalidRate));
    assert_eq!(rate_from_reply(&ok_reply("")), Err(FetchError::InvalidRate));
    assert_eq!(rate_from_reply(&ok_reply("0.0000")), Err(FetchError::InvalidRate));
    assert_eq!(rate_from_reply(&ok_reply("-5.60")), Err(FetchError::InvalidRate));
    assert_eq!(rate_from_reply(&ok_reply("5.60")), Ok(5_600_000));
    let reply = Reply::Received { status: 299, body: Some(rates_with_bid("5.4321")) };
    assert_eq!(rate_from_reply(&reply), Ok(5_432_100));
}

#[test]
fn fetch_errors_have_distinct_exit_codes() {
    let codes = [
        FetchError::Network.exit_code(),
        FetchError::Http(500).exit_code(),
        FetchError::Decode.exit_code(),
        FetchError::InvalidRate.exit_code(),
    ];
    for (i, a) in codes.iter().enumerate() {
        assert_ne!(*a, 0);
        for b in codes.iter().skip(i + 1) {
            assert_ne!(a, b);
        }
    }
}

#[test]
fn rising_bid_scenario() {
    let last_bid = parse_rate("5.505").unwrap();
    let report = build_report(5000, last_bid, &ok_reply("5.60")).unwrap();
    let p = report.projection;
    assert_eq!(format_amount(p.current_salary), "28000.00");
    assert_eq!(format_amount(p.previous_salary), "27525.00");
    assert_eq!(format_amount(p.salary_diff), "475.00");
    assert_eq!(format_amount(p.discount1), "27720.00");
    assert_eq!(format_amount(p.discount0_5), "27860.00");
    assert_eq!(format_amount(p.discount_diff), "-140.00");
    assert_eq!(report.status, Status::Affirmative);
    assert_eq!(report.current_bid, 5_600_000);
}

#[test]
fn falling_bid_scenario() {
    let last_bid = parse_rate("6.00").unwrap();
    let report = build_report(3000, last_bid, &ok_reply("5.00")).unwrap();
    let p = report.projection;
    assert_eq!(format_amount(p.current_salary), "15000.00");
    assert_eq!(format_amount(p.previous_salary), "18000.00");
    assert_eq!(format_amount(p.salary_diff), "-3000.00");
    assert_eq!(report.status, Status::Warning);
}

#[test]
fn failed_reply_gives_no_report() {
    assert_eq!(build_report(5000, 5_505_000, &Reply::Unreachable), Err(FetchError::Network));
    let reply = Reply::Received { status: 200, body: None };
    assert_eq!(build_report(5000, 5_505_000, &reply), Err(FetchError::Decode));
}

#[test]
fn projection_value_is_copyable() {
    let p: SalaryProjection = project(1, 2, 3);
    let q = p;
    assert_eq!(p, q);
}

#[test]
fn banner_fades_through_three_colours() {
    let start = Rgb { red: 203, green: 43, blue: 125 };
    let mid = Rgb { red: 243, green: 63, blue: 113 };
    let end = Rgb { red: 254, green: 85, blue: 53 };
    assert_eq!(gradient_colour(0, 17), start);
    assert_eq!(gradient_colour(8, 17), mid);
    assert_eq!(gradient_colour(16, 17), end);
    assert_eq!(gradient_colour(4, 17), Rgb { red: 223, green: 53, blue: 119 });
    assert_eq!(gradient_colour(0, 1), start);
    assert_eq!(gradient_colour(1, 2), end);
    // 1/15 of the way from start to mid, twice: round(203 + 40 * 2 / 15) = 208
    assert_eq!(gradient_colour(1, 16).red, 208);
}
