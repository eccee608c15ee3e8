use currency_exchange_api::countries::{
    draw_multiplier, enrich_all, enrich_with, estimate_gdp, process_currency_with,
    refresh_countries_task, MULTIPLIER_HIGH, MULTIPLIER_LOW,
};
use currency_exchange_api::decimal::Decimal;
use currency_exchange_api::models::{CountryResponse, Currency};
use currency_exchange_api::rates::{ExchangeRateResponse, RateTable};

fn currency(code: Option<&str>) -> Currency {
    Currency {
        code: code.map(|c| c.to_string()),
        name: None,
        symbol: None,
    }
}

fn raw(name: &str, population: i64, currencies: Option<Vec<Currency>>) -> CountryResponse {
    CountryResponse {
        name: name.to_string(),
        capital: Some("Capital".to_string()),
        region: Some("Region".to_string()),
        population,
        currencies,
        flag: Some("https://flagcdn.com/xx.svg".to_string()),
        independent: true,
    }
}

fn table() -> RateTable {
    let mut rates = RateTable::new();
    rates.insert("NGN".to_string(), Decimal::from_integer(1600));
    rates.insert("USD".to_string(), Decimal::from_integer(1));
    rates.insert("ZRO".to_string(), Decimal::zero());
    rates
}

#[test]
fn estimate_is_population_times_multiplier_over_rate() {
    let gdp = estimate_gdp(1_000_000, Decimal::from_integer(100), 1_500_000);
    assert_eq!(gdp, Some(Decimal::from_units(15_000_000_000_000)));
}

#[test]
fn estimate_cuts_off_after_the_sixth_digit() {
    // 1 * 1000 / 3 = 333.333333...
    let gdp = estimate_gdp(1, Decimal::from_integer(3), 1_000_000);
    assert_eq!(gdp, Some(Decimal::from_units(333_333_333)));
}

#[test]
fn estimate_with_fractional_rate() {
    // 200 * 1234.567 / 0.5 = 493826.8
    let gdp = estimate_gdp(200, Decimal::from_units(500_000), 1_234_567);
    assert_eq!(gdp, Some(Decimal::from_units(493_826_800_000)));
}

#[test]
fn estimate_of_negative_population_is_negative() {
    let gdp = estimate_gdp(-1, Decimal::from_integer(3), 1_000_000);
    assert_eq!(gdp, Some(Decimal::from_units(-333_333_333)));
}

#[test]
fn estimate_at_the_limits_does_not_overflow() {
    let gdp = estimate_gdp(i64::MIN, Decimal::from_units(1), u32::MAX);
    let expected: i128 = -(9_223_372_036_854_775_808i128 * 4_294_967_295i128 * 1_000_000_000i128);
    assert_eq!(gdp, Some(Decimal::from_units(expected)));
}

#[test]
fn estimate_at_rate_zero_is_none_for_every_population() {
    for population in [0i64, 1, 1_000_000, i64::MAX] {
        assert_eq!(estimate_gdp(population, Decimal::zero(), 1_500_000), None);
    }
}

#[test]
fn estimate_lies_within_the_bounds() {
    let rate = Decimal::from_integer(1600);
    let population = 206_139_589i64;
    let low = (population as i128) * 1_000_000_000_000_000 / rate.units;
    let high = (population as i128) * 2_000_000_000_000_000 / rate.units;
    for multiplier in [MULTIPLIER_LOW, 1_234_567, 1_999_999] {
        let gdp = estimate_gdp(population, rate, multiplier).unwrap();
        assert!(low <= gdp.units && gdp.units <= high);
    }
}

#[test]
fn estimate_lies_within_the_exact_bounds() {
    // 1 * 1000 / 3: the estimate is 333.333333, a third of a millionth short.
    let rate = Decimal::from_integer(3);
    let gdp = estimate_gdp(1, rate, MULTIPLIER_LOW).unwrap();
    assert_eq!(gdp.units, 333_333_333);
    assert!(gdp.units * rate.units <= 2_000_000_000_000_000);
    assert!((gdp.units + 1) * rate.units > 1_000_000_000_000_000);
    let gdp = estimate_gdp(1, rate, MULTIPLIER_HIGH - 1).unwrap();
    assert_eq!(gdp.units, 666_666_333);
    assert!(gdp.units * rate.units <= 2_000_000_000_000_000);
}

#[test]
fn drawn_multipliers_are_in_range_and_vary() {
    let mut seen = Vec::new();
    for _ in 0..50 {
        let m = draw_multiplier();
        assert!(MULTIPLIER_LOW <= m && m < MULTIPLIER_HIGH);
        seen.push(m);
    }
    assert!(seen.iter().any(|&m| m != seen[0]));
}

#[test]
fn no_currency_list_gives_zero_gdp() {
    let rates = table();
    let result = process_currency_with(None, 5, &rates, 1_500_000);
    assert_eq!(result, (None, None, Some(Decimal::zero())));
    let empty: Vec<Currency> = Vec::new();
    let result = process_currency_with(Some(&empty), 5, &rates, 1_500_000);
    assert_eq!(result, (None, None, Some(Decimal::zero())));
}

#[test]
fn missing_or_empty_first_code_gives_zero_gdp() {
    let rates = table();
    let list = vec![currency(None), currency(Some("USD"))];
    let result = process_currency_with(Some(&list), 5, &rates, 1_500_000);
    assert_eq!(result, (None, None, Some(Decimal::zero())));
    let list = vec![currency(Some("")), currency(Some("USD"))];
    let result = process_currency_with(Some(&list), 5, &rates, 1_500_000);
    assert_eq!(result, (None, None, Some(Decimal::zero())));
}

#[test]
fn first_currency_wins() {
    let rates = table();
    let list = vec![currency(Some("NGN")), currency(Some("USD"))];
    let result = process_currency_with(Some(&list), 1600, &rates, 1_000_000);
    assert_eq!(
        result,
        (
            Some("NGN".to_string()),
            Some(Decimal::from_integer(1600)),
            Some(Decimal::from_integer(1000))
        )
    );
}

#[test]
fn unlisted_code_is_unknown_not_zero() {
    let rates = table();
    let list = vec![currency(Some("XYZ"))];
    let result = process_currency_with(Some(&list), 1600, &rates, 1_000_000);
    assert_eq!(result, (Some("XYZ".to_string()), None, None));
}

#[test]
fn listed_rate_of_zero_has_rate_and_no_gdp() {
    let rates = table();
    let list = vec![currency(Some("ZRO"))];
    let result = process_currency_with(Some(&list), 1600, &rates, 1_000_000);
    assert_eq!(result, (Some("ZRO".to_string()), Some(Decimal::zero()), None));
}

#[test]
fn enrich_with_copies_the_record_and_stamps_it() {
    let rates = table();
    let record = raw("Nigeria", 3200, Some(vec![currency(Some("NGN"))]));
    let country = enrich_with(&record, &rates, 1_500_000, "2018-01-26T18:30:09.453Z");
    assert_eq!(country.id, 0);
    assert_eq!(country.name, "Nigeria");
    assert_eq!(country.capital, Some("Capital".to_string()));
    assert_eq!(country.region, Some("Region".to_string()));
    assert_eq!(country.population, 3200);
    assert_eq!(country.currency_code, Some("NGN".to_string()));
    assert_eq!(country.exchange_rate, Some(Decimal::from_integer(1600)));
    assert_eq!(country.estimated_gdp, Some(Decimal::from_integer(3000)));
    assert_eq!(country.flag_url, Some("https://flagcdn.com/xx.svg".to_string()));
    assert_eq!(country.last_refreshed_at, "2018-01-26T18:30:09.453Z");
}

#[test]
fn enrich_all_keeps_order_and_shares_the_stamp() {
    let rates = table();
    let records = vec![
        raw("Nigeria", 206_139_589, Some(vec![currency(Some("NGN"))])),
        raw("Nowhere", 10, None),
        raw("Elsewhere", 10, Some(vec![currency(Some("XYZ"))])),
    ];
    let countries = enrich_all(&records, &rates, "stamp");
    assert_eq!(countries.len(), 3);
    assert_eq!(countries[0].name, "Nigeria");
    assert_eq!(countries[1].name, "Nowhere");
    assert_eq!(countries[2].name, "Elsewhere");
    assert!(countries.iter().all(|c| c.last_refreshed_at == "stamp"));
    assert_eq!(countries[1].estimated_gdp, Some(Decimal::zero()));
    assert_eq!(countries[2].estimated_gdp, None);
    let gdp = countries[0].estimated_gdp.unwrap().units;
    let low = 206_139_589i128 * 1_000_000_000_000_000 / 1_600_000_000;
    let high = 206_139_589i128 * 2_000_000_000_000_000 / 1_600_000_000;
    assert!(low <= gdp && gdp <= high);
}

#[test]
fn refresh_task_stamps_with_rfc3339_millis() {
    let data = ExchangeRateResponse { rates: table() };
    let records = vec![raw("Nigeria", 1, Some(vec![currency(Some("NGN"))])), raw("Nowhere", 1, None)];
    let countries = refresh_countries_task(&records, &data, 1_516_991_409_453).unwrap();
    assert_eq!(countries.len(), 2);
    assert_eq!(countries[0].last_refreshed_at, "2018-01-26T18:30:09.453Z");
    assert_eq!(countries[1].last_refreshed_at, "2018-01-26T18:30:09.453Z");
    let at_epoch = refresh_countries_task(&records, &data, 0).unwrap();
    assert_eq!(at_epoch[0].last_refreshed_at, "1970-01-01T00:00:00.000Z");
}

#[test]
fn refresh_task_gives_nothing_for_an_instant_out_of_range() {
    let data = ExchangeRateResponse { rates: table() };
    let records = vec![raw("Nigeria", 1, None)];
    assert!(refresh_countries_task(&records, &data, i64::MAX).is_none());
}

#[test]
fn rate_table_replaces_and_finds() {
    let mut rates = RateTable::new();
    assert!(!rates.contains("NGN"));
    rates.insert("NGN".to_string(), Decimal::from_integer(1600));
    rates.insert("USD".to_string(), Decimal::from_integer(1));
    rates.insert("NGN".to_string(), Decimal::from_integer(1700));
    assert!(rates.contains("NGN"));
    assert_eq!(rates.get("NGN"), Some(Decimal::from_integer(1700)));
    assert_eq!(rates.get("USD"), Some(Decimal::from_integer(1)));
    assert_eq!(rates.get("ngn"), None);
}

#[test]
fn decimal_basics() {
    assert_eq!(Decimal::from_integer(-2).units, -2_000_000);
    assert!(Decimal::zero().is_zero());
    assert!(!Decimal::from_units(1).is_zero());
    assert!(Decimal::from_units(-1).is_negative());
    assert_eq!(Decimal::from_units(i128::MIN).unsigned_units(), 1u128 << 127);
    assert_eq!(Decimal::from_units(7).unsigned_units(), 7);
}
