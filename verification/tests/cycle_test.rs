use currency_exchange_api::decimal::Decimal;
use currency_exchange_api::models::{CountryResponse, Currency};
use currency_exchange_api::rates::{ExchangeRateResponse, RateTable};
use currency_exchange_api::refresh::{
    begin_precheck, on_probe, precheck, refresh_reply, PrecheckAction, RefreshError, Source,
};
use currency_exchange_api::store::CountryRepository;
use currency_exchange_api::tasks::{generate_image_task, run_cycle};

fn raw(name: &str, population: i64, code: Option<&str>) -> CountryResponse {
    CountryResponse {
        name: name.to_string(),
        capital: None,
        region: None,
        population,
        currencies: code.map(|c| {
            vec![Currency { code: Some(c.to_string()), name: None, symbol: None }]
        }),
        flag: None,
        independent: false,
    }
}

fn rates() -> ExchangeRateResponse {
    let mut table = RateTable::new();
    table.insert("NGN".to_string(), Decimal::from_integer(1600));
    ExchangeRateResponse { rates: table }
}

#[test]
fn one_cycle_end_to_end() {
    let mut store = CountryRepository::new();
    let data = vec![raw("Nigeria", 206_139_589, Some("NGN")), raw("Antarctica", 1000, None)];
    let report = run_cycle(&mut store, &data, &rates(), 1_516_991_409_453, 400);
    assert_eq!(report.affected, Some(2));
    assert_eq!(report.persist_error, None);
    assert_eq!(report.report_error, None);
    assert_eq!(store.count(), 2);
    let second = store.get_by_name("Antarctica").unwrap();
    assert_eq!(second.estimated_gdp, Some(Decimal::zero()));
    assert_eq!(second.currency_code, None);
    assert_eq!(second.exchange_rate, None);
    let first = store.get_by_name("Nigeria").unwrap();
    assert_eq!(first.exchange_rate, Some(Decimal::from_integer(1600)));
    let gdp = first.estimated_gdp.unwrap().units;
    let low = 206_139_589i128 * 1000 * 1_000_000 / 1600;
    let high = 206_139_589i128 * 2000 * 1_000_000 / 1600;
    assert!(low <= gdp && gdp <= high);
    assert_eq!(first.last_refreshed_at, "2018-01-26T18:30:09.453Z");
    assert_eq!(second.last_refreshed_at, first.last_refreshed_at);
    assert_eq!(store.get_last_refresh_time(), Some("2018-01-26T18:30:09.453Z".to_string()));
    let plan = report.plan.unwrap();
    assert_eq!(plan.lines.len(), 6);
    assert_eq!(plan.lines[1].text, "Total Countries: 2");
    assert!(plan.lines[3].text.starts_with("1. Nigeria - $"));
    assert_eq!(plan.lines[4].text, "2. Antarctica - $0");
    assert_eq!(plan.lines[5].text, "Last Updated: 2018-01-26 18:30:09 UTC");
}

#[test]
fn a_second_cycle_merges_and_moves_the_stamp_on() {
    let mut store = CountryRepository::new();
    let data = vec![raw("Nigeria", 206_139_589, Some("NGN")), raw("Antarctica", 1000, None)];
    run_cycle(&mut store, &data, &rates(), 1_516_991_409_453, 400);
    let report = run_cycle(&mut store, &data, &rates(), 1_516_991_410_000, 400);
    assert_eq!(report.affected, Some(4));
    assert_eq!(store.count(), 2);
    assert_eq!(store.get_last_refresh_time(), Some("2018-01-26T18:30:10.000Z".to_string()));
}

#[test]
fn failed_precheck_writes_nothing() {
    let mut store = CountryRepository::new();
    run_cycle(&mut store, &vec![raw("Nigeria", 1, Some("NGN"))], &rates(), 0, 400);
    let before = store.count();

    let (state, _) = begin_precheck();
    let (state, _) = on_probe(state, true);
    let (_, action) = on_probe(state, false);
    assert_eq!(action, PrecheckAction::Reject(Source::ExchangeRates));
    if action == PrecheckAction::Dispatch {
        run_cycle(&mut store, &vec![raw("Ghana", 1, None)], &rates(), 0, 400);
    }
    let outcome = precheck(true, false);
    assert_eq!(outcome, Err(RefreshError::SourceUnavailable(Source::ExchangeRates)));
    assert_eq!(refresh_reply(outcome).status_code(), 503);
    assert_eq!(store.count(), before);
    assert_eq!(before, 1);
}

#[test]
fn a_cycle_at_an_instant_without_text_writes_nothing() {
    let mut store = CountryRepository::new();
    let report = run_cycle(&mut store, &vec![raw("Nigeria", 1, None)], &rates(), i64::MAX, 400);
    assert_eq!(report.affected, None);
    assert_eq!(report.persist_error, Some(RefreshError::InstantOutOfRange));
    assert_eq!(report.report_error, Some(RefreshError::InstantOutOfRange));
    assert!(report.plan.is_none());
    assert_eq!(store.count(), 0);
}

#[test]
fn image_task_lists_by_descending_gdp() {
    let mut store = CountryRepository::new();
    let mut table = RateTable::new();
    table.insert("AAA".to_string(), Decimal::from_integer(1));
    table.insert("BBB".to_string(), Decimal::from_integer(1_000_000));
    let data = vec![
        raw("Small", 1, Some("BBB")),
        raw("Unknown", 1, Some("ZZZ")),
        raw("Big", 1_000_000, Some("AAA")),
        raw("Inert", 1, None),
    ];
    run_cycle(&mut store, &data, &ExchangeRateResponse { rates: table }, 0, 400);
    let plan = generate_image_task(&store, 0, 400).unwrap();
    let texts: Vec<&str> = plan.lines.iter().map(|l| l.text.as_str()).collect();
    assert!(texts[3].starts_with("1. Big - $1."));
    assert!(texts[3].ends_with("B"));
    assert!(texts[4].starts_with("2. Small - $0.00"));
    assert_eq!(texts[5], "3. Inert - $0");
    assert_eq!(texts[6], "4. Unknown - N/A");
    assert_eq!(texts[7], "Last Updated: 1970-01-01 00:00:00 UTC");
}
