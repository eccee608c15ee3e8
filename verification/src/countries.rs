//! Enrichment: joining a country with the rate table and estimating its GDP.

use vstd::prelude::*;
use vstd::arithmetic::div_mod::{lemma_div_is_ordered, lemma_fundamental_div_mod, lemma_mod_bound};
use crate::decimal::{Decimal, magnitude};
use crate::clock::{rfc3339_millis, rfc3339_millis_text};
use crate::models::{opt_text, copy_opt_text, Country, CountryResponse, CountryView, Currency};
use crate::rates::{ExchangeRateResponse, RateTable};

verus! {

/// The smallest multiplier, in thousandths: 1000.
pub const MULTIPLIER_LOW: u32 = 1_000_000;

/// The bound above every multiplier, in thousandths: 2000.
pub const MULTIPLIER_HIGH: u32 = 2_000_000;

/// Whether `multiplier`, in thousandths, lies in `[1000, 2000)`.
pub open spec fn is_multiplier(multiplier: u32) -> bool {
    MULTIPLIER_LOW <= multiplier < MULTIPLIER_HIGH
}

/// The estimated GDP in millionths: `population * multiplier / rate`, cut off
/// towards zero after the sixth fractional digit. The multiplier is in
/// thousandths, the rate in millionths and not zero.
pub open spec fn gdp_units(population: int, multiplier: int, rate: int) -> int {
    let size = (magnitude(population) * multiplier * 1_000_000_000) / magnitude(rate);
    if (population < 0) != (rate < 0) {
        -size
    } else {
        size
    }
}

/// The estimate for a population at a rate with a given multiplier: none at
/// rate zero.
pub open spec fn estimate(population: int, rate: Decimal, multiplier: int) -> Option<Decimal> {
    if rate@ == 0 {
        None
    } else {
        Some(Decimal { units: gdp_units(population, multiplier, rate@) as i128 })
    }
}

/// The estimate fits a `Decimal` for every population, rate and multiplier.
pub proof fn lemma_gdp_units_fit(population: i64, multiplier: u32, rate: Decimal)
    requires
        rate@ != 0,
    ensures
        -0x2000_0000_0000_0000_0000_0000_0000_0000 < gdp_units(
            population as int,
            multiplier as int,
            rate@,
        ) < 0x2000_0000_0000_0000_0000_0000_0000_0000,
{
    let p = magnitude(population as int);
    let m = multiplier as int;
    let r = magnitude(rate@);
    assert(0 <= p * m <= 0x8000_0000_0000_0000 * 0x1_0000_0000) by (nonlinear_arith)
        requires
            0 <= p <= 0x8000_0000_0000_0000,
            0 <= m < 0x1_0000_0000,
    ;
    let pm = p * m;
    assert(0 <= pm * 1_000_000_000 <= 0x8000_0000_0000_0000_0000_0000 * 1_000_000_000)
        by (nonlinear_arith)
        requires
            0 <= pm <= 0x8000_0000_0000_0000_0000_0000,
    ;
    let n = pm * 1_000_000_000;
    assert(0 <= n / r <= n) by (nonlinear_arith)
        requires
            0 <= n,
            1 <= r,
    ;
}

/// Estimates the GDP of `population` at `exchange_rate` with the given
/// multiplier, in thousandths. There is no estimate at rate zero.
pub fn estimate_gdp(population: i64, exchange_rate: Decimal, multiplier: u32) -> (gdp: Option<
    Decimal,
>)
    ensures
        gdp == estimate(population as int, exchange_rate, multiplier as int),
        exchange_rate@ == 0 ==> gdp.is_none(),
        exchange_rate@ != 0 ==> gdp.is_some(),
{
    if exchange_rate.is_zero() {
        return None;
    }
    let people: u128 = if population >= 0 {
        population as u128
    } else {
        let wide: i128 = population as i128;
        let flipped: i128 = -wide;
        flipped as u128
    };
    let rate: u128 = exchange_rate.unsigned_units();
    let factor: u128 = multiplier as u128;
    proof {
        lemma_gdp_units_fit(population, multiplier, exchange_rate);
        assert(0 <= people * factor <= 0x8000_0000_0000_0000 * 0x1_0000_0000)
            by (nonlinear_arith)
            requires
                0 <= people <= 0x8000_0000_0000_0000,
                0 <= factor < 0x1_0000_0000,
        ;
    }
    let scaled: u128 = people * factor;
    proof {
        assert(0 <= scaled * 1_000_000_000 <= 0x8000_0000_0000_0000_0000_0000 * 1_000_000_000)
            by (nonlinear_arith)
            requires
                0 <= scaled <= 0x8000_0000_0000_0000_0000_0000,
        ;
    }
    let numerator: u128 = scaled * 1_000_000_000;
    let size: u128 = numerator / rate;
    let signed: i128 = size as i128;
    let units: i128 = if (population < 0) != exchange_rate.is_negative() {
        -signed
    } else {
        signed
    };
    Some(Decimal { units })
}

/// `rand::random_range` on a half-open range of `u32`: the result lies in the
/// range. The range must not be empty, or the call panics. Which value of the
/// range comes back is up to the thread's generator.
#[verifier::external_body]
fn random_in_range(low: u32, high: u32) -> (drawn: u32)
    requires
        low < high,
    ensures
        low <= drawn < high,
{
    rand::random_range(low..high)
}

/// Draws a fresh multiplier from `[1000, 2000)`, in thousandths.
pub fn draw_multiplier() -> (multiplier: u32)
    ensures
        is_multiplier(multiplier),
{
    random_in_range(MULTIPLIER_LOW, MULTIPLIER_HIGH)
}

/// Estimates the GDP of `population` at `exchange_rate` with a freshly drawn
/// multiplier: two calls on the same inputs may differ. There is no estimate
/// at rate zero.
pub fn calculate_gdp(population: i64, exchange_rate: Decimal) -> (gdp: Option<Decimal>)
    ensures
        exchange_rate@ == 0 ==> gdp.is_none(),
        exchange_rate@ != 0 ==> gdp.is_some(),
        exists|m: u32| #[trigger]
            is_multiplier(m) && gdp == estimate(population as int, exchange_rate, m as int),
{
    let multiplier = draw_multiplier();
    estimate_gdp(population, exchange_rate, multiplier)
}

/// The currencies of a country in source order: none where the list is absent.
pub open spec fn listed(currencies: Option<&Vec<Currency>>) -> Seq<Currency> {
    match currencies {
        None => Seq::empty(),
        Some(list) => list@,
    }
}

/// The currencies of a raw record in source order: none where the list is absent.
pub open spec fn currencies_of(raw: CountryResponse) -> Seq<Currency> {
    match raw.currencies {
        None => Seq::empty(),
        Some(list) => list@,
    }
}

/// The currency code that a country is joined by: the code of its first
/// currency, if the country has a currency and that code is there and not
/// empty. Later currencies are never looked at.
pub open spec fn resolved_code(currencies: Seq<Currency>) -> Option<Seq<char>> {
    if currencies.len() == 0 {
        None
    } else {
        match currencies[0].code {
            None => None,
            Some(code) => if code@.len() == 0 {
                None
            } else {
                Some(code@)
            },
        }
    }
}

/// The currency code, exchange rate and estimated GDP of a country.
pub struct Enrichment {
    pub currency_code: Option<Seq<char>>,
    pub exchange_rate: Option<Decimal>,
    pub estimated_gdp: Option<Decimal>,
}

/// The enrichment of a country with the resolved code `code`: without a code
/// the GDP is zero; with a code that the table lacks, rate and GDP are
/// unknown; else the rate is the table's and the GDP is the estimate.
pub open spec fn enrichment(
    code: Option<Seq<char>>,
    population: int,
    rates: Map<Seq<char>, Decimal>,
    multiplier: int,
) -> Enrichment {
    match code {
        None => Enrichment {
            currency_code: None,
            exchange_rate: None,
            estimated_gdp: Some(Decimal { units: 0 }),
        },
        Some(c) => if rates.contains_key(c) {
            Enrichment {
                currency_code: Some(c),
                exchange_rate: Some(rates[c]),
                estimated_gdp: estimate(population, rates[c], multiplier),
            }
        } else {
            Enrichment { currency_code: Some(c), exchange_rate: None, estimated_gdp: None }
        },
    }
}

/// What a triple of code, rate and GDP holds.
pub open spec fn triple_view(t: (Option<String>, Option<Decimal>, Option<Decimal>)) -> Enrichment {
    Enrichment { currency_code: opt_text(t.0), exchange_rate: t.1, estimated_gdp: t.2 }
}

/// The code of the first currency, where it is there and not empty.
fn first_code(currencies: Option<&Vec<Currency>>) -> (code: Option<String>)
    ensures
        opt_text(code) == resolved_code(listed(currencies)),
{
    match currencies {
        None => None,
        Some(list) => {
            if list.len() == 0 {
                return None;
            }
            match &list[0].code {
                None => None,
                Some(code) => {
                    if code.as_str().is_empty() {
                        None
                    } else {
                        Some(code.clone())
                    }
                },
            }
        },
    }
}

/// Joins a country's currencies with the rate table and estimates its GDP
/// with the given multiplier, in thousandths.
pub fn process_currency_with(
    currencies: Option<&Vec<Currency>>,
    population: i64,
    rates: &RateTable,
    multiplier: u32,
) -> (result: (Option<String>, Option<Decimal>, Option<Decimal>))
    requires
        rates.wf(),
    ensures
        triple_view(result) == enrichment(
            resolved_code(listed(currencies)),
            population as int,
            rates@,
            multiplier as int,
        ),
{
    let currency_code = match first_code(currencies) {
        Some(code) => code,
        None => {
            return (None, None, Some(Decimal::zero()));
        },
    };
    match rates.get(currency_code.as_str()) {
        Some(rate) => {
            let estimated_gdp = estimate_gdp(population, rate, multiplier);
            (Some(currency_code), Some(rate), estimated_gdp)
        },
        None => (Some(currency_code), None, None),
    }
}

/// Joins a country's currencies with the rate table and estimates its GDP
/// with a freshly drawn multiplier.
pub fn process_currency_and_gdp(
    currencies: Option<&Vec<Currency>>,
    population: i64,
    rates: &RateTable,
) -> (result: (Option<String>, Option<Decimal>, Option<Decimal>))
    requires
        rates.wf(),
    ensures
        exists|m: u32| #[trigger]
            is_multiplier(m) && triple_view(result) == enrichment(
                resolved_code(listed(currencies)),
                population as int,
                rates@,
                m as int,
            ),
{
    let multiplier = draw_multiplier();
    process_currency_with(currencies, population, rates, multiplier)
}

/// The enriched country of a raw record: the record's own fields, the
/// enrichment of its currencies, and the cycle's timestamp. The identity key
/// is left at zero: a country is identified by its name, whatever the letter
/// case, and the store assigns keys.
pub open spec fn enriched(
    raw: CountryResponse,
    rates: Map<Seq<char>, Decimal>,
    multiplier: int,
    stamp: Seq<char>,
) -> CountryView {
    let joined = enrichment(
        resolved_code(currencies_of(raw)),
        raw.population as int,
        rates,
        multiplier,
    );
    CountryView {
        id: 0,
        name: raw.name@,
        capital: opt_text(raw.capital),
        region: opt_text(raw.region),
        population: raw.population as int,
        currency_code: joined.currency_code,
        exchange_rate: joined.exchange_rate,
        estimated_gdp: joined.estimated_gdp,
        flag_url: opt_text(raw.flag),
        last_refreshed_at: stamp,
    }
}

/// Enriches one raw record with the given multiplier, in thousandths, and the
/// cycle's timestamp.
pub fn enrich_with(raw: &CountryResponse, rates: &RateTable, multiplier: u32, stamp: &str) -> (country:
    Country)
    requires
        rates.wf(),
    ensures
        country@ == enriched(*raw, rates@, multiplier as int, stamp@),
{
    let currencies: Option<&Vec<Currency>> = match &raw.currencies {
        Some(list) => Some(list),
        None => None,
    };
    let (currency_code, exchange_rate, estimated_gdp) = process_currency_with(
        currencies,
        raw.population,
        rates,
        multiplier,
    );
    Country {
        id: 0,
        name: raw.name.clone(),
        capital: copy_opt_text(&raw.capital),
        region: copy_opt_text(&raw.region),
        population: raw.population,
        currency_code,
        exchange_rate,
        estimated_gdp,
        flag_url: copy_opt_text(&raw.flag),
        last_refreshed_at: String::from_str(stamp),
    }
}

/// Whether `country` is the enrichment of `raw` with some multiplier of
/// `[1000, 2000)`.
pub open spec fn is_enrichment_of(
    country: CountryView,
    raw: CountryResponse,
    rates: Map<Seq<char>, Decimal>,
    stamp: Seq<char>,
) -> bool {
    exists|m: u32| #[trigger] is_multiplier(m) && country == enriched(raw, rates, m as int, stamp)
}

/// Enriches every raw record, in order, each with a multiplier of its own,
/// freshly drawn, and all with the one timestamp of the cycle.
pub fn enrich_all(countries_data: &Vec<CountryResponse>, rates: &RateTable, stamp: &str) -> (countries:
    Vec<Country>)
    requires
        rates.wf(),
    ensures
        countries@.len() == countries_data@.len(),
        forall|i: int|
            0 <= i < countries@.len() ==> is_enrichment_of(
                #[trigger] countries@[i]@,
                countries_data@[i],
                rates@,
                stamp@,
            ),
{
    let mut countries: Vec<Country> = Vec::new();
    let mut k: usize = 0;
    while k < countries_data.len()
        invariant
            rates.wf(),
            k <= countries_data@.len(),
            countries@.len() == k,
            forall|i: int|
                0 <= i < k ==> is_enrichment_of(
                    #[trigger] countries@[i]@,
                    countries_data@[i],
                    rates@,
                    stamp@,
                ),
        decreases countries_data@.len() - k,
    {
        let multiplier = draw_multiplier();
        let country = enrich_with(&countries_data[k], rates, multiplier, stamp);
        countries.push(country);
        k += 1;
    }
    countries
}

/// The enrichment stage of a refresh cycle that began at the instant
/// `timestamp`, in milliseconds since the epoch: every raw record enriched
/// against the cycle's rate table and stamped with the instant's RFC 3339
/// text. Nothing is produced for an instant that has no such text.
pub fn refresh_countries_task(
    countries_data: &Vec<CountryResponse>,
    exchange_rate_data: &ExchangeRateResponse,
    timestamp: i64,
) -> (countries: Option<Vec<Country>>)
    requires
        exchange_rate_data.rates.wf(),
    ensures
        countries.is_some() == rfc3339_millis_text(timestamp as int).is_some(),
        countries matches Some(list) ==> {
            &&& list@.len() == countries_data@.len()
            &&& forall|i: int|
                0 <= i < list@.len() ==> is_enrichment_of(
                    #[trigger] list@[i]@,
                    countries_data@[i],
                    exchange_rate_data.rates@,
                    rfc3339_millis_text(timestamp as int).unwrap(),
                )
        },
{
    match rfc3339_millis(timestamp) {
        Some(stamp) => Some(enrich_all(countries_data, &exchange_rate_data.rates, stamp.as_str())),
        None => None,
    }
}

/// A country without currencies is economically inert: it has no currency
/// code and no exchange rate, and its estimated GDP is exactly zero, whatever
/// the population, the rate table and the multiplier.
pub proof fn law_no_currency_means_zero_gdp(
    currencies: Seq<Currency>,
    population: int,
    rates: Map<Seq<char>, Decimal>,
    multiplier: int,
)
    requires
        currencies.len() == 0,
    ensures
        enrichment(resolved_code(currencies), population, rates, multiplier) == (Enrichment {
            currency_code: None,
            exchange_rate: None,
            estimated_gdp: Some(Decimal { units: 0 }),
        }),
{
}

/// A country whose code the rate table lacks is unknown, not inert: it keeps
/// its code, and has neither an exchange rate nor an estimated GDP.
pub proof fn law_unlisted_code_means_unknown(
    currencies: Seq<Currency>,
    population: int,
    rates: Map<Seq<char>, Decimal>,
    multiplier: int,
)
    requires
        resolved_code(currencies).is_some(),
        !rates.contains_key(resolved_code(currencies).unwrap()),
    ensures
        enrichment(resolved_code(currencies), population, rates, multiplier) == (Enrichment {
            currency_code: resolved_code(currencies),
            exchange_rate: None,
            estimated_gdp: None,
        }),
        enrichment(resolved_code(currencies), population, rates, multiplier).estimated_gdp != Some(
            Decimal { units: 0 },
        ),
{
}

/// At rate zero there is no estimate, whatever the population and the
/// multiplier.
pub proof fn law_zero_rate_has_no_estimate(population: int, rate: Decimal, multiplier: int)
    requires
        rate@ == 0,
    ensures
        estimate(population, rate, multiplier).is_none(),
{
}

/// For a population that is not negative, a rate above zero and a multiplier
/// of `[1000, 2000)`, the estimate lies between `population * 1000 / rate` and
/// `population * 2000 / rate`. Exactly: the estimate times the rate is at
/// most `population * 2000`, and the estimate plus one millionth, times the
/// rate, is above `population * 1000`; so the estimate also lies between the
/// two quotients cut off after the sixth fractional digit.
pub proof fn law_estimate_within_bounds(population: int, rate: Decimal, multiplier: u32)
    requires
        population >= 0,
        rate@ > 0,
        is_multiplier(multiplier),
    ensures
        gdp_units(population, multiplier as int, rate@) * rate@ <= population
            * 2_000_000_000_000_000,
        (gdp_units(population, multiplier as int, rate@) + 1) * rate@ > population
            * 1_000_000_000_000_000,
        (population * 1_000_000_000_000_000) / rate@ <= gdp_units(
            population,
            multiplier as int,
            rate@,
        ) <= (population * 2_000_000_000_000_000) / rate@,
{
    let m = multiplier as int;
    let r = rate@;
    let middle = population * m * 1_000_000_000;
    assert(population * 1_000_000_000_000_000 <= middle <= population * 2_000_000_000_000_000)
        by (nonlinear_arith)
        requires
            population >= 0,
            1_000_000 <= m < 2_000_000,
            middle == population * m * 1_000_000_000,
    ;
    lemma_div_is_ordered(population * 1_000_000_000_000_000, middle, r);
    lemma_div_is_ordered(middle, population * 2_000_000_000_000_000, r);
    let g = middle / r;
    assert(g == gdp_units(population, m, r));
    lemma_fundamental_div_mod(middle, r);
    lemma_mod_bound(middle, r);
    assert(g * r <= middle && middle < (g + 1) * r) by (nonlinear_arith)
        requires
            middle == r * g + middle % r,
            0 <= middle % r < r,
    ;
}

} // verus!
