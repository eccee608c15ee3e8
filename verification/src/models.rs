//! The records that flow through a refresh cycle, and their mathematical views.

use vstd::prelude::*;
use crate::decimal::Decimal;

verus! {

/// The characters of an optional string.
pub open spec fn opt_text(s: Option<String>) -> Option<Seq<char>> {
    match s {
        Some(t) => Some(t@),
        None => None,
    }
}

/// A copy of an optional string.
pub fn copy_opt_text(s: &Option<String>) -> (c: Option<String>)
    ensures
        opt_text(c) == opt_text(*s),
{
    match s {
        Some(t) => Some(t.clone()),
        None => None,
    }
}

/// One currency descriptor of a country, as the country directory reports it.
#[derive(Clone, Debug, PartialEq, Eq)]
pub struct Currency {
    pub code: Option<String>,
    pub name: Option<String>,
    pub symbol: Option<String>,
}

/// A country as the country directory reports it, before enrichment.
#[derive(Clone, Debug, PartialEq, Eq)]
pub struct CountryResponse {
    pub name: String,
    pub capital: Option<String>,
    pub region: Option<String>,
    pub population: i64,
    pub currencies: Option<Vec<Currency>>,
    pub flag: Option<String>,
    pub independent: bool,
}

/// An enriched country: the persisted entity.
#[derive(Debug, PartialEq, Eq)]
pub struct Country {
    pub id: i32,
    pub name: String,
    pub capital: Option<String>,
    pub region: Option<String>,
    pub population: i64,
    pub currency_code: Option<String>,
    pub exchange_rate: Option<Decimal>,
    pub estimated_gdp: Option<Decimal>,
    pub flag_url: Option<String>,
    pub last_refreshed_at: String,
}

/// What a `Country` holds, with every string as its characters.
pub struct CountryView {
    pub id: int,
    pub name: Seq<char>,
    pub capital: Option<Seq<char>>,
    pub region: Option<Seq<char>>,
    pub population: int,
    pub currency_code: Option<Seq<char>>,
    pub exchange_rate: Option<Decimal>,
    pub estimated_gdp: Option<Decimal>,
    pub flag_url: Option<Seq<char>>,
    pub last_refreshed_at: Seq<char>,
}

impl View for Country {
    type V = CountryView;

    open spec fn view(&self) -> CountryView {
        CountryView {
            id: self.id as int,
            name: self.name@,
            capital: opt_text(self.capital),
            region: opt_text(self.region),
            population: self.population as int,
            currency_code: opt_text(self.currency_code),
            exchange_rate: self.exchange_rate,
            estimated_gdp: self.estimated_gdp,
            flag_url: opt_text(self.flag_url),
            last_refreshed_at: self.last_refreshed_at@,
        }
    }
}

impl Clone for Country {
    fn clone(&self) -> (c: Country)
        ensures
            c@ == self@,
    {
        Country {
            id: self.id,
            name: self.name.clone(),
            capital: copy_opt_text(&self.capital),
            region: copy_opt_text(&self.region),
            population: self.population,
            currency_code: copy_opt_text(&self.currency_code),
            exchange_rate: self.exchange_rate,
            estimated_gdp: self.estimated_gdp,
            flag_url: copy_opt_text(&self.flag_url),
            last_refreshed_at: self.last_refreshed_at.clone(),
        }
    }
}

/// The views of a list of countries, in order.
pub open spec fn country_views(countries: Seq<Country>) -> Seq<CountryView> {
    countries.map_values(|c: Country| c@)
}

/// The filters of a country listing.
#[derive(Clone, Debug, PartialEq, Eq)]
pub struct CountryFilters {
    /// Keep only the countries of this region, whatever the letter case.
    pub region: Option<String>,
    /// Keep only the countries with this currency code, whatever the letter case.
    pub currency: Option<String>,
    /// `"gdp_asc"` for ascending estimated GDP; anything else is descending.
    pub sort: Option<String>,
}

/// The reply to an accepted refresh request.
#[derive(Clone, Debug, PartialEq, Eq)]
pub struct RefreshResponse {
    pub message: String,
}

/// The reply to a status query.
#[derive(Clone, Debug, PartialEq, Eq)]
pub struct StatusResponse {
    pub total_countries: i64,
    pub last_refreshed_at: Option<String>,
}

/// An error reply: a short message, and optionally what lies behind it.
#[derive(Clone, Debug, PartialEq, Eq)]
pub struct ApiError {
    pub error: String,
    pub details: Option<String>,
}

impl ApiError {
    /// An error reply with a message and no details.
    pub fn new(error: String) -> (e: ApiError)
        ensures
            e.error@ == error@,
            e.details.is_none(),
    {
        ApiError { error, details: None }
    }

    /// An error reply with a message and details.
    pub fn with_details(error: String, details: String) -> (e: ApiError)
        ensures
            e.error@ == error@,
            opt_text(e.details) == Some(details@),
    {
        ApiError { error, details: Some(details) }
    }
}

/// The settings of the service.
#[derive(Clone, Debug, PartialEq, Eq)]
pub struct Config {
    pub database_url: String,
    pub database_max_connections: u32,
    pub database_connection_timeout: u64,
    pub server_host: String,
    pub server_port: u32,
    pub rest_countries_api: String,
    pub exchange_rates_api: String,
}

} // verus!
