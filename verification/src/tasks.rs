//! The two tasks of the detached part of a refresh cycle, run against the
//! store: writing the enriched countries, and laying out the report.

use vstd::prelude::*;
use crate::clock::{report_stamp_text, rfc3339_millis_text};
use crate::countries::{is_enrichment_of, refresh_countries_task};
use crate::image::{generate_summary_image, summary_plan, SummaryPlan};
use crate::models::{country_views, Country, CountryFilters, CountryResponse, CountryView};
use crate::rates::ExchangeRateResponse;
use crate::refresh::{first_stage, next_stage, RefreshError, StageOutcome};
use crate::store::{affected_by, capped, is_listing, upserted_all, CountryRepository};

verus! {

/// Lays out the report from what the store holds: the number of its
/// countries, and its countries by descending estimated GDP, of which the
/// report lists the first five. Nothing is laid out for an instant that has
/// no text.
pub fn generate_image_task(
    repository: &CountryRepository,
    last_refresh_time: i64,
    title_width: u32,
) -> (plan: Option<SummaryPlan>)
    ensures
        plan.is_some() == report_stamp_text(last_refresh_time as int).is_some(),
        plan matches Some(p) ==> exists|picks: Seq<int>, top: Seq<CountryView>|
            {
                &&& is_listing(repository@, None, None, false, picks, top)
                &&& p@ == summary_plan(
                    (if repository@.len() > i64::MAX {
                        i64::MAX as int
                    } else {
                        repository@.len() as int
                    }),
                    top,
                    report_stamp_text(last_refresh_time as int).unwrap(),
                    title_width as int,
                )
            },
{
    let total = repository.count();
    let filters = CountryFilters {
        region: None,
        currency: None,
        sort: Some(String::from_str("desc")),
    };
    proof {
        reveal_strlit("desc");
        reveal_strlit("gdp_asc");
        assert("desc"@.len() != "gdp_asc"@.len());
    }
    let all_countries = repository.filter(&filters);
    let plan = generate_summary_image(total, &all_countries, last_refresh_time, title_width);
    proof {
        if plan.is_some() {
            let picks = choose|picks: Seq<int>|
                is_listing(repository@, None, None, false, picks, country_views(all_countries@));
            assert(is_listing(
                repository@,
                None,
                None,
                false,
                picks,
                country_views(all_countries@),
            ));
        }
    }
    plan
}

/// What a detached cycle did.
#[derive(Debug)]
pub struct CycleReport {
    /// What the store counted for the written countries; none where nothing
    /// was written.
    pub affected: Option<usize>,
    /// The report, where it could be laid out.
    pub plan: Option<SummaryPlan>,
    /// The error of the persistence stage, where it failed.
    pub persist_error: Option<RefreshError>,
    /// The error of the report stage, where it failed.
    pub report_error: Option<RefreshError>,
}

/// Runs the detached part of a cycle that began at the instant `timestamp`
/// against the store: every raw record is enriched and written, and the
/// report is laid out from what the store then holds. The store in memory
/// has no faults: a stage fails only where the instant has no text, which
/// is recorded, and the next stage still runs.
pub fn run_cycle(
    repository: &mut CountryRepository,
    countries_data: &Vec<CountryResponse>,
    exchange_rate_data: &ExchangeRateResponse,
    timestamp: i64,
    title_width: u32,
) -> (report: CycleReport)
    requires
        old(repository).wf(),
        exchange_rate_data.rates.wf(),
    ensures
        final(repository).wf(),
        report.affected.is_some() == rfc3339_millis_text(timestamp as int).is_some(),
        report.persist_error == (if report.affected.is_some() {
            None
        } else {
            Some(RefreshError::InstantOutOfRange)
        }),
        report.affected.is_none() ==> final(repository)@ == old(repository)@,
        report.affected matches Some(n) ==> exists|written: Seq<CountryView>|
            {
                &&& written.len() == countries_data@.len()
                &&& forall|i: int|
                    0 <= i < written.len() ==> is_enrichment_of(
                        #[trigger] written[i],
                        countries_data@[i],
                        exchange_rate_data.rates@,
                        rfc3339_millis_text(timestamp as int).unwrap(),
                    )
                &&& final(repository)@ == upserted_all(old(repository)@, written)
                &&& n == capped(affected_by(old(repository)@, written))
            },
        report.plan.is_some() == report_stamp_text(timestamp as int).is_some(),
        report.plan matches Some(p) ==> exists|picks: Seq<int>, top: Seq<CountryView>|
            {
                &&& is_listing(final(repository)@, None, None, false, picks, top)
                &&& p@ == summary_plan(
                    (if final(repository)@.len() > i64::MAX {
                        i64::MAX as int
                    } else {
                        final(repository)@.len() as int
                    }),
                    top,
                    report_stamp_text(timestamp as int).unwrap(),
                    title_width as int,
                )
            },
        report.report_error == (if report.plan.is_some() {
            None
        } else {
            Some(RefreshError::InstantOutOfRange)
        }),
{
    let mut affected: Option<usize> = None;
    let enriched: Option<Vec<Country>> = refresh_countries_task(
        countries_data,
        exchange_rate_data,
        timestamp,
    );
    let persisted = match enriched {
        Some(countries) => {
            let n = repository.insert_or_update(&countries);
            affected = Some(n);
            proof {
                let written = country_views(countries@);
                assert forall|i: int| 0 <= i < written.len() implies is_enrichment_of(
                    #[trigger] written[i],
                    countries_data@[i],
                    exchange_rate_data.rates@,
                    rfc3339_millis_text(timestamp as int).unwrap(),
                ) by {
                    assert(written[i] == countries@[i]@);
                }
            }
            true
        },
        None => false,
    };
    let after_persist = next_stage(
        first_stage(),
        if persisted {
            StageOutcome::Completed
        } else {
            StageOutcome::NoInstant
        },
    );
    let plan = generate_image_task(repository, timestamp, title_width);
    let after_report = next_stage(
        after_persist.next,
        if plan.is_some() {
            StageOutcome::Completed
        } else {
            StageOutcome::NoInstant
        },
    );
    CycleReport {
        affected,
        plan,
        persist_error: after_persist.log,
        report_error: after_report.log,
    }
}

} // verus!
