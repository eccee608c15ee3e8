use currency_exchange_api::models::{ApiError, Country, StatusResponse};
use currency_exchange_api::refresh::RefreshReply;
use currency_exchange_api::routes::{
    delete_country, get_countries, get_country, get_status, get_summary_image, refresh_countries,
    CountryReply, DeleteReply, ImageReply, ListReply, ReadFault, StoreFault,
};

fn country(name: &str) -> Country {
    Country {
        id: 1,
        name: name.to_string(),
        capital: None,
        region: None,
        population: 1,
        currency_code: None,
        exchange_rate: None,
        estimated_gdp: None,
        flag_url: None,
        last_refreshed_at: "2018-01-26T18:30:09.453Z".to_string(),
    }
}

fn plain(message: &str) -> ApiError {
    ApiError { error: message.to_string(), details: None }
}

#[test]
fn lookup_replies() {
    let reply = get_country(Ok(Some(country("Nigeria"))));
    assert_eq!(reply.status_code(), 200);
    assert_eq!(reply, CountryReply::Found(country("Nigeria")));
    let reply = get_country(Ok(None));
    assert_eq!(reply.status_code(), 404);
    assert_eq!(reply, CountryReply::NotFound(plain("Country not found")));
    let reply = get_country(Err(StoreFault));
    assert_eq!(reply.status_code(), 500);
    assert_eq!(reply, CountryReply::Failed(plain("Internal server error")));
}

#[test]
fn delete_replies() {
    let reply = delete_country(Ok(true));
    assert_eq!(reply.status_code(), 204);
    assert_eq!(reply, DeleteReply::Deleted);
    let reply = delete_country(Ok(false));
    assert_eq!(reply.status_code(), 404);
    assert_eq!(reply, DeleteReply::NotFound(plain("Country not found")));
    let reply = delete_country(Err(StoreFault));
    assert_eq!(reply.status_code(), 500);
    assert_eq!(reply, DeleteReply::Failed(plain("Internal server error")));
}

#[test]
fn listing_replies() {
    let reply = get_countries(Ok(vec![country("A"), country("B")]));
    assert_eq!(reply.status_code(), 200);
    assert_eq!(reply, ListReply::Listed(vec![country("A"), country("B")]));
    let reply = get_countries(Err(StoreFault));
    assert_eq!(reply.status_code(), 500);
    assert_eq!(reply, ListReply::Failed(plain("Internal server error")));
}

#[test]
fn status_replies() {
    assert_eq!(
        get_status(Ok(2), Ok(Some("2018-01-26T18:30:09.453Z".to_string()))),
        StatusResponse {
            total_countries: 2,
            last_refreshed_at: Some("2018-01-26T18:30:09.453Z".to_string())
        }
    );
    assert_eq!(
        get_status(Ok(0), Ok(None)),
        StatusResponse { total_countries: 0, last_refreshed_at: None }
    );
    assert_eq!(
        get_status(Err(StoreFault), Err(StoreFault)),
        StatusResponse { total_countries: 0, last_refreshed_at: None }
    );
}

#[test]
fn image_replies() {
    let reply = get_summary_image(None);
    assert_eq!(reply.status_code(), 404);
    assert_eq!(reply, ImageReply::NotFound(plain("Summary image not found")));
    let reply = get_summary_image(Some(Ok(vec![137, 80, 78, 71])));
    assert_eq!(reply.status_code(), 200);
    assert_eq!(reply, ImageReply::Image(vec![137, 80, 78, 71]));
    let reply = get_summary_image(Some(Err(ReadFault)));
    assert_eq!(reply.status_code(), 500);
    assert_eq!(reply, ImageReply::Failed(plain("Failed to serve image")));
}

#[test]
fn refresh_replies() {
    assert!(matches!(refresh_countries(true, true), RefreshReply::Accepted(_)));
    assert_eq!(refresh_countries(true, true).status_code(), 200);
    assert_eq!(
        refresh_countries(true, false),
        RefreshReply::Unavailable(ApiError {
            error: "External data source unavailable".to_string(),
            details: Some("Could not fetch data from exchange rates API".to_string()),
        })
    );
    assert_eq!(
        refresh_countries(false, true),
        RefreshReply::Unavailable(ApiError {
            error: "External data source unavailable".to_string(),
            details: Some("Could not fetch data from restcountries API".to_string()),
        })
    );
    assert_eq!(refresh_countries(false, false).status_code(), 503);
}
