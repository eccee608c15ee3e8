//! The replies of the service's operations, decided from what the store, the
//! sources and the file system gave.

use vstd::prelude::*;
use crate::models::{country_views, opt_text, ApiError, Country, StatusResponse};
use crate::refresh::{
    precheck, precheck_outcome, refresh_reply, source_details, RefreshError, RefreshReply,
    STATUS_INTERNAL_SERVER_ERROR, STATUS_NOT_FOUND, STATUS_NO_CONTENT, STATUS_OK,
};

verus! {

/// The store could not answer.
#[derive(Clone, Copy, Debug, PartialEq, Eq, Structural)]
pub struct StoreFault;

/// The report's file could not be read.
#[derive(Clone, Copy, Debug, PartialEq, Eq, Structural)]
pub struct ReadFault;

/// Whether `error` is the plain error reply with the message `message`.
pub open spec fn is_plain_error(error: ApiError, message: Seq<char>) -> bool {
    error.error@ == message && error.details.is_none()
}

/// The reply to a listing of countries.
#[derive(Clone, Debug, PartialEq, Eq)]
pub enum ListReply {
    /// Status 200, with the countries.
    Listed(Vec<Country>),
    /// Status 500.
    Failed(ApiError),
}

/// The reply to a lookup of one country.
#[derive(Clone, Debug, PartialEq, Eq)]
pub enum CountryReply {
    /// Status 200, with the country.
    Found(Country),
    /// Status 404.
    NotFound(ApiError),
    /// Status 500.
    Failed(ApiError),
}

/// The reply to the deletion of one country.
#[derive(Clone, Debug, PartialEq, Eq)]
pub enum DeleteReply {
    /// Status 204, with no body.
    Deleted,
    /// Status 404.
    NotFound(ApiError),
    /// Status 500.
    Failed(ApiError),
}

/// The reply to a request for the report.
#[derive(Clone, Debug, PartialEq, Eq)]
pub enum ImageReply {
    /// Status 200, with the bytes of the PNG file.
    Image(Vec<u8>),
    /// Status 404: no report was generated yet.
    NotFound(ApiError),
    /// Status 500.
    Failed(ApiError),
}

impl ListReply {
    /// The status code of the reply.
    pub fn status_code(&self) -> (code: u16)
        ensures
            code == (if self is Listed {
                STATUS_OK
            } else {
                STATUS_INTERNAL_SERVER_ERROR
            }),
    {
        match self {
            ListReply::Listed(_) => STATUS_OK,
            ListReply::Failed(_) => STATUS_INTERNAL_SERVER_ERROR,
        }
    }
}

impl CountryReply {
    /// The status code of the reply.
    pub fn status_code(&self) -> (code: u16)
        ensures
            code == (match self {
                CountryReply::Found(_) => STATUS_OK,
                CountryReply::NotFound(_) => STATUS_NOT_FOUND,
                CountryReply::Failed(_) => STATUS_INTERNAL_SERVER_ERROR,
            }),
    {
        match self {
            CountryReply::Found(_) => STATUS_OK,
            CountryReply::NotFound(_) => STATUS_NOT_FOUND,
            CountryReply::Failed(_) => STATUS_INTERNAL_SERVER_ERROR,
        }
    }
}

impl DeleteReply {
    /// The status code of the reply.
    pub fn status_code(&self) -> (code: u16)
        ensures
            code == (match self {
                DeleteReply::Deleted => STATUS_NO_CONTENT,
                DeleteReply::NotFound(_) => STATUS_NOT_FOUND,
                DeleteReply::Failed(_) => STATUS_INTERNAL_SERVER_ERROR,
            }),
    {
        match self {
            DeleteReply::Deleted => STATUS_NO_CONTENT,
            DeleteReply::NotFound(_) => STATUS_NOT_FOUND,
            DeleteReply::Failed(_) => STATUS_INTERNAL_SERVER_ERROR,
        }
    }
}

impl ImageReply {
    /// The status code of the reply.
    pub fn status_code(&self) -> (code: u16)
        ensures
            code == (match self {
                ImageReply::Image(_) => STATUS_OK,
                ImageReply::NotFound(_) => STATUS_NOT_FOUND,
                ImageReply::Failed(_) => STATUS_INTERNAL_SERVER_ERROR,
            }),
    {
        match self {
            ImageReply::Image(_) => STATUS_OK,
            ImageReply::NotFound(_) => STATUS_NOT_FOUND,
            ImageReply::Failed(_) => STATUS_INTERNAL_SERVER_ERROR,
        }
    }
}

/// The reply to the trigger of a refresh whose probes answered as given:
/// accepted when both sources answered, else unavailable, with the first
/// failed source named.
pub fn refresh_countries(countries_ok: bool, rates_ok: bool) -> (reply: RefreshReply)
    ensures
        match precheck_outcome(countries_ok, rates_ok) {
            Ok(()) => reply matches RefreshReply::Accepted(body) && body.message@
                == "Refresh started in background"@,
            Err(RefreshError::SourceUnavailable(source)) => reply matches RefreshReply::Unavailable(
                body,
            ) && body.error@ == "External data source unavailable"@ && opt_text(body.details)
                == Some(source_details(source)),
            Err(_) => false,
        },
        (reply is Accepted) == (countries_ok && rates_ok),
{
    refresh_reply(precheck(countries_ok, rates_ok))
}

/// The reply to a listing: the countries as the store listed them, or an
/// internal error where the store failed.
pub fn get_countries(listing: Result<Vec<Country>, StoreFault>) -> (reply: ListReply)
    ensures
        match listing {
            Ok(countries) => reply matches ListReply::Listed(body) && country_views(body@)
                == country_views(countries@),
            Err(_) => reply matches ListReply::Failed(error) && is_plain_error(
                error,
                "Internal server error"@,
            ),
        },
{
    match listing {
        Ok(countries) => ListReply::Listed(countries),
        Err(_) => ListReply::Failed(ApiError::new(String::from_str("Internal server error"))),
    }
}

/// The reply to a lookup: the country where the store found one, "not
/// found" where it found none, an internal error where it failed.
pub fn get_country(found: Result<Option<Country>, StoreFault>) -> (reply: CountryReply)
    ensures
        match found {
            Ok(Some(country)) => reply matches CountryReply::Found(body) && body@ == country@,
            Ok(None) => reply matches CountryReply::NotFound(error) && is_plain_error(
                error,
                "Country not found"@,
            ),
            Err(_) => reply matches CountryReply::Failed(error) && is_plain_error(
                error,
                "Internal server error"@,
            ),
        },
{
    match found {
        Ok(Some(country)) => CountryReply::Found(country),
        Ok(None) => CountryReply::NotFound(ApiError::new(String::from_str("Country not found"))),
        Err(_) => CountryReply::Failed(ApiError::new(String::from_str("Internal server error"))),
    }
}

/// The reply to a deletion: "no content" where the store deleted a country,
/// "not found" where there was none, an internal error where it failed.
pub fn delete_country(deleted: Result<bool, StoreFault>) -> (reply: DeleteReply)
    ensures
        match deleted {
            Ok(true) => reply is Deleted,
            Ok(false) => reply matches DeleteReply::NotFound(error) && is_plain_error(
                error,
                "Country not found"@,
            ),
            Err(_) => reply matches DeleteReply::Failed(error) && is_plain_error(
                error,
                "Internal server error"@,
            ),
        },
{
    match deleted {
        Ok(true) => DeleteReply::Deleted,
        Ok(false) => DeleteReply::NotFound(ApiError::new(String::from_str("Country not found"))),
        Err(_) => DeleteReply::Failed(ApiError::new(String::from_str("Internal server error"))),
    }
}

/// The status of the service: the number of countries, zero where the store
/// could not count, and the time of the last refresh, none where there was
/// none or the store could not say.
pub fn get_status(
    count: Result<i64, StoreFault>,
    last_refresh: Result<Option<String>, StoreFault>,
) -> (status: StatusResponse)
    ensures
        status.total_countries == (match count {
            Ok(n) => n,
            Err(_) => 0,
        }),
        opt_text(status.last_refreshed_at) == (match last_refresh {
            Ok(stamp) => opt_text(stamp),
            Err(_) => None,
        }),
{
    let total_countries = match count {
        Ok(n) => n,
        Err(_) => 0,
    };
    let last_refreshed_at = match last_refresh {
        Ok(stamp) => stamp,
        Err(_) => None,
    };
    StatusResponse { total_countries, last_refreshed_at }
}

/// The reply to a request for the report. `artifact` is none where the
/// file is not there, which is no error: no report was generated yet. Else
/// it holds the file's bytes, or the fault of reading them.
pub fn get_summary_image(artifact: Option<Result<Vec<u8>, ReadFault>>) -> (reply: ImageReply)
    ensures
        match artifact {
            None => reply matches ImageReply::NotFound(error) && is_plain_error(
                error,
                "Summary image not found"@,
            ),
            Some(Ok(bytes)) => reply matches ImageReply::Image(body) && body@ == bytes@,
            Some(Err(_)) => reply matches ImageReply::Failed(error) && is_plain_error(
                error,
                "Failed to serve image"@,
            ),
        },
{
    match artifact {
        None => ImageReply::NotFound(ApiError::new(String::from_str("Summary image not found"))),
        Some(Ok(bytes)) => ImageReply::Image(bytes),
        Some(Err(_)) => ImageReply::Failed(
            ApiError::new(String::from_str("Failed to serve image")),
        ),
    }
}

} // verus!
