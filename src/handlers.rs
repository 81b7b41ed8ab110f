use vstd::prelude::*;
use crate::models::{RepositoryListResponse, RepositoryRecord, Timestamp};
use crate::store::{RepositoryDb, StoreError, page_offset_of, records_view, window};

verus! {

/// The query parameters of the listing endpoint.
#[derive(Debug, Clone, Copy, PartialEq, Eq)]
pub struct ListParams {
    pub page: i32,
    pub per_page: i32,
}

/// The page asked for when none is given.
pub fn default_page() -> (r: i32)
    ensures
        r == 1,
{
    1
}

/// The page size asked for when none is given.
pub fn default_per_page() -> (r: i32)
    ensures
        r == 20,
{
    20
}

impl Default for ListParams {
    fn default() -> (r: ListParams)
        ensures
            r.page == 1,
            r.per_page == 20,
    {
        ListParams { page: default_page(), per_page: default_per_page() }
    }
}

/// A failed request, seen by the client as a status code alone.
#[derive(Debug, Clone, Copy, PartialEq, Eq)]
pub enum ApiError {
    InternalServerError,
}

impl ApiError {
    /// The HTTP status that the client sees.
    pub fn status(&self) -> (r: u16)
        ensures
            r == 500,
    {
        match self {
            ApiError::InternalServerError => 500,
        }
    }
}

/// Every storage failure reaches the client as the same server error.
pub fn api_error(e: StoreError) -> (r: ApiError)
    ensures
        r == ApiError::InternalServerError,
{
    ApiError::InternalServerError
}

/// The listing response for a page of records and a row count; a count that
/// the store did not give reads as zero.
pub fn list_response(repositories: Vec<RepositoryRecord>, total: Option<i64>, params: &ListParams) -> (r: RepositoryListResponse)
    ensures
        r.repositories@ == repositories@,
        r.total == match total {
            Some(n) => n,
            None => 0,
        },
        r.page == params.page,
        r.per_page == params.per_page,
{
    let total: i64 = match total {
        Some(n) => n,
        None => 0,
    };
    RepositoryListResponse { repositories, total, page: params.page, per_page: params.per_page }
}

/// The listing endpoint over a table: the page that `params` asks for in
/// listing order, the table's row count and the window asked for, or a server
/// error where the window has a negative size or offset.
pub fn list_repositories(table: &RepositoryDb, params: &ListParams) -> (r: Result<RepositoryListResponse, ApiError>)
    requires
        table.wf(),
    ensures
        r is Err <==> (params.per_page < 0 || page_offset_of(params.page as int, params.per_page as int) < 0),
        r is Err ==> r == Err::<RepositoryListResponse, ApiError>(ApiError::InternalServerError),
        r is Ok ==> ({
            let resp = r->Ok_0;
            &&& records_view(resp.repositories@) == window(
                table.listing(),
                page_offset_of(params.page as int, params.per_page as int),
                params.per_page as int,
            )
            &&& resp.total == table@.rows.len()
            &&& resp.page == params.page
            &&& resp.per_page == params.per_page
        }),
{
    match table.list(params.page, params.per_page) {
        Ok((repositories, total)) => Ok(list_response(repositories, Some(total), params)),
        Err(e) => Err(api_error(e)),
    }
}

/// The body of the health endpoint.
#[derive(Debug, Clone)]
pub struct HealthReport {
    pub status: String,
    pub timestamp: Timestamp,
}

/// The health report at time `now`: always healthy while the process runs.
pub fn health_check(now: Timestamp) -> (r: HealthReport)
    ensures
        r.status@ == "healthy"@,
        r.timestamp == now,
{
    HealthReport { status: String::from_str("healthy"), timestamp: now }
}

} // verus!
