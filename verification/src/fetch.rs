//! Classification of the single fetch against the source service:
//! which HTTP statuses let the run proceed, and the request URL.
use vstd::prelude::*;
use vstd::string::StringExecFns;

verus! {

/// Base address of the source service's API.
pub const PB_ENDPOINT: &'static str = "https://api.pinboard.in/v1";

/// The request URL for the whole collection: the endpoint's
/// all-posts path with the caller's token and the JSON format
/// selector as query parameters.
pub fn posts_url(token: &str) -> (r: String)
    ensures
        r@ == PB_ENDPOINT@ + "/posts/all?auth_token="@ + token@ + "&format=json"@,
{
    let mut url = String::from_str(PB_ENDPOINT);
    url.append("/posts/all?auth_token=");
    url.append(token);
    url.append("&format=json");
    url
}

/// A run-aborting failure of the fetch stage. Any of these stops the
/// pipeline before a single record is transformed or written.
#[derive(Clone, Debug, PartialEq, Eq, Structural)]
pub enum FetchError {
    /// HTTP 500 from the source service: the API token is likely invalid.
    InvalidToken,
    /// Any other non-200 status, carrying the status code.
    UpstreamStatus(u16),
    /// The response body did not deserialize as the expected schema.
    ParseFailure,
}

/// Decides from the HTTP status code whether the fetched body may be
/// used. Exactly status 200 proceeds; 500 is the distinct
/// token-invalid error; every other status is an upstream error
/// carrying the code.
pub fn check_status(status: u16) -> (r: Result<(), FetchError>)
    ensures
        r is Ok <==> status == 200,
        status == 200 ==> r == Result::<(), FetchError>::Ok(()),
        status == 500 ==> r == Result::<(), FetchError>::Err(FetchError::InvalidToken),
        status != 200 && status != 500 ==> r == Result::<(), FetchError>::Err(
            FetchError::UpstreamStatus(status),
        ),
{
    if status == 200 {
        Ok(())
    } else if status == 500 {
        Err(FetchError::InvalidToken)
    } else {
        Err(FetchError::UpstreamStatus(status))
    }
}

} // verus!
