//! The search forms of the airport, navaid and fix lists: which filters a
//! search asks for, and the messages for the searches that are refused.
use vstd::prelude::*;

verus! {

/// Why a search was refused.
#[derive(Clone, Copy, PartialEq, Eq, Structural, Debug)]
pub enum SearchError {
    /// Only one of latitude and longitude was given.
    MissingCoordinate,
    /// The latitude could not be read.
    InvalidLatitude,
    /// The longitude could not be read.
    InvalidLongitude,
}

pub open spec fn search_error_message(e: SearchError) -> Seq<char> {
    match e {
        SearchError::MissingCoordinate => "Enter both a Latitude and Longitude for search."@,
        SearchError::InvalidLatitude => "Invalid Latitude for search."@,
        SearchError::InvalidLongitude => "Invalid Longitude for search."@,
    }
}

impl SearchError {
    /// The message shown for the refusal.
    pub fn message(&self) -> (r: &'static str)
        ensures
            r@ == search_error_message(*self),
    {
        match self {
            SearchError::MissingCoordinate => "Enter both a Latitude and Longitude for search.",
            SearchError::InvalidLatitude => "Invalid Latitude for search.",
            SearchError::InvalidLongitude => "Invalid Longitude for search.",
        }
    }
}

/// The filters a search combines.
#[derive(Clone, Copy, PartialEq, Eq, Structural, Debug)]
pub struct SearchRequest {
    /// Filter by name or identifier (the search term is not empty).
    pub by_name: bool,
    /// Filter by distance from the given latitude and longitude.
    pub by_position: bool,
}

/// What a search form asks for, given its term, latitude and longitude
/// entries: a name filter where the term is not empty; a position filter
/// where a latitude and a longitude are given; refused where only one of
/// them is.
pub fn search_request(term: &str, lat: &str, long: &str) -> (r: Result<SearchRequest, SearchError>)
    ensures
        (lat@.len() == 0) != (long@.len() == 0) ==> r == Err::<SearchRequest, SearchError>(
            SearchError::MissingCoordinate,
        ),
        (lat@.len() == 0) == (long@.len() == 0) ==> r == Ok::<SearchRequest, SearchError>(
            SearchRequest { by_name: term@.len() > 0, by_position: lat@.len() > 0 },
        ),
{
    let by_name = !term.is_empty();
    let mut by_position = false;
    if !lat.is_empty() || !long.is_empty() {
        if lat.is_empty() || long.is_empty() {
            return Err(SearchError::MissingCoordinate);
        } else {
            by_position = true;
        }
    }
    Ok(SearchRequest { by_name, by_position })
}

/// The list a search form belongs to.
#[derive(Clone, Copy, PartialEq, Eq, Structural, Debug)]
pub enum SearchList {
    Airports,
    Navaids,
    Fixes,
}

/// The refusal for a longitude that cannot be read: the airport list names
/// the longitude; the navaid and fix lists report it as an invalid latitude.
pub open spec fn longitude_refusal(list: SearchList) -> SearchError {
    match list {
        SearchList::Airports => SearchError::InvalidLongitude,
        SearchList::Navaids => SearchError::InvalidLatitude,
        SearchList::Fixes => SearchError::InvalidLatitude,
    }
}

/// The refusal, if any, of a position search, given whether its latitude
/// and its longitude could be read: the latitude is looked at first.
pub fn position_refusal(list: SearchList, latitude_read: bool, longitude_read: bool) -> (r: Option<
    SearchError,
>)
    ensures
        !latitude_read ==> r == Some(SearchError::InvalidLatitude),
        latitude_read && !longitude_read ==> r == Some(longitude_refusal(list)),
        latitude_read && longitude_read ==> r.is_none(),
{
    if !latitude_read {
        Some(SearchError::InvalidLatitude)
    } else if !longitude_read {
        match list {
            SearchList::Airports => Some(SearchError::InvalidLongitude),
            SearchList::Navaids => Some(SearchError::InvalidLatitude),
            SearchList::Fixes => Some(SearchError::InvalidLatitude),
        }
    } else {
        None
    }
}

} // verus!
