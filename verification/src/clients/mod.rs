//! Clients of outside data services, and the background task that copies
//! the USGS real-time feed into the store.

pub mod usgs;

use vstd::prelude::*;
use crate::db::{SqlPiece, insert_plan, plan_list_earthquakes};
use usgs::{Earthquake, ExtParameters, OrderingOptions, QueryFormats, Usgs, UrlComponent};

verus! {

/// How many earthquakes the background task stores per statement.
pub const UPDATER_BATCH_SIZE: usize = 1000;

/// The URL the background task polls: the GeoJSON feed of earthquake
/// events, newest first.
pub fn realtime_query_url(usgs: &Usgs) -> (url: String)
    ensures
        url@ == usgs.base_url() + "query?format=geojson&eventtype=earthquake&orderby=time"@,
{
    let mut params: Vec<ExtParameters> = Vec::new();
    params.push(ExtParameters::SetEarthquakeEvent());
    params.push(ExtParameters::OrderBy(OrderingOptions::Time));
    let url = usgs.query_url(&QueryFormats::GeoJSON, &params);
    proof {
        reveal_strlit("query?format=geojson&eventtype=earthquake&orderby=time");
        reveal_strlit("query?");
        reveal_strlit("format=geojson");
        reveal_strlit("&");
        reveal_strlit("eventtype=earthquake");
        reveal_strlit("orderby=");
        reveal_strlit("time");
        reveal_with_fuel(usgs::params_text, 3);
        assert(params@.drop_last().drop_last() =~= Seq::<ExtParameters>::empty());
        assert(url@ =~= usgs.base_url() + "query?format=geojson&eventtype=earthquake&orderby=time"@);
    }
    url
}

/// What the background task does with one poll of the feed.
#[derive(Debug, Clone, PartialEq, Eq)]
pub enum UpdaterAction {
    /// Run these statements, in order.
    Store(Vec<Vec<SqlPiece>>),
    /// Report that the poll failed.
    ReportFailure,
}

/// One round of the background task: earthquakes that were fetched are
/// stored in batches of `UPDATER_BATCH_SIZE`; a failed fetch is reported.
pub fn updater_step(fetched: Result<Vec<Earthquake>, ()>) -> (action: UpdaterAction)
    ensures
        match (fetched, action) {
            (Ok(quakes), UpdaterAction::Store(stmts)) =>
                stmts.deep_view() == insert_plan(quakes@, 1000),
            (Err(_), UpdaterAction::ReportFailure) => true,
            _ => false,
        },
{
    match fetched {
        Ok(quakes) => UpdaterAction::Store(plan_list_earthquakes(&quakes, UPDATER_BATCH_SIZE)),
        Err(_) => UpdaterAction::ReportFailure,
    }
}

} // verus!
