//! The ordered output document: one record per successfully processed
//! route, appended strictly in processing order.

use crate::response::{
    spec_record_content, parsed_message_content, record_content, extract_message_content,
    ResponseError,
};
use vstd::prelude::*;

verus! {

/// The record kept for one route: its path, its method and the cleaned
/// reply text.
#[derive(Debug)]
pub struct ResultRecord {
    pub route: String,
    pub method: String,
    pub message_content: String,
}

/// The mathematical value of a [`ResultRecord`].
pub struct RecordView {
    pub route: Seq<char>,
    pub method: Seq<char>,
    pub message_content: Seq<char>,
}

impl View for ResultRecord {
    type V = RecordView;

    open spec fn view(&self) -> RecordView {
        RecordView {
            route: self.route@,
            method: self.method@,
            message_content: self.message_content@,
        }
    }
}

/// The views of a record vector, in order.
pub open spec fn records_view(records: Seq<ResultRecord>) -> Seq<RecordView> {
    records.map_values(|r: ResultRecord| r@)
}

/// The record built for one route from its reply's extracted content.
pub open spec fn spec_record(
    path: Seq<char>,
    method: Seq<char>,
    content: Option<Seq<char>>,
) -> RecordView {
    RecordView { route: path, method: method, message_content: spec_record_content(content) }
}

/// Reads one reply body and appends the route's record to the output. On a
/// body that is not valid JSON nothing is appended and the error is
/// returned; otherwise exactly the new record is appended after the
/// records already there.
pub fn accumulate_reply(
    route_path: &str,
    route_method: &str,
    reply_text: &str,
    output: &mut Vec<ResultRecord>,
) -> (r: Result<(), ResponseError>)
    ensures
        match r {
            Ok(_) => parsed_message_content(reply_text@) is Some && records_view(final(output)@)
                == records_view(old(output)@).push(
                spec_record(
                    route_path@,
                    route_method@,
                    parsed_message_content(reply_text@).unwrap(),
                ),
            ),
            Err(e) => parsed_message_content(reply_text@) is None && final(output)@ == old(
                output,
            )@ && e == ResponseError::InvalidJson,
        },
{
    let content = match extract_message_content(reply_text) {
        Ok(c) => c,
        Err(e) => {
            return Err(e);
        },
    };
    let cleaned = record_content(content);
    let record = ResultRecord {
        route: route_path.to_owned(),
        method: route_method.to_owned(),
        message_content: cleaned,
    };
    output.push(record);
    assert(records_view(output@) =~= records_view(old(output)@).push(
        spec_record(route_path@, route_method@, parsed_message_content(reply_text@).unwrap()),
    ));
    Ok(())
}

/// The output document for a route list whose replies all carried some
/// extracted content outcome, built strictly in order: the run's model at
/// the specification level.
pub open spec fn spec_run(
    routes: Seq<crate::config::RouteView>,
    contents: Seq<Option<Seq<char>>>,
) -> Seq<RecordView>
    decreases routes.len(),
{
    if routes.len() == 0 {
        Seq::<RecordView>::empty()
    } else {
        spec_run(routes.drop_last(), contents.drop_last()).push(
            spec_record(routes.last().path, routes.last().method, contents.last()),
        )
    }
}

/// A route list of length N processed without error yields exactly N
/// records, in route order: the i-th record is built from the i-th route
/// and its reply.
pub proof fn lemma_one_record_per_route(
    routes: Seq<crate::config::RouteView>,
    contents: Seq<Option<Seq<char>>>,
)
    requires
        routes.len() == contents.len(),
    ensures
        spec_run(routes, contents).len() == routes.len(),
        forall|i: int|
            0 <= i < routes.len() ==> #[trigger] spec_run(routes, contents)[i] == spec_record(
                routes[i].path,
                routes[i].method,
                contents[i],
            ),
    decreases routes.len(),
{
    if routes.len() > 0 {
        lemma_one_record_per_route(routes.drop_last(), contents.drop_last());
        assert(forall|i: int|
            0 <= i < routes.len() - 1 ==> routes.drop_last()[i] == routes[i]
                && contents.drop_last()[i] == contents[i]);
    }
}

} // verus!
