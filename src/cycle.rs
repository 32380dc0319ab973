use vstd::prelude::*;
use crate::auth::GoogleAuth;
use crate::history::{
    added_of_page, added_of_pages, pagination_complete, sync_initial, sync_run,
    unchanged_mailbox_gathers_nothing, HistoryResponse, MinimalMessage,
};
use crate::message::{
    batch_view, decimal_of, enrich_batch_spec, events_view, DetailReply, EnrichError, EventView,
    UsableMessageDetails,
};

verus! {

/// The mail API client state: the credential that every call goes out with.
#[derive(Debug)]
pub struct MailClient {
    pub google_client: GoogleAuth,
}

impl MailClient {
    pub fn new(google_client: GoogleAuth) -> (r: MailClient)
        ensures
            r.google_client == google_client,
    {
        MailClient { google_client }
    }
}

/// The watermark after a batch of events: the history id of its last event,
/// or the current watermark when the batch is empty.
pub open spec fn watermark_after(current: Seq<char>, batch: Seq<EventView>) -> Seq<char> {
    if batch.len() == 0 {
        current
    } else {
        batch.last().history_id
    }
}

/// The watermark after one sync cycle: it moves only when enrichment succeeded.
pub open spec fn cycle_watermark(current: Seq<char>, outcome: Result<Seq<EventView>, EnrichError>) -> Seq<char> {
    match outcome {
        Ok(batch) => watermark_after(current, batch),
        Err(_) => current,
    }
}

/// The watermark to resume from once `batch` was enriched and emitted.
pub fn next_watermark(current: &String, batch: &Vec<UsableMessageDetails>) -> (r: String)
    ensures
        r@ == watermark_after(current@, events_view(batch@)),
{
    if batch.len() == 0 {
        current.clone()
    } else {
        batch[batch.len() - 1].history_id.clone()
    }
}

/// The watermark to resume from after a cycle whose enrichment gave `outcome`.
pub fn advance_watermark(current: &String, outcome: &Result<Vec<UsableMessageDetails>, EnrichError>) -> (r: String)
    ensures
        r@ == cycle_watermark(current@, batch_view(*outcome)),
{
    match outcome {
        Ok(batch) => next_watermark(current, batch),
        Err(_) => current.clone(),
    }
}

/// Idempotence: when the mailbox did not change since the watermark, a
/// sync gathers no reference, so no event comes of it and the watermark stays.
pub proof fn unchanged_mailbox_yields_no_event(
    w: Seq<char>,
    pages: Seq<HistoryResponse>,
    cat: Seq<(Seq<char>, Seq<char>)>,
)
    requires
        forall|i: int| 0 <= i < pages.len() ==> added_of_page(#[trigger] pages[i]) =~= Seq::<
            MinimalMessage,
        >::empty(),
    ensures
        sync_run(sync_initial(w), pages).refs.len() == 0,
        forall|replies: Seq<DetailReply>|
            replies.len() == sync_run(sync_initial(w), pages).refs.len() ==> enrich_batch_spec(
                replies,
                cat,
            ) == Ok::<Seq<EventView>, EnrichError>(Seq::empty()) && cycle_watermark(
                w,
                #[trigger] enrich_batch_spec(replies, cat),
            ) == w,
{
    unchanged_mailbox_gathers_nothing(w, pages);
}

/// Monotonicity: after a non-empty batch the watermark is the history id of
/// its last event; when every event's history id is at least the current
/// watermark, as numbers, so is the new watermark.
pub proof fn watermark_monotone(current: Seq<char>, batch: Seq<EventView>)
    requires
        batch.len() > 0,
        decimal_of(current).is_some(),
        forall|i: int|
            0 <= i < batch.len() ==> (#[trigger] decimal_of(batch[i].history_id)).is_some()
                && decimal_of(batch[i].history_id).unwrap() >= decimal_of(current).unwrap(),
    ensures
        watermark_after(current, batch) == batch.last().history_id,
        decimal_of(watermark_after(current, batch)).unwrap() >= decimal_of(current).unwrap(),
{
    assert(decimal_of(batch[batch.len() - 1].history_id).is_some());
}

/// At-least-once: when enrichment fails part-way, the watermark does not
/// move, and a sync run again from it over the same history gathers every
/// added reference again, in provider order.
pub proof fn at_least_once(
    w: Seq<char>,
    pages: Seq<HistoryResponse>,
    replies: Seq<DetailReply>,
    cat: Seq<(Seq<char>, Seq<char>)>,
)
    requires
        pages.len() > 0,
        forall|i: int| 0 <= i < pages.len() - 1 ==> (#[trigger] pages[i]).next_page_token.is_some(),
        pages.last().next_page_token.is_none(),
        enrich_batch_spec(replies, cat) is Err,
    ensures
        cycle_watermark(w, enrich_batch_spec(replies, cat)) == w,
        sync_run(sync_initial(cycle_watermark(w, enrich_batch_spec(replies, cat))), pages).refs
            == added_of_pages(pages),
{
    pagination_complete(w, pages);
}

} // verus!
