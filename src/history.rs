use vstd::prelude::*;
use vstd::string::*;
use crate::views::opt_chars;

verus! {

/// The address of the mailbox history listing.
pub const HISTORY_ENDPOINT: &'static str = "https://gmail.googleapis.com/gmail/v1/users/me/history";

/// A lightweight pointer to a message, as listings return it.
#[derive(Debug, Clone)]
pub struct MinimalMessage {
    pub id: String,
    pub thread_id: String,
}

impl MinimalMessage {
    /// A field-by-field copy.
    pub fn copied(&self) -> (r: MinimalMessage)
        ensures
            r == *self,
    {
        MinimalMessage { id: self.id.clone(), thread_id: self.thread_id.clone() }
    }
}

/// One page of the message listing.
#[derive(Debug)]
pub struct MessagesList {
    pub messages: Vec<MinimalMessage>,
    pub next_page_token: Option<String>,
    pub result_size_estimate: u64,
}

impl MessagesList {
    /// The message references of the listing, in listing order.
    pub fn into_messages(self) -> (r: Vec<MinimalMessage>)
        ensures
            r@ == self.messages@,
    {
        self.messages
    }
}

/// A "message added" record of a history entry.
#[derive(Debug)]
pub struct MessageAdded {
    pub message: MinimalMessage,
}

/// One entry of the mailbox change stream.
#[derive(Debug)]
pub struct History {
    pub id: String,
    pub messages_added: Option<Vec<MessageAdded>>,
}

/// One page of the history listing.
#[derive(Debug)]
pub struct HistoryResponse {
    pub history: Option<Vec<History>>,
    pub next_page_token: Option<String>,
    pub history_id: String,
}

/// The references that one history entry adds, in order.
pub open spec fn added_of_entry(h: History) -> Seq<MinimalMessage> {
    match h.messages_added {
        Some(v) => v@.map_values(|a: MessageAdded| a.message),
        None => Seq::empty(),
    }
}

/// The references that a run of history entries adds, in order.
pub open spec fn added_of_entries(hs: Seq<History>) -> Seq<MinimalMessage>
    decreases hs.len(),
{
    if hs.len() == 0 {
        Seq::empty()
    } else {
        added_of_entries(hs.drop_last()) + added_of_entry(hs.last())
    }
}

/// The references that one history page adds, in provider order.
pub open spec fn added_of_page(p: HistoryResponse) -> Seq<MinimalMessage> {
    match p.history {
        Some(v) => added_of_entries(v@),
        None => Seq::empty(),
    }
}

/// The references that a run of pages adds, in provider order.
pub open spec fn added_of_pages(pages: Seq<HistoryResponse>) -> Seq<MinimalMessage>
    decreases pages.len(),
{
    if pages.len() == 0 {
        Seq::empty()
    } else {
        added_of_pages(pages.drop_last()) + added_of_page(pages.last())
    }
}

/// The abstract state of one incremental sync.
pub struct SyncModel {
    pub start: Seq<char>,
    pub page_token: Option<Seq<char>>,
    pub refs: Seq<MinimalMessage>,
    pub done: bool,
}

/// A sync that has not fetched anything yet.
pub open spec fn sync_initial(start: Seq<char>) -> SyncModel {
    SyncModel { start, page_token: None, refs: Seq::empty(), done: false }
}

/// The effect of one page on the sync: its added references are appended,
/// and the sync goes on with the page's next-page token, or ends without one.
/// A finished sync takes no more pages.
pub open spec fn sync_step(s: SyncModel, page: HistoryResponse) -> SyncModel {
    if s.done {
        s
    } else {
        SyncModel {
            start: s.start,
            page_token: opt_chars(page.next_page_token),
            refs: s.refs + added_of_page(page),
            done: page.next_page_token.is_none(),
        }
    }
}

/// The sync after the pages, in order.
pub open spec fn sync_run(s: SyncModel, pages: Seq<HistoryResponse>) -> SyncModel
    decreases pages.len(),
{
    if pages.len() == 0 {
        s
    } else {
        sync_step(sync_run(s, pages.drop_last()), pages.last())
    }
}

/// The address of the history page asked for with this watermark and page token.
pub open spec fn history_url(start: Seq<char>, page_token: Option<Seq<char>>) -> Seq<char> {
    HISTORY_ENDPOINT@ + "?startHistoryId="@ + start + match page_token {
        Some(t) => "&pageToken="@ + t,
        None => Seq::empty(),
    }
}

/// A cursor-based fetch of the history since a watermark, page by page.
/// The caller fetches the page that `next_url` names and hands it to
/// `accept_page`, until `next_url` gives nothing.
#[derive(Debug)]
pub struct HistorySync {
    start: String,
    page_token: Option<String>,
    accumulated: Vec<MinimalMessage>,
    done: bool,
}

impl HistorySync {
    pub closed spec fn model(&self) -> SyncModel {
        SyncModel {
            start: self.start@,
            page_token: opt_chars(self.page_token),
            refs: self.accumulated@,
            done: self.done,
        }
    }

    /// A sync since the watermark `starting_from`.
    pub fn new(starting_from: String) -> (r: HistorySync)
        ensures
            r.model() == sync_initial(starting_from@),
    {
        HistorySync {
            start: starting_from,
            page_token: None,
            accumulated: Vec::new(),
            done: false,
        }
    }

    /// The address of the next page to fetch, or nothing once the last page was taken.
    pub fn next_url(&self) -> (r: Option<String>)
        ensures
            self.model().done ==> r.is_none(),
            !self.model().done ==> r.is_some() && r.unwrap()@ == history_url(
                self.model().start,
                self.model().page_token,
            ),
    {
        if self.done {
            return None;
        }
        let mut url = String::from_str(HISTORY_ENDPOINT);
        url.append("?startHistoryId=");
        url.append(self.start.as_str());
        match &self.page_token {
            Some(t) => {
                url.append("&pageToken=");
                url.append(t.as_str());
            },
            None => {},
        }
        Some(url)
    }

    /// Takes in the next page of the history.
    pub fn accept_page(&mut self, page: HistoryResponse)
        ensures
            final(self).model() == sync_step(old(self).model(), page),
    {
        if self.done {
            return;
        }
        let ghost old_refs = self.accumulated@;
        match &page.history {
            Some(entries) => {
                let mut i: usize = 0;
                while i < entries.len()
                    invariant
                        i <= entries@.len(),
                        self.start == old(self).start,
                        self.accumulated@ == old_refs + added_of_entries(entries@.take(i as int)),
                    decreases entries@.len() - i,
                {
                    proof {
                        assert(entries@.take(i as int + 1).drop_last() =~= entries@.take(i as int));
                    }
                    match &entries[i].messages_added {
                        Some(added) => {
                            let mut j: usize = 0;
                            while j < added.len()
                                invariant
                                    j <= added@.len(),
                                    i < entries@.len(),
                                    self.start == old(self).start,
                                    entries@[i as int].messages_added == Some(*added),
                                    self.accumulated@ == old_refs + added_of_entries(
                                        entries@.take(i as int),
                                    ) + added@.take(j as int).map_values(
                                        |a: MessageAdded| a.message,
                                    ),
                                decreases added@.len() - j,
                            {
                                let m = added[j].message.copied();
                                self.accumulated.push(m);
                                proof {
                                    assert(added@.take(j as int + 1).map_values(
                                        |a: MessageAdded| a.message,
                                    ) =~= added@.take(j as int).map_values(
                                        |a: MessageAdded| a.message,
                                    ).push(m));
                                }
                                j = j + 1;
                            }
                            proof {
                                assert(added@.take(j as int) =~= added@);
                            }
                        },
                        None => {},
                    }
                    proof {
                        assert(added_of_entries(entries@.take(i as int + 1)) == added_of_entries(
                            entries@.take(i as int),
                        ) + added_of_entry(entries@[i as int]));
                    }
                    i = i + 1;
                }
                proof {
                    assert(entries@.take(i as int) =~= entries@);
                }
            },
            None => {
                assert(old_refs + Seq::<MinimalMessage>::empty() =~= old_refs);
            },
        }
        self.done = page.next_page_token.is_none();
        self.page_token = page.next_page_token;
    }

    /// Whether the last page was taken.
    pub fn is_done(&self) -> (r: bool)
        ensures
            r == self.model().done,
    {
        self.done
    }

    /// The references gathered so far, in provider order.
    pub fn into_messages(self) -> (r: Vec<MinimalMessage>)
        ensures
            r@ == self.model().refs,
    {
        self.accumulated
    }
}

proof fn lemma_run_prefix(start: Seq<char>, pages: Seq<HistoryResponse>, k: int)
    requires
        0 <= k <= pages.len(),
        forall|i: int| 0 <= i < k ==> (#[trigger] pages[i]).next_page_token.is_some(),
    ensures
        sync_run(sync_initial(start), pages.take(k)).refs == added_of_pages(pages.take(k)),
        !sync_run(sync_initial(start), pages.take(k)).done,
        sync_run(sync_initial(start), pages.take(k)).start == start,
    decreases k,
{
    if k == 0 {
        assert(pages.take(0) =~= Seq::<HistoryResponse>::empty());
    } else {
        lemma_run_prefix(start, pages, k - 1);
        assert(pages.take(k).drop_last() =~= pages.take(k - 1));
        assert(pages.take(k).last() == pages[k - 1]);
    }
}

/// Pagination completeness: when every page but the last carries a
/// next-page token, the sync asks for every page, takes in the added
/// references of all of them in provider order, and ends with the last one.
pub proof fn pagination_complete(start: Seq<char>, pages: Seq<HistoryResponse>)
    requires
        pages.len() > 0,
        forall|i: int| 0 <= i < pages.len() - 1 ==> (#[trigger] pages[i]).next_page_token.is_some(),
        pages.last().next_page_token.is_none(),
    ensures
        sync_run(sync_initial(start), pages).refs == added_of_pages(pages),
        sync_run(sync_initial(start), pages).done,
        forall|k: int|
            0 <= k < pages.len() ==> !(#[trigger] sync_run(sync_initial(start), pages.take(k))).done,
{
    let n = pages.len() - 1;
    lemma_run_prefix(start, pages, n);
    assert(pages.drop_last() =~= pages.take(n));
    assert forall|k: int| 0 <= k < pages.len() implies !(#[trigger] sync_run(
        sync_initial(start),
        pages.take(k),
    )).done by {
        lemma_run_prefix(start, pages, k);
    }
}

/// When no page holds an added message (the mailbox did not change since
/// the watermark), the sync gathers no reference at all.
pub proof fn unchanged_mailbox_gathers_nothing(start: Seq<char>, pages: Seq<HistoryResponse>)
    requires
        forall|i: int| 0 <= i < pages.len() ==> added_of_page(#[trigger] pages[i]) =~= Seq::<
            MinimalMessage,
        >::empty(),
    ensures
        sync_run(sync_initial(start), pages).refs == Seq::<MinimalMessage>::empty(),
    decreases pages.len(),
{
    if pages.len() > 0 {
        let prev = pages.drop_last();
        assert forall|i: int| 0 <= i < prev.len() implies added_of_page(
            #[trigger] prev[i],
        ) =~= Seq::<MinimalMessage>::empty() by {
            assert(prev[i] == pages[i]);
        }
        unchanged_mailbox_gathers_nothing(start, prev);
        assert(added_of_page(pages[pages.len() - 1]) =~= Seq::<MinimalMessage>::empty());
        assert(Seq::<MinimalMessage>::empty() + Seq::<MinimalMessage>::empty() =~= Seq::<
            MinimalMessage,
        >::empty());
    }
}

} // verus!
