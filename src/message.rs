use vstd::prelude::*;
use vstd::string::*;
use crate::address::{
    addrparse_of, first_address_of, first_domain_of, parse_address_list, AddrView, MailAddrList,
};
use crate::views::{opt_chars, pairs_view};

verus! {

/// Why a message could not be turned into an event.
#[derive(Debug, Clone, Copy, PartialEq, Eq, Structural)]
pub enum EnrichError {
    /// A `From` or `To` header is not a well-formed address list.
    AddressParse,
    /// The millisecond timestamp is not a number, or out of the calendar's range.
    TimestampParse,
    /// The detail payload lacks a field it must carry.
    MalformedPayload,
}

/// One header of a message.
#[derive(Debug)]
pub struct MessageHeader {
    pub name: String,
    pub value: String,
}

/// The top part of a message, with its headers.
#[derive(Debug)]
pub struct MessagePart {
    pub part_id: String,
    pub mime_type: String,
    pub filename: String,
    pub headers: Vec<MessageHeader>,
}

/// The metadata of one message, as the detail endpoint gives it.
#[derive(Debug)]
pub struct MessageDetails {
    pub id: String,
    pub thread_id: String,
    pub label_ids: Vec<String>,
    pub snippet: String,
    pub history_id: String,
    pub internal_date: String,
    pub payload: MessagePart,
    pub size_estimate: u64,
}

/// A reply of the detail endpoint: the message, or word that it is gone.
#[derive(Debug)]
pub enum DetailReply {
    NotFound,
    Found(MessageDetails),
}

/// A label as the label listing gives it.
#[derive(Debug)]
pub struct Label {
    pub id: String,
    pub name: String,
}

/// The mapping from label id to label name, loaded once per run.
#[derive(Debug)]
pub struct LabelCatalog {
    entries: Vec<(String, String)>,
}

/// The name of a label id in a catalog: the name of the latest entry for
/// that id, or the id itself when there is none.
pub open spec fn resolve_label(cat: Seq<(Seq<char>, Seq<char>)>, id: Seq<char>) -> Seq<char>
    decreases cat.len(),
{
    if cat.len() == 0 {
        id
    } else if cat.last().0 == id {
        cat.last().1
    } else {
        resolve_label(cat.drop_last(), id)
    }
}

impl View for LabelCatalog {
    type V = Seq<(Seq<char>, Seq<char>)>;

    closed spec fn view(&self) -> Seq<(Seq<char>, Seq<char>)> {
        pairs_view(self.entries@)
    }
}

impl LabelCatalog {
    /// An empty catalog.
    pub fn new() -> (r: LabelCatalog)
        ensures
            r@ == Seq::<(Seq<char>, Seq<char>)>::empty(),
    {
        LabelCatalog { entries: Vec::new() }
    }

    /// Records a label; a later record of the same id wins.
    pub fn insert(&mut self, id: String, name: String)
        ensures
            final(self)@ == old(self)@.push((id@, name@)),
    {
        let ghost old_entries = self.entries@;
        self.entries.push((id, name));
        proof {
            assert(pairs_view(self.entries@) =~= pairs_view(old_entries).push((id@, name@)));
        }
    }

    /// The catalog of a label listing, in listing order.
    pub fn from_labels(labels: Vec<Label>) -> (r: LabelCatalog)
        ensures
            r@ == labels@.map_values(|l: Label| (l.id@, l.name@)),
    {
        let mut cat = LabelCatalog::new();
        let mut i: usize = 0;
        while i < labels.len()
            invariant
                i <= labels@.len(),
                cat@ == labels@.take(i as int).map_values(|l: Label| (l.id@, l.name@)),
            decreases labels@.len() - i,
        {
            cat.insert(labels[i].id.clone(), labels[i].name.clone());
            proof {
                assert(labels@.take(i as int + 1).map_values(|l: Label| (l.id@, l.name@))
                    =~= labels@.take(i as int).map_values(|l: Label| (l.id@, l.name@)).push(
                    (labels@[i as int].id@, labels@[i as int].name@),
                ));
            }
            i = i + 1;
        }
        proof {
            assert(labels@.take(i as int) =~= labels@);
        }
        cat
    }

    /// The name of a label id, or the id itself when the catalog lacks it.
    pub fn resolve(&self, id: &String) -> (r: String)
        ensures
            r@ == resolve_label(self@, id@),
    {
        let mut k: usize = self.entries.len();
        proof {
            assert(self@.take(k as int) =~= self@);
        }
        while k > 0
            invariant
                k <= self.entries@.len(),
                resolve_label(self@, id@) == resolve_label(self@.take(k as int), id@),
            decreases k,
        {
            proof {
                assert(self@.take(k as int).drop_last() =~= self@.take(k as int - 1));
            }
            if self.entries[k - 1].0 == *id {
                return self.entries[k - 1].1.clone();
            }
            k = k - 1;
        }
        id.clone()
    }
}

/// The value of the last header with this name, or empty when there is none.
pub open spec fn header_value(hs: Seq<MessageHeader>, name: Seq<char>) -> Seq<char>
    decreases hs.len(),
{
    if hs.len() == 0 {
        Seq::empty()
    } else if hs.last().name@ == name {
        hs.last().value@
    } else {
        header_value(hs.drop_last(), name)
    }
}

pub open spec fn is_digit(c: char) -> bool {
    '0' <= c && c <= '9'
}

/// The value of a run of decimal digits.
pub open spec fn digits_value(s: Seq<char>) -> int
    decreases s.len(),
{
    if s.len() == 0 {
        0
    } else {
        digits_value(s.drop_last()) * 10 + (s.last() as int - '0' as int)
    }
}

/// The integer that a decimal numeral denotes: an optional sign, then one
/// or more digits.
pub open spec fn decimal_of(s: Seq<char>) -> Option<int> {
    let signed = s.len() > 0 && (s[0] == '-' || s[0] == '+');
    let body = if signed {
        s.skip(1)
    } else {
        s
    };
    if body.len() > 0 && forall|i: int| 0 <= i < body.len() ==> is_digit(#[trigger] body[i]) {
        Some(
            if signed && s[0] == '-' {
                -digits_value(body)
            } else {
                digits_value(body)
            },
        )
    } else {
        None
    }
}

/// Whether a millisecond count since the epoch is a representable UTC instant.
pub uninterp spec fn utc_millis_valid(ms: int) -> bool;

/// The millisecond timestamp that a message's date field gives, if any.
pub open spec fn millis_of(s: Seq<char>) -> Option<int> {
    match decimal_of(s) {
        Some(v) => if i64::MIN <= v <= i64::MAX && utc_millis_valid(v) {
            Some(v)
        } else {
            None
        },
        None => None,
    }
}

/// Relies on `str::parse::<i64>`: an optional sign and decimal digits, in range.
#[verifier::external_body]
fn parse_i64(s: &str) -> (r: Option<i64>)
    ensures
        r.is_some() <==> (decimal_of(s@).is_some() && i64::MIN <= decimal_of(s@).unwrap()
            <= i64::MAX),
        r.is_some() ==> r.unwrap() as int == decimal_of(s@).unwrap(),
{
    s.parse::<i64>().ok()
}

/// Relies on chrono's `Utc.timestamp_millis_opt(ms).latest()`: an instant for
/// each representable millisecond count, which gives that count back.
#[verifier::external_body]
fn utc_millis(ms: i64) -> (r: Option<i64>)
    ensures
        r.is_some() == utc_millis_valid(ms as int),
        r.is_some() ==> r.unwrap() == ms,
{
    match chrono::TimeZone::timestamp_millis_opt(&chrono::Utc, ms).latest() {
        Some(t) => Some(t.timestamp_millis()),
        None => None,
    }
}

/// The normalized event of one message.
#[derive(Debug)]
pub struct UsableMessageDetails {
    pub id: String,
    pub thread_id: String,
    pub history_id: String,
    pub labels: Vec<String>,
    /// Milliseconds since the Unix epoch, UTC.
    pub internal_date: i64,
    pub from: MailAddrList,
    pub to: MailAddrList,
    pub subject: String,
}

/// The view of a normalized event.
pub struct EventView {
    pub id: Seq<char>,
    pub thread_id: Seq<char>,
    pub history_id: Seq<char>,
    pub labels: Seq<Seq<char>>,
    pub internal_date: int,
    pub from: Seq<AddrView>,
    pub to: Seq<AddrView>,
    pub subject: Seq<char>,
}

impl View for UsableMessageDetails {
    type V = EventView;

    open spec fn view(&self) -> EventView {
        EventView {
            id: self.id@,
            thread_id: self.thread_id@,
            history_id: self.history_id@,
            labels: self.labels@.map_values(|l: String| l@),
            internal_date: self.internal_date as int,
            from: self.from@,
            to: self.to@,
            subject: self.subject@,
        }
    }
}

/// The event that a message gives with a label catalog, or why it gives none.
/// A malformed address header is reported before a bad timestamp.
pub open spec fn enrich_spec(m: MessageDetails, cat: Seq<(Seq<char>, Seq<char>)>) -> Result<
    EventView,
    EnrichError,
> {
    let hs = m.payload.headers@;
    let to = addrparse_of(header_value(hs, "To"@));
    let from = addrparse_of(header_value(hs, "From"@));
    if to.is_none() || from.is_none() {
        Err(EnrichError::AddressParse)
    } else {
        match millis_of(m.internal_date@) {
            Some(ms) => Ok(
                EventView {
                    id: m.id@,
                    thread_id: m.thread_id@,
                    history_id: m.history_id@,
                    labels: m.label_ids@.map_values(|l: String| resolve_label(cat, l@)),
                    internal_date: ms,
                    from: from.unwrap(),
                    to: to.unwrap(),
                    subject: header_value(hs, "Subject"@),
                },
            ),
            None => Err(EnrichError::TimestampParse),
        }
    }
}

/// The events of a run of detail replies: messages that are gone are
/// skipped; the first message that cannot be enriched stops the run.
pub open spec fn enrich_batch_spec(replies: Seq<DetailReply>, cat: Seq<(Seq<char>, Seq<char>)>) -> Result<
    Seq<EventView>,
    EnrichError,
>
    decreases replies.len(),
{
    if replies.len() == 0 {
        Ok(Seq::empty())
    } else {
        match enrich_batch_spec(replies.drop_last(), cat) {
            Err(e) => Err(e),
            Ok(prev) => match replies.last() {
                DetailReply::NotFound => Ok(prev),
                DetailReply::Found(m) => match enrich_spec(m, cat) {
                    Ok(ev) => Ok(prev.push(ev)),
                    Err(e) => Err(e),
                },
            },
        }
    }
}

pub open spec fn events_view(v: Seq<UsableMessageDetails>) -> Seq<EventView> {
    v.map_values(|e: UsableMessageDetails| e@)
}

pub open spec fn batch_view(r: Result<Vec<UsableMessageDetails>, EnrichError>) -> Result<
    Seq<EventView>,
    EnrichError,
> {
    match r {
        Ok(v) => Ok(events_view(v@)),
        Err(e) => Err(e),
    }
}

/// The value of the last header named `name`, or empty.
fn find_header(hs: &Vec<MessageHeader>, name: &String) -> (r: String)
    ensures
        r@ == header_value(hs@, name@),
{
    let mut k: usize = hs.len();
    proof {
        assert(hs@.take(k as int) =~= hs@);
    }
    while k > 0
        invariant
            k <= hs@.len(),
            header_value(hs@, name@) == header_value(hs@.take(k as int), name@),
        decreases k,
    {
        proof {
            assert(hs@.take(k as int).drop_last() =~= hs@.take(k as int - 1));
        }
        if hs[k - 1].name == *name {
            return hs[k - 1].value.clone();
        }
        k = k - 1;
    }
    String::new()
}

/// Whether a reply envelope's error code says the message is gone.
pub fn is_not_found(error_code: Option<i64>) -> (r: bool)
    ensures
        r == (error_code == Some(404i64)),
{
    match error_code {
        Some(c) => c == 404,
        None => false,
    }
}

impl UsableMessageDetails {
    /// The event of a message, with its label ids resolved through the catalog.
    pub fn from(message: MessageDetails, labels: &LabelCatalog) -> (r: Result<Self, EnrichError>)
        ensures
            batch_one(r) == enrich_spec(message, labels@),
    {
        Self::enrich(&message, labels)
    }

    fn enrich(message: &MessageDetails, labels: &LabelCatalog) -> (r: Result<Self, EnrichError>)
        ensures
            batch_one(r) == enrich_spec(*message, labels@),
    {
        let hs = &message.payload.headers;
        let from = find_header(hs, &String::from_str("From"));
        let to = find_header(hs, &String::from_str("To"));
        let subject = find_header(hs, &String::from_str("Subject"));
        let to_parsed = match parse_address_list(to.as_str()) {
            Some(l) => l,
            None => return Err(EnrichError::AddressParse),
        };
        let from_parsed = match parse_address_list(from.as_str()) {
            Some(l) => l,
            None => return Err(EnrichError::AddressParse),
        };
        let mut names: Vec<String> = Vec::new();
        let mut i: usize = 0;
        while i < message.label_ids.len()
            invariant
                i <= message.label_ids@.len(),
                names@.map_values(|l: String| l@) == message.label_ids@.take(i as int).map_values(
                    |l: String| resolve_label(labels@, l@),
                ),
            decreases message.label_ids@.len() - i,
        {
            let name = labels.resolve(&message.label_ids[i]);
            let ghost prev = names@;
            names.push(name);
            proof {
                assert(names@.map_values(|l: String| l@) =~= prev.map_values(|l: String| l@).push(
                    name@,
                ));
                assert(message.label_ids@.take(i as int + 1) =~= message.label_ids@.take(
                    i as int,
                ).push(message.label_ids@[i as int]));
            }
            proof {
                assert(names@.map_values(|l: String| l@) =~= message.label_ids@.take(
                    i as int + 1,
                ).map_values(|l: String| resolve_label(labels@, l@)));
            }
            i = i + 1;
        }
        proof {
            assert(message.label_ids@.take(i as int) =~= message.label_ids@);
        }
        let ms = match parse_i64(message.internal_date.as_str()) {
            Some(v) => v,
            None => return Err(EnrichError::TimestampParse),
        };
        let internal_date = match utc_millis(ms) {
            Some(t) => t,
            None => return Err(EnrichError::TimestampParse),
        };
        Ok(UsableMessageDetails {
            id: message.id.clone(),
            thread_id: message.thread_id.clone(),
            history_id: message.history_id.clone(),
            labels: names,
            internal_date,
            from: from_parsed,
            to: to_parsed,
            subject,
        })
    }
}

pub open spec fn batch_one(r: Result<UsableMessageDetails, EnrichError>) -> Result<EventView, EnrichError> {
    match r {
        Ok(e) => Ok(e@),
        Err(e) => Err(e),
    }
}

/// The events of the detail replies of a batch, in order: messages that are
/// gone are skipped, and the first message that cannot be enriched fails the batch.
pub fn enrich_all(replies: &Vec<DetailReply>, labels: &LabelCatalog) -> (r: Result<
    Vec<UsableMessageDetails>,
    EnrichError,
>)
    ensures
        batch_view(r) == enrich_batch_spec(replies@, labels@),
{
    let mut results: Vec<UsableMessageDetails> = Vec::new();
    let mut i: usize = 0;
    proof {
        assert(replies@.take(0) =~= Seq::<DetailReply>::empty());
        assert(events_view(results@) =~= Seq::<EventView>::empty());
    }
    while i < replies.len()
        invariant
            i <= replies@.len(),
            enrich_batch_spec(replies@.take(i as int), labels@) == Ok::<Seq<EventView>, EnrichError>(
                events_view(results@),
            ),
        decreases replies@.len() - i,
    {
        proof {
            assert(replies@.take(i as int + 1).drop_last() =~= replies@.take(i as int));
        }
        match &replies[i] {
            DetailReply::NotFound => {},
            DetailReply::Found(m) => {
                match UsableMessageDetails::enrich(m, labels) {
                    Ok(ev) => {
                        let ghost prev = results@;
                        results.push(ev);
                        proof {
                            assert(events_view(results@) =~= events_view(prev).push(ev@));
                        }
                    },
                    Err(e) => {
                        proof {
                            lemma_batch_err_sticks(replies@, labels@, i as int + 1);
                        }
                        return Err(e);
                    },
                }
            },
        }
        i = i + 1;
    }
    proof {
        assert(replies@.take(i as int) =~= replies@);
    }
    Ok(results)
}

proof fn lemma_batch_err_sticks(replies: Seq<DetailReply>, cat: Seq<(Seq<char>, Seq<char>)>, k: int)
    requires
        0 <= k <= replies.len(),
        enrich_batch_spec(replies.take(k), cat) is Err,
    ensures
        enrich_batch_spec(replies, cat) == enrich_batch_spec(replies.take(k), cat),
    decreases replies.len() - k,
{
    if k < replies.len() {
        assert(replies.take(k + 1).drop_last() =~= replies.take(k));
        lemma_batch_err_sticks(replies, cat, k + 1);
    } else {
        assert(replies.take(k) =~= replies);
    }
}

/// A value, or `unknown` in its absence.
pub open spec fn or_unknown(o: Option<Seq<char>>) -> Seq<char> {
    match o {
        Some(s) => s,
        None => "unknown"@,
    }
}

/// The counter labels of an event. The `from_domain` label is taken from the
/// `To` header, as is `to_domain`.
pub open spec fn metric_labels(e: EventView) -> Seq<(Seq<char>, Seq<char>)> {
    seq![
        ("from"@, or_unknown(first_address_of(e.from))),
        ("to"@, or_unknown(first_address_of(e.to))),
        ("from_domain"@, or_unknown(first_domain_of(e.to))),
        ("to_domain"@, or_unknown(first_domain_of(e.to))),
    ] + e.labels.map_values(|l: Seq<char>| ("label_"@ + l, "true"@))
}

fn or_unknown_exec(o: Option<String>) -> (r: String)
    ensures
        r@ == or_unknown(opt_chars(o)),
{
    match o {
        Some(s) => s,
        None => String::from_str("unknown"),
    }
}

impl UsableMessageDetails {
    /// The labels of the "email received" counter for this event.
    pub fn as_labels(&self) -> (r: Vec<(String, String)>)
        ensures
            pairs_view(r@) == metric_labels(self@),
    {
        let mut out: Vec<(String, String)> = Vec::new();
        out.push((String::from_str("from"), or_unknown_exec(self.from.first_address())));
        out.push((String::from_str("to"), or_unknown_exec(self.to.first_address())));
        out.push((String::from_str("from_domain"), or_unknown_exec(self.to.first_domain())));
        out.push((String::from_str("to_domain"), or_unknown_exec(self.to.first_domain())));
        let ghost head = pairs_view(out@);
        let mut i: usize = 0;
        while i < self.labels.len()
            invariant
                i <= self.labels@.len(),
                pairs_view(out@) == head + self@.labels.take(i as int).map_values(
                    |l: Seq<char>| ("label_"@ + l, "true"@),
                ),
            decreases self.labels@.len() - i,
        {
            let mut name = String::from_str("label_");
            name.append(self.labels[i].as_str());
            let ghost prev = out@;
            out.push((name, String::from_str("true")));
            proof {
                assert(pairs_view(out@) =~= pairs_view(prev).push((name@, "true"@)));
                assert(self@.labels.take(i as int + 1) =~= self@.labels.take(i as int).push(
                    self@.labels[i as int],
                ));
                assert(self@.labels.take(i as int + 1).map_values(
                    |l: Seq<char>| ("label_"@ + l, "true"@),
                ) =~= self@.labels.take(i as int).map_values(
                    |l: Seq<char>| ("label_"@ + l, "true"@),
                ).push(("label_"@ + self@.labels[i as int], "true"@)));
            }
            i = i + 1;
        }
        proof {
            assert(self@.labels.take(i as int) =~= self@.labels);
            assert(head =~= seq![
                ("from"@, or_unknown(first_address_of(self@.from))),
                ("to"@, or_unknown(first_address_of(self@.to))),
                ("from_domain"@, or_unknown(first_domain_of(self@.to))),
                ("to_domain"@, or_unknown(first_domain_of(self@.to))),
            ]);
        }
        out
    }
}

} // verus!
