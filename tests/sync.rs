use mailwatch::auth::GoogleAuth;
use mailwatch::cycle::{advance_watermark, next_watermark};
use mailwatch::history::{
    History, HistoryResponse, HistorySync, MessageAdded, MessagesList, MinimalMessage,
};
use mailwatch::message::{
    enrich_all, is_not_found, DetailReply, EnrichError, Label, LabelCatalog, MessageDetails,
    MessageHeader, MessagePart, UsableMessageDetails,
};
use mailwatch::transport::{AuthorizedCall, CallStep};
use mailwatch::auth::AuthError;
use mailwatch::address::suffix_after_last_at;

fn msg_ref(id: &str, thread: &str) -> MinimalMessage {
    MinimalMessage { id: id.to_string(), thread_id: thread.to_string() }
}

fn added(id: &str, thread: &str) -> MessageAdded {
    MessageAdded { message: msg_ref(id, thread) }
}

fn entry(id: &str, adds: Option<Vec<MessageAdded>>) -> History {
    History { id: id.to_string(), messages_added: adds }
}

fn page(entries: Option<Vec<History>>, next: Option<&str>, history_id: &str) -> HistoryResponse {
    HistoryResponse {
        history: entries,
        next_page_token: next.map(|s| s.to_string()),
        history_id: history_id.to_string(),
    }
}

fn header(name: &str, value: &str) -> MessageHeader {
    MessageHeader { name: name.to_string(), value: value.to_string() }
}

fn details(id: &str, history_id: &str, from: &str, to: &str, labels: &[&str], date: &str) -> MessageDetails {
    MessageDetails {
        id: id.to_string(),
        thread_id: "t1".to_string(),
        label_ids: labels.iter().map(|s| s.to_string()).collect(),
        snippet: String::new(),
        history_id: history_id.to_string(),
        internal_date: date.to_string(),
        payload: MessagePart {
            part_id: String::new(),
            mime_type: "text/plain".to_string(),
            filename: String::new(),
            headers: vec![header("From", from), header("To", to), header("Subject", "hello")],
        },
        size_estimate: 10,
    }
}

fn ids(v: &[MinimalMessage]) -> Vec<String> {
    v.iter().map(|m| m.id.clone()).collect()
}

fn run_pages(start: &str, pages: Vec<HistoryResponse>) -> (Vec<String>, Vec<MinimalMessage>) {
    let mut sync = HistorySync::new(start.to_string());
    let mut urls = vec![];
    let mut pages = pages.into_iter();
    while let Some(url) = sync.next_url() {
        urls.push(url);
        sync.accept_page(pages.next().expect("a page for each request"));
    }
    (urls, sync.into_messages())
}

#[test]
fn two_pages_then_watermark_advances() {
    let first = page(Some(vec![entry("101", Some(vec![added("m1", "t1")]))]), Some("p2"), "150");
    let second = page(Some(vec![entry("102", Some(vec![added("m2", "t1")]))]), None, "150");
    let (urls, refs) = run_pages("100", vec![first, second]);
    assert_eq!(
        urls,
        vec![
            "https://gmail.googleapis.com/gmail/v1/users/me/history?startHistoryId=100".to_string(),
            "https://gmail.googleapis.com/gmail/v1/users/me/history?startHistoryId=100&pageToken=p2"
                .to_string(),
        ]
    );
    assert_eq!(ids(&refs), vec!["m1", "m2"]);
    assert_eq!(refs[1].thread_id, "t1");

    let replies = vec![
        DetailReply::Found(details("m1", "140", "a@x.com", "b@y.com", &[], "1700000000000")),
        DetailReply::Found(details("m2", "150", "a@x.com", "b@y.com", &[], "1700000000001")),
    ];
    let cat = LabelCatalog::new();
    let start = "100".to_string();
    let events = enrich_all(&replies, &cat).unwrap();
    assert_eq!(events.len(), 2);
    assert_eq!(next_watermark(&start, &events), "150");
}

#[test]
fn not_found_message_is_skipped() {
    assert!(is_not_found(Some(404)));
    assert!(!is_not_found(Some(401)));
    assert!(!is_not_found(None));
    let replies = vec![
        DetailReply::NotFound,
        DetailReply::Found(details("m2", "150", "a@x.com", "b@y.com", &[], "1700000000001")),
    ];
    let events = enrich_all(&replies, &LabelCatalog::new()).unwrap();
    assert_eq!(events.len(), 1);
    assert_eq!(events[0].id, "m2");
}

#[test]
fn three_pages_in_provider_order() {
    let first = page(
        Some(vec![
            entry("1", Some(vec![added("a", "ta"), added("b", "tb")])),
            entry("2", None),
        ]),
        Some("x"),
        "9",
    );
    let second = page(None, Some("y"), "9");
    let third = page(
        Some(vec![entry("3", Some(vec![added("c", "tc")])), entry("4", Some(vec![]))]),
        None,
        "9",
    );
    let (urls, refs) = run_pages("5", vec![first, second, third]);
    assert_eq!(urls.len(), 3);
    assert!(urls[2].ends_with("startHistoryId=5&pageToken=y"));
    assert_eq!(ids(&refs), vec!["a", "b", "c"]);
}

#[test]
fn empty_history_yields_no_event() {
    let (urls, refs) = run_pages("77", vec![page(None, None, "77")]);
    assert_eq!(urls.len(), 1);
    assert!(refs.is_empty());
    let events = enrich_all(&vec![], &LabelCatalog::new()).unwrap();
    assert!(events.is_empty());
    assert_eq!(next_watermark(&"77".to_string(), &events), "77");
}

#[test]
fn failed_enrichment_keeps_watermark() {
    let replies = vec![
        DetailReply::Found(details("m1", "140", "a@x.com", "b@y.com", &[], "1")),
        DetailReply::Found(details("m2", "150", "foo", "b@y.com", &[], "2")),
        DetailReply::Found(details("m3", "160", "a@x.com", "b@y.com", &[], "3")),
    ];
    let outcome = enrich_all(&replies, &LabelCatalog::new());
    assert!(matches!(outcome, Err(EnrichError::AddressParse)));
    assert_eq!(advance_watermark(&"100".to_string(), &outcome), "100");
    let first_only = vec![DetailReply::Found(details("m1", "140", "a@x.com", "b@y.com", &[], "1"))];
    let ok = enrich_all(&first_only, &LabelCatalog::new());
    assert_eq!(advance_watermark(&"100".to_string(), &ok), "140");
}

#[test]
fn bad_timestamp_is_reported() {
    let m = details("m1", "1", "a@x.com", "b@y.com", &[], "soon");
    assert!(matches!(
        UsableMessageDetails::from(m, &LabelCatalog::new()),
        Err(EnrichError::TimestampParse)
    ));
    let big = details("m1", "1", "a@x.com", "b@y.com", &[], "99999999999999999999");
    assert!(matches!(
        UsableMessageDetails::from(big, &LabelCatalog::new()),
        Err(EnrichError::TimestampParse)
    ));
    let far = details("m1", "1", "a@x.com", "b@y.com", &[], "9223372036854775807");
    assert!(matches!(
        UsableMessageDetails::from(far, &LabelCatalog::new()),
        Err(EnrichError::TimestampParse)
    ));
    let bad_addr = details("m1", "1", "a@x.com", "foo <bar>", &[], "soon");
    assert!(matches!(
        UsableMessageDetails::from(bad_addr, &LabelCatalog::new()),
        Err(EnrichError::AddressParse)
    ));
}

#[test]
fn event_fields_and_labels() {
    let labels = vec![
        Label { id: "Label_1".to_string(), name: "Old".to_string() },
        Label { id: "Label_1".to_string(), name: "Work".to_string() },
        Label { id: "INBOX".to_string(), name: "INBOX".to_string() },
    ];
    let cat = LabelCatalog::from_labels(labels);
    assert_eq!(cat.resolve(&"Label_1".to_string()), "Work");
    assert_eq!(cat.resolve(&"Label_9".to_string()), "Label_9");
    let m = details(
        "m1",
        "150",
        "Alice <Alice@Example.COM>",
        "bar-group: foo <foo@bar.com>; Bob <Bob@Corp.Example.ORG>",
        &["Label_1", "INBOX", "Label_9"],
        "1700000000000",
    );
    let e = UsableMessageDetails::from(m, &cat).unwrap();
    assert_eq!(e.internal_date, 1_700_000_000_000);
    assert_eq!(e.subject, "hello");
    assert_eq!(e.labels, vec!["Work", "INBOX", "Label_9"]);
    assert_eq!(e.from.first_display_name(), Some("Alice".to_string()));
    assert_eq!(e.to.first_address(), Some("bob@corp.example.org".to_string()));
    let got = e.as_labels();
    let want: Vec<(String, String)> = vec![
        ("from", "alice@example.com"),
        ("to", "bob@corp.example.org"),
        ("from_domain", "corp.example.org"),
        ("to_domain", "corp.example.org"),
        ("label_Work", "true"),
        ("label_INBOX", "true"),
        ("label_Label_9", "true"),
    ]
    .into_iter()
    .map(|(k, v)| (k.to_string(), v.to_string()))
    .collect();
    assert_eq!(got, want);
}

#[test]
fn missing_headers_give_unknown_labels() {
    let mut m = details("m1", "150", "a@x.com", "b@y.com", &[], "-1");
    m.payload.headers = vec![header("Subject", "s1"), header("Subject", "s2")];
    let e = UsableMessageDetails::from(m, &LabelCatalog::new()).unwrap();
    assert_eq!(e.internal_date, -1);
    assert_eq!(e.subject, "s2");
    assert_eq!(e.from.first_address(), None);
    let got = e.as_labels();
    assert_eq!(got.len(), 4);
    assert!(got.iter().all(|(_, v)| v == "unknown"));
}

#[test]
fn listing_keeps_order() {
    let list = MessagesList {
        messages: vec![msg_ref("z", "1"), msg_ref("y", "2")],
        next_page_token: None,
        result_size_estimate: 2,
    };
    assert_eq!(ids(&list.into_messages()), vec!["z", "y"]);
}

#[test]
fn auth_self_heals_once() {
    let mut call = AuthorizedCall::new();
    assert_eq!(call.on_envelope(Some(401)), CallStep::Refresh);
    assert!(!call.is_finished());
    assert_eq!(call.on_envelope(None), CallStep::Deliver);
    assert!(call.is_finished());

    let mut auth = GoogleAuth::new("id".into(), "secret".into(), Some("old".into()), Some("r1".into()));
    assert_eq!(auth.bearer_header().unwrap(), "Bearer old");
    let form = auth.do_refresh().unwrap();
    assert_eq!(form[2], ("refresh_token".to_string(), "r1".to_string()));
    assert_eq!(form[3], ("grant_type".to_string(), "refresh_token".to_string()));
    let reply = mailwatch::auth::TokenReply { access_token: Some("new".into()), refresh_token: None };
    assert_eq!(auth.finish_refresh(Some(reply)), Ok(()));
    assert_eq!(auth.bearer_header().unwrap(), "Bearer new");
    assert_eq!(auth.do_refresh().unwrap()[2].1, "r1");
}

#[test]
fn auth_failure_twice_is_fatal() {
    let mut call = AuthorizedCall::new();
    assert_eq!(call.on_reply(true), CallStep::Refresh);
    assert_eq!(call.on_reply(true), CallStep::Fail(AuthError::RefreshFailed));
    assert_eq!(call.on_reply(false), CallStep::Fail(AuthError::RefreshFailed));
    assert!(call.is_finished());
}

#[test]
fn credential_errors() {
    let mut auth = GoogleAuth::new("id".into(), "secret".into(), None, None);
    assert!(!auth.is_authenticated());
    assert_eq!(auth.bearer_header(), Err(AuthError::Unauthenticated));
    assert_eq!(auth.do_refresh(), Err(AuthError::NoRefreshToken));
    assert_eq!(auth.finish_refresh(None), Err(AuthError::RefreshFailed));
    let half = mailwatch::auth::TokenReply { access_token: Some("a".into()), refresh_token: None };
    assert_eq!(auth.finish_code_exchange(Some(half)), Err(AuthError::ExchangeFailed));
    assert!(!auth.is_authenticated());
    assert_eq!(auth.handle_callback_url("not a url"), Err(AuthError::ExchangeFailed));
    assert_eq!(
        auth.handle_callback_url("http://127.0.0.1:8080/?state=1"),
        Err(AuthError::ExchangeFailed)
    );
    let both = mailwatch::auth::TokenReply { access_token: Some("a".into()), refresh_token: Some("r".into()) };
    assert_eq!(auth.finish_code_exchange(Some(both)), Ok(()));
    assert!(auth.is_authenticated());
    assert_eq!(auth.do_refresh().unwrap()[2].1, "r");
}

#[test]
fn callback_code_and_auth_url() {
    let auth = GoogleAuth::new("myid".into(), "sec".into(), None, None);
    let form = auth
        .handle_callback_url("http://127.0.0.1:8080/?code=4%2Fabc&scope=x&code=other")
        .unwrap();
    let want: Vec<(String, String)> = vec![
        ("code", "4/abc"),
        ("client_id", "myid"),
        ("client_secret", "sec"),
        ("redirect_uri", "http://127.0.0.1:8080"),
        ("grant_type", "authorization_code"),
    ]
    .into_iter()
    .map(|(k, v)| (k.to_string(), v.to_string()))
    .collect();
    assert_eq!(form, want);
    assert_eq!(
        auth.get_auth_url().unwrap(),
        "https://accounts.google.com/o/oauth2/v2/auth?client_id=myid&redirect_uri=http%3A%2F%2F127.0.0.1%3A8080&scope=https%3A%2F%2Fwww.googleapis.com%2Fauth%2Fgmail.readonly&access_type=offline&response_type=code"
    );
}

#[test]
fn domain_after_last_at() {
    assert_eq!(suffix_after_last_at("a@b@c.org"), "c.org");
    assert_eq!(suffix_after_last_at("plain"), "plain");
    assert_eq!(suffix_after_last_at("x@"), "");
}

#[test]
fn rerun_from_same_watermark_reproduces_refs() {
    let pages = || {
        vec![
            page(Some(vec![entry("1", Some(vec![added("m1", "t1"), added("m2", "t1")]))]), Some("n"), "9"),
            page(Some(vec![entry("2", Some(vec![added("m3", "t3")]))]), None, "9"),
        ]
    };
    let (_, refs) = run_pages("100", pages());
    let replies: Vec<DetailReply> = refs
        .iter()
        .map(|r| {
            let from = if r.id == "m2" { "foo" } else { "a@x.com" };
            DetailReply::Found(details(&r.id, "120", from, "b@y.com", &[], "5"))
        })
        .collect();
    let outcome = enrich_all(&replies, &LabelCatalog::new());
    assert!(matches!(outcome, Err(EnrichError::AddressParse)));
    let watermark = advance_watermark(&"100".to_string(), &outcome);
    let (_, again) = run_pages(&watermark, pages());
    assert_eq!(ids(&again), vec!["m1", "m2", "m3"]);
}
