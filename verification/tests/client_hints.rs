use phantom::client_hints::context::ClientHintContext;
use phantom::client_hints::fields::parse_token_list;
use phantom::client_hints::slots::prepare_fields;
use phantom::client_hints::store::ClientHintStore;
use phantom::client_hints::types::{
    ClientHint, ClientHintDelivery, ClientHintSettings, ClientHintSlot, HintTemplate,
};
use phantom::endpoint::{Endpoint, OriginKey, RequestHeader};
use phantom::error::{RequestError, RequestErrorKind};

type TestResult = Result<(), String>;

fn text(error: RequestError) -> String {
    format!("{error:?}")
}

fn settings() -> ClientHintSettings {
    ClientHintSettings::new(vec![
        ClientHint::new("sec-ch-ua", b"baseline", ClientHintDelivery::Default),
        ClientHint::new("sec-ch-ua-arch", b"arm", ClientHintDelivery::AcceptCh),
        ClientHint::new(
            "sec-ch-ua-platform-version",
            b"15.5.0",
            ClientHintDelivery::AcceptCh,
        ),
    ])
}

fn endpoint(authority: &str) -> Endpoint {
    match Endpoint::parse(authority, 443) {
        Some(endpoint) => endpoint,
        None => panic!("test authority is invalid"),
    }
}

fn name(header: &RequestHeader) -> &str {
    header.name.as_str()
}

fn value<'a>(headers: &'a [RequestHeader], name: &str) -> Option<&'a [u8]> {
    headers
        .iter()
        .find(|header| header.name.eq_ignore_ascii_case(name))
        .map(|header| header.value.as_slice())
}

fn prepare_default_fields(
    settings: &ClientHintSettings,
    caller: Vec<RequestHeader>,
) -> Vec<RequestHeader> {
    prepare_fields(settings, &None, &None, caller, None)
}

fn prepare(
    store: &mut ClientHintStore,
    endpoint: &Endpoint,
    settings: &ClientHintSettings,
) -> Vec<RequestHeader> {
    let active = store.active_indices(&OriginKey::new(endpoint));
    prepare_fields(settings, &active, &None, Vec::new(), None)
}

#[test]
fn defaults_precede_caller_fields_and_caller_values_win() {
    let prepared = prepare_default_fields(
        &settings(),
        vec![
            RequestHeader::new("x-caller", b"one"),
            RequestHeader::new("Sec-CH-UA", b"override"),
        ],
    );
    let names = prepared.iter().map(name).collect::<Vec<_>>();

    assert_eq!(names, ["x-caller", "Sec-CH-UA"]);
    assert_eq!(value(&prepared, "sec-ch-ua"), Some(b"override".as_slice()));
}

#[test]
fn valid_replacement_empty_clearing_and_malformed_preservation_are_distinct() {
    let mut store = ClientHintStore::new(1);
    let endpoint = endpoint("example.test");
    let settings = settings();
    let sent = prepare_default_fields(&settings, Vec::new());

    let mut learned = Vec::new();
    learned.push(RequestHeader::new("accept-ch", b"Sec-CH-UA-Platform-Version, Sec-CH-UA-Arch"));
    assert!(!store.learn_and_should_retry(&endpoint, &settings, &learned, &sent));
    let prepared = prepare(&mut store, &endpoint, &settings);
    assert_eq!(
        prepared.iter().map(name).collect::<Vec<_>>(),
        ["sec-ch-ua", "sec-ch-ua-arch", "sec-ch-ua-platform-version"]
    );

    let mut malformed = Vec::new();
    malformed.push(RequestHeader::new("accept-ch", b"\"not-a-token\""));
    assert!(!store.learn_and_should_retry(&endpoint, &settings, &malformed, &prepared));
    assert_eq!(prepare(&mut store, &endpoint, &settings).len(), 3);

    let mut empty = Vec::new();
    empty.push(RequestHeader::new("accept-ch", b""));
    assert!(!store.learn_and_should_retry(&endpoint, &settings, &empty, &prepared));
    assert_eq!(prepare(&mut store, &endpoint, &settings).len(), 1);
}

#[test]
fn critical_retry_requires_a_supported_missing_requested_hint() {
    let mut store = ClientHintStore::new(1);
    let endpoint = endpoint("example.test");
    let settings = settings();
    let sent = prepare_default_fields(&settings, Vec::new());
    let mut response = Vec::new();
    response.push(RequestHeader::new("accept-ch", b"Sec-CH-UA-Arch"));
    response.push(RequestHeader::new("critical-ch", b"Sec-CH-UA-Arch"));

    assert!(store.learn_and_should_retry(&endpoint, &settings, &response, &sent));
    let retry = prepare(&mut store, &endpoint, &settings);
    assert!(!store.learn_and_should_retry(&endpoint, &settings, &response, &retry));
}

#[test]
fn origin_capacity_is_lru_and_ports_are_distinct() {
    let mut store = ClientHintStore::new(1);
    let settings = settings();
    let sent = prepare_default_fields(&settings, Vec::new());
    let mut response = Vec::new();
    response.push(RequestHeader::new("accept-ch", b"Sec-CH-UA-Arch"));
    let first = endpoint("example.test:443");
    let second = endpoint("example.test:8443");

    store.learn_and_should_retry(&first, &settings, &response, &sent);
    store.learn_and_should_retry(&second, &settings, &response, &sent);

    assert_eq!(prepare(&mut store, &first, &settings).len(), 1);
    assert_eq!(prepare(&mut store, &second, &settings).len(), 2);
    assert_ne!(OriginKey::new(&first), OriginKey::new(&second));
}

#[test]
fn structured_field_parser_accepts_token_parameters_and_rejects_other_members() {
    assert!(parse_token_list("").is_some());
    assert!(parse_token_list("Sec-CH-UA-Arch, Sec-CH-UA-Bitness").is_some());
    assert!(parse_token_list("\"sec-ch-ua-arch\"").is_none());
    assert!(parse_token_list("sec-ch-ua-arch;flag").is_some());
    assert!(parse_token_list("(sec-ch-ua-arch)").is_none());
}

#[test]
fn repeated_fields_are_combined_and_malformed_critical_ch_does_not_retry() {
    let mut store = ClientHintStore::new(1);
    let endpoint = endpoint("example.test");
    let settings = settings();
    let sent = prepare_default_fields(&settings, Vec::new());
    let mut response = Vec::new();
    response.push(RequestHeader::new("accept-ch", b"Sec-CH-UA-Arch"));
    response.push(RequestHeader::new("accept-ch", b"Sec-CH-UA-Platform-Version"));
    response.push(RequestHeader::new("critical-ch", b"\"not-a-token\""));

    assert!(!store.learn_and_should_retry(&endpoint, &settings, &response, &sent));
    assert_eq!(prepare(&mut store, &endpoint, &settings).len(), 3);
}

#[test]
fn unknown_only_replacement_clears_previous_preferences() {
    let mut store = ClientHintStore::new(1);
    let endpoint = endpoint("example.test");
    let settings = settings();
    let sent = prepare_default_fields(&settings, Vec::new());
    let mut learned = Vec::new();
    learned.push(RequestHeader::new("accept-ch", b"Sec-CH-UA-Arch"));
    store.learn_and_should_retry(&endpoint, &settings, &learned, &sent);

    let mut unknown = Vec::new();
    unknown.push(RequestHeader::new("accept-ch", b"Sec-CH-Unknown"));
    store.learn_and_should_retry(&endpoint, &settings, &unknown, &sent);

    assert_eq!(prepare(&mut store, &endpoint, &settings).len(), 1);
}

#[test]
fn connection_preferences_augment_session_state_without_persisting() -> TestResult {
    let mut store = ClientHintStore::new(1);
    let endpoint = endpoint("example.test");
    let settings = settings();
    let sent = prepare_default_fields(&settings, Vec::new());
    let mut learned = Vec::new();
    learned.push(RequestHeader::new("accept-ch", b"Sec-CH-UA-Arch"));
    store.learn_and_should_retry(&endpoint, &settings, &learned, &sent);
    let context = ClientHintContext::new(&endpoint, "https://example.test", &settings);
    let mut store = Some(store);

    let prepared = context.prepare(
        &mut store,
        vec![RequestHeader::new("Sec-CH-UA-Platform-Version", b"caller")],
        Some(b"Sec-CH-UA-Platform-Version, Sec-CH-Unknown"),
    )
    .map_err(text)?;
    assert_eq!(
        prepared.iter().map(name).collect::<Vec<_>>(),
        ["sec-ch-ua", "sec-ch-ua-arch", "Sec-CH-UA-Platform-Version"]
    );
    assert_eq!(
        value(&prepared, "sec-ch-ua-platform-version"),
        Some(b"caller".as_slice())
    );

    let without_connection = context.prepare(&mut store, Vec::new(), None).map_err(text)?;
    assert_eq!(
        without_connection
            .iter()
            .map(name)
            .collect::<Vec<_>>(),
        ["sec-ch-ua", "sec-ch-ua-arch"]
    );
    Ok(())
}

#[test]
fn empty_or_malformed_connection_value_does_not_clear_session_state() -> TestResult {
    let mut store = ClientHintStore::new(1);
    let endpoint = endpoint("example.test");
    let settings = settings();
    let sent = prepare_default_fields(&settings, Vec::new());
    let mut learned = Vec::new();
    learned.push(RequestHeader::new("accept-ch", b"Sec-CH-UA-Arch"));
    store.learn_and_should_retry(&endpoint, &settings, &learned, &sent);
    let context = ClientHintContext::new(&endpoint, "https://example.test", &settings);
    let mut store = Some(store);

    for value in [&b""[..], &b"\xff"[..], &b"\"not-a-token\""[..]] {
        let prepared = context.prepare(&mut store, Vec::new(), Some(value)).map_err(text)?;
        assert_eq!(
            prepared.iter().map(name).collect::<Vec<_>>(),
            ["sec-ch-ua", "sec-ch-ua-arch"]
        );
    }
    Ok(())
}

/// The hints of a Chromium release: three by default, eight on request.
fn chromium_hints() -> ClientHintSettings {
    let by_default = ["sec-ch-ua", "sec-ch-ua-mobile", "sec-ch-ua-platform"];
    let names = [
        "sec-ch-ua",
        "sec-ch-ua-mobile",
        "sec-ch-ua-full-version",
        "sec-ch-ua-arch",
        "sec-ch-ua-platform",
        "sec-ch-ua-platform-version",
        "sec-ch-ua-model",
        "sec-ch-ua-bitness",
        "sec-ch-ua-wow64",
        "sec-ch-ua-full-version-list",
        "sec-ch-ua-form-factors",
    ];
    ClientHintSettings::new(
        names
            .iter()
            .map(|name| {
                let delivery = if by_default.contains(name) {
                    ClientHintDelivery::Default
                } else {
                    ClientHintDelivery::AcceptCh
                };
                ClientHint::new(name, b"profile", delivery)
            })
            .collect(),
    )
}

const ALL_REQUESTED: [usize; 8] = [2, 3, 5, 6, 7, 8, 9, 10];

fn slot(hint: Option<&str>, followed_by: &[&str]) -> ClientHintSlot {
    ClientHintSlot {
        hint: hint.map(str::to_owned),
        followed_by: followed_by.iter().map(|&name| name.to_owned()).collect(),
    }
}

/// Every hint in one block before the navigation fields.
fn navigation_template() -> HintTemplate {
    HintTemplate {
        slots: vec![slot(None, &["upgrade-insecure-requests", "user-agent"])],
        requested_client_hint_placement: true,
    }
}

/// The platform hint before the user agent and the others after it.
fn fetch_template() -> HintTemplate {
    HintTemplate {
        slots: vec![
            slot(Some("sec-ch-ua-platform"), &["user-agent", "accept"]),
            slot(None, &["accept"]),
        ],
        requested_client_hint_placement: false,
    }
}

fn fields(names: &[&str]) -> Vec<RequestHeader> {
    names
        .iter()
        .map(|name| RequestHeader::new(name, b"template"))
        .collect()
}

fn prepared(
    template: &HintTemplate,
    given: Vec<RequestHeader>,
    stored: Option<&[usize]>,
) -> Vec<String> {
    let stored = stored.map(<[usize]>::to_vec);
    prepare_fields(&chromium_hints(), &stored, &None, given, Some(template))
        .iter()
        .map(|header| header.name.clone())
        .collect()
}

#[test]
fn navigation_hints_follow_connection_as_one_block_in_profile_order() {
    let template = navigation_template();
    let given = || fields(&["Connection", "Upgrade-Insecure-Requests", "User-Agent"]);
    let first = prepared(&template, given(), None);
    assert_eq!(
        first[..5],
        [
            "Connection",
            "sec-ch-ua",
            "sec-ch-ua-mobile",
            "sec-ch-ua-platform",
            "Upgrade-Insecure-Requests"
        ]
    );

    let requested = prepared(&template, given(), Some(&ALL_REQUESTED));
    let hints = chromium_hints();
    let block: Vec<&str> = hints.hints.iter().map(|hint| hint.name.as_str()).collect();
    assert_eq!(requested[1..12], block[..]);
    assert_eq!(requested[12], "Upgrade-Insecure-Requests");
}

#[test]
fn fetch_hints_surround_user_agent_as_captured() {
    let template = fetch_template();
    let given = || fields(&["pragma", "cache-control", "user-agent", "accept"]);
    assert_eq!(
        prepared(&template, given(), None)[..7],
        [
            "pragma",
            "cache-control",
            "sec-ch-ua-platform",
            "user-agent",
            "sec-ch-ua",
            "sec-ch-ua-mobile",
            "accept"
        ]
    );
    let requested = prepared(&template, given(), Some(&ALL_REQUESTED));
    assert_eq!(requested[6], "sec-ch-ua-full-version");
    assert_eq!(requested[14], "accept");
}

#[test]
fn an_empty_user_agent_slot_keeps_the_platform_hint_before_accept() {
    let given = fields(&["Connection", "Pragma", "Cache-Control", "Accept"]);
    assert_eq!(
        prepared(&fetch_template(), given, None)[..7],
        [
            "Connection",
            "Pragma",
            "Cache-Control",
            "sec-ch-ua-platform",
            "sec-ch-ua",
            "sec-ch-ua-mobile",
            "Accept"
        ]
    );
}

#[test]
fn requested_hints_fail_without_a_captured_position() {
    let hints = chromium_hints();
    let fetch = fetch_template();
    let navigation = navigation_template();
    let endpoint = endpoint("example.test");
    let origin = "https://example.test";
    let mut store = Some(ClientHintStore::new(1));
    let context =
        |template| ClientHintContext::new(&endpoint, origin, &hints).with_template(Some(template));
    let kind = |result: Result<Vec<RequestHeader>, RequestError>| {
        result.err().map(|error| error.kind())
    };
    let given = || fields(&["pragma", "cache-control", "user-agent", "accept"]);

    // Default hints alone are the captured fetch shape.
    assert_eq!(kind(context(&fetch).prepare(&mut store, given(), None)), None);

    // A hint requested by the connection, or supplied by the caller.
    assert_eq!(
        kind(context(&fetch).prepare(&mut store, given(), Some(b"Sec-CH-UA-Arch"))),
        Some(RequestErrorKind::RequestTemplate)
    );
    let mut with_caller = given();
    with_caller.push(RequestHeader::new("sec-ch-ua-arch", b"\"x86\""));
    assert_eq!(
        kind(context(&fetch).prepare(&mut store, with_caller, None)),
        Some(RequestErrorKind::RequestTemplate)
    );

    // A hint the origin requested through a response `Accept-CH`.
    let learned = vec![RequestHeader::new("accept-ch", b"Sec-CH-UA-Arch")];
    if let Some(store) = &mut store {
        store.learn_and_should_retry(&endpoint, &hints, &learned, &Vec::new());
    }
    assert_eq!(
        kind(context(&fetch).prepare(&mut store, given(), None)),
        Some(RequestErrorKind::RequestTemplate)
    );

    // The navigation capture shows where requested hints go.
    let navigation_fields = fields(&["upgrade-insecure-requests", "user-agent"]);
    assert_eq!(
        kind(context(&navigation).prepare(&mut store, navigation_fields, Some(b"Sec-CH-UA-Model"))),
        None
    );

    // A template without client-hint slots places no hint, whatever its
    // requested-hint flag claims.
    let slotless = HintTemplate {
        slots: Vec::new(),
        requested_client_hint_placement: true,
    };
    assert_eq!(
        kind(context(&slotless).prepare(&mut store, given(), Some(b"Sec-CH-UA-Arch"))),
        Some(RequestErrorKind::RequestTemplate)
    );
    assert_eq!(context(&slotless).origin(), origin);
}

#[test]
fn caller_hint_values_keep_the_slot_position() {
    let mut given = fields(&["pragma", "cache-control", "user-agent", "accept"]);
    // The caller's fields behind the template's, named as HTTP/2 sends them.
    for (name, value) in [("x-first", "1"), ("SEC-CH-UA-MOBILE", "?1")] {
        let name = name.to_ascii_lowercase();
        given.push(RequestHeader::new(&name, value.as_bytes()));
    }
    let prepared = prepare_fields(
        &chromium_hints(),
        &None,
        &None,
        given,
        Some(&fetch_template()),
    );
    let mobile = prepared
        .iter()
        .position(|header| header.name == "sec-ch-ua-mobile");
    assert_eq!(mobile, Some(5));
    assert_eq!(prepared[5].value, b"?1");
    assert_eq!(
        prepared
            .iter()
            .filter(|header| header.name.eq_ignore_ascii_case("sec-ch-ua-mobile"))
            .count(),
        1
    );
    assert_eq!(
        prepared.last().map(|header| header.name.as_str()),
        Some("x-first")
    );
}

#[test]
fn a_caller_field_that_no_slot_takes_comes_last() {
    let template = HintTemplate {
        slots: vec![slot(Some("sec-ch-ua"), &["accept"])],
        requested_client_hint_placement: false,
    };
    let mut given = vec![RequestHeader::new("Sec-CH-UA-Mobile", b"?1")];
    given.extend(fields(&["accept", "cookie"]));
    assert_eq!(
        prepared(&template, given, None),
        ["sec-ch-ua", "accept", "cookie", "Sec-CH-UA-Mobile"]
    );
}

#[test]
fn a_cleared_store_asks_for_nothing() {
    let mut store = ClientHintStore::new(3);
    assert_eq!(store.capacity(), 3);
    let endpoint = endpoint("example.test");
    let response = vec![RequestHeader::new("accept-ch", b"Sec-CH-UA-Arch")];
    store.learn_and_should_retry(&endpoint, &settings(), &response, &Vec::new());
    assert_eq!(
        store.active_indices(&OriginKey::new(&endpoint)),
        Some(vec![1])
    );
    store.clear();
    assert_eq!(store.active_indices(&OriginKey::new(&endpoint)), None);
}

#[test]
fn a_cleared_store_adds_only_what_the_connection_asks_for() -> TestResult {
    let one = endpoint("example.test");
    let other = endpoint("other.test");
    let settings = settings();
    let learned = vec![RequestHeader::new("accept-ch", b"Sec-CH-UA-Arch")];
    let mut store = ClientHintStore::new(2);
    store.learn_and_should_retry(&one, &settings, &learned, &Vec::new());
    store.clear();
    store.learn_and_should_retry(&other, &settings, &learned, &Vec::new());
    let silent = vec![RequestHeader::new("server", b"x")];
    store.learn_and_should_retry(&one, &settings, &silent, &Vec::new());
    let mut store = Some(store);

    let context = ClientHintContext::new(&one, "https://example.test", &settings);
    for (connection, expected) in [
        (None, vec!["sec-ch-ua", "x-caller"]),
        (
            Some(&b"Sec-CH-UA-Platform-Version"[..]),
            vec!["sec-ch-ua", "sec-ch-ua-platform-version", "x-caller"],
        ),
    ] {
        let caller = vec![RequestHeader::new("x-caller", b"1")];
        let prepared = context.prepare(&mut store, caller, connection).map_err(text)?;
        assert_eq!(prepared.iter().map(name).collect::<Vec<_>>(), expected);
    }

    if let Some(store) = &mut store {
        store.learn_and_should_retry(&one, &settings, &learned, &Vec::new());
    }
    let prepared = context.prepare(&mut store, Vec::new(), None).map_err(text)?;
    assert_eq!(
        prepared.iter().map(name).collect::<Vec<_>>(),
        ["sec-ch-ua", "sec-ch-ua-arch"]
    );
    Ok(())
}
