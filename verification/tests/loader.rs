use sentry_loader::loader::{not_found_response, holds, AppState, LoaderResponse, Step};
use sentry_loader::sentry_client::{
    Exchange, ListOrganizationResponse, ListProjectClientKeysResponse, ListProjectResponse,
    SentryClient, SentryError,
};
use sentry_loader::sentry_dsn_builder::SentryDsnBuilder;
use sentry_loader::template_files::TemplateFiles;

/// An upstream on paper: its projects in the order it lists them, each with
/// the status of its key listing and its keys.
struct Upstream {
    projects: Vec<(&'static str, &'static str, u16, Vec<&'static str>)>,
}

fn state(use_https: bool) -> AppState {
    AppState {
        sentry_public_hostname: String::from("selfhosted.sentry.dev"),
        js_sdk_version: String::from("latest"),
        use_https,
        sentry_dsn_builder: SentryDsnBuilder {
            sentry_hostname: String::from("selfhosted.sentry.dev"),
            secure: use_https,
        },
        sentry_client: SentryClient::new(String::from("http://web:9000"), String::new()),
        template_files: TemplateFiles {
            js_sdk_loader: String::from(
                "{% load sentry_helpers %}load('{{ publicKey|safe }}', '{{ jsSdkUrl|safe }}', {{ config|to_json|safe }}, {{ isLazy|safe|lower }});\n",
            ),
            js_sdk_min_loader: String::from(
                "{% load sentry_helpers %}l('{{ publicKey|safe }}','{{ jsSdkUrl|safe }}',{{ config|to_json|safe }},{{ isLazy|safe|lower }})",
            ),
        },
    }
}

/// Does what each step asks until the search is over, and keeps the URLs asked.
fn serve(state: &AppState, upstream: &Upstream, segment: &str) -> (Step, Vec<String>) {
    let mut asked = Vec::new();
    let mut step = state.loader_with_public_key(String::from(segment));
    loop {
        step = match step {
            Step::ListProjects { url, query } => {
                asked.push(url);
                let body = upstream
                    .projects
                    .iter()
                    .map(|(organization, project, _, _)| ListProjectResponse {
                        slug: String::from(*project),
                        organization: ListOrganizationResponse { slug: String::from(*organization) },
                    })
                    .collect();
                state.with_projects(query, Exchange::Answered { status: 200, body: Ok(body) })
            }
            Step::ListProjectClientKeys { url, query } => {
                let listed = upstream
                    .projects
                    .iter()
                    .find(|(organization, project, _, _)| {
                        url == format!("http://web:9000/api/0/projects/{}/{}/keys/", organization, project)
                    })
                    .unwrap();
                assert_eq!(query.organization(), listed.0);
                assert_eq!(query.project(), listed.1);
                asked.push(url);
                let body = if listed.2 == 200 {
                    Ok(listed
                        .3
                        .iter()
                        .map(|public| ListProjectClientKeysResponse { public: String::from(*public) })
                        .collect())
                } else {
                    Err(String::new())
                };
                state.with_client_keys(query, Exchange::Answered { status: listed.2, body })
            }
            last => return (last, asked),
        };
    }
}

fn response(step: Step) -> LoaderResponse {
    match step {
        Step::Respond(response) => response,
        other => panic!("no response: {:?}", other),
    }
}

fn acme() -> Upstream {
    Upstream { projects: vec![("acme", "web", 200, vec!["abc123"])] }
}

fn three_projects() -> Upstream {
    Upstream {
        projects: vec![
            ("acme", "web", 200, vec!["k1", "k2"]),
            ("acme", "api", 200, vec![]),
            ("zeta", "app", 200, vec!["k3", "abc123", "k4"]),
        ],
    }
}

#[test]
fn not_found_is_plain_text() {
    let response = not_found_response();
    assert_eq!(response.status, 404);
    assert_eq!(response.content_type, "text/plain");
    assert_eq!(response.body, "Not found");
}

#[test]
fn holds_looks_for_the_whole_key() {
    let keys = vec![String::from("abc"), String::from("abc123"), String::new()];
    assert!(holds(&keys, &String::from("abc123")));
    assert!(holds(&keys, &String::from("abc")));
    assert!(holds(&keys, &String::new()));
    assert!(!holds(&keys, &String::from("abc12")));
    assert!(!holds(&keys, &String::from("ABC")));
    assert!(!holds(&Vec::new(), &String::from("abc")));
}

#[test]
fn segment_without_suffix_is_not_found_and_asks_nothing() {
    for segment in ["abc123", "", "abc123.css", "abc123.js.map", "abc123.JS", "abc123.min", "js", "abc123js", "abc123.js "] {
        let (last, asked) = serve(&state(false), &acme(), segment);
        assert_eq!(response(last), not_found_response(), "{segment:?}");
        assert!(asked.is_empty(), "{segment:?}");
    }
}

#[test]
fn script_segment_asks_for_the_projects_first() {
    match state(false).loader_with_public_key(String::from("abc123.js")) {
        Step::ListProjects { url, query } => {
            assert_eq!(url, "http://web:9000/api/0/projects/");
            assert_eq!(query.public_key(), "abc123");
            assert!(!query.minified());
        }
        other => panic!("{:?}", other),
    }
}

#[test]
fn minified_segment_asks_for_the_projects_first() {
    match state(false).loader_with_public_key(String::from("abc123.min.js")) {
        Step::ListProjects { url, query } => {
            assert_eq!(url, "http://web:9000/api/0/projects/");
            assert_eq!(query.public_key(), "abc123");
            assert!(query.minified());
        }
        other => panic!("{:?}", other),
    }
}

#[test]
fn only_the_suffix_comes_off_the_segment() {
    let cases = [
        ("a.js.js", "a.js", false),
        ("a.js.min.js", "a.js", true),
        ("a.min.js.min.js", "a.min.js", true),
        (".js", "", false),
        (".min.js", "", true),
        ("a.min.js.js", "a.min.js", false),
        ("ä€.js", "ä€", false),
    ];
    for (segment, key, minified) in cases {
        match state(false).loader_with_public_key(String::from(segment)) {
            Step::ListProjects { query, .. } => {
                assert_eq!(query.public_key(), key, "{segment:?}");
                assert_eq!(query.minified(), minified, "{segment:?}");
            }
            other => panic!("{:?}", other),
        }
    }
}

#[test]
fn end_to_end_key_of_acme_web() {
    let (last, asked) = serve(&state(false), &acme(), "abc123.js");
    let response = response(last);
    assert_eq!(response.status, 200);
    assert_eq!(response.content_type, "text/javascript");
    assert!(response.body.contains("http://abc123@selfhosted.sentry.dev/web"));
    assert_eq!(
        response.body,
        "load('abc123', 'http://selfhosted.sentry.dev/latest/bundle.tracing.replay.min.js', {\"dsn\":\"http://abc123@selfhosted.sentry.dev/web\",\"tracesSampleRate\":1,\"replaysSessionSampleRate\":0.1,\"replaysOnErrorSampleRate\":1}, false);\n"
    );
    assert_eq!(
        asked,
        vec!["http://web:9000/api/0/projects/", "http://web:9000/api/0/projects/acme/web/keys/"]
    );
}

#[test]
fn end_to_end_unknown_key() {
    let (last, asked) = serve(&state(false), &acme(), "zzz.js");
    let response = response(last);
    assert_eq!(response.status, 404);
    assert_eq!(response.content_type, "text/plain");
    assert_eq!(response.body, "Not found");
    assert_eq!(asked.len(), 2);
}

#[test]
fn minified_request_gets_the_minified_loader() {
    let (last, _) = serve(&state(false), &acme(), "abc123.min.js");
    let minified = response(last);
    assert_eq!(minified.status, 200);
    assert_eq!(minified.content_type, "text/javascript");
    assert_eq!(
        minified.body,
        "l('abc123','http://selfhosted.sentry.dev/latest/bundle.tracing.replay.min.js',{\"dsn\":\"http://abc123@selfhosted.sentry.dev/web\",\"tracesSampleRate\":1,\"replaysSessionSampleRate\":0.1,\"replaysOnErrorSampleRate\":1},false)"
    );
    assert!(!minified.body.contains("{{ isLazy|safe|lower }}"));
    let (last, _) = serve(&state(false), &acme(), "abc123.js");
    assert_ne!(response(last).body, minified.body);
}

#[test]
fn https_goes_into_dsn_and_bundle_url() {
    let (last, _) = serve(&state(true), &acme(), "abc123.js");
    let body = response(last).body;
    assert!(body.contains("https://abc123@selfhosted.sentry.dev/web"));
    assert!(body.contains("'https://selfhosted.sentry.dev/latest/bundle.tracing.replay.min.js'"));
    assert_eq!(state(true).js_sdk_url(), "https://selfhosted.sentry.dev/latest/bundle.tracing.replay.min.js");
    assert_eq!(state(false).js_sdk_url(), "http://selfhosted.sentry.dev/latest/bundle.tracing.replay.min.js");
}

#[test]
fn search_stops_at_the_first_owner() {
    let upstream = Upstream {
        projects: vec![
            ("acme", "web", 200, vec!["k1"]),
            ("acme", "api", 200, vec!["k2", "abc123"]),
            ("zeta", "app", 200, vec!["abc123"]),
            ("zeta", "old", 500, vec![]),
        ],
    };
    let (last, asked) = serve(&state(false), &upstream, "abc123.js");
    let response = response(last);
    assert_eq!(response.status, 200);
    assert!(response.body.contains("http://abc123@selfhosted.sentry.dev/api\""));
    assert_eq!(
        asked,
        vec![
            "http://web:9000/api/0/projects/",
            "http://web:9000/api/0/projects/acme/web/keys/",
            "http://web:9000/api/0/projects/acme/api/keys/",
        ]
    );
}

#[test]
fn unowned_key_asks_every_project_once() {
    let (last, asked) = serve(&state(false), &three_projects(), "nobody.js");
    assert_eq!(response(last), not_found_response());
    assert_eq!(
        asked,
        vec![
            "http://web:9000/api/0/projects/",
            "http://web:9000/api/0/projects/acme/web/keys/",
            "http://web:9000/api/0/projects/acme/api/keys/",
            "http://web:9000/api/0/projects/zeta/app/keys/",
        ]
    );
}

#[test]
fn key_must_match_exactly() {
    for segment in ["abc12.js", "abc1234.js", "ABC123.js", "bc123.js", " abc123.js"] {
        let (last, asked) = serve(&state(false), &three_projects(), segment);
        assert_eq!(response(last), not_found_response(), "{segment:?}");
        assert_eq!(asked.len(), 4);
    }
}

#[test]
fn no_projects_is_not_found_after_one_get() {
    let (last, asked) = serve(&state(false), &Upstream { projects: vec![] }, "abc123.js");
    assert_eq!(response(last), not_found_response());
    assert_eq!(asked, vec!["http://web:9000/api/0/projects/"]);
}

#[test]
fn missing_project_is_passed_over() {
    let upstream = Upstream {
        projects: vec![
            ("acme", "gone", 404, vec![]),
            ("acme", "web", 200, vec!["abc123"]),
        ],
    };
    let (last, asked) = serve(&state(false), &upstream, "abc123.js");
    let response = response(last);
    assert_eq!(response.status, 200);
    assert!(response.body.contains("http://abc123@selfhosted.sentry.dev/web"));
    assert_eq!(asked.len(), 3);
}

#[test]
fn missing_last_project_ends_in_not_found() {
    let upstream = Upstream {
        projects: vec![("acme", "web", 200, vec!["k1"]), ("acme", "gone", 404, vec![])],
    };
    let (last, asked) = serve(&state(false), &upstream, "abc123.js");
    assert_eq!(response(last), not_found_response());
    assert_eq!(asked.len(), 3);
}

#[test]
fn server_error_on_keys_fails_the_request() {
    let upstream = Upstream {
        projects: vec![
            ("acme", "web", 200, vec!["k1"]),
            ("acme", "down", 500, vec![]),
            ("zeta", "app", 200, vec!["abc123"]),
        ],
    };
    let (last, asked) = serve(&state(false), &upstream, "abc123.js");
    match last {
        Step::Fail(error) => assert_eq!(error, SentryError::StatusCodeNotSuccessful(500)),
        other => panic!("{:?}", other),
    }
    assert_eq!(asked.len(), 3);
}

#[test]
fn failed_project_listing_fails_the_request() {
    let state = state(false);
    let query = match state.loader_with_public_key(String::from("abc123.js")) {
        Step::ListProjects { query, .. } => query,
        other => panic!("{:?}", other),
    };
    match state.with_projects(query, Exchange::Answered { status: 503, body: Err(String::new()) }) {
        Step::Fail(error) => assert_eq!(error, SentryError::StatusCodeNotSuccessful(503)),
        other => panic!("{:?}", other),
    }
    let query = match state.loader_with_public_key(String::from("abc123.js")) {
        Step::ListProjects { query, .. } => query,
        other => panic!("{:?}", other),
    };
    match state.with_projects(query, Exchange::Answered { status: 404, body: Err(String::new()) }) {
        Step::Fail(error) => assert_eq!(error, SentryError::StatusCodeNotSuccessful(404)),
        other => panic!("{:?}", other),
    }
}

#[test]
fn transport_and_decode_failures_fail_the_request() {
    let state = state(false);
    let query = match state.loader_with_public_key(String::from("abc123.js")) {
        Step::ListProjects { query, .. } => query,
        other => panic!("{:?}", other),
    };
    match state.with_projects(query, Exchange::Unanswered(String::from("connection refused"))) {
        Step::Fail(error) => assert_eq!(error, SentryError::RequestError(String::from("connection refused"))),
        other => panic!("{:?}", other),
    }
    let query = match state.loader_with_public_key(String::from("abc123.js")) {
        Step::ListProjects { query, .. } => query,
        other => panic!("{:?}", other),
    };
    let projects = vec![ListProjectResponse {
        slug: String::from("web"),
        organization: ListOrganizationResponse { slug: String::from("acme") },
    }];
    let query = match state.with_projects(query, Exchange::Answered { status: 200, body: Ok(projects) }) {
        Step::ListProjectClientKeys { query, .. } => query,
        other => panic!("{:?}", other),
    };
    assert_eq!(query.public_key(), "abc123");
    match state.with_client_keys(query, Exchange::Answered { status: 200, body: Err(String::from("expected value")) }) {
        Step::Fail(error) => assert_eq!(error, SentryError::JsonParsingError(String::from("expected value"))),
        other => panic!("{:?}", other),
    }
}

#[test]
fn empty_key_is_searched_like_any_other() {
    let upstream = Upstream { projects: vec![("acme", "web", 200, vec!["k1", ""])] };
    let (last, _) = serve(&state(false), &upstream, ".js");
    let response = response(last);
    assert_eq!(response.status, 200);
    assert!(response.body.contains("http://@selfhosted.sentry.dev/web"));
}

#[test]
fn same_request_twice_gives_the_same_response() {
    let (first, _) = serve(&state(false), &three_projects(), "abc123.min.js");
    let (second, _) = serve(&state(false), &three_projects(), "abc123.min.js");
    assert_eq!(response(first), response(second));
}
