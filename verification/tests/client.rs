use sentry_loader::sentry_client::{
    status_is_success, Exchange, ListOrganizationResponse, ListProjectClientKeysResponse,
    ListProjectResponse, SentryClient, SentryError, NOT_FOUND,
};

fn client() -> SentryClient {
    SentryClient::new(String::from("http://upstream:9000"), String::from("s3cr3t"))
}

fn project(organization: &str, slug: &str) -> ListProjectResponse {
    ListProjectResponse {
        slug: String::from(slug),
        organization: ListOrganizationResponse { slug: String::from(organization) },
    }
}

fn key(public: &str) -> ListProjectClientKeysResponse {
    ListProjectClientKeysResponse { public: String::from(public) }
}

#[test]
fn urls_of_the_listings() {
    let client = client();
    assert_eq!(client.list_organization_url(), "http://upstream:9000/api/0/organizations/");
    assert_eq!(client.list_projects_url(), "http://upstream:9000/api/0/projects/");
    assert_eq!(
        client.list_projects_by_organization_id_url("acme"),
        "http://upstream:9000/api/0/organizations/acme/projects/"
    );
    assert_eq!(
        client.list_project_client_keys_url("acme", "web"),
        "http://upstream:9000/api/0/projects/acme/web/keys/"
    );
}

#[test]
fn default_client_asks_the_web_host_without_a_token() {
    let client = SentryClient::default();
    assert_eq!(client.list_projects_url(), "http://web:9000/api/0/projects/");
    assert_eq!(client.authorization(), None);
}

#[test]
fn token_goes_out_as_bearer() {
    assert_eq!(client().authorization(), Some(String::from("Bearer s3cr3t")));
}

#[test]
fn empty_token_sends_no_authorization() {
    let client = SentryClient::new(String::from("http://upstream:9000"), String::new());
    assert_eq!(client.authorization(), None);
}

#[test]
fn success_is_any_status_from_200_to_299() {
    for status in [0u16, 100, 199, 300, 301, 404, 500, 999, u16::MAX] {
        assert!(!status_is_success(status), "{status}");
    }
    for status in [200u16, 201, 204, 299] {
        assert!(status_is_success(status), "{status}");
    }
    assert_eq!(NOT_FOUND, 404);
}

#[test]
fn organizations_come_in_the_order_of_the_response() {
    let exchange = Exchange::Answered {
        status: 200,
        body: Ok(vec![
            ListOrganizationResponse { slug: String::from("zeta") },
            ListOrganizationResponse { slug: String::from("acme") },
        ]),
    };
    assert_eq!(client().list_organization(exchange), Ok(vec![String::from("zeta"), String::from("acme")]));
}

#[test]
fn projects_come_with_their_organization_first() {
    let exchange = Exchange::Answered {
        status: 200,
        body: Ok(vec![project("acme", "web"), project("acme", "api"), project("zeta", "web")]),
    };
    assert_eq!(
        client().list_projects(exchange),
        Ok(vec![
            (String::from("acme"), String::from("web")),
            (String::from("acme"), String::from("api")),
            (String::from("zeta"), String::from("web")),
        ])
    );
}

#[test]
fn projects_of_an_organization_come_by_slug() {
    let exchange = Exchange::Answered { status: 201, body: Ok(vec![project("acme", "web"), project("acme", "api")]) };
    assert_eq!(
        client().list_projects_by_organization_id(exchange),
        Ok(vec![String::from("web"), String::from("api")])
    );
}

#[test]
fn client_keys_come_by_their_public_part() {
    let exchange = Exchange::Answered { status: 200, body: Ok(vec![key("abc123"), key("def456")]) };
    assert_eq!(
        client().list_project_client_keys(exchange),
        Ok(vec![String::from("abc123"), String::from("def456")])
    );
}

#[test]
fn empty_listings_are_empty() {
    assert_eq!(client().list_organization(Exchange::Answered { status: 200, body: Ok(vec![]) }), Ok(vec![]));
    assert_eq!(client().list_projects(Exchange::Answered { status: 200, body: Ok(vec![]) }), Ok(vec![]));
    assert_eq!(
        client().list_projects_by_organization_id(Exchange::Answered { status: 200, body: Ok(vec![]) }),
        Ok(vec![])
    );
    assert_eq!(client().list_project_client_keys(Exchange::Answered { status: 200, body: Ok(vec![]) }), Ok(vec![]));
}

#[test]
fn missing_project_has_no_client_keys() {
    let exchange = Exchange::Answered { status: 404, body: Err(String::new()) };
    assert_eq!(client().list_project_client_keys(exchange), Ok(vec![]));
    // Whatever the body of such a response decodes to is not read.
    let exchange = Exchange::Answered { status: 404, body: Ok(vec![key("abc123")]) };
    assert_eq!(client().list_project_client_keys(exchange), Ok(vec![]));
}

#[test]
fn missing_is_an_error_for_the_other_listings() {
    assert_eq!(
        client().list_organization(Exchange::Answered { status: 404, body: Err(String::new()) }),
        Err(SentryError::StatusCodeNotSuccessful(404))
    );
    assert_eq!(
        client().list_projects(Exchange::Answered { status: 404, body: Err(String::new()) }),
        Err(SentryError::StatusCodeNotSuccessful(404))
    );
    assert_eq!(
        client().list_projects_by_organization_id(Exchange::Answered { status: 404, body: Err(String::new()) }),
        Err(SentryError::StatusCodeNotSuccessful(404))
    );
}

#[test]
fn other_statuses_are_errors() {
    for status in [100u16, 199, 300, 302, 400, 401, 403, 405, 500, 503] {
        assert_eq!(
            client().list_project_client_keys(Exchange::Answered { status, body: Ok(vec![key("abc123")]) }),
            Err(SentryError::StatusCodeNotSuccessful(status))
        );
        assert_eq!(
            client().list_projects(Exchange::Answered { status, body: Ok(vec![project("acme", "web")]) }),
            Err(SentryError::StatusCodeNotSuccessful(status))
        );
        assert_eq!(
            client().list_organization(Exchange::Answered { status, body: Ok(vec![]) }),
            Err(SentryError::StatusCodeNotSuccessful(status))
        );
        assert_eq!(
            client().list_projects_by_organization_id(Exchange::Answered { status, body: Ok(vec![]) }),
            Err(SentryError::StatusCodeNotSuccessful(status))
        );
    }
}

#[test]
fn undecodable_body_is_a_json_error() {
    let reason = String::from("missing field `slug` at line 1 column 17");
    assert_eq!(
        client().list_projects(Exchange::Answered { status: 200, body: Err(reason.clone()) }),
        Err(SentryError::JsonParsingError(reason.clone()))
    );
    assert_eq!(
        client().list_project_client_keys(Exchange::Answered { status: 200, body: Err(reason.clone()) }),
        Err(SentryError::JsonParsingError(reason.clone()))
    );
    assert_eq!(
        client().list_organization(Exchange::Answered { status: 200, body: Err(reason.clone()) }),
        Err(SentryError::JsonParsingError(reason.clone()))
    );
    assert_eq!(
        client().list_projects_by_organization_id(Exchange::Answered { status: 200, body: Err(reason.clone()) }),
        Err(SentryError::JsonParsingError(reason))
    );
}

#[test]
fn unanswered_request_is_a_request_error() {
    let reason = String::from("error sending request for url (http://upstream:9000/api/0/projects/)");
    assert_eq!(
        client().list_projects(Exchange::Unanswered(reason.clone())),
        Err(SentryError::RequestError(reason.clone()))
    );
    assert_eq!(
        client().list_project_client_keys(Exchange::Unanswered(reason.clone())),
        Err(SentryError::RequestError(reason.clone()))
    );
    assert_eq!(
        client().list_organization(Exchange::Unanswered(reason.clone())),
        Err(SentryError::RequestError(reason.clone()))
    );
    assert_eq!(
        client().list_projects_by_organization_id(Exchange::Unanswered(reason.clone())),
        Err(SentryError::RequestError(reason))
    );
}

#[test]
fn the_three_failures_are_told_apart() {
    let transport = client().list_projects(Exchange::Unanswered(String::from("x"))).unwrap_err();
    let status = client().list_projects(Exchange::Answered { status: 500, body: Err(String::from("x")) }).unwrap_err();
    let decode = client().list_projects(Exchange::Answered { status: 200, body: Err(String::from("x")) }).unwrap_err();
    assert_ne!(transport, status);
    assert_ne!(transport, decode);
    assert_ne!(status, decode);
}

#[test]
fn errors_in_words() {
    assert_eq!(SentryError::StatusCodeNotSuccessful(500).message(), "Status code not successful: 500");
    assert_eq!(SentryError::StatusCodeNotSuccessful(0).message(), "Status code not successful: 0");
    assert_eq!(SentryError::RequestError(String::from("timed out")).message(), "Request error: timed out");
    assert_eq!(SentryError::ResponseError(String::from("cut short")).message(), "Response error: cut short");
    assert_eq!(
        SentryError::JsonParsingError(String::from("expected value")).message(),
        "Json parsing error: expected value"
    );
}
