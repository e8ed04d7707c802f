//! The upstream Sentry API: what is asked of it, and what its answers mean.
//!
//! Nothing here talks to the network. A caller sends a GET to the URL that a
//! `*_url` method gives, with the header that [`SentryClient::authorization`]
//! gives, and hands how that went to the matching `list_*` method as an
//! [`Exchange`].

use crate::text::{decimal, decimal_text};
use vstd::prelude::*;
use vstd::string::*;

verus! {

/// Why a listing failed.
#[derive(Debug, Clone, PartialEq, Eq)]
pub enum SentryError {
    /// The upstream answered with this status, which is not a success.
    StatusCodeNotSuccessful(u16),
    /// The request did not complete.
    RequestError(String),
    /// The response could not be read.
    ResponseError(String),
    /// The body of a successful response did not decode.
    JsonParsingError(String),
}

/// A [`SentryError`] with its texts as sequences of characters.
pub enum SentryErrorView {
    StatusCodeNotSuccessful(u16),
    RequestError(Seq<char>),
    ResponseError(Seq<char>),
    JsonParsingError(Seq<char>),
}

impl View for SentryError {
    type V = SentryErrorView;

    open spec fn view(&self) -> SentryErrorView {
        match *self {
            SentryError::StatusCodeNotSuccessful(status) => SentryErrorView::StatusCodeNotSuccessful(
                status,
            ),
            SentryError::RequestError(reason) => SentryErrorView::RequestError(reason@),
            SentryError::ResponseError(reason) => SentryErrorView::ResponseError(reason@),
            SentryError::JsonParsingError(reason) => SentryErrorView::JsonParsingError(reason@),
        }
    }
}

impl SentryErrorView {
    /// The error in words.
    pub open spec fn message(self) -> Seq<char> {
        match self {
            SentryErrorView::StatusCodeNotSuccessful(status) => "Status code not successful: "@
                + decimal(status as nat),
            SentryErrorView::RequestError(reason) => "Request error: "@ + reason,
            SentryErrorView::ResponseError(reason) => "Response error: "@ + reason,
            SentryErrorView::JsonParsingError(reason) => "Json parsing error: "@ + reason,
        }
    }
}

impl SentryError {
    /// The error in words.
    pub fn message(&self) -> (text: String)
        ensures
            text@ == self@.message(),
    {
        match self {
            SentryError::StatusCodeNotSuccessful(status) => {
                let mut text = String::from_str("Status code not successful: ");
                text.append(decimal_text(*status).as_str());
                text
            },
            SentryError::RequestError(reason) => {
                let mut text = String::from_str("Request error: ");
                text.append(reason.as_str());
                text
            },
            SentryError::ResponseError(reason) => {
                let mut text = String::from_str("Response error: ");
                text.append(reason.as_str());
                text
            },
            SentryError::JsonParsingError(reason) => {
                let mut text = String::from_str("Json parsing error: ");
                text.append(reason.as_str());
                text
            },
        }
    }
}

/// One organization, as the upstream lists it.
#[derive(Debug, Clone)]
pub struct ListOrganizationResponse {
    pub slug: String,
}

/// One project, as the upstream lists it.
#[derive(Debug, Clone)]
pub struct ListProjectResponse {
    pub slug: String,
    pub organization: ListOrganizationResponse,
}

/// One client key of a project, as the upstream lists it.
#[derive(Debug, Clone)]
pub struct ListProjectClientKeysResponse {
    pub public: String,
}

/// How one GET to the upstream went. `T` is the element of the JSON array
/// that a successful response carries.
#[derive(Debug)]
pub enum Exchange<T> {
    /// No response arrived; the transport's account of why.
    Unanswered(String),
    /// A response arrived. `body` is its decoded body, or the decoder's
    /// account of why it did not decode; it counts only where `status` is a
    /// success.
    Answered { status: u16, body: Result<Vec<T>, String> },
}

/// The status of a response that went well.
pub open spec fn is_success(status: u16) -> bool {
    200 <= status < 300
}

/// The status of a response that says the resource does not exist.
pub const NOT_FOUND: u16 = 404;

/// What an exchange comes to: the entries listed, or the error. Where
/// `missing_is_empty` holds, a response that says the resource does not
/// exist lists nothing and is no error.
pub open spec fn listing<T>(exchange: Exchange<T>, missing_is_empty: bool) -> Result<
    Seq<T>,
    SentryErrorView,
> {
    match exchange {
        Exchange::Unanswered(reason) => Err(SentryErrorView::RequestError(reason@)),
        Exchange::Answered { status, body } => if is_success(status) {
            match body {
                Ok(entries) => Ok(entries@),
                Err(reason) => Err(SentryErrorView::JsonParsingError(reason@)),
            }
        } else if missing_is_empty && status == NOT_FOUND {
            Ok(Seq::empty())
        } else {
            Err(SentryErrorView::StatusCodeNotSuccessful(status))
        },
    }
}

/// The slugs of the organizations that an exchange lists.
pub open spec fn organizations_listed(exchange: Exchange<ListOrganizationResponse>) -> Result<
    Seq<Seq<char>>,
    SentryErrorView,
> {
    match listing(exchange, false) {
        Ok(entries) => Ok(entries.map_values(|entry: ListOrganizationResponse| entry.slug@)),
        Err(error) => Err(error),
    }
}

/// The projects that an exchange lists, each as the slug of its organization
/// and its own slug.
pub open spec fn projects_listed(exchange: Exchange<ListProjectResponse>) -> Result<
    Seq<(Seq<char>, Seq<char>)>,
    SentryErrorView,
> {
    match listing(exchange, false) {
        Ok(entries) => Ok(
            entries.map_values(|entry: ListProjectResponse| (entry.organization.slug@, entry.slug@)),
        ),
        Err(error) => Err(error),
    }
}

/// The slugs of the projects that an exchange lists.
pub open spec fn project_slugs_listed(exchange: Exchange<ListProjectResponse>) -> Result<
    Seq<Seq<char>>,
    SentryErrorView,
> {
    match listing(exchange, false) {
        Ok(entries) => Ok(entries.map_values(|entry: ListProjectResponse| entry.slug@)),
        Err(error) => Err(error),
    }
}

/// The client keys that an exchange lists. A project that the upstream does
/// not know has no keys.
pub open spec fn client_keys_listed(exchange: Exchange<ListProjectClientKeysResponse>) -> Result<
    Seq<Seq<char>>,
    SentryErrorView,
> {
    match listing(exchange, true) {
        Ok(entries) => Ok(entries.map_values(|entry: ListProjectClientKeysResponse| entry.public@)),
        Err(error) => Err(error),
    }
}

/// A listing of names with its texts as sequences of characters.
pub open spec fn names_view(outcome: Result<Vec<String>, SentryError>) -> Result<
    Seq<Seq<char>>,
    SentryErrorView,
> {
    match outcome {
        Ok(names) => Ok(names.deep_view()),
        Err(error) => Err(error@),
    }
}

/// A listing of projects with its texts as sequences of characters.
pub open spec fn projects_view(outcome: Result<Vec<(String, String)>, SentryError>) -> Result<
    Seq<(Seq<char>, Seq<char>)>,
    SentryErrorView,
> {
    match outcome {
        Ok(projects) => Ok(projects.deep_view()),
        Err(error) => Err(error@),
    }
}

/// Whether `status` is that of a response that went well.
pub fn status_is_success(status: u16) -> (success: bool)
    ensures
        success == is_success(status),
{
    200 <= status && status < 300
}

/// What an exchange comes to, before its entries are read.
fn settle<T>(exchange: Exchange<T>, missing_is_empty: bool) -> (outcome: Result<Vec<T>, SentryError>)
    ensures
        match listing(exchange, missing_is_empty) {
            Ok(entries) => outcome is Ok && outcome->Ok_0@ == entries,
            Err(error) => outcome is Err && outcome->Err_0@ == error,
        },
{
    match exchange {
        Exchange::Unanswered(reason) => Err(SentryError::RequestError(reason)),
        Exchange::Answered { status, body } => {
            if status_is_success(status) {
                match body {
                    Ok(entries) => Ok(entries),
                    Err(reason) => Err(SentryError::JsonParsingError(reason)),
                }
            } else if missing_is_empty && status == NOT_FOUND {
                Ok(Vec::new())
            } else {
                Err(SentryError::StatusCodeNotSuccessful(status))
            }
        },
    }
}

/// The address of the upstream and the token that opens it.
#[derive(Clone)]
pub struct SentryClient {
    upstream_url: String,
    auth_token: String,
}

impl Default for SentryClient {
    /// A client of `http://web:9000` without a token.
    fn default() -> (client: Self)
        ensures
            client.upstream() == "http://web:9000"@,
            client.token() == Seq::<char>::empty(),
    {
        Self { upstream_url: String::from_str("http://web:9000"), auth_token: String::new() }
    }
}

impl SentryClient {
    /// The base URL of the upstream.
    pub closed spec fn upstream(&self) -> Seq<char> {
        self.upstream_url@
    }

    /// The bearer token; empty where the upstream asks for none.
    pub closed spec fn token(&self) -> Seq<char> {
        self.auth_token@
    }

    /// The value of the `Authorization` header, where there is a token.
    pub open spec fn authorization_text(&self) -> Option<Seq<char>> {
        if self.token().len() == 0 {
            None
        } else {
            Some("Bearer "@ + self.token())
        }
    }

    /// Where the upstream lists all organizations.
    pub open spec fn organizations_address(&self) -> Seq<char> {
        self.upstream() + "/api/0/organizations/"@
    }

    /// Where the upstream lists all projects.
    pub open spec fn projects_address(&self) -> Seq<char> {
        self.upstream() + "/api/0/projects/"@
    }

    /// Where the upstream lists the projects of one organization.
    pub open spec fn organization_projects_address(&self, organization: Seq<char>) -> Seq<char> {
        self.upstream() + "/api/0/organizations/"@ + organization + "/projects/"@
    }

    /// Where the upstream lists the client keys of one project.
    pub open spec fn project_client_keys_address(
        &self,
        organization: Seq<char>,
        project: Seq<char>,
    ) -> Seq<char> {
        self.upstream() + "/api/0/projects/"@ + organization + "/"@ + project + "/keys/"@
    }

    /// A client of the upstream at `upstream_url`. An empty `auth_token`
    /// means that requests go out without an `Authorization` header.
    pub fn new(upstream_url: String, auth_token: String) -> (client: Self)
        ensures
            client.upstream() == upstream_url@,
            client.token() == auth_token@,
    {
        Self { upstream_url, auth_token }
    }

    /// The value that every request carries in its `Authorization` header,
    /// to be marked as sensitive; `None` where no token is set.
    pub fn authorization(&self) -> (value: Option<String>)
        ensures
            value is Some == self.authorization_text() is Some,
            value is Some ==> value->0@ == self.authorization_text()->0,
    {
        if self.auth_token.as_str().is_empty() {
            None
        } else {
            let mut value = String::from_str("Bearer ");
            value.append(self.auth_token.as_str());
            Some(value)
        }
    }

    /// The URL to GET for [`SentryClient::list_organization`].
    pub fn list_organization_url(&self) -> (url: String)
        ensures
            url@ == self.organizations_address(),
    {
        let mut url = self.upstream_url.clone();
        url.append("/api/0/organizations/");
        url
    }

    /// The URL to GET for [`SentryClient::list_projects`].
    pub fn list_projects_url(&self) -> (url: String)
        ensures
            url@ == self.projects_address(),
    {
        let mut url = self.upstream_url.clone();
        url.append("/api/0/projects/");
        url
    }

    /// The URL to GET for [`SentryClient::list_projects_by_organization_id`].
    pub fn list_projects_by_organization_id_url(&self, organization_id: &str) -> (url: String)
        ensures
            url@ == self.organization_projects_address(organization_id@),
    {
        let mut url = self.upstream_url.clone();
        url.append("/api/0/organizations/");
        url.append(organization_id);
        url.append("/projects/");
        url
    }

    /// The URL to GET for [`SentryClient::list_project_client_keys`].
    pub fn list_project_client_keys_url(&self, organization_id: &str, project_id: &str) -> (url:
        String)
        ensures
            url@ == self.project_client_keys_address(organization_id@, project_id@),
    {
        let mut url = self.upstream_url.clone();
        url.append("/api/0/projects/");
        url.append(organization_id);
        url.append("/");
        url.append(project_id);
        url.append("/keys/");
        url
    }

    /// The slugs of all organizations, in the order of the response.
    pub fn list_organization(&self, exchange: Exchange<ListOrganizationResponse>) -> (outcome:
        Result<Vec<String>, SentryError>)
        ensures
            names_view(outcome) == organizations_listed(exchange),
    {
        match settle(exchange, false) {
            Ok(entries) => {
                let mut slugs: Vec<String> = Vec::new();
                let mut i: usize = 0;
                while i < entries.len()
                    invariant
                        i <= entries.len(),
                        slugs.len() == i,
                        forall|k: int| 0 <= k < i ==> slugs[k]@ == entries[k].slug@,
                    decreases entries.len() - i,
                {
                    slugs.push(entries[i].slug.clone());
                    i += 1;
                }
                assert(slugs.deep_view() =~= entries@.map_values(
                    |entry: ListOrganizationResponse| entry.slug@,
                ));
                Ok(slugs)
            },
            Err(error) => Err(error),
        }
    }

    /// All projects, each as the slug of its organization and its own slug,
    /// in the order of the response.
    pub fn list_projects(&self, exchange: Exchange<ListProjectResponse>) -> (outcome: Result<
        Vec<(String, String)>,
        SentryError,
    >)
        ensures
            projects_view(outcome) == projects_listed(exchange),
    {
        match settle(exchange, false) {
            Ok(entries) => {
                let mut projects: Vec<(String, String)> = Vec::new();
                let mut i: usize = 0;
                while i < entries.len()
                    invariant
                        i <= entries.len(),
                        projects.len() == i,
                        forall|k: int|
                            0 <= k < i ==> projects[k].0@ == entries[k].organization.slug@
                                && projects[k].1@ == entries[k].slug@,
                    decreases entries.len() - i,
                {
                    projects.push((entries[i].organization.slug.clone(), entries[i].slug.clone()));
                    i += 1;
                }
                assert(projects.deep_view() =~= entries@.map_values(
                    |entry: ListProjectResponse| (entry.organization.slug@, entry.slug@),
                ));
                Ok(projects)
            },
            Err(error) => Err(error),
        }
    }

    /// The slugs of the projects of one organization, in the order of the
    /// response.
    pub fn list_projects_by_organization_id(
        &self,
        exchange: Exchange<ListProjectResponse>,
    ) -> (outcome: Result<Vec<String>, SentryError>)
        ensures
            names_view(outcome) == project_slugs_listed(exchange),
    {
        match settle(exchange, false) {
            Ok(entries) => {
                let mut slugs: Vec<String> = Vec::new();
                let mut i: usize = 0;
                while i < entries.len()
                    invariant
                        i <= entries.len(),
                        slugs.len() == i,
                        forall|k: int| 0 <= k < i ==> slugs[k]@ == entries[k].slug@,
                    decreases entries.len() - i,
                {
                    slugs.push(entries[i].slug.clone());
                    i += 1;
                }
                assert(slugs.deep_view() =~= entries@.map_values(
                    |entry: ListProjectResponse| entry.slug@,
                ));
                Ok(slugs)
            },
            Err(error) => Err(error),
        }
    }

    /// The client keys of one project, in the order of the response; none
    /// where the upstream does not know the project.
    pub fn list_project_client_keys(
        &self,
        exchange: Exchange<ListProjectClientKeysResponse>,
    ) -> (outcome: Result<Vec<String>, SentryError>)
        ensures
            names_view(outcome) == client_keys_listed(exchange),
    {
        match settle(exchange, true) {
            Ok(entries) => {
                let mut keys: Vec<String> = Vec::new();
                let mut i: usize = 0;
                while i < entries.len()
                    invariant
                        i <= entries.len(),
                        keys.len() == i,
                        forall|k: int| 0 <= k < i ==> keys[k]@ == entries[k].public@,
                    decreases entries.len() - i,
                {
                    keys.push(entries[i].public.clone());
                    i += 1;
                }
                assert(keys.deep_view() =~= entries@.map_values(
                    |entry: ListProjectClientKeysResponse| entry.public@,
                ));
                Ok(keys)
            },
            Err(error) => Err(error),
        }
    }
}

} // verus!
