//! From a path segment to a loader script: the search for the project that
//! owns a public key, as a machine that asks for one listing at a time.
//!
//! [`AppState::loader_with_public_key`] starts a search. Each [`Step`] either
//! ends it or names a URL to GET; the caller hands how that GET went to
//! [`AppState::with_projects`] or [`AppState::with_client_keys`], which gives
//! the next step.

use crate::sentry_client::{
    client_keys_listed, projects_listed, Exchange, ListProjectClientKeysResponse,
    ListProjectResponse, SentryClient, SentryError, SentryErrorView,
};
use crate::sentry_dsn_builder::{dsn, scheme, scheme_of, SentryDsnBuilder};
use crate::template_files::{json_string_literal, rendered, sentry_config_text, TemplateFiles};
use crate::text::{ends_with, has_suffix, without_suffix};
use vstd::prelude::*;
use vstd::string::*;

verus! {

/// Ends the path segment that asks for the minified loader.
pub const MINIFIED_SUFFIX: &'static str = ".min.js";

/// Ends the path segment that asks for the standard loader.
pub const SCRIPT_SUFFIX: &'static str = ".js";

/// The segment asks for the minified loader.
pub open spec fn wants_minified(segment: Seq<char>) -> bool {
    has_suffix(segment, MINIFIED_SUFFIX@)
}

/// The public key in a segment: the segment without its suffix, which is the
/// minified suffix where the segment ends with it.
pub open spec fn requested_key(segment: Seq<char>) -> Seq<char> {
    if wants_minified(segment) {
        without_suffix(segment, MINIFIED_SUFFIX@)
    } else {
        without_suffix(segment, SCRIPT_SUFFIX@)
    }
}

/// A segment that ends with the minified suffix ends with the script suffix too.
pub proof fn lemma_minified_suffix_is_script_suffix(segment: Seq<char>)
    ensures
        has_suffix(segment, MINIFIED_SUFFIX@) ==> has_suffix(segment, SCRIPT_SUFFIX@),
{
    reveal_strlit(".min.js");
    reveal_strlit(".js");
    if has_suffix(segment, MINIFIED_SUFFIX@) {
        let n = segment.len() as int;
        assert(segment.subrange(n - 3, n) =~= segment.subrange(n - 7, n).subrange(4, 7));
        assert(MINIFIED_SUFFIX@.subrange(4, 7) =~= SCRIPT_SUFFIX@);
    }
}

/// What goes back to the client that asked for a loader.
#[derive(Debug, Clone, PartialEq, Eq)]
pub struct LoaderResponse {
    pub status: u16,
    pub content_type: String,
    pub body: String,
}

/// A [`LoaderResponse`] with its texts as sequences of characters.
pub struct LoaderResponseView {
    pub status: u16,
    pub content_type: Seq<char>,
    pub body: Seq<char>,
}

impl View for LoaderResponse {
    type V = LoaderResponseView;

    open spec fn view(&self) -> LoaderResponseView {
        LoaderResponseView {
            status: self.status,
            content_type: self.content_type@,
            body: self.body@,
        }
    }
}

/// The response to a segment without a known suffix, or with a key that no
/// project owns.
pub open spec fn not_found() -> LoaderResponseView {
    LoaderResponseView { status: 404, content_type: "text/plain"@, body: "Not found"@ }
}

/// The response that carries a loader script.
pub open spec fn script(body: Seq<char>) -> LoaderResponseView {
    LoaderResponseView { status: 200, content_type: "text/javascript"@, body }
}

/// A search that waits for the list of projects.
#[derive(Debug)]
pub struct ProjectsQuery {
    public_key: String,
    minified: bool,
}

/// A [`ProjectsQuery`] with its key as a sequence of characters.
pub struct ProjectsQueryView {
    pub public_key: Seq<char>,
    pub minified: bool,
}

impl View for ProjectsQuery {
    type V = ProjectsQueryView;

    closed spec fn view(&self) -> ProjectsQueryView {
        ProjectsQueryView { public_key: self.public_key@, minified: self.minified }
    }
}

/// A search that waits for the client keys of one project: the one at
/// `index` in `projects`, each of which is the slug of an organization and
/// the slug of a project.
#[derive(Debug)]
pub struct KeysQuery {
    public_key: String,
    minified: bool,
    projects: Vec<(String, String)>,
    index: usize,
}

/// A [`KeysQuery`] with its texts as sequences of characters.
pub struct KeysQueryView {
    pub public_key: Seq<char>,
    pub minified: bool,
    pub projects: Seq<(Seq<char>, Seq<char>)>,
    pub index: int,
}

impl KeysQueryView {
    /// The search is at one of its projects.
    pub open spec fn valid(self) -> bool {
        0 <= self.index < self.projects.len()
    }

    /// The same search, one project on.
    pub open spec fn advanced(self) -> KeysQueryView {
        KeysQueryView { index: self.index + 1, ..self }
    }
}

impl View for KeysQuery {
    type V = KeysQueryView;

    closed spec fn view(&self) -> KeysQueryView {
        KeysQueryView {
            public_key: self.public_key@,
            minified: self.minified,
            projects: self.projects.deep_view(),
            index: self.index as int,
        }
    }
}

impl KeysQuery {
    #[verifier::type_invariant]
    spec fn at_a_project(self) -> bool {
        self.index < self.projects.len()
    }

    /// The public key that the search is for.
    pub fn public_key(&self) -> (public_key: &String)
        ensures
            public_key@ == self@.public_key,
    {
        &self.public_key
    }

    /// The slug of the organization of the project that the search is at.
    pub fn organization(&self) -> (organization: &String)
        ensures
            self@.valid(),
            organization@ == self@.projects[self@.index].0,
    {
        proof {
            use_type_invariant(self);
        }
        &self.projects[self.index].0
    }

    /// The slug of the project that the search is at.
    pub fn project(&self) -> (project: &String)
        ensures
            self@.valid(),
            project@ == self@.projects[self@.index].1,
    {
        proof {
            use_type_invariant(self);
        }
        &self.projects[self.index].1
    }
}

impl ProjectsQuery {
    /// The public key that the search is for.
    pub fn public_key(&self) -> (public_key: &String)
        ensures
            public_key@ == self@.public_key,
    {
        &self.public_key
    }

    /// Whether the search is for the minified loader.
    pub fn minified(&self) -> (minified: bool)
        ensures
            minified == self@.minified,
    {
        self.minified
    }
}

/// What a search does next.
#[derive(Debug)]
#[allow(inconsistent_fields)]
pub enum Step {
    /// GET `url` and hand the exchange to [`AppState::with_projects`].
    ListProjects { url: String, query: ProjectsQuery },
    /// GET `url` and hand the exchange to [`AppState::with_client_keys`].
    ListProjectClientKeys { url: String, query: KeysQuery },
    /// The search is over: answer with this response.
    Respond(LoaderResponse),
    /// The search is over: the upstream failed, and the request fails with it.
    Fail(SentryError),
}

/// A [`Step`] with its texts as sequences of characters.
#[allow(inconsistent_fields)]
pub enum StepView {
    ListProjects { url: Seq<char>, query: ProjectsQueryView },
    ListProjectClientKeys { url: Seq<char>, query: KeysQueryView },
    Respond(LoaderResponseView),
    Fail(SentryErrorView),
}

impl View for Step {
    type V = StepView;

    open spec fn view(&self) -> StepView {
        match *self {
            Step::ListProjects { url, query } => StepView::ListProjects { url: url@, query: query@ },
            Step::ListProjectClientKeys { url, query } => StepView::ListProjectClientKeys {
                url: url@,
                query: query@,
            },
            Step::Respond(response) => StepView::Respond(response@),
            Step::Fail(error) => StepView::Fail(error@),
        }
    }
}

/// What every request is served from: the public address of the Sentry host,
/// the upstream, and the templates. Nothing in it changes after startup.
#[derive(Clone)]
pub struct AppState {
    pub sentry_public_hostname: String,
    pub js_sdk_version: String,
    pub use_https: bool,
    pub sentry_dsn_builder: SentryDsnBuilder,
    pub sentry_client: SentryClient,
    pub template_files: TemplateFiles,
}

impl AppState {
    /// The URL of the SDK bundle that the loader pulls in.
    pub open spec fn bundle_url(&self) -> Seq<char> {
        scheme(self.use_https) + "://"@ + self.sentry_public_hostname@ + "/"@ + self.js_sdk_version@
            + "/bundle.tracing.replay.min.js"@
    }

    /// The DSN of `public_key` in `project`.
    pub open spec fn dsn_of(&self, public_key: Seq<char>, project: Seq<char>) -> Seq<char> {
        dsn(
            self.sentry_dsn_builder.secure,
            self.sentry_dsn_builder.sentry_hostname@,
            public_key,
            project,
        )
    }

    /// The configuration that the loader for `public_key` in `project`
    /// carries.
    pub open spec fn config_of(&self, public_key: Seq<char>, project: Seq<char>) -> Seq<char> {
        sentry_config_text(json_string_literal(self.dsn_of(public_key, project)))
    }

    /// The template that a loader is made from.
    pub open spec fn template(&self, minified: bool) -> Seq<char> {
        if minified {
            self.template_files.js_sdk_min_loader@
        } else {
            self.template_files.js_sdk_loader@
        }
    }

    /// The loader script for `public_key`, found in `project`: the minified
    /// template or the standard one, filled in.
    pub open spec fn loader(&self, minified: bool, public_key: Seq<char>, project: Seq<char>) -> Seq<
        char,
    > {
        rendered(
            self.template(minified),
            public_key,
            self.bundle_url(),
            self.config_of(public_key, project),
        )
    }

    /// The URL that lists the client keys of the project at `index`.
    pub open spec fn client_keys_url(&self, projects: Seq<(Seq<char>, Seq<char>)>, index: int) -> Seq<
        char,
    > {
        self.sentry_client.project_client_keys_address(projects[index].0, projects[index].1)
    }

    /// The step that asks for the client keys of the project that `query` is at.
    pub open spec fn asks_client_keys(&self, query: KeysQueryView) -> StepView {
        StepView::ListProjectClientKeys {
            url: self.client_keys_url(query.projects, query.index),
            query,
        }
    }

    /// The first step for a path segment. A segment that ends with neither
    /// suffix is answered at once; otherwise the suffix comes off, and what
    /// is left is the public key to search for.
    pub open spec fn first_step(&self, segment: Seq<char>) -> StepView {
        if wants_minified(segment) || has_suffix(segment, SCRIPT_SUFFIX@) {
            StepView::ListProjects {
                url: self.sentry_client.projects_address(),
                query: ProjectsQueryView {
                    public_key: requested_key(segment),
                    minified: wants_minified(segment),
                },
            }
        } else {
            StepView::Respond(not_found())
        }
    }

    /// The step after the list of projects came, or did not.
    pub open spec fn step_after_projects(
        &self,
        query: ProjectsQueryView,
        listed: Result<Seq<(Seq<char>, Seq<char>)>, SentryErrorView>,
    ) -> StepView {
        match listed {
            Err(error) => StepView::Fail(error),
            Ok(projects) => if projects.len() == 0 {
                StepView::Respond(not_found())
            } else {
                self.asks_client_keys(
                    KeysQueryView {
                        public_key: query.public_key,
                        minified: query.minified,
                        projects,
                        index: 0,
                    },
                )
            },
        }
    }

    /// The step after the client keys of the project at hand came, or did
    /// not. The first project that lists the key owns it; a project that
    /// does not list it sends the search on to the next one.
    pub open spec fn step_after_client_keys(
        &self,
        query: KeysQueryView,
        listed: Result<Seq<Seq<char>>, SentryErrorView>,
    ) -> StepView {
        match listed {
            Err(error) => StepView::Fail(error),
            Ok(client_keys) => if client_keys.contains(query.public_key) {
                StepView::Respond(
                    script(
                        self.loader(query.minified, query.public_key, query.projects[query.index].1),
                    ),
                )
            } else if query.index + 1 < query.projects.len() {
                self.asks_client_keys(query.advanced())
            } else {
                StepView::Respond(not_found())
            },
        }
    }

    /// The URL of the SDK bundle that the loader pulls in.
    pub fn js_sdk_url(&self) -> (url: String)
        ensures
            url@ == self.bundle_url(),
    {
        let mut url = String::from_str(scheme_of(self.use_https));
        url.append("://");
        url.append(self.sentry_public_hostname.as_str());
        url.append("/");
        url.append(self.js_sdk_version.as_str());
        url.append("/bundle.tracing.replay.min.js");
        url
    }

    /// Starts the search for the key in a path segment.
    pub fn loader_with_public_key(&self, publickey: String) -> (step: Step)
        ensures
            step@ == self.first_step(publickey@),
            !has_suffix(publickey@, SCRIPT_SUFFIX@) ==> step@ == StepView::Respond(not_found()),
    {
        proof {
            lemma_minified_suffix_is_script_suffix(publickey@);
        }
        let segment = publickey.as_str();
        let minified = ends_with(segment, MINIFIED_SUFFIX);
        if minified || ends_with(segment, SCRIPT_SUFFIX) {
            let suffix = if minified {
                MINIFIED_SUFFIX
            } else {
                SCRIPT_SUFFIX
            };
            let kept = segment.unicode_len() - suffix.unicode_len();
            let public_key = String::from_str(segment.substring_char(0, kept));
            Step::ListProjects {
                url: self.sentry_client.list_projects_url(),
                query: ProjectsQuery { public_key, minified },
            }
        } else {
            Step::Respond(not_found_response())
        }
    }

    /// Goes on with a search once the GET for the list of projects is over.
    pub fn with_projects(&self, query: ProjectsQuery, exchange: Exchange<ListProjectResponse>) -> (step:
        Step)
        ensures
            step@ == self.step_after_projects(query@, projects_listed(exchange)),
    {
        match self.sentry_client.list_projects(exchange) {
            Err(error) => Step::Fail(error),
            Ok(projects) => {
                if projects.len() == 0 {
                    Step::Respond(not_found_response())
                } else {
                    let url = self.sentry_client.list_project_client_keys_url(
                        projects[0].0.as_str(),
                        projects[0].1.as_str(),
                    );
                    Step::ListProjectClientKeys {
                        url,
                        query: KeysQuery {
                            public_key: query.public_key,
                            minified: query.minified,
                            projects,
                            index: 0,
                        },
                    }
                }
            },
        }
    }

    /// Goes on with a search once the GET for the client keys of the project
    /// at hand is over.
    pub fn with_client_keys(
        &self,
        query: KeysQuery,
        exchange: Exchange<ListProjectClientKeysResponse>,
    ) -> (step: Step)
        ensures
            step@ == self.step_after_client_keys(query@, client_keys_listed(exchange)),
    {
        proof {
            use_type_invariant(&query);
        }
        match self.sentry_client.list_project_client_keys(exchange) {
            Err(error) => Step::Fail(error),
            Ok(client_keys) => {
                if holds(&client_keys, &query.public_key) {
                    let project = &query.projects[query.index].1;
                    let text = self.sentry_dsn_builder.build_dsn(
                        query.public_key.clone(),
                        project.clone(),
                    );
                    let url = self.js_sdk_url();
                    let body = if query.minified {
                        self.template_files.build_minified(query.public_key.clone(), url, text)
                    } else {
                        self.template_files.build(query.public_key.clone(), url, text)
                    };
                    Step::Respond(
                        LoaderResponse {
                            status: 200,
                            content_type: String::from_str("text/javascript"),
                            body,
                        },
                    )
                } else if query.index + 1 < query.projects.len() {
                    let next = query.index + 1;
                    let url = self.sentry_client.list_project_client_keys_url(
                        query.projects[next].0.as_str(),
                        query.projects[next].1.as_str(),
                    );
                    Step::ListProjectClientKeys {
                        url,
                        query: KeysQuery {
                            public_key: query.public_key,
                            minified: query.minified,
                            projects: query.projects,
                            index: next,
                        },
                    }
                } else {
                    Step::Respond(not_found_response())
                }
            },
        }
    }
}

/// The response to a segment without a known suffix, or with a key that no
/// project owns.
pub fn not_found_response() -> (response: LoaderResponse)
    ensures
        response@ == not_found(),
{
    LoaderResponse {
        status: 404,
        content_type: String::from_str("text/plain"),
        body: String::from_str("Not found"),
    }
}

/// Whether `key` is one of `client_keys`.
pub fn holds(client_keys: &Vec<String>, key: &String) -> (found: bool)
    ensures
        found == client_keys.deep_view().contains(key@),
{
    let mut i: usize = 0;
    while i < client_keys.len()
        invariant
            i <= client_keys.len(),
            forall|k: int| 0 <= k < i ==> client_keys[k]@ != key@,
        decreases client_keys.len() - i,
    {
        if client_keys[i] == *key {
            assert(client_keys.deep_view()[i as int] == key@);
            return true;
        }
        i += 1;
    }
    false
}

} // verus!
