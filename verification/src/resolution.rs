//! Whole searches: where the steps of [`crate::loader`] lead when a caller
//! does what each step asks, and what holds of that for every upstream.
//!
//! The upstream is taken as it answers: `projects` is what the GET for the
//! list of projects comes to, and `client_keys[i]` what the GET for the
//! client keys of the project at `i` in that list comes to.

use crate::loader::{
    lemma_minified_suffix_is_script_suffix, not_found, requested_key, script, wants_minified,
    AppState, KeysQueryView, StepView, MINIFIED_SUFFIX, SCRIPT_SUFFIX,
};
use crate::sentry_client::{
    client_keys_listed, is_success, Exchange, ListProjectClientKeysResponse, SentryErrorView,
    NOT_FOUND,
};
use crate::pieces::{
    filled, holds_no_mark, lemma_rendered_holds_values_and_no_placeholder,
    lemma_rendering_fills_the_placeholders, written, Filling, Piece,
};
use crate::sentry_dsn_builder::lemma_dsn_holds_key_and_project;
use crate::template_files::{
    json_string_literal, lemma_config_holds_dsn_literal, CONFIG_PLACEHOLDER, IS_LAZY_PLACEHOLDER,
    JS_SDK_URL_PLACEHOLDER, LOAD_DIRECTIVE, PUBLIC_KEY_PLACEHOLDER,
};
use crate::text::{has_suffix, occurs_in};
use vstd::prelude::*;

verus! {

/// What the GET for the list of projects comes to.
pub type ProjectsAnswer = Result<Seq<(Seq<char>, Seq<char>)>, SentryErrorView>;

/// What the GET for the client keys of one project comes to.
pub type ClientKeysAnswer = Result<Seq<Seq<char>>, SentryErrorView>;

/// The project answers with its client keys, and `public_key` is not among them.
pub open spec fn lacks(answer: ClientKeysAnswer, public_key: Seq<char>) -> bool {
    answer matches Ok(client_keys) && !client_keys.contains(public_key)
}

/// The project answers with its client keys, and `public_key` is among them.
pub open spec fn lists(answer: ClientKeysAnswer, public_key: Seq<char>) -> bool {
    answer matches Ok(client_keys) && client_keys.contains(public_key)
}

/// How many more GETs a search at `step` can make at most.
pub open spec fn reach(step: StepView) -> nat {
    match step {
        StepView::ListProjects { .. } => 1,
        StepView::ListProjectClientKeys { url, query } => if query.valid() {
            (query.projects.len() - query.index) as nat
        } else {
            1
        },
        _ => 0,
    }
}

impl AppState {
    /// The step that ends a search which is at `step` now. A search that
    /// runs out of answers stays where it is.
    pub open spec fn last_step(&self, step: StepView, client_keys: Seq<ClientKeysAnswer>) -> StepView
        decreases reach(step),
    {
        match step {
            StepView::ListProjectClientKeys { url, query } => if query.valid() && query.index
                < client_keys.len() {
                self.last_step(
                    self.step_after_client_keys(query, client_keys[query.index]),
                    client_keys,
                )
            } else {
                step
            },
            _ => step,
        }
    }

    /// The URLs that a search which is at `step` now still GETs, in order.
    pub open spec fn gets_from(&self, step: StepView, client_keys: Seq<ClientKeysAnswer>) -> Seq<
        Seq<char>,
    >
        decreases reach(step),
    {
        match step {
            StepView::ListProjects { url, query } => seq![url],
            StepView::ListProjectClientKeys { url, query } => if query.valid() && query.index
                < client_keys.len() {
                seq![url] + self.gets_from(
                    self.step_after_client_keys(query, client_keys[query.index]),
                    client_keys,
                )
            } else {
                seq![url]
            },
            _ => Seq::empty(),
        }
    }

    /// The step that ends the search for the key in `segment`.
    pub open spec fn outcome(
        &self,
        segment: Seq<char>,
        projects: ProjectsAnswer,
        client_keys: Seq<ClientKeysAnswer>,
    ) -> StepView {
        match self.first_step(segment) {
            StepView::ListProjects { url, query } => self.last_step(
                self.step_after_projects(query, projects),
                client_keys,
            ),
            step => step,
        }
    }

    /// The URLs that the search for the key in `segment` GETs, in order.
    pub open spec fn gets(
        &self,
        segment: Seq<char>,
        projects: ProjectsAnswer,
        client_keys: Seq<ClientKeysAnswer>,
    ) -> Seq<Seq<char>> {
        match self.first_step(segment) {
            StepView::ListProjects { url, query } => seq![url] + self.gets_from(
                self.step_after_projects(query, projects),
                client_keys,
            ),
            _ => Seq::empty(),
        }
    }

    /// The URLs that list the client keys of the projects from `from` up to,
    /// but without, `to`.
    pub open spec fn client_keys_urls(
        &self,
        projects: Seq<(Seq<char>, Seq<char>)>,
        from: int,
        to: int,
    ) -> Seq<Seq<char>> {
        Seq::new((to - from) as nat, |k: int| self.client_keys_url(projects, from + k))
    }

    /// A search passes over every project that answers without the key: from
    /// the project it is at, it comes to the project at `to` after one GET
    /// for each project in between.
    pub proof fn lemma_search_passes_over(
        &self,
        query: KeysQueryView,
        client_keys: Seq<ClientKeysAnswer>,
        to: int,
    )
        requires
            query.valid(),
            query.index <= to < query.projects.len(),
            to <= client_keys.len(),
            forall|j: int| query.index <= j < to ==> lacks(#[trigger] client_keys[j], query.public_key),
        ensures
            self.last_step(self.asks_client_keys(query), client_keys) == self.last_step(
                self.asks_client_keys(KeysQueryView { index: to, ..query }),
                client_keys,
            ),
            self.gets_from(self.asks_client_keys(query), client_keys) == self.client_keys_urls(
                query.projects,
                query.index,
                to,
            ) + self.gets_from(
                self.asks_client_keys(KeysQueryView { index: to, ..query }),
                client_keys,
            ),
        decreases to - query.index,
    {
        if query.index < to {
            self.lemma_search_passes_over(query.advanced(), client_keys, to);
        }
    }

    /// A search ends at a project whose answer does not send it on.
    proof fn lemma_search_ends_at(&self, query: KeysQueryView, client_keys: Seq<ClientKeysAnswer>)
        requires
            query.valid(),
            query.index < client_keys.len(),
            !(self.step_after_client_keys(query, client_keys[query.index])
                is ListProjectClientKeys),
        ensures
            self.last_step(self.asks_client_keys(query), client_keys)
                == self.step_after_client_keys(query, client_keys[query.index]),
            self.gets_from(self.asks_client_keys(query), client_keys) == seq![
                self.client_keys_url(query.projects, query.index),
            ],
    {
        let end = self.step_after_client_keys(query, client_keys[query.index]);
        assert(self.last_step(end, client_keys) == end);
        assert(self.gets_from(end, client_keys) == Seq::<Seq<char>>::empty());
    }

    /// A segment without a known suffix is answered with "not found", and
    /// nothing is asked of the upstream.
    pub proof fn lemma_unknown_suffix_is_not_found(
        &self,
        segment: Seq<char>,
        projects: ProjectsAnswer,
        client_keys: Seq<ClientKeysAnswer>,
    )
        requires
            !has_suffix(segment, SCRIPT_SUFFIX@),
        ensures
            self.first_step(segment) == StepView::Respond(not_found()),
            self.outcome(segment, projects, client_keys) == StepView::Respond(not_found()),
            self.gets(segment, projects, client_keys) == Seq::<Seq<char>>::empty(),
    {
        lemma_minified_suffix_is_script_suffix(segment);
    }

    /// The first project that lists the key owns it: the search ends there
    /// with the loader for that project, after the GET for the list of
    /// projects and one GET for each project up to the owner. Projects
    /// behind the owner are not asked.
    pub proof fn lemma_first_owner_wins(
        &self,
        segment: Seq<char>,
        projects: Seq<(Seq<char>, Seq<char>)>,
        client_keys: Seq<ClientKeysAnswer>,
        owner: int,
    )
        requires
            has_suffix(segment, SCRIPT_SUFFIX@),
            0 <= owner < projects.len(),
            owner < client_keys.len(),
            forall|j: int| 0 <= j < owner ==> lacks(#[trigger] client_keys[j], requested_key(segment)),
            lists(client_keys[owner], requested_key(segment)),
        ensures
            self.outcome(segment, Ok(projects), client_keys) == StepView::Respond(
                script(
                    self.loader(wants_minified(segment), requested_key(segment), projects[owner].1),
                ),
            ),
            self.gets(segment, Ok(projects), client_keys) == seq![
                self.sentry_client.projects_address(),
            ] + self.client_keys_urls(projects, 0, owner + 1),
    {
        let start = KeysQueryView {
            public_key: requested_key(segment),
            minified: wants_minified(segment),
            projects,
            index: 0,
        };
        let end = KeysQueryView { index: owner, ..start };
        self.lemma_search_passes_over(start, client_keys, owner);
        self.lemma_search_ends_at(end, client_keys);
    }

    /// What goes into the template for `public_key`, found in `project`.
    pub open spec fn filling(&self, public_key: Seq<char>, project: Seq<char>) -> Filling {
        Filling {
            public_key,
            js_sdk_url: self.bundle_url(),
            config: self.config_of(public_key, project),
        }
    }

    /// A key that a project lists is served its loader: status 200, a
    /// script, and for a body the template of the kind asked for with its
    /// placeholders filled in. The body holds the key and the configuration
    /// wherever the template has their placeholders, and no placeholder is
    /// left in it. This holds of a template made of `pieces` whose filled
    /// text holds no mark of a placeholder.
    pub proof fn lemma_owned_key_is_served_its_loader(
        &self,
        segment: Seq<char>,
        projects: Seq<(Seq<char>, Seq<char>)>,
        client_keys: Seq<ClientKeysAnswer>,
        owner: int,
        pieces: Seq<Piece>,
    )
        requires
            has_suffix(segment, SCRIPT_SUFFIX@),
            0 <= owner < projects.len(),
            owner < client_keys.len(),
            forall|j: int| 0 <= j < owner ==> lacks(#[trigger] client_keys[j], requested_key(segment)),
            lists(client_keys[owner], requested_key(segment)),
            self.template(wants_minified(segment)) == written(pieces),
            holds_no_mark(filled(pieces, self.filling(requested_key(segment), projects[owner].1))),
        ensures
            ({
                let public_key = requested_key(segment);
                let project = projects[owner].1;
                let config = self.config_of(public_key, project);
                let body = filled(pieces, self.filling(public_key, project));
                &&& self.outcome(segment, Ok(projects), client_keys) == StepView::Respond(
                    script(body),
                )
                &&& script(body).status == 200
                &&& script(body).content_type == "text/javascript"@
                &&& pieces.contains(Piece::PublicKey) ==> occurs_in(body, public_key)
                &&& pieces.contains(Piece::Config) ==> occurs_in(body, config)
                &&& occurs_in(config, json_string_literal(self.dsn_of(public_key, project)))
                &&& occurs_in(self.dsn_of(public_key, project), public_key)
                &&& occurs_in(self.dsn_of(public_key, project), project)
                &&& !occurs_in(body, PUBLIC_KEY_PLACEHOLDER@)
                &&& !occurs_in(body, JS_SDK_URL_PLACEHOLDER@)
                &&& !occurs_in(body, CONFIG_PLACEHOLDER@)
                &&& !occurs_in(body, IS_LAZY_PLACEHOLDER@)
                &&& !occurs_in(body, LOAD_DIRECTIVE@)
            }),
    {
        let public_key = requested_key(segment);
        let project = projects[owner].1;
        let filling = self.filling(public_key, project);
        self.lemma_first_owner_wins(segment, projects, client_keys, owner);
        lemma_rendering_fills_the_placeholders(pieces, filling);
        lemma_rendered_holds_values_and_no_placeholder(pieces, filling);
        lemma_config_holds_dsn_literal(json_string_literal(self.dsn_of(public_key, project)));
        lemma_dsn_holds_key_and_project(
            self.sentry_dsn_builder.secure,
            self.sentry_dsn_builder.sentry_hostname@,
            public_key,
            project,
        );
    }

    /// A key that no project lists is answered with "not found", after the
    /// GET for the list of projects and one GET for each project, in the
    /// order of the list.
    pub proof fn lemma_unowned_key_is_not_found(
        &self,
        segment: Seq<char>,
        projects: Seq<(Seq<char>, Seq<char>)>,
        client_keys: Seq<ClientKeysAnswer>,
    )
        requires
            has_suffix(segment, SCRIPT_SUFFIX@),
            projects.len() <= client_keys.len(),
            forall|j: int|
                0 <= j < projects.len() ==> lacks(#[trigger] client_keys[j], requested_key(segment)),
        ensures
            self.outcome(segment, Ok(projects), client_keys) == StepView::Respond(not_found()),
            self.gets(segment, Ok(projects), client_keys) == seq![
                self.sentry_client.projects_address(),
            ] + self.client_keys_urls(projects, 0, projects.len() as int),
    {
        if projects.len() > 0 {
            let last = projects.len() - 1;
            let start = KeysQueryView {
                public_key: requested_key(segment),
                minified: wants_minified(segment),
                projects,
                index: 0,
            };
            let end = KeysQueryView { index: last, ..start };
            self.lemma_search_passes_over(start, client_keys, last);
            self.lemma_search_ends_at(end, client_keys);
        }
    }

    /// A failed GET for the list of projects fails the search.
    pub proof fn lemma_failed_projects_fail_the_search(
        &self,
        segment: Seq<char>,
        error: SentryErrorView,
        client_keys: Seq<ClientKeysAnswer>,
    )
        requires
            has_suffix(segment, SCRIPT_SUFFIX@),
        ensures
            self.outcome(segment, Err(error), client_keys) == StepView::Fail(error),
            self.gets(segment, Err(error), client_keys) == seq![self.sentry_client.projects_address()],
    {
    }

    /// A failed GET for the client keys of a project fails the search, where
    /// no earlier project listed the key: the failure is not taken for "not
    /// found", and no later project is asked.
    pub proof fn lemma_failed_client_keys_fail_the_search(
        &self,
        segment: Seq<char>,
        projects: Seq<(Seq<char>, Seq<char>)>,
        client_keys: Seq<ClientKeysAnswer>,
        at: int,
        error: SentryErrorView,
    )
        requires
            has_suffix(segment, SCRIPT_SUFFIX@),
            0 <= at < projects.len(),
            at < client_keys.len(),
            forall|j: int| 0 <= j < at ==> lacks(#[trigger] client_keys[j], requested_key(segment)),
            client_keys[at] == Err::<Seq<Seq<char>>, SentryErrorView>(error),
        ensures
            self.outcome(segment, Ok(projects), client_keys) == StepView::Fail(error),
            self.gets(segment, Ok(projects), client_keys) == seq![
                self.sentry_client.projects_address(),
            ] + self.client_keys_urls(projects, 0, at + 1),
    {
        let start = KeysQueryView {
            public_key: requested_key(segment),
            minified: wants_minified(segment),
            projects,
            index: 0,
        };
        let end = KeysQueryView { index: at, ..start };
        self.lemma_search_passes_over(start, client_keys, at);
        self.lemma_search_ends_at(end, client_keys);
    }

    /// Of the responses that are no success, only the one that says the
    /// project does not exist lets a search go on: the project counts as one
    /// without keys, and the search moves to the next project or, behind the
    /// last one, ends with "not found". Any other fails the search with its
    /// status.
    pub proof fn lemma_only_a_missing_project_is_passed_over(
        &self,
        query: KeysQueryView,
        status: u16,
        body: Result<Vec<ListProjectClientKeysResponse>, String>,
    )
        requires
            query.valid(),
            !is_success(status),
        ensures
            status == NOT_FOUND ==> lacks(
                client_keys_listed(Exchange::Answered { status, body }),
                query.public_key,
            ),
            status == NOT_FOUND && query.index + 1 < query.projects.len()
                ==> self.step_after_client_keys(
                query,
                client_keys_listed(Exchange::Answered { status, body }),
            ) == self.asks_client_keys(query.advanced()),
            status == NOT_FOUND && query.index + 1 == query.projects.len()
                ==> self.step_after_client_keys(
                query,
                client_keys_listed(Exchange::Answered { status, body }),
            ) == StepView::Respond(not_found()),
            status != NOT_FOUND ==> self.step_after_client_keys(
                query,
                client_keys_listed(Exchange::Answered { status, body }),
            ) == StepView::Fail(SentryErrorView::StatusCodeNotSuccessful(status)),
    {
    }
}

/// A segment made of a key and the script suffix asks for the standard loader
/// of that key, unless the key ends with `.min`: then the segment ends with
/// the minified suffix.
pub proof fn lemma_key_of_script_segment(public_key: Seq<char>)
    requires
        !has_suffix(public_key, ".min"@),
    ensures
        has_suffix(public_key + SCRIPT_SUFFIX@, SCRIPT_SUFFIX@),
        !wants_minified(public_key + SCRIPT_SUFFIX@),
        requested_key(public_key + SCRIPT_SUFFIX@) == public_key,
{
    reveal_strlit(".min.js");
    reveal_strlit(".js");
    reveal_strlit(".min");
    let segment = public_key + SCRIPT_SUFFIX@;
    let n = segment.len() as int;
    assert(segment.subrange(n - 3, n) =~= SCRIPT_SUFFIX@);
    if wants_minified(segment) {
        assert(public_key.subrange(n - 7, n - 3) =~= segment.subrange(n - 7, n).subrange(0, 4));
        assert(MINIFIED_SUFFIX@.subrange(0, 4) =~= ".min"@);
    }
}

/// A segment made of a key and the minified suffix asks for the minified
/// loader of that key.
pub proof fn lemma_key_of_minified_segment(public_key: Seq<char>)
    ensures
        has_suffix(public_key + MINIFIED_SUFFIX@, SCRIPT_SUFFIX@),
        wants_minified(public_key + MINIFIED_SUFFIX@),
        requested_key(public_key + MINIFIED_SUFFIX@) == public_key,
{
    reveal_strlit(".min.js");
    let segment = public_key + MINIFIED_SUFFIX@;
    let n = segment.len() as int;
    assert(segment.subrange(n - 7, n) =~= MINIFIED_SUFFIX@);
    lemma_minified_suffix_is_script_suffix(segment);
}

} // verus!
