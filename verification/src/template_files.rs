//! The loader templates and their rendering.

use crate::text::{
    keeps_apart, lemma_occurs_at_each, lemma_replaced_holds_no_pattern,
    lemma_replaced_holds_replacement, lemma_replaced_without_pattern, occurs_at, occurs_in,
    replace_all, replaced,
};
use vstd::pervasive::unreached;
use vstd::prelude::*;
use vstd::string::*;

verus! {

/// Stands in a template where the public key goes.
pub const PUBLIC_KEY_PLACEHOLDER: &'static str = "{{ publicKey|safe }}";

/// Stands in a template where the URL of the SDK bundle goes.
pub const JS_SDK_URL_PLACEHOLDER: &'static str = "{{ jsSdkUrl|safe }}";

/// Stands in a template where the SDK's configuration goes, as JSON.
pub const CONFIG_PLACEHOLDER: &'static str = "{{ config|to_json|safe }}";

/// Stands in a template where the lazy-loading flag goes.
pub const IS_LAZY_PLACEHOLDER: &'static str = "{{ isLazy|safe|lower }}";

/// A directive of the template engine that the templates were written for.
pub const LOAD_DIRECTIVE: &'static str = "{% load sentry_helpers %}";

/// What takes the place of the lazy-loading flag: the loader never loads lazily.
pub const IS_LAZY: &'static str = "false";

/// The first replacement: the public key takes its place.
pub open spec fn keyed(template: Seq<char>, public_key: Seq<char>) -> Seq<char> {
    replaced(template, PUBLIC_KEY_PLACEHOLDER@, public_key)
}

/// The second replacement: the URL of the SDK bundle takes its place.
pub open spec fn linked(template: Seq<char>, public_key: Seq<char>, js_sdk_url: Seq<char>) -> Seq<
    char,
> {
    replaced(keyed(template, public_key), JS_SDK_URL_PLACEHOLDER@, js_sdk_url)
}

/// The third replacement: the configuration takes its place.
pub open spec fn configured(
    template: Seq<char>,
    public_key: Seq<char>,
    js_sdk_url: Seq<char>,
    config: Seq<char>,
) -> Seq<char> {
    replaced(linked(template, public_key, js_sdk_url), CONFIG_PLACEHOLDER@, config)
}

/// The fourth replacement: the lazy-loading flag is settled.
pub open spec fn settled(
    template: Seq<char>,
    public_key: Seq<char>,
    js_sdk_url: Seq<char>,
    config: Seq<char>,
) -> Seq<char> {
    replaced(configured(template, public_key, js_sdk_url, config), IS_LAZY_PLACEHOLDER@, IS_LAZY@)
}

/// The text of `template` after its five replacements, made one after the
/// other in this order: the public key, the bundle URL, the configuration,
/// the lazy-loading flag, and the engine directive, which is dropped.
pub open spec fn rendered(
    template: Seq<char>,
    public_key: Seq<char>,
    js_sdk_url: Seq<char>,
    config: Seq<char>,
) -> Seq<char> {
    replaced(settled(template, public_key, js_sdk_url, config), LOAD_DIRECTIVE@, ""@)
}

/// The SDK's configuration as a JSON object, around the DSN as a JSON string
/// literal. The sampling rates are fixed.
pub open spec fn sentry_config_text(dsn_literal: Seq<char>) -> Seq<char> {
    "{\"dsn\":"@ + dsn_literal
        + ",\"tracesSampleRate\":1,\"replaysSessionSampleRate\":0.1,\"replaysOnErrorSampleRate\":1}"@
}

/// The configuration holds the literal of the DSN as it was given.
pub proof fn lemma_config_holds_dsn_literal(dsn_literal: Seq<char>)
    ensures
        occurs_in(sentry_config_text(dsn_literal), dsn_literal),
{
    let text = sentry_config_text(dsn_literal);
    let before = "{\"dsn\":"@.len() as int;
    assert(text.subrange(before, before + dsn_literal.len()) =~= dsn_literal);
    assert(occurs_at(text, dsn_literal, before));
}

/// The JSON string literal that `serde_json` writes for `text`.
pub uninterp spec fn json_string_literal(text: Seq<char>) -> Seq<char>;

/// `text` holds none of the characters that a JSON string literal escapes: no
/// quotation mark, no backslash, and no control character below U+0020.
pub open spec fn is_plain_json_text(text: Seq<char>) -> bool {
    forall|i: int|
        0 <= i < text.len() ==> (#[trigger] text[i]) != '"' && text[i] != '\\' && text[i] as u32
            >= 0x20
}

/// `text` between quotation marks.
pub open spec fn quoted(text: Seq<char>) -> Seq<char> {
    "\""@ + text + "\""@
}

/// `serde_json::Error`, the error of `serde_json::to_string`. Nothing is
/// read from it.
#[verifier::external_type_specification]
#[verifier::external_body]
pub struct ExJsonError(serde_json::Error);

/// `serde_json::to_string` on a string slice. Trusted: the call succeeds,
/// since a string slice always serializes and the output goes to memory; its
/// result is a function of the text alone, named `json_string_literal`; and
/// a text without characters to escape comes back as it is, between
/// quotation marks.
#[verifier::external_body]
fn json_string(text: &str) -> (outcome: Result<String, serde_json::Error>)
    ensures
        outcome is Ok,
        outcome->Ok_0@ == json_string_literal(text@),
        is_plain_json_text(text@) ==> outcome->Ok_0@ == quoted(text@),
{
    serde_json::to_string(text)
}

/// The SDK's configuration as JSON text, given the DSN as a JSON string literal.
pub fn sentry_config(dsn_literal: &str) -> (config: String)
    ensures
        config@ == sentry_config_text(dsn_literal@),
{
    let mut config = String::from_str("{\"dsn\":");
    config.append(dsn_literal);
    config.append(
        ",\"tracesSampleRate\":1,\"replaysSessionSampleRate\":0.1,\"replaysOnErrorSampleRate\":1}",
    );
    config
}

/// The SDK's configuration for a DSN.
pub fn config_for(dsn: &str) -> (config: String)
    ensures
        config@ == sentry_config_text(json_string_literal(dsn@)),
        is_plain_json_text(dsn@) ==> config@ == sentry_config_text(quoted(dsn@)),
{
    match json_string(dsn) {
        Ok(literal) => sentry_config(literal.as_str()),
        Err(_) => unreached(),
    }
}

/// Fills `template` in: see [`rendered`].
pub fn render(template: &str, public_key: &str, js_sdk_url: &str, config: &str) -> (body: String)
    ensures
        body@ == rendered(template@, public_key@, js_sdk_url@, config@),
{
    let keyed = replace_all(template, PUBLIC_KEY_PLACEHOLDER, public_key);
    let linked = replace_all(keyed.as_str(), JS_SDK_URL_PLACEHOLDER, js_sdk_url);
    let configured = replace_all(linked.as_str(), CONFIG_PLACEHOLDER, config);
    let settled = replace_all(configured.as_str(), IS_LAZY_PLACEHOLDER, IS_LAZY);
    replace_all(settled.as_str(), LOAD_DIRECTIVE, "")
}

/// Where a template holds the placeholder of the public key, the key stands
/// in the text once it has taken its place.
pub proof fn lemma_keyed_holds_key(template: Seq<char>, public_key: Seq<char>)
    requires
        occurs_in(template, PUBLIC_KEY_PLACEHOLDER@),
    ensures
        occurs_in(keyed(template, public_key), public_key),
{
    reveal_strlit("{{ publicKey|safe }}");
    lemma_replaced_holds_replacement(template, PUBLIC_KEY_PLACEHOLDER@, public_key);
}

/// The placeholder of the lazy-loading flag and `false` keep apart.
proof fn lemma_flag_keeps_apart()
    ensures
        keeps_apart(IS_LAZY_PLACEHOLDER@, IS_LAZY@),
{
    reveal_strlit("{{ isLazy|safe|lower }}");
    reveal_strlit("false");
    let pattern = IS_LAZY_PLACEHOLDER@;
    let with = IS_LAZY@;
    assert forall|at: int| !occurs_at(pattern, with, at) by {
        if occurs_at(pattern, with, at) {
            lemma_occurs_at_each(pattern, with, at);
            assert(pattern[at + 0] == with[0]);
            assert(pattern[at + 1] == with[1]);
        }
    }
}

/// Once the lazy-loading flag is settled, its placeholder stands nowhere in
/// the text, whatever the template and the values that went in before.
pub proof fn lemma_settled_holds_no_flag_placeholder(
    template: Seq<char>,
    public_key: Seq<char>,
    js_sdk_url: Seq<char>,
    config: Seq<char>,
)
    ensures
        !occurs_in(settled(template, public_key, js_sdk_url, config), IS_LAZY_PLACEHOLDER@),
{
    lemma_flag_keeps_apart();
    lemma_replaced_holds_no_pattern(
        configured(template, public_key, js_sdk_url, config),
        IS_LAZY_PLACEHOLDER@,
        IS_LAZY@,
    );
}

/// Where the text holds no engine directive once the lazy-loading flag is
/// settled, it is the rendered text as it stands, and the placeholder of the
/// flag stands nowhere in it.
pub proof fn lemma_rendered_without_directive(
    template: Seq<char>,
    public_key: Seq<char>,
    js_sdk_url: Seq<char>,
    config: Seq<char>,
)
    requires
        !occurs_in(settled(template, public_key, js_sdk_url, config), LOAD_DIRECTIVE@),
    ensures
        rendered(template, public_key, js_sdk_url, config) == settled(
            template,
            public_key,
            js_sdk_url,
            config,
        ),
        !occurs_in(rendered(template, public_key, js_sdk_url, config), IS_LAZY_PLACEHOLDER@),
{
    lemma_settled_holds_no_flag_placeholder(template, public_key, js_sdk_url, config);
    lemma_replaced_without_pattern(
        settled(template, public_key, js_sdk_url, config),
        LOAD_DIRECTIVE@,
        ""@,
    );
}

/// The two loader templates, read once and never changed.
#[derive(Clone)]
pub struct TemplateFiles {
    pub js_sdk_loader: String,
    pub js_sdk_min_loader: String,
}

impl TemplateFiles {
    /// The loader that the standard template gives for a key and its DSN.
    pub open spec fn built(&self, public_key: Seq<char>, js_sdk_url: Seq<char>, dsn: Seq<char>) -> Seq<
        char,
    > {
        rendered(
            self.js_sdk_loader@,
            public_key,
            js_sdk_url,
            sentry_config_text(json_string_literal(dsn)),
        )
    }

    /// The loader that the minified template gives for a key and its DSN.
    pub open spec fn built_minified(
        &self,
        public_key: Seq<char>,
        js_sdk_url: Seq<char>,
        dsn: Seq<char>,
    ) -> Seq<char> {
        rendered(
            self.js_sdk_min_loader@,
            public_key,
            js_sdk_url,
            sentry_config_text(json_string_literal(dsn)),
        )
    }

    /// Renders the standard template.
    pub fn build(&self, public_key: String, js_sdk_url: String, dsn: String) -> (body: String)
        ensures
            body@ == self.built(public_key@, js_sdk_url@, dsn@),
            is_plain_json_text(dsn@) ==> body@ == rendered(
                self.js_sdk_loader@,
                public_key@,
                js_sdk_url@,
                sentry_config_text(quoted(dsn@)),
            ),
    {
        let config = config_for(dsn.as_str());
        render(self.js_sdk_loader.as_str(), public_key.as_str(), js_sdk_url.as_str(), config.as_str())
    }

    /// Renders the minified template.
    pub fn build_minified(&self, public_key: String, js_sdk_url: String, dsn: String) -> (body:
        String)
        ensures
            body@ == self.built_minified(public_key@, js_sdk_url@, dsn@),
            is_plain_json_text(dsn@) ==> body@ == rendered(
                self.js_sdk_min_loader@,
                public_key@,
                js_sdk_url@,
                sentry_config_text(quoted(dsn@)),
            ),
    {
        let config = config_for(dsn.as_str());
        render(
            self.js_sdk_min_loader.as_str(),
            public_key.as_str(),
            js_sdk_url.as_str(),
            config.as_str(),
        )
    }
}

/// Rendering keeps nothing from one call to the next: templates of the same
/// text give, for the same key, URL and DSN, the same loader.
pub proof fn lemma_same_arguments_same_loader(
    one: TemplateFiles,
    other: TemplateFiles,
    public_key: Seq<char>,
    js_sdk_url: Seq<char>,
    dsn: Seq<char>,
)
    requires
        one.js_sdk_loader@ == other.js_sdk_loader@,
        one.js_sdk_min_loader@ == other.js_sdk_min_loader@,
    ensures
        one.built(public_key, js_sdk_url, dsn) == other.built(public_key, js_sdk_url, dsn),
        one.built_minified(public_key, js_sdk_url, dsn) == other.built_minified(
            public_key,
            js_sdk_url,
            dsn,
        ),
{
}

} // verus!
