//! The DSN: the connection string by which a client reports to a project.

use crate::text::{occurs_at, occurs_in};
use vstd::prelude::*;
use vstd::string::*;

verus! {

/// The URL scheme that goes with the secure flag.
pub open spec fn scheme(secure: bool) -> Seq<char> {
    if secure {
        "https"@
    } else {
        "http"@
    }
}

/// `<scheme>://<public_key>@<hostname>/<project>`, nothing escaped.
pub open spec fn dsn(secure: bool, hostname: Seq<char>, public_key: Seq<char>, project: Seq<char>) -> Seq<
    char,
> {
    scheme(secure) + "://"@ + public_key + "@"@ + hostname + "/"@ + project
}

/// A DSN holds its public key and its project as they were given.
pub proof fn lemma_dsn_holds_key_and_project(
    secure: bool,
    hostname: Seq<char>,
    public_key: Seq<char>,
    project: Seq<char>,
)
    ensures
        occurs_in(dsn(secure, hostname, public_key, project), public_key),
        occurs_in(dsn(secure, hostname, public_key, project), project),
{
    let text = dsn(secure, hostname, public_key, project);
    let before_key = (scheme(secure) + "://"@).len() as int;
    assert(text.subrange(before_key, before_key + public_key.len()) =~= public_key);
    assert(occurs_at(text, public_key, before_key));
    let before_project = text.len() - project.len();
    assert(text.subrange(before_project, before_project + project.len()) =~= project);
    assert(occurs_at(text, project, before_project));
}

/// The URL scheme that goes with the secure flag.
pub fn scheme_of(secure: bool) -> (name: &'static str)
    ensures
        name@ == scheme(secure),
{
    if secure {
        "https"
    } else {
        "http"
    }
}

/// Builds DSNs for one Sentry host.
#[derive(Clone)]
pub struct SentryDsnBuilder {
    pub sentry_hostname: String,
    pub secure: bool,
}

impl Default for SentryDsnBuilder {
    /// A builder for plain HTTP on `localhost:9000`.
    fn default() -> (builder: Self)
        ensures
            builder.sentry_hostname@ == "localhost:9000"@,
            !builder.secure,
    {
        Self { sentry_hostname: String::from_str("localhost:9000"), secure: false }
    }
}

impl SentryDsnBuilder {
    /// The DSN of `public_key` in project `project_id` on this builder's host.
    pub fn build_dsn(&self, public_key: String, project_id: String) -> (text: String)
        ensures
            text@ == dsn(self.secure, self.sentry_hostname@, public_key@, project_id@),
    {
        let mut text = String::from_str(scheme_of(self.secure));
        text.append("://");
        text.append(public_key.as_str());
        text.append("@");
        text.append(self.sentry_hostname.as_str());
        text.append("/");
        text.append(project_id.as_str());
        text
    }
}

} // verus!
