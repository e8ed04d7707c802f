use sentry_loader::sentry_dsn_builder::{scheme_of, SentryDsnBuilder};

#[test]
fn dsn_over_plain_http() {
    let builder = SentryDsnBuilder { sentry_hostname: String::from("example.test"), secure: false };
    assert_eq!(
        builder.build_dsn(String::from("pub123"), String::from("proj1")),
        "http://pub123@example.test/proj1"
    );
}

#[test]
fn dsn_over_https() {
    let builder = SentryDsnBuilder { sentry_hostname: String::from("example.test"), secure: true };
    assert_eq!(
        builder.build_dsn(String::from("pub123"), String::from("proj1")),
        "https://pub123@example.test/proj1"
    );
}

#[test]
fn dsn_scheme_follows_only_the_secure_flag() {
    let plain = SentryDsnBuilder { sentry_hostname: String::from("sentry.example:9000"), secure: false };
    let secure = SentryDsnBuilder { sentry_hostname: String::from("sentry.example:9000"), secure: true };
    let a = plain.build_dsn(String::from("k"), String::from("p"));
    let b = secure.build_dsn(String::from("k"), String::from("p"));
    assert_eq!(a, "http://k@sentry.example:9000/p");
    assert_eq!(b, "https://k@sentry.example:9000/p");
    assert_eq!(a.strip_prefix("http"), b.strip_prefix("https"));
}

#[test]
fn dsn_escapes_nothing() {
    let builder = SentryDsnBuilder { sentry_hostname: String::from("h o/st"), secure: false };
    assert_eq!(
        builder.build_dsn(String::from("a@b:c"), String::from("p/q?r#s")),
        "http://a@b:c@h o/st/p/q?r#s"
    );
}

#[test]
fn dsn_of_empty_parts() {
    let builder = SentryDsnBuilder { sentry_hostname: String::new(), secure: false };
    assert_eq!(builder.build_dsn(String::new(), String::new()), "http://@/");
}

#[test]
fn dsn_builder_default_is_local_and_plain() {
    let builder = SentryDsnBuilder::default();
    assert_eq!(builder.sentry_hostname, "localhost:9000");
    assert!(!builder.secure);
    assert_eq!(
        builder.build_dsn(String::from("abc"), String::from("web")),
        "http://abc@localhost:9000/web"
    );
}

#[test]
fn dsn_builder_clone_builds_the_same() {
    let builder = SentryDsnBuilder { sentry_hostname: String::from("example.test"), secure: true };
    let copy = builder.clone();
    assert_eq!(
        builder.build_dsn(String::from("k"), String::from("p")),
        copy.build_dsn(String::from("k"), String::from("p"))
    );
}

#[test]
fn scheme_names() {
    assert_eq!(scheme_of(true), "https");
    assert_eq!(scheme_of(false), "http");
}
