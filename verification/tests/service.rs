use shared_service::service::{cors_origin_candidates, deployment_environment, schema_policy};

#[test]
fn production_is_the_default_environment() {
    assert_eq!(deployment_environment(None), "prod");
    assert_eq!(deployment_environment(Some("dev")), "dev");
}

#[test]
fn production_limits_the_schema() {
    let prod = schema_policy("prod");
    assert!(!prod.introspection);
    assert_eq!(prod.depth_limit, Some(5));
    let dev = schema_policy("dev");
    assert!(dev.introspection);
    assert_eq!(dev.depth_limit, None);
    assert!(schema_policy("Prod").introspection);
}

#[test]
fn cors_origins_are_split_and_trimmed() {
    assert_eq!(
        cors_origin_candidates("http://a.test, https://b.test ,\thttp://c.test\n"),
        vec!["http://a.test", "https://b.test", "http://c.test"]
    );
    assert_eq!(cors_origin_candidates(""), vec![""]);
    assert_eq!(cors_origin_candidates("a,,b,"), vec!["a", "", "b", ""]);
    assert_eq!(cors_origin_candidates("  \u{3000}x y\u{a0} "), vec!["x y"]);
}
