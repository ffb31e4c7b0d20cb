use imgix::source_set::Action;
use imgix::{Config, Error, Scheme, SourceSet, Url};

#[test]
fn join_with_param_and_empty_lib() {
    let url = Url::new("example.domain.net")
        .param("w", "320")
        .path("test")
        .lib("");
    assert_eq!(url.join(), "https://example.domain.net/test?w=320");
}

#[test]
fn join_http_without_params() {
    let url = Url::new("test.domain.com")
        .path("test-image.png")
        .scheme(Scheme::Http)
        .lib("");
    assert_eq!(url.join(), "http://test.domain.com/test-image.png");
}

#[test]
fn join_with_lib_and_params() {
    let url = Url::new("example.domain.net")
        .path("image.png")
        .lib("ixlib=rust-0.1.0")
        .param("w", "100");
    assert_eq!(
        url.join(),
        "https://example.domain.net/image.png?ixlib=rust-0.1.0&w=100"
    );
}

#[test]
fn join_with_lib_only() {
    let url = Url::new("example.domain.net").path("image.png").ix();
    assert_eq!(url.get_lib(), "ixlib=rust-0.1.0");
    assert_eq!(
        url.join(),
        "https://example.domain.net/image.png?ixlib=rust-0.1.0"
    );
}

#[test]
fn try_join_succeeds_iff_path_present() {
    let no_path = Url::new("example.domain.net");
    match no_path.try_join() {
        Err(Error::JoinError(m)) => assert_eq!(m, "cannot `join` when `path` is `None`"),
        _ => panic!("rendering without a path must fail with JoinError"),
    }
    let with_path = no_path.path("image.png");
    assert_eq!(
        with_path.try_join().unwrap(),
        "https://example.domain.net/image.png"
    );
}

#[test]
fn token_is_stored_but_never_rendered() {
    let url = Url::new("example.domain.net")
        .path("image.png")
        .token("signing-token");
    assert_eq!(url.get_token(), Some("signing-token"));
    assert_eq!(url.join(), "https://example.domain.net/image.png");
}

#[test]
fn has_params_reflects_the_list() {
    let url = Url::new("example.domain.net");
    assert!(!url.has_params());
    let url = url.param("w", "100");
    assert!(url.has_params());
}

#[test]
fn duplicate_keys_keep_insertion_order() {
    let url = Url::new("example.domain.net")
        .path("image.png")
        .params(&[("w", "100"), ("w", "200"), ("h", "50"), ("w", "300")]);
    assert_eq!(
        url.join(),
        "https://example.domain.net/image.png?w=100&w=200&h=50&w=300"
    );
}

#[test]
fn join_params_separator_count() {
    let joined = Url::join_params(&[("w", "300"), ("h", "600"), ("fit", "crop")]);
    assert_eq!(joined.matches('&').count(), 2);
    assert!(!joined.starts_with('&'));
    assert!(!joined.ends_with('&'));
}

#[test]
fn query_round_trips_to_the_pair_list() {
    let pairs = [("w", "300"), ("h", "600"), ("w", "300"), ("fit", "crop")];
    let joined = Url::join_params(&pairs);
    let parsed: Vec<(&str, &str)> = joined
        .split('&')
        .map(|seg| {
            let mut halves = seg.splitn(2, '=');
            (halves.next().unwrap(), halves.next().unwrap())
        })
        .collect();
    assert_eq!(parsed, pairs);
}

#[test]
fn validators_accept_non_empty_and_reject_empty() {
    assert!(imgix::validate::domain("example.domain.net").is_ok());
    assert!(imgix::validate::path("image.png").is_ok());
    assert!(imgix::validate::param_pair("w", "100").is_ok());

    match imgix::validate::domain("") {
        Err(Error::DomainError(m)) => assert_eq!(m, "domain cannot be empty"),
        _ => panic!("an empty domain must be rejected with DomainError"),
    }
    match imgix::validate::path("") {
        Err(Error::PathError(m)) => assert_eq!(m, "path cannot be empty"),
        _ => panic!("an empty path must be rejected with PathError"),
    }
    match imgix::validate::param_pair("", "100") {
        Err(Error::ParamError(m)) => assert_eq!(m, "key cannot be empty"),
        _ => panic!("an empty key must be rejected with ParamError"),
    }
    match imgix::validate::param_pair("w", "") {
        Err(Error::ParamError(m)) => assert_eq!(m, "value cannot be empty"),
        _ => panic!("an empty value must be rejected with ParamError"),
    }
}

#[test]
fn error_messages_name_the_kind() {
    let e = Error::DomainError("domain cannot be empty".to_owned());
    assert_eq!(e.message(), "DomainError: domain cannot be empty");
    let e = Error::JoinError("cannot `join` when `path` is `None`".to_owned());
    assert_eq!(e.message(), "JoinError: cannot `join` when `path` is `None`");
    let e = Error::ParamError("key cannot be empty".to_owned());
    assert_eq!(e.message(), "ParamError: key cannot be empty");
    let e = Error::PathError("path cannot be empty".to_owned());
    assert_eq!(e.message(), "PathError: path cannot be empty");
}

#[test]
fn action_inferred_from_width_key() {
    let url = Url::new("test.imgix.net")
        .path("image.png")
        .params(&[("fit", "crop"), ("w", "320"), ("h", "640")]);
    assert_eq!(SourceSet::infer_action(&url), Action::PixelDensity);
}

#[test]
fn action_inferred_from_aspect_ratio_and_height() {
    let url = Url::new("test.imgix.net")
        .path("image.png")
        .params(&[("ar", "4:3"), ("h", "320")]);
    assert_eq!(SourceSet::infer_action(&url), Action::PixelDensity);

    let only_ar = Url::new("test.imgix.net")
        .path("image.png")
        .params(&[("ar", "4:3")]);
    assert_eq!(SourceSet::infer_action(&only_ar), Action::Viewport);

    let only_h = Url::new("test.imgix.net")
        .path("image.png")
        .params(&[("h", "320")]);
    assert_eq!(SourceSet::infer_action(&only_h), Action::Viewport);
}

#[test]
fn action_inferred_without_sizing_keys_is_viewport() {
    let url = Url::new("test.imgix.net")
        .path("image.png")
        .params(&[("fit", "crop")]);
    assert_eq!(SourceSet::infer_action(&url), Action::Viewport);
}

#[test]
fn default_viewport_srcset_spans_the_width_table() {
    let s = SourceSet::new().domain("test.imgix.net").path("image.png");
    let attr = s.srcset_attr();
    let candidates: Vec<&str> = attr.split(",\n").collect();
    assert_eq!(candidates.len(), 31);
    assert_eq!(candidates[0], "https://test.imgix.net/image.png?w=100 100w");
    assert_eq!(
        candidates[30],
        "https://test.imgix.net/image.png?w=8192 8192w"
    );
}

#[test]
fn every_candidate_ends_with_one_descriptor() {
    let viewport = SourceSet::new().domain("test.imgix.net").path("image.png");
    let pixel = SourceSet::new()
        .domain("test.imgix.net")
        .path("image.png")
        .params(&[("w", "640")]);
    for attr in [viewport.srcset_attr(), pixel.srcset_attr()] {
        for candidate in attr.split(",\n") {
            let mut chars = candidate.chars().rev();
            let last = chars.next().unwrap();
            let before = chars.next().unwrap();
            assert!(last == 'w' || last == 'x');
            assert!(before.is_ascii_digit());
        }
    }
}

#[test]
fn candidate_counts_follow_the_mode() {
    let viewport = SourceSet::new()
        .domain("test.imgix.net")
        .path("image.png")
        .targets(&[100, 200, 300]);
    assert_eq!(viewport.build_srcset().len(), 3);

    let pixel = SourceSet::new()
        .domain("test.imgix.net")
        .path("image.png")
        .params(&[("w", "640")])
        .variable_quality(false);
    assert_eq!(pixel.build_srcset().len(), 5);

    let variable = SourceSet::new()
        .domain("test.imgix.net")
        .path("image.png")
        .params(&[("w", "640")]);
    assert_eq!(variable.build_srcset().len(), 5);
}

#[test]
fn variable_quality_off_renders_plain_dpr() {
    let s = SourceSet::new()
        .domain("test.imgix.net")
        .path("image.png")
        .params(&[("w", "640")])
        .variable_quality(false);

    let left = "https://test.imgix.net/image.png?w=640&dpr=1 1x,
https://test.imgix.net/image.png?w=640&dpr=2 2x,
https://test.imgix.net/image.png?w=640&dpr=3 3x,
https://test.imgix.net/image.png?w=640&dpr=4 4x,
https://test.imgix.net/image.png?w=640&dpr=5 5x";

    assert_eq!(left, s.srcset_attr());
}

#[test]
fn source_set_getters_supply_defaults() {
    let s = SourceSet::new();
    assert_eq!(s.get_ratios(), [1, 2, 3, 4, 5]);
    assert_eq!(s.get_qualities(), [75, 50, 35, 23, 20]);
    assert!(s.uses_variable_quality());
    let targets = s.get_targets();
    assert_eq!(targets.len(), 31);
    assert_eq!(targets[0], 100);
    assert_eq!(targets[30], 8192);

    let s = s
        .ratios(&[2, 4, 6, 8, 10])
        .qualities(&[90, 80, 70, 60, 50])
        .variable_quality(false)
        .targets(&[640]);
    assert_eq!(s.get_ratios(), [2, 4, 6, 8, 10]);
    assert_eq!(s.get_qualities(), [90, 80, 70, 60, 50]);
    assert!(!s.uses_variable_quality());
    assert_eq!(s.get_targets(), vec![640]);
}

#[test]
fn scheme_override_reaches_the_rendered_srcset() {
    let s = SourceSet::new()
        .scheme(Scheme::Http)
        .domain("test.imgix.net")
        .path("image.png")
        .params(&[("w", "640")])
        .variable_quality(false);

    let left = "http://test.imgix.net/image.png?w=640&dpr=1 1x,
http://test.imgix.net/image.png?w=640&dpr=2 2x,
http://test.imgix.net/image.png?w=640&dpr=3 3x,
http://test.imgix.net/image.png?w=640&dpr=4 4x,
http://test.imgix.net/image.png?w=640&dpr=5 5x";

    assert_eq!(left, s.srcset_attr());
}

#[test]
fn config_scheme_override_reaches_the_url() {
    let config = Config::default()
        .set_scheme(Scheme::Http)
        .set_domain("test.imgix.net")
        .set_path("image.png");
    assert_eq!(config.to_url().join(), "http://test.imgix.net/image.png");

    let default_scheme = Config::default()
        .set_domain("test.imgix.net")
        .set_path("image.png");
    assert_eq!(
        default_scheme.to_url().join(),
        "https://test.imgix.net/image.png"
    );
}

#[test]
fn config_materialises_a_url() {
    let config = Config::default()
        .set_domain("test.imgix.net")
        .set_path("image.png")
        .set_params(&[("w", "640"), ("fit", "crop")]);
    let url = config.to_url();
    assert_eq!(url.join(), "https://test.imgix.net/image.png?w=640&fit=crop");
}
