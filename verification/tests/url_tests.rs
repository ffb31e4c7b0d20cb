use imgix::{Scheme, Url};

const HTTPS: &str = "https";
const HTTP: &str = "http";
const DOMAIN: &str = "test.domain.com";
const DOMAIN2: &str = "test.domain2.com";
const PNG_PATH: &str = "images/test-image.png";
const JPG_PATH: &str = "images/test-image.jpg";
const BASIC_PARAMS: &[(&str, &str)] = &[("w", "640"), ("h", "720"), ("fit", "crop")];

#[test]
fn test_join_params() {
    let left = Url::join_params(&[("w", "300")]);
    assert_eq!(left, String::from("w=300"));

    let left = Url::join_params(&[("w", "300"), ("h", "600")]);
    assert_eq!(left, String::from("w=300&h=600"));

    let left = Url::join_params(&[("w", "300"), ("h", "600"), ("fit", "crop")]);
    assert_eq!(left, String::from("w=300&h=600&fit=crop"));
}

#[test]
fn test_default_url() {
    let default = Url::default();
    assert_eq!(default.get_scheme(), Scheme::Https);
    assert_eq!(default.get_domain(), "");
    assert_eq!(default.get_lib(), "");
    assert_eq!(*default.get_params(), Vec::<(String, String)>::new());
    assert_eq!(default.get_path(), None);
    assert_eq!(default.get_token(), None);
}

#[test]
fn test_url_new() {
    let url = Url::new(DOMAIN);
    assert_eq!(url.get_domain(), DOMAIN);

    let url = Url::new(DOMAIN2);
    assert_ne!(url.get_domain(), "");
}

#[test]
fn test_url_domain() {
    let url = Url::new(DOMAIN);
    assert_ne!(url.get_domain(), DOMAIN2);

    let url = url.domain(DOMAIN2);
    assert_eq!(url.get_domain(), DOMAIN2);
}

#[test]
fn test_assign_path() {
    let url = Url::default().path(PNG_PATH);
    assert_eq!(url.get_path(), Some(PNG_PATH));
}

#[test]
fn test_assign_param() {
    const K: &str = "w";
    const V: &str = "320";
    let url = Url::default().param(K, V);
    for (k, v) in url.get_params().iter() {
        assert_eq!(k.as_str(), K);
        assert_eq!(v.as_str(), V);
    }
}

#[test]
fn test_assign_params() {
    let url = Url::default().params(BASIC_PARAMS);
    // Test params assigned correctly.
    for (left, right) in url.get_params().iter().zip(BASIC_PARAMS.iter()) {
        assert_eq!(left.0.as_str(), right.0);
        assert_eq!(left.1.as_str(), right.1);
    }
}

#[test]
fn test_url_png_src() {
    // Test a `Url` is constructed correctly.
    let right = format!(
        "{scheme}://{domain}/{path}",
        scheme = HTTPS,
        domain = DOMAIN,
        path = PNG_PATH,
    );

    let url = Url::new(DOMAIN).path(PNG_PATH);

    // Test all fields.
    assert_eq!(url.get_scheme(), Scheme::Https);
    assert_eq!(url.get_domain(), DOMAIN);
    assert_eq!(url.get_lib(), "");
    assert_eq!(url.get_path(), Some(PNG_PATH));
    assert!(url.get_params().is_empty());
    assert!(url.get_token().is_none());
    assert_eq!(url.join(), right);
}

#[test]
fn test_url_jpg_src() {
    // Test a `Url` is constructed correctly.
    let right = format!(
        "{scheme}://{domain}/{path}",
        scheme = HTTP,
        domain = DOMAIN,
        path = JPG_PATH,
    );

    let url = Url::new(DOMAIN).path(JPG_PATH).scheme(Scheme::Http);

    // Test all fields.
    assert_eq!(url.get_scheme(), Scheme::Http);
    assert_eq!(url.get_domain(), DOMAIN);
    assert_eq!(url.get_lib(), "");
    assert_eq!(url.get_path(), Some(JPG_PATH));
    assert!(url.get_params().is_empty());
    assert_eq!(url.join(), right);
}
