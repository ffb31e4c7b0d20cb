use imgix::{Scheme, SourceSet, Url};

#[test]
fn test_from_url_dpr_w() {
    let url = Url::new("test.imgix.net")
        .path("image.png")
        .params(&[("w", "320")]);

    let left = Some(vec![
        "https://test.imgix.net/image.png?w=320&dpr=1 1x".to_owned(),
        "https://test.imgix.net/image.png?w=320&dpr=2 2x".to_owned(),
        "https://test.imgix.net/image.png?w=320&dpr=3 3x".to_owned(),
        "https://test.imgix.net/image.png?w=320&dpr=4 4x".to_owned(),
        "https://test.imgix.net/image.png?w=320&dpr=5 5x".to_owned(),
    ]);

    let s = SourceSet::from_url(url);
    assert_eq!(&left, s.get_srcset());
}

#[test]
fn test_from_url_dpr_ar_h() {
    let url = Url::new("test.imgix.net")
        .path("image.png")
        .params(&[("ar", "4%3A3"), ("h", "320")]);

    let left = Some(vec![
        "https://test.imgix.net/image.png?ar=4%3A3&h=320&dpr=1 1x".to_owned(),
        "https://test.imgix.net/image.png?ar=4%3A3&h=320&dpr=2 2x".to_owned(),
        "https://test.imgix.net/image.png?ar=4%3A3&h=320&dpr=3 3x".to_owned(),
        "https://test.imgix.net/image.png?ar=4%3A3&h=320&dpr=4 4x".to_owned(),
        "https://test.imgix.net/image.png?ar=4%3A3&h=320&dpr=5 5x".to_owned(),
    ]);

    let s = SourceSet::from_url(url);
    assert_eq!(&left, s.get_srcset());
}

#[test]
fn test_srcset_variable_quality() {
    let s = SourceSet::new()
        .scheme(Scheme::Https)
        .domain("test.imgix.net")
        .path("image.png")
        .params(&[("w", "640")]);

    let left = "https://test.imgix.net/image.png?w=640&q=75&dpr=1 1x,
https://test.imgix.net/image.png?w=640&q=50&dpr=2 2x,
https://test.imgix.net/image.png?w=640&q=35&dpr=3 3x,
https://test.imgix.net/image.png?w=640&q=23&dpr=4 4x,
https://test.imgix.net/image.png?w=640&q=20&dpr=5 5x";

    assert_eq!(left, s.srcset_attr());
}

#[test]
fn test_srcset_variable_custom_quality() {
    let s = SourceSet::new()
        .scheme(Scheme::Https)
        .domain("test.imgix.net")
        .path("image.png")
        .params(&[("w", "640")])
        .qualities(&[100, 90, 80, 70, 60]);

    let left = "https://test.imgix.net/image.png?w=640&q=100&dpr=1 1x,
https://test.imgix.net/image.png?w=640&q=90&dpr=2 2x,
https://test.imgix.net/image.png?w=640&q=80&dpr=3 3x,
https://test.imgix.net/image.png?w=640&q=70&dpr=4 4x,
https://test.imgix.net/image.png?w=640&q=60&dpr=5 5x";

    assert_eq!(left, s.srcset_attr());
}

#[test]
fn test_srcset_custom_viewport() {
    let s = SourceSet::new()
        .scheme(Scheme::Https)
        .domain("test.imgix.net")
        .path("image.png")
        .targets(&[1024, 512, 256, 128, 64]);

    let left = "https://test.imgix.net/image.png?w=1024 1024w,
https://test.imgix.net/image.png?w=512 512w,
https://test.imgix.net/image.png?w=256 256w,
https://test.imgix.net/image.png?w=128 128w,
https://test.imgix.net/image.png?w=64 64w";

    assert_eq!(left, s.srcset_attr());
}

#[test]
fn test_source_from_url_viewport() {
    let url = Url::new("test.imgix.net").path("image.png");

    let left = Some(vec![
        "https://test.imgix.net/image.png?w=100 100w".to_owned(),
        "https://test.imgix.net/image.png?w=116 116w".to_owned(),
        "https://test.imgix.net/image.png?w=135 135w".to_owned(),
        "https://test.imgix.net/image.png?w=156 156w".to_owned(),
        "https://test.imgix.net/image.png?w=181 181w".to_owned(),
        "https://test.imgix.net/image.png?w=210 210w".to_owned(),
        "https://test.imgix.net/image.png?w=244 244w".to_owned(),
        "https://test.imgix.net/image.png?w=283 283w".to_owned(),
        "https://test.imgix.net/image.png?w=328 328w".to_owned(),
        "https://test.imgix.net/image.png?w=380 380w".to_owned(),
        "https://test.imgix.net/image.png?w=441 441w".to_owned(),
        "https://test.imgix.net/image.png?w=512 512w".to_owned(),
        "https://test.imgix.net/image.png?w=594 594w".to_owned(),
        "https://test.imgix.net/image.png?w=689 689w".to_owned(),
        "https://test.imgix.net/image.png?w=799 799w".to_owned(),
        "https://test.imgix.net/image.png?w=927 927w".to_owned(),
        "https://test.imgix.net/image.png?w=1075 1075w".to_owned(),
        "https://test.imgix.net/image.png?w=1247 1247w".to_owned(),
        "https://test.imgix.net/image.png?w=1446 1446w".to_owned(),
        "https://test.imgix.net/image.png?w=1678 1678w".to_owned(),
        "https://test.imgix.net/image.png?w=1946 1946w".to_owned(),
        "https://test.imgix.net/image.png?w=2257 2257w".to_owned(),
        "https://test.imgix.net/image.png?w=2619 2619w".to_owned(),
        "https://test.imgix.net/image.png?w=3038 3038w".to_owned(),
        "https://test.imgix.net/image.png?w=3524 3524w".to_owned(),
        "https://test.imgix.net/image.png?w=4087 4087w".to_owned(),
        "https://test.imgix.net/image.png?w=4741 4741w".to_owned(),
        "https://test.imgix.net/image.png?w=5500 5500w".to_owned(),
        "https://test.imgix.net/image.png?w=6380 6380w".to_owned(),
        "https://test.imgix.net/image.png?w=7401 7401w".to_owned(),
        "https://test.imgix.net/image.png?w=8192 8192w".to_owned(),
    ]);

    let s = SourceSet::from_url(url);
    assert_eq!(&left, s.get_srcset());
}
