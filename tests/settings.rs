use wl_bg_gallery::config::{
    expand_tilde, Config, FitType, ImageKind, ParsedConfig, ReadConfigError,
    DEFAULT_BG_DURATION_SECONDS,
};

fn home() -> Option<String> {
    Some("/home/me".to_string())
}

#[test]
fn tilde_is_replaced_by_home_and_a_slash() {
    assert_eq!(expand_tilde("~/Pictures".to_string(), home()), "/home/me//Pictures");
    assert_eq!(expand_tilde("~".to_string(), home()), "/home/me/");
    assert_eq!(expand_tilde("/srv/~x".to_string(), home()), "/srv/~x");
    assert_eq!(expand_tilde(String::new(), home()), "");
    assert_eq!(expand_tilde("~/a".to_string(), None), "~/a");
    assert_eq!(expand_tilde("~é".to_string(), home()), "/home/me/é");
}

#[test]
fn defaults() {
    let c = Config::default(home());
    assert_eq!(c.path, "/home/me//Pictures/wallpaper");
    assert_eq!(c.bg_duration_seconds, DEFAULT_BG_DURATION_SECONDS);
    assert_eq!(c.bg_duration_seconds, 15);
    assert_eq!(c.authorized_formats, vec![ImageKind::Jpeg, ImageKind::WebP, ImageKind::Png, ImageKind::Tiff]);
    assert_eq!(c.fit_type, FitType::BestFit);
    assert_eq!(c.interval_ms(), Some(15_000));
}

#[test]
fn parsed_keys_override_defaults() {
    let mut c = Config::default(home());
    let empty = ParsedConfig::empty();
    assert!(empty.path.is_none() && empty.bg_duration_seconds.is_none() && empty.fit_type.is_none());
    Config::from(&mut c, empty, home());
    assert_eq!(c.path, "/home/me//Pictures/wallpaper");
    let parsed = ParsedConfig {
        path: Some("~/walls".to_string()),
        bg_duration_seconds: Some(60),
        fit_type: Some(FitType::NextFile),
    };
    Config::from(&mut c, parsed, home());
    assert_eq!(c.path, "/home/me//walls");
    assert_eq!(c.bg_duration_seconds, 60);
    assert_eq!(c.fit_type, FitType::NextFile);
}

#[test]
fn read_outcomes() {
    let mut c = Config::default(None);
    assert_eq!(Config::apply(&mut c, Err(ReadConfigError::OpenError), None), Ok(()));
    assert_eq!(c.path, "~/Pictures/wallpaper");
    assert_eq!(Config::apply(&mut c, Err(ReadConfigError::ReadError), None), Err(ReadConfigError::ReadError));
    assert_eq!(Config::apply(&mut c, Err(ReadConfigError::ParseError), None), Err(ReadConfigError::ParseError));
    assert_eq!(c.bg_duration_seconds, 15);
    let parsed = ParsedConfig { path: None, bg_duration_seconds: Some(5), fit_type: None };
    assert_eq!(Config::apply(&mut c, Ok(parsed), None), Ok(()));
    assert_eq!(c.bg_duration_seconds, 5);
}

#[test]
fn accepted_formats_and_interval_bounds() {
    let mut c = Config::default(None);
    assert!(c.accepts(ImageKind::Png));
    c.authorized_formats = vec![ImageKind::Jpeg];
    assert!(!c.accepts(ImageKind::Png));
    c.bg_duration_seconds = 2_147_483;
    assert_eq!(c.interval_ms(), Some(2_147_483_000));
    c.bg_duration_seconds = 2_147_484;
    assert_eq!(c.interval_ms(), None);
}
