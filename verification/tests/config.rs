use rust_tesseract::config::{Args, Config};

#[test]
fn default_args() {
    let a = Args::new();
    assert_eq!(a.out_filename, "out");
    assert_eq!(a.lang, "eng");
    assert_eq!(a.dpi, 150);
    assert!(!a.boxfile);
    assert!(!a.config.contains_key("psm"));
    assert!(!a.config.contains_key("oem"));
    assert!(!a.config.contains_key("-c"));
}

#[test]
fn new_config_is_empty() {
    let c = Config::new();
    assert_eq!(c.get("psm"), None);
    assert!(!c.contains_key(""));
}

#[test]
fn insert_then_get() {
    let mut c = Config::new();
    assert_eq!(c.insert("psm", "6"), None);
    assert_eq!(c.insert("oem", "3"), None);
    assert_eq!(c.get("psm"), Some("6"));
    assert_eq!(c.get("oem"), Some("3"));
    assert_eq!(c.get("-c"), None);
    assert!(c.contains_key("psm"));
    assert!(!c.contains_key("ps"));
}

#[test]
fn a_later_insert_overwrites_an_earlier_one() {
    let mut c = Config::new();
    c.insert("psm", "6");
    c.insert("oem", "1");
    assert_eq!(c.insert("psm", "11"), Some("6"));
    assert_eq!(c.get("psm"), Some("11"));
    assert_eq!(c.get("oem"), Some("1"));
    assert_eq!(c.insert("psm", "3"), Some("11"));
    assert_eq!(c.get("psm"), Some("3"));
}

#[test]
fn a_copy_does_not_follow_later_changes() {
    let mut c = Config::new();
    c.insert("psm", "6");
    let d = c.duplicate();
    let e = c.clone();
    c.insert("psm", "7");
    c.insert("oem", "2");
    assert_eq!(d.get("psm"), Some("6"));
    assert_eq!(d.get("oem"), None);
    assert_eq!(e.get("psm"), Some("6"));
    assert_eq!(c.get("psm"), Some("7"));
}

#[test]
fn args_clone_keeps_every_field() {
    let mut a = Args::new();
    a.lang = "chi_sim";
    a.dpi = 300;
    a.boxfile = true;
    a.out_filename = "page";
    a.config.insert("-c", "x=1");
    let b = a.clone();
    assert_eq!(b.lang, "chi_sim");
    assert_eq!(b.dpi, 300);
    assert!(b.boxfile);
    assert_eq!(b.out_filename, "page");
    assert_eq!(b.config.get("-c"), Some("x=1"));
}
