use colorgen::color::Color;
use colorgen::diag::{diagnostic_fires, fail, warn_line, within_size_cap};

#[test]
fn fail_with_true_condition_aborts_with_message() {
    let err = fail("boom", Some(true)).unwrap_err();
    assert_eq!(err, "fail: boom");
    assert!(err.contains("boom"));
}

#[test]
fn fail_without_condition_aborts() {
    assert_eq!(fail("boom", None), Err(String::from("fail: boom")));
}

#[test]
fn fail_with_false_condition_yields_empty_output() {
    assert_eq!(fail("boom", Some(false)), Ok(String::new()));
}

#[test]
fn warn_fires_like_fail_but_only_formats() {
    assert!(diagnostic_fires(None));
    assert!(diagnostic_fires(Some(true)));
    assert!(!diagnostic_fires(Some(false)));
    assert_eq!(warn_line("low contrast"), "warning: low contrast");
}

fn engine_with_fail() -> minijinja::Environment<'static> {
    let mut env = minijinja::Environment::new();
    env.add_function(
        "fail",
        |msg: String, cond: Option<bool>| -> Result<String, minijinja::Error> {
            match fail(&msg, cond) {
                Err(line) => Err(minijinja::Error::new(
                    minijinja::ErrorKind::InvalidOperation,
                    line,
                )),
                Ok(empty) => Ok(empty),
            }
        },
    );
    env
}

#[test]
fn render_with_firing_fail_aborts() {
    let env = engine_with_fail();
    let tmpl = env.template_from_str("{{ fail('boom', true) }}").unwrap();
    let err = tmpl
        .render(std::collections::BTreeMap::<String, i64>::new())
        .unwrap_err();
    assert!(err.to_string().contains("boom"));
}

#[test]
fn render_with_quiet_fail_yields_empty_output() {
    let env = engine_with_fail();
    let tmpl = env.template_from_str("{{ fail('boom', false) }}").unwrap();
    let out = tmpl
        .render(std::collections::BTreeMap::<String, i64>::new())
        .unwrap();
    assert_eq!(out, "");
}

#[test]
fn size_cap_is_five_megabytes() {
    assert!(within_size_cap(0));
    assert!(within_size_cap(5_000_000));
    assert!(!within_size_cap(5_000_001));
}

#[test]
fn ansi_foreground_wrapping() {
    let c = Color { r: 255, g: 0, b: 10, a: None };
    assert_eq!(c.fg("hi"), "\u{1b}[38;2;255;0;10mhi\u{1b}[0m");
}

#[test]
fn ansi_background_wrapping() {
    let c = Color { r: 72, g: 12, b: 122, a: Some(255) };
    assert_eq!(c.bg("hi"), "\u{1b}[48;2;72;12;122mhi\u{1b}[0m");
}
