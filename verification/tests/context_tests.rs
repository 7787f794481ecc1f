use colorgen::context::TemplateContext;

#[test]
fn empty_context_has_no_bindings() {
    let ctx: TemplateContext<i64> = TemplateContext::new();
    assert_eq!(ctx.get("x"), None);
    assert!(ctx.entries().is_empty());
}

#[test]
fn insert_then_get() {
    let mut ctx: TemplateContext<i64> = TemplateContext::new();
    ctx.insert(String::from("x"), 1);
    ctx.insert(String::from("y"), 2);
    assert_eq!(ctx.get("x"), Some(&1));
    assert_eq!(ctx.get("y"), Some(&2));
    assert_eq!(ctx.get("z"), None);
}

#[test]
fn later_export_wins() {
    // two includes both exporting `x`: the later one's value is kept
    let mut ctx: TemplateContext<String> = TemplateContext::new();
    ctx.insert(String::from("x"), String::from("from include a"));
    ctx.insert(String::from("x"), String::from("from include b"));
    assert_eq!(ctx.get("x"), Some(&String::from("from include b")));
}

#[test]
fn context_holds_engine_values() {
    // the accumulated context carries the engine's own value type
    let mut ctx: TemplateContext<minijinja::Value> = TemplateContext::new();
    ctx.insert(String::from("x"), minijinja::Value::from("a"));
    ctx.insert(String::from("x"), minijinja::Value::from(2));
    assert_eq!(ctx.get("x"), Some(&minijinja::Value::from(2)));
    assert_eq!(ctx.get("y"), None);
}

#[test]
fn merge_applies_exports_in_order() {
    let mut ctx: TemplateContext<i64> = TemplateContext::new();
    ctx.insert(String::from("kept"), 0);
    ctx.insert(String::from("x"), 1);
    let exports = vec![
        (String::from("x"), 10),
        (String::from("y"), 20),
        (String::from("x"), 30),
    ];
    ctx.merge(exports);
    assert_eq!(ctx.get("kept"), Some(&0));
    assert_eq!(ctx.get("x"), Some(&30));
    assert_eq!(ctx.get("y"), Some(&20));
}
