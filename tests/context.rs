use raytracer::context::{Bindings, Function, SceneContext};
use raytracer::scene::SceneError;

fn function(params: &[&str], body: &'static str) -> Function<&'static str> {
    Function { param_list: params.iter().map(|p| p.to_string()).collect(), body }
}

#[test]
fn bindings_insert_and_replace() {
    let mut b: Bindings<i32> = Bindings::new();
    assert_eq!(b.get("x"), None);
    b.insert("x".to_string(), 1);
    b.insert("y".to_string(), 2);
    b.insert("x".to_string(), 3);
    assert_eq!(b.get("x"), Some(&3));
    assert_eq!(b.get("y"), Some(&2));
    assert_eq!(b.get("z"), None);
}

#[test]
fn globals_without_call() {
    let mut ctx: SceneContext<i32, &str> = SceneContext::new();
    assert_eq!(ctx.lookup("a"), Err(SceneError::UnknownVariable));
    ctx.assign(false, "a".to_string(), 1);
    // Outside a call a local assignment writes the global scope.
    ctx.assign(true, "b".to_string(), 2);
    assert_eq!(ctx.lookup("a"), Ok(&1));
    assert_eq!(ctx.lookup("b"), Ok(&2));
    assert_eq!(ctx.depth(), 0);
}

#[test]
fn call_binds_parameters_in_a_new_scope() {
    let mut ctx: SceneContext<i32, &str> = SceneContext::new();
    ctx.assign(false, "x".to_string(), 100);
    ctx.assign(false, "g".to_string(), 7);
    ctx.add_function("f".to_string(), function(&["x", "y"], "body of f"));
    assert_eq!(ctx.function("f").map(|f| f.body), Some("body of f"));
    assert_eq!(ctx.enter_call("f", vec![1, 2]), Ok(()));
    assert_eq!(ctx.depth(), 1);
    // Parameters shadow globals; globals stay visible.
    assert_eq!(ctx.lookup("x"), Ok(&1));
    assert_eq!(ctx.lookup("y"), Ok(&2));
    assert_eq!(ctx.lookup("g"), Ok(&7));
    ctx.assign(true, "l".to_string(), 5);
    ctx.assign(false, "g".to_string(), 8);
    assert_eq!(ctx.lookup("l"), Ok(&5));
    ctx.leave_call();
    assert_eq!(ctx.depth(), 0);
    assert_eq!(ctx.lookup("x"), Ok(&100));
    assert_eq!(ctx.lookup("g"), Ok(&8));
    assert_eq!(ctx.lookup("l"), Err(SceneError::UnknownVariable));
    assert_eq!(ctx.lookup("y"), Err(SceneError::UnknownVariable));
}

#[test]
fn call_errors() {
    let mut ctx: SceneContext<i32, &str> = SceneContext::new();
    assert_eq!(ctx.enter_call("missing", vec![]), Err(SceneError::UnknownFunction));
    ctx.add_function("f".to_string(), function(&["a"], "f"));
    assert_eq!(ctx.enter_call("f", vec![]), Err(SceneError::ArityMismatch));
    assert_eq!(ctx.enter_call("f", vec![1, 2]), Err(SceneError::ArityMismatch));
    assert_eq!(ctx.depth(), 0);
}

#[test]
fn later_parameter_of_same_name_wins() {
    let mut ctx: SceneContext<i32, &str> = SceneContext::new();
    ctx.add_function("f".to_string(), function(&["a", "a"], "f"));
    assert_eq!(ctx.enter_call("f", vec![1, 2]), Ok(()));
    assert_eq!(ctx.lookup("a"), Ok(&2));
}

#[test]
fn redefining_a_function_replaces_it() {
    let mut ctx: SceneContext<i32, &str> = SceneContext::new();
    ctx.add_function("f".to_string(), function(&["a"], "first"));
    ctx.add_function("f".to_string(), function(&[], "second"));
    assert_eq!(ctx.function("f").map(|f| f.body), Some("second"));
    assert_eq!(ctx.enter_call("f", vec![]), Ok(()));
}
