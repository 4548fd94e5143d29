use raytracer::transformation::TransformationStack;

#[test]
fn stack_starts_with_identity() {
    let stack = TransformationStack::new_with_identity("id");
    assert_eq!(stack.depth(), 1);
    assert_eq!(*stack.get_transformation(), "id");
}

#[test]
fn stack_push_and_pop_scopes() {
    let mut stack = TransformationStack::new_with_identity(1u32);
    let composed = 2 * *stack.get_transformation();
    stack.push_transformation(composed);
    let composed = 3 * *stack.get_transformation();
    stack.push_transformation(composed);
    assert_eq!(stack.depth(), 3);
    assert_eq!(*stack.get_transformation(), 6);
    assert_eq!(stack.pop_transformation(), 6);
    assert_eq!(*stack.get_transformation(), 2);
    assert_eq!(stack.pop_transformation(), 2);
    assert_eq!(*stack.get_transformation(), 1);
    assert_eq!(stack.depth(), 1);
}
