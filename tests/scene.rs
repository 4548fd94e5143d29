use raytracer::arguments::{
    check_draw, plan_light, plan_object, Argument, LightPlan, MaterialSource, ShapeGeometry,
    ShapePlan, ValuesByType,
};
use raytracer::scene::{
    minus_kind, BinaryOperator, CSGOperator, SceneError, TransformationKind, ValueKind,
};
use raytracer::csg::Operator;

fn text(s: &str) -> Argument {
    Argument::Text(s.to_string())
}

#[test]
fn binary_operator_symbols() {
    assert_eq!(BinaryOperator::from_symbol("+"), Ok(BinaryOperator::Add));
    assert_eq!(BinaryOperator::from_symbol("-"), Ok(BinaryOperator::Subtract));
    assert_eq!(BinaryOperator::from_symbol("*"), Ok(BinaryOperator::Multiply));
    assert_eq!(BinaryOperator::from_symbol("/"), Ok(BinaryOperator::Divide));
    assert_eq!(BinaryOperator::from_symbol("%"), Ok(BinaryOperator::Modulo));
    assert_eq!(BinaryOperator::from_symbol(">"), Ok(BinaryOperator::GreaterThan));
    assert_eq!(BinaryOperator::from_symbol("<"), Ok(BinaryOperator::LessThan));
    assert_eq!(BinaryOperator::from_symbol("**"), Err(SceneError::UnknownOperator));
    assert_eq!(BinaryOperator::from_symbol(""), Err(SceneError::UnknownOperator));
}

#[test]
fn binary_operator_typing() {
    assert_eq!(BinaryOperator::Add.result_kind(ValueKind::Number, ValueKind::Number), Ok(ValueKind::Number));
    assert_eq!(BinaryOperator::Add.result_kind(ValueKind::Vector, ValueKind::Vector), Err(SceneError::WrongType));
    assert_eq!(BinaryOperator::Multiply.result_kind(ValueKind::Color, ValueKind::Number), Ok(ValueKind::Color));
    assert_eq!(BinaryOperator::Multiply.result_kind(ValueKind::Number, ValueKind::Vector), Ok(ValueKind::Vector));
    assert_eq!(BinaryOperator::Divide.result_kind(ValueKind::Vector, ValueKind::Number), Ok(ValueKind::Vector));
    assert_eq!(BinaryOperator::Divide.result_kind(ValueKind::Color, ValueKind::Color), Err(SceneError::WrongType));
    assert_eq!(BinaryOperator::LessThan.result_kind(ValueKind::Number, ValueKind::Number), Ok(ValueKind::Boolean));
    assert_eq!(BinaryOperator::GreaterThan.result_kind(ValueKind::Number, ValueKind::Text), Err(SceneError::WrongType));
    assert_eq!(
        BinaryOperator::Modulo.result_kind(ValueKind::Number, ValueKind::Number),
        Err(SceneError::UnsupportedOperator)
    );
}

#[test]
fn minus_typing() {
    assert_eq!(minus_kind(ValueKind::Number), Ok(ValueKind::Number));
    assert_eq!(minus_kind(ValueKind::Vector), Ok(ValueKind::Vector));
    assert_eq!(minus_kind(ValueKind::Color), Err(SceneError::WrongType));
}

#[test]
fn csg_operator_names() {
    assert_eq!(CSGOperator::from_name("union"), Ok(CSGOperator::Union));
    assert_eq!(CSGOperator::from_name("intersection"), Ok(CSGOperator::Intersection));
    assert_eq!(CSGOperator::from_name("difference"), Ok(CSGOperator::Difference));
    assert_eq!(CSGOperator::from_name("xor"), Err(SceneError::UnknownCsgOperator));
    assert_eq!(CSGOperator::Difference.to_operator(), Operator::Difference);
    assert_eq!(CSGOperator::Union.to_operator(), Operator::Union);
    assert_eq!(CSGOperator::Intersection.to_operator(), Operator::Intersection);
}

#[test]
fn transformation_names() {
    assert_eq!(TransformationKind::from_name("translate"), Ok(TransformationKind::Translate));
    assert_eq!(TransformationKind::from_name("rotate"), Ok(TransformationKind::Rotate));
    assert_eq!(TransformationKind::from_name("scale"), Ok(TransformationKind::Scale));
    assert_eq!(TransformationKind::from_name("shear"), Err(SceneError::UnknownTransformation));
}

#[test]
fn values_are_dealt_by_type() {
    let args = vec![Argument::Number, Argument::Vector, Argument::Number, text("a"), Argument::Color];
    let mut v = ValuesByType::from_value_list(&args).unwrap();
    assert_eq!(v.numbers.len(), 2);
    assert_eq!(v.numbers.pop_front(), Some(0));
    assert_eq!(v.numbers.pop_front(), Some(2));
    assert_eq!(v.numbers.pop_front(), None);
    assert_eq!(v.vectors.pop_front(), Some(1));
    assert_eq!(v.strings.pop_front(), Some(3));
    assert_eq!(v.check_empty(), Err(SceneError::LeftoverArguments));
    assert_eq!(v.colors.pop_front(), Some(4));
    assert_eq!(v.check_empty(), Ok(()));
}

#[test]
fn booleans_are_refused() {
    let args = vec![Argument::Number, Argument::Boolean];
    assert!(matches!(ValuesByType::from_value_list(&args), Err(SceneError::UnexpectedBoolean)));
    assert_eq!(plan_object("sphere", &args), Err(SceneError::UnexpectedBoolean));
    assert_eq!(plan_light(&args), Err(SceneError::UnexpectedBoolean));
}

#[test]
fn sphere_takes_center_radius_color_reflectivity_transparency() {
    // sphere(<20, -5, 10>, 30, red, 0.5, 0.0)
    let args = vec![Argument::Vector, Argument::Number, Argument::Color, Argument::Number, Argument::Number];
    assert_eq!(
        plan_object("sphere", &args),
        Ok(ShapePlan {
            geometry: ShapeGeometry::Sphere { center: Some(0), radius: Some(1) },
            material: MaterialSource::Color(Some(2)),
            reflectivity: Some(3),
            transparency: Some(4),
        })
    );
}

#[test]
fn parameters_are_order_independent() {
    let args = vec![Argument::Number, Argument::Color, Argument::Vector];
    assert_eq!(
        plan_object("cube", &args),
        Ok(ShapePlan {
            geometry: ShapeGeometry::Cube { center: Some(2), length: Some(0) },
            material: MaterialSource::Color(Some(1)),
            reflectivity: None,
            transparency: None,
        })
    );
}

#[test]
fn missing_parameters_take_defaults() {
    assert_eq!(
        plan_object("plane", &vec![]),
        Ok(ShapePlan {
            geometry: ShapeGeometry::Plane { normal: None, distance: None },
            material: MaterialSource::Color(None),
            reflectivity: None,
            transparency: None,
        })
    );
}

#[test]
fn texture_takes_precedence_over_color() {
    let args = vec![Argument::Texture, Argument::Vector];
    assert_eq!(
        plan_object("sphere", &args),
        Ok(ShapePlan {
            geometry: ShapeGeometry::Sphere { center: Some(1), radius: None },
            material: MaterialSource::Texture(0),
            reflectivity: None,
            transparency: None,
        })
    );
    // With a texture, a color is left over.
    let args = vec![Argument::Texture, Argument::Color];
    assert_eq!(plan_object("sphere", &args), Err(SceneError::LeftoverArguments));
}

#[test]
fn leftover_arguments_are_refused() {
    let four_numbers = vec![Argument::Number, Argument::Number, Argument::Number, Argument::Number];
    assert_eq!(plan_object("sphere", &four_numbers), Err(SceneError::LeftoverArguments));
    let two_vectors = vec![Argument::Vector, Argument::Vector];
    assert_eq!(plan_object("cube", &two_vectors), Err(SceneError::LeftoverArguments));
    assert_eq!(plan_object("plane", &vec![text("x")]), Err(SceneError::LeftoverArguments));
    assert_eq!(plan_object("sphere", &vec![Argument::Object]), Err(SceneError::LeftoverArguments));
}

#[test]
fn unknown_shape_is_refused() {
    assert_eq!(plan_object("torus", &vec![]), Err(SceneError::UnknownShape));
}

#[test]
fn csg_takes_operator_and_two_objects() {
    // csg(a, b, 'difference', rgb(0.0, 1.0, 1.0), 0.0, 0.8)
    let args = vec![
        Argument::Object,
        Argument::Object,
        text("difference"),
        Argument::Color,
        Argument::Number,
        Argument::Number,
    ];
    assert_eq!(
        plan_object("csg", &args),
        Ok(ShapePlan {
            geometry: ShapeGeometry::Csg { operator: CSGOperator::Difference, a: 0, b: 1 },
            material: MaterialSource::Color(Some(3)),
            reflectivity: Some(4),
            transparency: Some(5),
        })
    );
}

#[test]
fn csg_defaults_to_union() {
    let args = vec![Argument::Object, Argument::Object];
    assert_eq!(
        plan_object("csg", &args),
        Ok(ShapePlan {
            geometry: ShapeGeometry::Csg { operator: CSGOperator::Union, a: 0, b: 1 },
            material: MaterialSource::Color(None),
            reflectivity: None,
            transparency: None,
        })
    );
}

#[test]
fn csg_errors() {
    let args = vec![Argument::Object, Argument::Object, text("xor")];
    assert_eq!(plan_object("csg", &args), Err(SceneError::UnknownCsgOperator));
    let args = vec![Argument::Object, text("union")];
    assert_eq!(plan_object("csg", &args), Err(SceneError::MissingObject));
    // An unknown operator is reported before a missing object.
    let args = vec![text("xor")];
    assert_eq!(plan_object("csg", &args), Err(SceneError::UnknownCsgOperator));
    let args = vec![Argument::Object, Argument::Object, Argument::Vector];
    assert_eq!(plan_object("csg", &args), Err(SceneError::LeftoverArguments));
}

#[test]
fn light_takes_first_color_vector_number() {
    let args = vec![Argument::Number, Argument::Vector, Argument::Color, Argument::Number];
    assert_eq!(
        plan_light(&args),
        Ok(LightPlan { color: Some(2), point: Some(1), fade_distance: Some(0) })
    );
    assert_eq!(plan_light(&vec![]), Ok(LightPlan { color: None, point: None, fade_distance: None }));
}

#[test]
fn draw_takes_one_object() {
    assert_eq!(check_draw(&vec![ValueKind::Object]), Ok(()));
    assert_eq!(check_draw(&vec![ValueKind::Number]), Err(SceneError::NotAnObject));
    assert_eq!(check_draw(&vec![]), Err(SceneError::NotAnObject));
    assert_eq!(
        check_draw(&vec![ValueKind::Object, ValueKind::Object]),
        Err(SceneError::NotAnObject)
    );
}
