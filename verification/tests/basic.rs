use dynquery::ast::Value;
use dynquery::context::Context;
use dynquery::dynamic::{dyn_eq, Dynamic, Number};
use dynquery::expression::{Expression, NumberLiteral, ExprLiteral};
use dynquery::EvalError;

#[test]
fn number_literal_evaluates() {
    let mut ctx = Context::new();
    let e = Expression::Literal(ExprLiteral::Number(NumberLiteral {
        value: Number::Int(3),
    }));
    let r = e.eval_with_context(&mut ctx);
    match r {
        Ok(d) => assert!(dyn_eq(&d, &Dynamic::Number(Number::Int(3)))),
        Err(_) => panic!("evaluation failed"),
    }
}

#[test]
fn int_equals_its_double() {
    let a = Dynamic::Number(Number::Int(1));
    let b = Dynamic::Number(Number::Float(0x3ff0000000000000));
    assert!(dyn_eq(&a, &b));
}

#[test]
fn root_defaults_to_null() {
    let ctx = Context::new();
    assert!(ctx.get_root().is_null());
}

#[test]
fn leaf_value_is_constructible() {
    let v = Value::Bool(true);
    match v {
        Value::Bool(b) => assert!(b),
        _ => panic!("wrong variant"),
    }
}

#[test]
fn eval_error_compares() {
    assert_eq!(EvalError::UndefinedVariable, EvalError::UndefinedVariable);
}

#[test]
fn int_promotes_to_double_bits() {
    assert_eq!(Number::Int(3).as_f64_bits(), (3.0f64).to_bits());
    assert_eq!(Number::Int(0).as_f64_bits(), (0.0f64).to_bits());
    assert_eq!(Number::Int(-1).as_f64_bits(), (-1.0f64).to_bits());
    assert_eq!(
        Number::Int(i64::MAX).as_f64_bits(),
        (i64::MAX as f64).to_bits()
    );
    assert_eq!(
        Number::Int(i64::MIN).as_f64_bits(),
        (i64::MIN as f64).to_bits()
    );
    assert_eq!(Number::Int(1 << 60).as_f64_bits(), ((1i64 << 60) as f64).to_bits());
    assert_eq!(
        Number::Int(6917529027641081855).as_f64_bits(),
        (6917529027641081855i64 as f64).to_bits()
    );
}
