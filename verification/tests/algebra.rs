use sonny::value::{
    bin_value, cat_value, find_value, first_scalar, index_value, len_value, sub_array_value,
    un_value, val_cmp, val_eq, BinOp, CmpOp, UnOp, Variable,
};

fn n(x: f64) -> Variable {
    Variable::Number(x.to_bits())
}

fn arr(xs: &[f64]) -> Variable {
    Variable::Array(xs.iter().map(|x| n(*x)).collect())
}

fn scalar(v: &Variable) -> f64 {
    f64::from_bits(first_scalar(v))
}

fn elems(v: &Variable) -> Vec<f64> {
    match v {
        Variable::Number(_) => panic!("expected an array"),
        Variable::Array(items) => items.iter().map(|e| scalar(e)).collect(),
    }
}

#[test]
fn broadcast_scalar_over_array() {
    let a = arr(&[1.0, 2.0, 3.0]);
    let s = n(10.0);
    let r = bin_value(BinOp::Add, &a, &s);
    assert_eq!(elems(&r), vec![11.0, 12.0, 13.0]);
    let r2 = bin_value(BinOp::Add, &s, &a);
    assert_eq!(elems(&r2), vec![11.0, 12.0, 13.0]);
}

#[test]
fn zip_truncates_to_shorter() {
    let a = arr(&[1.0, 2.0, 3.0, 4.0]);
    let b = arr(&[10.0, 20.0]);
    let r = bin_value(BinOp::Add, &a, &b);
    assert_eq!(elems(&r), vec![11.0, 22.0]);
    let r2 = bin_value(BinOp::Multiply, &b, &a);
    assert_eq!(elems(&r2), vec![10.0, 40.0]);
}

#[test]
fn nested_broadcast() {
    let a = Variable::Array(vec![arr(&[1.0, 2.0]), n(3.0)]);
    let r = bin_value(BinOp::Multiply, &a, &n(2.0));
    match &r {
        Variable::Array(items) => {
            assert_eq!(elems(&items[0]), vec![2.0, 4.0]);
            assert_eq!(scalar(&items[1]), 6.0);
        },
        _ => panic!("expected an array"),
    }
}

#[test]
fn unary_operators() {
    let a = arr(&[1.0, -4.0]);
    assert_eq!(elems(&un_value(UnOp::Negate, &a)), vec![-1.0, 4.0]);
    assert_eq!(elems(&un_value(UnOp::AbsoluteValue, &a)), vec![1.0, 4.0]);
    assert_eq!(scalar(&un_value(UnOp::Floor, &n(2.9))), 2.0);
}

#[test]
fn equality_broadcasts() {
    assert!(val_eq(&n(1.0), &n(1.0)));
    assert!(!val_eq(&n(1.0), &n(2.0)));
    assert!(val_eq(&n(5.0), &arr(&[5.0, 5.0])));
    assert!(!val_eq(&n(5.0), &arr(&[5.0, 6.0])));
    assert!(val_eq(&arr(&[1.0, 2.0]), &arr(&[1.0, 2.0, 99.0])));
    assert!(val_eq(&n(7.0), &Variable::Array(vec![])));
}

#[test]
fn ordering_is_scalar_only() {
    assert!(val_cmp(CmpOp::LessThan, &n(1.0), &n(2.0)));
    assert!(!val_cmp(CmpOp::LessThan, &arr(&[1.0]), &arr(&[2.0])));
    assert!(val_cmp(CmpOp::GreaterThanOrEqual, &n(2.0), &n(2.0)));
}

#[test]
fn indexing_and_sub_array() {
    let a = arr(&[10.0, 20.0, 30.0]);
    let r = index_value(&a, 1.0f64.to_bits()).expect("in range");
    assert_eq!(scalar(&r), 20.0);
    assert!(index_value(&a, 3.0f64.to_bits()).is_none());
    let s = sub_array_value(&a, 1.0f64.to_bits(), 3.0f64.to_bits()).expect("in range");
    assert_eq!(elems(&s), vec![20.0, 30.0]);
    assert!(sub_array_value(&a, 2.0f64.to_bits(), 4.0f64.to_bits()).is_none());
}

#[test]
fn average_concat_length_find() {
    let a = arr(&[1.0, 2.0, 3.0, 4.0]);
    assert_eq!(scalar(&a.average()), 2.5);
    assert_eq!(scalar(&a.len()), 4.0);
    let c = cat_value(&n(0.0), &a);
    assert_eq!(scalar(&c.len()), 5.0);
    assert_eq!(scalar(&find_value(&a, &n(3.0))), 2.0);
    assert_eq!(scalar(&find_value(&a, &n(9.0))), -1.0);
    assert_eq!(scalar(&find_value(&n(5.0), &n(5.0))), 0.0);
}

#[test]
fn power_min_max_methods() {
    assert_eq!(scalar(&n(2.0).pow(&n(8.0))), 256.0);
    assert_eq!(scalar(&n(2.0).min(&n(8.0))), 2.0);
    assert_eq!(scalar(&n(2.0).max(&n(8.0))), 8.0);
    assert_eq!(elems(&arr(&[1.0, 9.0]).min(&n(4.0))), vec![1.0, 4.0]);
}

#[test]
fn deep_copy_is_equal() {
    let a = Variable::Array(vec![arr(&[1.0, 2.0]), n(3.0)]);
    let d = a.dup();
    assert!(val_eq(&a, &d));
}
