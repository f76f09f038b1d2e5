use qubit::op::{self, then, Op};
use qubit::try_op::{AndThen, MapErr, MapOk, OrElse, TryOp};

fn even(x: i32) -> Result<i32, &'static str> {
    if x % 2 == 0 {
        Ok(x)
    } else {
        Err("x is odd")
    }
}

#[test]
fn test_try_op() {
    let op = op::map(|x: i32| if x % 2 == 0 { Ok(x) } else { Err("x is odd") });
    let result = op.try_call(2).unwrap();
    assert_eq!(result, 2);
}

#[test]
fn test_map_ok_constructor() {
    let op1 = op::map(|x: i32| if x % 2 == 0 { Ok(x) } else { Err("x is odd") });
    let op2 = then(|x: i32| x * 2);
    let op3 = op::map(|x: i32| x - 1);

    let pipeline = MapOk::new(MapOk::new(op1, op2), op3);

    let result = pipeline.try_call(2).unwrap();
    assert_eq!(result, 3);
}

#[test]
fn test_map_ok_chain() {
    let pipeline = op::map(|x: i32| if x % 2 == 0 { Ok(x) } else { Err("x is odd") })
        .map_ok(|x| x * 2)
        .map_ok(|x| x - 1);

    let result = pipeline.try_call(2).unwrap();
    assert_eq!(result, 3);
}

#[test]
fn test_map_err_constructor() {
    let op1 = op::map(|x: i32| if x % 2 == 0 { Ok(x) } else { Err("x is odd") });
    let op2 = then(|err: &str| format!("Error: {}", err));
    let op3 = op::map(|err: String| err.len());

    let pipeline = MapErr::new(MapErr::new(op1, op2), op3);

    let result = pipeline.try_call(1);
    assert_eq!(result, Err(15));
}

#[test]
fn test_map_err_chain() {
    let pipeline = op::map(|x: i32| if x % 2 == 0 { Ok(x) } else { Err("x is odd") })
        .map_err(|err| format!("Error: {}", err))
        .map_err(|err| err.len());

    let result = pipeline.try_call(1);
    assert_eq!(result, Err(15));
}

#[test]
fn test_and_then_constructor() {
    let op1 = op::map(|x: i32| if x % 2 == 0 { Ok(x) } else { Err("x is odd") });
    let op2 = then(|x: i32| Ok(x * 2));
    let op3 = op::map(|x: i32| Ok(x - 1));

    let pipeline = AndThen::new(AndThen::new(op1, op2), op3);

    let result = pipeline.try_call(2).unwrap();
    assert_eq!(result, 3);
}

#[test]
fn test_and_then_chain() {
    let pipeline = op::map(|x: i32| if x % 2 == 0 { Ok(x) } else { Err("x is odd") })
        .and_then(|x| Ok(x * 2))
        .and_then(|x| Ok(x - 1));

    let result = pipeline.try_call(2).unwrap();
    assert_eq!(result, 3);
}

#[test]
fn test_or_else_constructor() {
    let op1 = op::map(|x: i32| if x % 2 == 0 { Ok(x) } else { Err("x is odd") });
    let op2 = then(|err: &str| Err(format!("Error: {}", err)));
    let op3 = op::map(|err: String| Ok::<i32, String>(err.len() as i32));

    let pipeline = OrElse::new(OrElse::new(op1, op2), op3);

    let result = pipeline.try_call(1).unwrap();
    assert_eq!(result, 15);
}

#[test]
fn test_or_else_chain() {
    let pipeline = op::map(|x: i32| if x % 2 == 0 { Ok(x) } else { Err("x is odd") })
        .or_else(|err| Err(format!("Error: {}", err)))
        .or_else(|err| Ok::<i32, String>(err.len() as i32));

    let result = pipeline.try_call(1).unwrap();
    assert_eq!(result, 15);
}

#[test]
fn map_ok_leaves_errors_alone() {
    let pipeline = op::map(even).map_ok(|x| x * 10);
    assert_eq!(pipeline.try_call(3), Err("x is odd"));
    assert_eq!(pipeline.try_call(4), Ok(40));
}

#[test]
fn map_err_leaves_values_alone() {
    let pipeline = op::map(even).map_err(|e: &str| e.len());
    assert_eq!(pipeline.try_call(4), Ok(4));
    assert_eq!(pipeline.try_call(5), Err(8));
}

#[test]
fn and_then_stops_at_first_error() {
    let pipeline = op::map(even).and_then(|x| if x > 10 { Ok(x) } else { Err("too small") });
    assert_eq!(pipeline.try_call(3), Err("x is odd"));
    assert_eq!(pipeline.try_call(4), Err("too small"));
    assert_eq!(pipeline.try_call(12), Ok(12));
}

#[test]
fn or_else_keeps_values() {
    let pipeline = op::map(even).or_else(|_e: &str| Ok::<i32, String>(-1));
    assert_eq!(pipeline.try_call(6), Ok(6));
    assert_eq!(pipeline.try_call(7), Ok(-1));
}

#[test]
fn chain_ok_matches_map_ok() {
    let chained = op::map(even).chain_ok(op::map(|x: i32| x + 1));
    let mapped = op::map(even).map_ok(|x: i32| x + 1);
    for x in 0..10 {
        assert_eq!(chained.try_call(x), mapped.try_call(x));
    }
}

#[test]
fn map_ok_fusion_on_values() {
    let outer = op::map(even).map_ok(|x: i32| x * 2).map_ok(|x: i32| x - 1);
    let fused = op::map(even).map_ok(|x: i32| x * 2 - 1);
    for x in -5..5 {
        assert_eq!(outer.try_call(x), fused.try_call(x));
    }
}

#[test]
fn and_then_grouping_does_not_matter() {
    let left = AndThen::new(
        AndThen::new(op::map(even), then(|x: i32| Ok(x * 3))),
        then(|x: i32| if x < 20 { Ok(x) } else { Err("too big") }),
    );
    let right = AndThen::new(
        op::map(even),
        AndThen::new(then(|x: i32| Ok(x * 3)), then(|x: i32| if x < 20 { Ok(x) } else { Err("too big") })),
    );
    for x in 0..12 {
        assert_eq!(left.try_call(x), right.try_call(x));
    }
}

#[test]
fn or_else_grouping_does_not_matter() {
    let left = OrElse::new(
        OrElse::new(op::map(even), then(|_e: &str| Err::<i32, usize>(3))),
        then(|e: usize| if e > 2 { Ok(e as i32) } else { Err(e) }),
    );
    let right = OrElse::new(
        op::map(even),
        OrElse::new(then(|_e: &str| Err::<i32, usize>(3)), then(|e: usize| if e > 2 { Ok(e as i32) } else { Err(e) })),
    );
    for x in 0..6 {
        assert_eq!(left.try_call(x), right.try_call(x));
    }
}

#[test]
fn try_batch_call_gives_values_in_order() {
    let op = op::map(|x: i32| if x % 2 == 0 { Ok(x + 1) } else { Err("x is odd") });
    assert_eq!(op.try_batch_call(2, vec![2, 4]), Ok(vec![3, 5]));
}

#[test]
fn try_batch_call_gives_first_error() {
    let op = op::map(|x: i32| if x % 2 == 0 { Ok(x) } else { Err(x) });
    assert_eq!(op.try_batch_call(1, vec![2, 3, 4, 5]), Err(3));
    assert_eq!(op.try_batch_call(3, Vec::new()), Ok(Vec::new()));
}

#[test]
fn batch_call_keeps_order() {
    let op = op::map(|x: i32| x * x);
    assert_eq!(op.batch_call(2, vec![1, 2, 3]), vec![1, 4, 9]);
}

#[test]
fn passing_through_changes_nothing() {
    let plain = op::map(even);
    let ok_side = MapOk::new(op::map(even), qubit::op::passthrough::<i32>());
    let err_side = MapErr::new(op::map(even), qubit::op::passthrough::<&str>());
    for x in 0..6 {
        assert_eq!(ok_side.try_call(x), plain.try_call(x));
        assert_eq!(err_side.try_call(x), plain.try_call(x));
    }
}

#[test]
fn sequential_grouping_does_not_matter() {
    let left = qubit::op::chain(qubit::op::chain(op::map(|x: i32| x + 1), op::map(|x: i32| x * 2)), op::map(|x: i32| x - 3));
    let right = qubit::op::chain(op::map(|x: i32| x + 1), qubit::op::chain(op::map(|x: i32| x * 2), op::map(|x: i32| x - 3)));
    for x in -3..3 {
        assert_eq!(left.call(x), right.call(x));
    }
    assert_eq!(left.call(4), 7);
}

#[test]
fn map_err_fusion_on_errors() {
    let outer = op::map(even).map_err(|e: &str| e.len()).map_err(|n: usize| n * 2);
    let fused = op::map(even).map_err(|e: &str| e.len() * 2);
    for x in 0..6 {
        assert_eq!(outer.try_call(x), fused.try_call(x));
    }
    assert_eq!(outer.try_call(1), Err(16));
}
