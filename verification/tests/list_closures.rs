use suji_runtime::error::RuntimeError;
use suji_runtime::list_closures::{filter_items, fold_items, map_items};

fn fail(message: &str) -> RuntimeError {
    RuntimeError::TypeError { message: message.to_string() }
}

#[test]
fn map_applies_the_closure_to_each_item_in_order() {
    let items = vec![1, 2, 3];
    let r = map_items(&items, &|x: &i32| Ok::<i32, RuntimeError>(x * 10)).unwrap();
    assert_eq!(r, vec![10, 20, 30]);
    let empty: Vec<i32> = vec![];
    assert_eq!(map_items(&empty, &|x: &i32| Ok::<i32, RuntimeError>(*x)).unwrap(), Vec::<i32>::new());
}

#[test]
fn map_stops_at_the_first_error() {
    let items = vec![1, 2, 3, 4];
    let seen = std::cell::RefCell::new(Vec::new());
    let r = map_items(&items, &|x: &i32| {
        seen.borrow_mut().push(*x);
        if *x >= 2 { Err(fail(&format!("bad {}", x))) } else { Ok(*x) }
    });
    assert!(matches!(r, Err(RuntimeError::TypeError { ref message }) if message == "bad 2"));
    assert_eq!(*seen.borrow(), vec![1, 2]);
}

#[test]
fn filter_keeps_the_items_the_closure_accepts() {
    let items = vec![1, 2, 3, 4, 5, 6];
    let r = filter_items(&items, &|x: &i32| Ok::<bool, RuntimeError>(x % 2 == 0)).unwrap();
    assert_eq!(r, vec![2, 4, 6]);
    let none = filter_items(&items, &|_: &i32| Ok::<bool, RuntimeError>(false)).unwrap();
    assert!(none.is_empty());
    let err = filter_items(&items, &|x: &i32| if *x == 3 { Err(fail("not a boolean")) } else { Ok(true) });
    assert!(matches!(err, Err(RuntimeError::TypeError { .. })));
}

#[test]
fn fold_threads_the_accumulator_through_the_items() {
    let items = vec!["a".to_string(), "b".to_string(), "c".to_string()];
    let r = fold_items(&items, String::from(">"), &|acc: String, x: &String| Ok::<String, RuntimeError>(acc + x)).unwrap();
    assert_eq!(r, ">abc");
    let empty: Vec<String> = vec![];
    assert_eq!(fold_items(&empty, 7, &|acc: i32, _: &String| Ok::<i32, RuntimeError>(acc + 1)).unwrap(), 7);
    let err = fold_items(&items, 0, &|acc: i32, x: &String| if x == "b" { Err(fail("stop")) } else { Ok(acc + 1) });
    assert!(matches!(err, Err(RuntimeError::TypeError { ref message }) if message == "stop"));
}
