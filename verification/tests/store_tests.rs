use std::sync::atomic::{AtomicBool, Ordering};
use std::sync::Arc;

use avgr::container::DependencyContainer;
use avgr::store::DashmapDependencyContainer;

fn create_container() -> DashmapDependencyContainer {
    DashmapDependencyContainer::default()
}

#[test]
fn test_basic_resolve_register() {
    let mut container = create_container();

    let value = 42;
    container.register(value);

    let resolved = container.resolve::<i32>().unwrap();
    assert_eq!(*resolved, 42);
}

#[test]
fn test_multiple_types() {
    let mut container = create_container();

    container.register(42i32);
    container.register("hello".to_string());
    container.register(123.45f64);

    assert_eq!(*container.resolve::<i32>().unwrap(), 42);
    assert_eq!(*container.resolve::<String>().unwrap(), "hello");
    assert_eq!(*container.resolve::<f64>().unwrap(), 123.45);
}

#[test]
fn test_override_registration() {
    let mut container = create_container();

    container.register(42i32);
    assert_eq!(*container.resolve::<i32>().unwrap(), 42);

    container.register(84i32);
    assert_eq!(*container.resolve::<i32>().unwrap(), 84);
}

#[test]
fn test_deregister() {
    let mut container = create_container();

    container.register(42i32);
    assert_eq!(*container.resolve::<i32>().unwrap(), 42);

    let deregistered = container.deregister::<i32>().unwrap();
    assert_eq!(*deregistered, 42);
    assert!(container.resolve::<i32>().is_none());
}

#[test]
fn test_missing_dependency() {
    let container = create_container();
    assert!(container.resolve::<i32>().is_none());
}

#[test]
fn dashmap_test_complex_type() {
    #[derive(Debug, PartialEq)]
    struct ComplexType {
        value: String,
        number: i32,
    }

    let mut container = create_container();
    let complex = ComplexType {
        value: "test".to_string(),
        number: 42,
    };

    container.register(complex);

    let resolved = container.resolve::<ComplexType>().unwrap();
    assert_eq!(resolved.value, "test");
    assert_eq!(resolved.number, 42);
}

#[test]
fn test_trait_objects() {
    trait TestTrait: Send + Sync {
        fn get_value(&self) -> i32;
    }

    struct TestImpl {
        value: i32,
    }

    impl TestTrait for TestImpl {
        fn get_value(&self) -> i32 {
            self.value
        }
    }

    let mut container = create_container();
    container.register(TestImpl { value: 42 });

    let resolved = container.resolve::<TestImpl>().unwrap();
    assert_eq!(resolved.get_value(), 42);
}

#[test]
fn test_arc_handling() {
    let mut container = create_container();
    let value = Arc::new(42i32);

    container.register(value.clone());

    let resolved = container.resolve::<Arc<i32>>().unwrap();
    assert_eq!(**resolved, 42);
}

#[test]
fn test_multiple_references() {
    let mut container = create_container();
    container.register(42i32);

    let ref1 = container.resolve::<i32>().unwrap();
    let ref2 = container.resolve::<i32>().unwrap();

    assert_eq!(*ref1, 42);
    assert_eq!(*ref2, 42);
}

#[test]
fn dashmap_test_type_safety() {
    let mut container = create_container();
    container.register(42i32);

    assert!(container.resolve::<i64>().is_none());
    assert!(container.resolve::<String>().is_none());
}

#[test]
fn test_deregister_missing() {
    let mut container = create_container();
    assert!(container.deregister::<i32>().is_none());
}

#[test]
fn test_zero_sized_types() {
    #[derive(Debug, PartialEq)]
    struct ZeroSized;

    let mut container = create_container();
    container.register(ZeroSized);

    assert!(container.resolve::<ZeroSized>().is_some());
}

#[test]
fn test_large_values() {
    let mut container = create_container();
    let large_vec = vec![0; 1000000];
    container.register(large_vec);

    let resolved = container.resolve::<Vec<i32>>().unwrap();
    assert_eq!(resolved.len(), 1000000);
}

#[test]
fn test_drop_behavior() {
    struct DropCheck {
        dropped: Arc<AtomicBool>,
    }

    impl Drop for DropCheck {
        fn drop(&mut self) {
            self.dropped.store(true, Ordering::SeqCst);
        }
    }

    let mut container = create_container();
    let dropped = Arc::new(AtomicBool::new(false));

    container.register(DropCheck {
        dropped: dropped.clone(),
    });

    {
        let _resolved = container.resolve::<DropCheck>();
        assert!(!dropped.load(Ordering::SeqCst));
    }

    container.deregister::<DropCheck>();
    assert!(dropped.load(Ordering::SeqCst));
}

#[test]
fn register_default_uses_the_default_value() {
    let mut container = create_container();
    assert!(container.register_default::<u64>().is_none());
    assert_eq!(*container.resolve::<u64>().unwrap(), 0u64);
}

#[test]
fn type_isolation_between_two_types() {
    let mut container = create_container();
    container.register(7i32);
    container.register("seven".to_string());

    container.register(8i32);
    assert_eq!(*container.resolve::<String>().unwrap(), "seven");

    container.deregister::<String>();
    assert_eq!(*container.resolve::<i32>().unwrap(), 8);
}

#[test]
fn override_returns_the_first_value_exactly_once() {
    let mut container = create_container();
    assert!(container.register(1u8).is_none());
    let first = container.register(2u8).unwrap();
    assert_eq!(*first, 1u8);
    assert_eq!(*container.resolve::<u8>().unwrap(), 2u8);
    assert_eq!(*container.deregister::<u8>().unwrap(), 2u8);
    assert!(container.deregister::<u8>().is_none());
}
