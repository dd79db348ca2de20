use avgr::handler::Handler;
use avgr::route::Route;
use avgr::storage::HashMapStorage;
use avgr::storage::RouteStorage;
use avgr::store::DashmapDependencyContainer;

#[test]
fn test_handler_with_closure() {
    let handler = |x: i32| x * 2;
    let result = handler.handle(5);
    assert_eq!(result, 10);
}

#[test]
fn test_handler_with_string() {
    let handler = |s: String| s.to_uppercase();
    let result = handler.handle("hello".to_string());
    assert_eq!(result, "HELLO");
}

#[test]
fn test_handler_with_vec() {
    let handler = |v: Vec<i32>| v.iter().sum::<i32>();
    let result = handler.handle(vec![1, 2, 3, 4, 5]);
    assert_eq!(result, 15);
}

#[test]
fn test_route_creation() {
    let route: Route<String, _, _, _> = Route::new("/test".to_string(), |_: ()| 42);

    assert_eq!(route.path.as_str(), "/test");
    assert_eq!(route.handle(()), 42);
}

#[test]
fn test_route_cloning() {
    let route: Route<String, _, _, _> = Route::new("/test".to_string(), |_: ()| 42);
    let cloned = route.clone();

    assert_eq!(route.path.as_str(), cloned.path.as_str());
    assert_eq!(route.handle(()), cloned.handle(()));
}

#[test]
fn test_add_and_match_route() {
    let mut storage = HashMapStorage::<String, (), DashmapDependencyContainer, _>::new();

    storage.add_route("/test".to_string(), |_: DashmapDependencyContainer| ());

    let matched = storage.match_route("/test".to_string());
    assert!(matched.is_some());

    let not_matched = storage.match_route("/nonexistent".to_string());
    assert!(not_matched.is_none());
}

#[test]
fn test_default() {
    let storage = HashMapStorage::<String, (), DashmapDependencyContainer, fn(
        DashmapDependencyContainer,
    )>::default();
    assert!(storage.match_route("/any".to_string()).is_none());
}

#[test]
fn matched_route_runs_its_handler() {
    let mut storage = HashMapStorage::<String, i32, i32, _>::new();
    storage.add_route("/double".to_string(), |x: i32| x * 2);

    let route = storage.match_route("/double".to_string()).unwrap();
    assert_eq!(route.path.as_str(), "/double");
    assert_eq!(route.handle(21), 42);
}
