use std::sync::atomic::{AtomicUsize, Ordering};
use std::sync::Arc;

use avgr::container::DependencyContainer;
use avgr::definition::RankScope;
use avgr::scoped::ScopedDependencyContainer;
use avgr::system::SystemScope;

fn setup_container() -> ScopedDependencyContainer<RankScope> {
    ScopedDependencyContainer::new_empty()
}

#[test]
fn test_scope_isolation() {
    let mut container = setup_container();

    let scope1 = RankScope { priority: 1 };
    let scope2 = RankScope { priority: 2 };

    container.create_default_scope(SystemScope::User(scope1.clone()));
    container.create_default_scope(SystemScope::User(scope2.clone()));

    container.register_with_scope(42, SystemScope::User(scope1.clone()));
    container.register_with_scope(24, SystemScope::User(scope2.clone()));

    assert_eq!(
        *container
            .resolve_from_scope::<i32>(&SystemScope::User(scope1))
            .unwrap(),
        42
    );
    assert_eq!(
        *container
            .resolve_from_scope::<i32>(&SystemScope::User(scope2))
            .unwrap(),
        24
    );
}

#[test]
fn test_scope_inheritance() {
    let mut container = setup_container();

    container.create_default_scope(SystemScope::User(RankScope { priority: 1 }));
    container.create_default_scope(SystemScope::User(RankScope { priority: 2 }));

    container.register_with_default_scope(
        SystemScope::User(RankScope { priority: 1 }),
        "parent value",
    );

    assert_eq!(*container.resolve::<&str>().unwrap(), "parent value");
}

#[test]
fn test_scope_shadowing() {
    let mut container = setup_container();

    let parent_scope = RankScope { priority: 2 };
    let child_scope = RankScope { priority: 1 };

    container.create_default_scope(SystemScope::User(parent_scope.clone()));
    container.create_default_scope(SystemScope::User(child_scope.clone()));

    container.register_with_scope("parent value", SystemScope::User(parent_scope));
    container.register_with_scope("child value", SystemScope::User(child_scope));

    assert_eq!(*container.resolve::<&str>().unwrap(), "child value");
}

#[test]
fn tests_test_type_safety() {
    let mut container = setup_container();
    let scope = RankScope { priority: 1 };
    container.create_default_scope(SystemScope::User(scope.clone()));

    container.register_with_default_scope(SystemScope::User(scope.clone()), 42i32);

    assert!(container.resolve::<i64>().is_none());
    assert!(container.resolve::<String>().is_none());
}

#[test]
fn test_scope_cleanup() {
    let mut container = setup_container();
    let scope = RankScope { priority: 1 };

    container.create_default_scope(SystemScope::User(scope.clone()));
    container.register_with_default_scope(SystemScope::User(scope.clone()), 42);

    assert!(container.delete_scope(SystemScope::User(scope.clone())));
    assert!(container.resolve::<i32>().is_none());
}

#[test]
fn test_multiple_registrations() {
    let mut container = setup_container();
    let scope = RankScope { priority: 1 };
    container.create_default_scope(SystemScope::User(scope.clone()));

    container.register_with_default_scope(SystemScope::User(scope.clone()), 1);
    container.register_with_default_scope(SystemScope::User(scope.clone()), 2);
    container.register_with_default_scope(SystemScope::User(scope.clone()), 3);

    assert_eq!(*container.resolve::<i32>().unwrap(), 3);
}

#[test]
fn tests_test_complex_type() {
    #[derive(Debug, PartialEq)]
    struct ComplexType {
        value: String,
        number: i32,
    }

    let mut container = setup_container();
    let scope = RankScope { priority: 1 };
    container.create_default_scope(SystemScope::User(scope.clone()));

    let complex = ComplexType {
        value: "test".to_string(),
        number: 42,
    };

    container.register_with_default_scope(SystemScope::User(scope), complex);

    let resolved = container.resolve::<ComplexType>().unwrap();
    assert_eq!(resolved.value, "test");
    assert_eq!(resolved.number, 42);
}

#[test]
fn test_empty_container() {
    let container = setup_container();
    assert!(container.resolve::<i32>().is_none());
    assert!(container.scope_count() == 0);
}

#[test]
fn test_realistic_usage() {
    trait UserService: Send + Sync {
        fn get_user_name(&self) -> String;
    }

    struct UserServiceImpl {
        prefix: String,
    }

    impl UserService for UserServiceImpl {
        fn get_user_name(&self) -> String {
            format!("{}_user", self.prefix)
        }
    }

    let mut container = setup_container();

    let global_scope = RankScope { priority: 1 };
    let request_scope = RankScope { priority: 2 };

    container.create_default_scope(SystemScope::User(global_scope.clone()));
    container.create_default_scope(SystemScope::User(request_scope.clone()));

    let user_service = UserServiceImpl {
        prefix: "test".to_string(),
    };

    container.register_with_default_scope(SystemScope::User(global_scope), user_service);

    let service = container.resolve::<UserServiceImpl>().unwrap();
    assert_eq!(service.get_user_name(), "test_user");
}

#[test]
fn empty_directory_never_registers_or_resolves() {
    let mut container = setup_container();
    assert!(container.resolve::<i32>().is_none());
    assert!(container.register(5i32).is_none());
    assert!(container.resolve::<i32>().is_none());
    assert!(container.deregister::<i32>().is_none());
    assert_eq!(container.scope_count(), 0);
}

#[test]
fn default_placement_targets_global() {
    let mut container: ScopedDependencyContainer<RankScope> = Default::default();
    container.create_default_scope(SystemScope::User(RankScope { priority: 5 }));
    assert_eq!(container.scope_count(), 3);

    assert!(container.register(9000u32).is_none());

    assert_eq!(
        *container
            .resolve_from_scope::<u32>(&SystemScope::Global)
            .unwrap(),
        9000
    );
    assert!(container
        .resolve_from_scope::<u32>(&SystemScope::Runtime)
        .is_none());
    assert!(container
        .resolve_from_scope::<u32>(&SystemScope::User(RankScope { priority: 5 }))
        .is_none());
    assert_eq!(*container.resolve::<u32>().unwrap(), 9000);
}

#[test]
fn reserved_scopes_exist_after_default_construction() {
    let container: ScopedDependencyContainer<RankScope> = Default::default();
    assert_eq!(container.scope_count(), 2);
    assert!(container.has_scope(&SystemScope::Global));
    assert!(container.has_scope(&SystemScope::Runtime));
    assert!(!container.has_scope(&SystemScope::User(RankScope { priority: 0 })));
}

#[test]
fn create_scope_is_idempotent_and_keeps_the_first_registry() {
    let mut container = setup_container();
    let scope = RankScope { priority: 3 };

    container.create_default_scope(SystemScope::User(scope.clone()));
    container.register_with_scope(10i32, SystemScope::User(scope.clone()));

    container.create_default_scope(SystemScope::User(scope.clone()));
    assert_eq!(container.scope_count(), 1);
    assert_eq!(
        *container
            .resolve_from_scope::<i32>(&SystemScope::User(scope))
            .unwrap(),
        10
    );
}

#[test]
fn register_with_scope_refuses_a_missing_scope() {
    let mut container = setup_container();
    let scope = RankScope { priority: 1 };

    assert!(container
        .register_with_scope(42i32, SystemScope::User(scope.clone()))
        .is_none());
    assert_eq!(container.scope_count(), 0);
    assert!(container
        .resolve_from_scope::<i32>(&SystemScope::User(scope))
        .is_none());
}

#[test]
fn register_with_scope_factory_creates_the_scope() {
    let mut container = setup_container();
    let scope = RankScope { priority: 4 };

    let prev = container.register_with_scope_factory(
        7i32,
        SystemScope::User(scope.clone()),
        avgr::store::DashmapDependencyContainer::new,
    );
    assert!(prev.is_none());
    assert!(container.has_scope(&SystemScope::User(scope.clone())));
    assert_eq!(
        *container
            .resolve_from_scope::<i32>(&SystemScope::User(scope))
            .unwrap(),
        7
    );
}

#[test]
fn cascading_drop_fires_once_after_last_handle() {
    struct ReleaseCounter {
        releases: Arc<AtomicUsize>,
    }

    impl Drop for ReleaseCounter {
        fn drop(&mut self) {
            self.releases.fetch_add(1, Ordering::SeqCst);
        }
    }

    let releases = Arc::new(AtomicUsize::new(0));
    let mut container = setup_container();
    let scope = RankScope { priority: 1 };
    container.create_default_scope(SystemScope::User(scope.clone()));
    container.register_with_scope(
        ReleaseCounter {
            releases: releases.clone(),
        },
        SystemScope::User(scope.clone()),
    );

    let handle = container
        .resolve_from_scope::<ReleaseCounter>(&SystemScope::User(scope.clone()))
        .unwrap();

    assert!(container.delete_scope(SystemScope::User(scope)));
    assert_eq!(releases.load(Ordering::SeqCst), 0);

    drop(handle);
    assert_eq!(releases.load(Ordering::SeqCst), 1);
}

#[test]
fn clear_scopes_removes_everything() {
    let mut container: ScopedDependencyContainer<RankScope> = Default::default();
    container.register_with_default_scope(SystemScope::Global, 1u8);
    container.clear_scopes();
    assert_eq!(container.scope_count(), 0);
    assert!(container.resolve::<u8>().is_none());
}

#[test]
fn deregister_from_scope_round_trip() {
    let mut container = setup_container();
    let scope = RankScope { priority: 9 };
    container.create_default_scope(SystemScope::User(scope.clone()));
    assert!(container.get_scope(&SystemScope::User(scope.clone())).is_some());
    assert!(container.get_scope(&SystemScope::User(RankScope { priority: 8 })).is_none());

    container.register_with_scope(77u16, SystemScope::User(scope.clone()));
    let removed = container
        .deregister_from_scope::<u16>(&SystemScope::User(scope.clone()))
        .unwrap();
    assert_eq!(*removed, 77);
    assert!(container
        .resolve_from_scope::<u16>(&SystemScope::User(scope.clone()))
        .is_none());
    assert!(container
        .deregister_from_scope::<u16>(&SystemScope::User(scope))
        .is_none());
}

#[test]
fn create_scope_with_factory_builds_the_registry_once() {
    let mut container = setup_container();
    let scope = RankScope { priority: 6 };

    container.create_scope_with_factory(
        SystemScope::User(scope.clone()),
        avgr::store::DashmapDependencyContainer::new,
    );
    assert!(container.has_scope(&SystemScope::User(scope.clone())));

    container.register_with_scope(3i32, SystemScope::User(scope.clone()));
    container.create_scope_with_factory(
        SystemScope::User(scope.clone()),
        avgr::store::DashmapDependencyContainer::new,
    );
    assert_eq!(
        *container
            .resolve_from_scope::<i32>(&SystemScope::User(scope))
            .unwrap(),
        3
    );
    assert_eq!(container.scope_count(), 1);
}
