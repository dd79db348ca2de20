use avgr::definition::RankScope;
use avgr::definition::ScopeDefinition;
use avgr::priority::ScopePriority;
use avgr::system::SystemScope;

#[test]
fn test_priority() {
    assert_eq!(SystemScope::<()>::Global.priority(), ScopePriority::Global);
    assert_eq!(SystemScope::<()>::Runtime.priority(), ScopePriority::Runtime);
    assert_eq!(SystemScope::User(()).priority(), ScopePriority::User(u8::MAX));
    assert_eq!(
        SystemScope::User(RankScope { priority: 5 }).priority(),
        ScopePriority::User(5)
    );
}

#[test]
fn test_ord() {
    assert!(ScopePriority::Global > ScopePriority::Runtime);
    assert!(ScopePriority::Runtime > ScopePriority::User(5));
    assert!(ScopePriority::User(5) < ScopePriority::User(6));
    assert!(ScopePriority::User(5) == ScopePriority::User(5));
}

#[test]
fn highest_user_rank_sorts_directly_below_runtime() {
    assert!(ScopePriority::User(u8::MAX) < ScopePriority::Runtime);
    assert!(ScopePriority::User(u8::MAX) > ScopePriority::User(254));
    assert_eq!((), <() as ScopeDefinition>::clone_scope(&()));
    assert_eq!(<() as ScopeDefinition>::priority(&()), ScopePriority::User(255));
}

#[test]
fn rank_values_order_every_class() {
    assert_eq!(ScopePriority::User(0).rank_value(), 0);
    assert_eq!(ScopePriority::User(255).rank_value(), 255);
    assert_eq!(ScopePriority::Runtime.rank_value(), 256);
    assert_eq!(ScopePriority::Global.rank_value(), 257);
}
