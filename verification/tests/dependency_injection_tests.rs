use rustci_core::dependency_injection::{
    ResolutionStep, ResolveRefusal, ServiceContainer, ServiceLifetime, ServiceScope,
};
use rustci_core::errors::AppError;

const TEST_SERVICE: u128 = 1;

#[test]
fn test_singleton_lifetime() {
    let mut container = ServiceContainer::new();
    container.register(TEST_SERVICE, ServiceLifetime::Singleton, "TestService", 0).unwrap();
    let mut built = 0;
    assert_eq!(container.begin_resolution(TEST_SERVICE, None), Ok(ResolutionStep::CreateSingleton));
    built += 1;
    container.record_singleton(TEST_SERVICE);
    container.finish_resolution(TEST_SERVICE);
    assert_eq!(container.begin_resolution(TEST_SERVICE, None), Ok(ResolutionStep::UseSingleton));
    container.finish_resolution(TEST_SERVICE);
    assert_eq!(built, 1);
}

#[test]
fn test_transient_lifetime() {
    let mut container = ServiceContainer::new();
    container.register(TEST_SERVICE, ServiceLifetime::Transient, "TestService", 0).unwrap();
    for _ in 0..2 {
        assert_eq!(container.begin_resolution(TEST_SERVICE, None), Ok(ResolutionStep::CreateTransient));
        container.finish_resolution(TEST_SERVICE);
    }
}

#[test]
fn test_scoped_lifetime() {
    let mut container = ServiceContainer::new();
    container.register(TEST_SERVICE, ServiceLifetime::Scoped, "TestService", 0).unwrap();
    let scope1 = ServiceScope::new();
    let scope2 = ServiceScope::new();
    assert_ne!(scope1.scope_id, scope2.scope_id);
    assert_eq!(container.begin_resolution(TEST_SERVICE, Some(scope1.scope_id)), Ok(ResolutionStep::Scoped(scope1.scope_id)));
    container.finish_resolution(TEST_SERVICE);
    assert_eq!(container.begin_resolution(TEST_SERVICE, Some(scope2.scope_id)), Ok(ResolutionStep::Scoped(scope2.scope_id)));
    container.finish_resolution(TEST_SERVICE);
    assert_eq!(container.begin_resolution(TEST_SERVICE, None), Err(ResolveRefusal::ScopeRequired));
}

#[test]
fn circular_resolution_is_refused() {
    let mut container = ServiceContainer::new();
    container.register(1, ServiceLifetime::Transient, "A", 1).unwrap();
    container.register(2, ServiceLifetime::Transient, "B", 1).unwrap();
    assert!(container.begin_resolution(1, None).is_ok());
    assert!(container.begin_resolution(2, None).is_ok());
    assert_eq!(container.begin_resolution(1, None), Err(ResolveRefusal::Circular(vec![1, 2])));
    container.finish_resolution(2);
    container.finish_resolution(1);
    assert!(container.begin_resolution(1, None).is_ok());
}

#[test]
fn unknown_service_is_refused() {
    let mut container = ServiceContainer::new();
    assert_eq!(container.begin_resolution(9, None), Err(ResolveRefusal::NotRegistered(9)));
    assert!(container.begin_resolution(9, None).is_err());
}

#[test]
fn registration_info_and_listing() {
    let mut container = ServiceContainer::default();
    container.register(1, ServiceLifetime::Singleton, "First", 2).unwrap();
    container.register(2, ServiceLifetime::Scoped, "Second", 0).unwrap();
    container.register(1, ServiceLifetime::Transient, "First again", 3).unwrap();
    let info = container.get_registration_info(1).unwrap().unwrap();
    assert_eq!(info.service_name, "First again");
    assert_eq!(info.lifetime, ServiceLifetime::Transient);
    assert_eq!(info.dependencies_count, 3);
    assert!(container.get_registration_info(3).unwrap().is_none());
    assert_eq!(container.list_services().unwrap().len(), 2);
}

#[test]
fn scope_error_message() {
    match ResolveRefusal::scope_error() {
        AppError::DependencyNotFound { service } => assert_eq!(service, "Scope ID required for scoped service"),
        _ => panic!("expected a dependency error"),
    }
}

#[test]
fn scope_duration() {
    let s = ServiceScope::new_at(5, 1_000);
    assert_eq!(s.duration_at(1_750), 750);
    assert_eq!(s.duration_at(500), 0);
}
