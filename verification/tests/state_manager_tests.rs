use testing_actions::platform::Platform;
use testing_actions::state_manager::SharedStateManager;

#[test]
fn test_state_manager_creation() {
    let manager = SharedStateManager::new();

    assert_eq!(manager.current_step_index(), 0);
    assert!(manager.used_platforms().is_empty());
}

#[test]
fn test_step_advancement() {
    let mut manager = SharedStateManager::new();

    manager.advance_step(Some(&Platform::Playwright));
    assert_eq!(manager.current_step_index(), 1);
    assert!(manager.has_used_platform(&Platform::Playwright));
}

#[test]
fn test_platform_tracking() {
    let mut manager = SharedStateManager::new();

    manager.advance_step(Some(&Platform::Playwright));
    manager.advance_step(Some(&Platform::Nodejs));
    manager.advance_step(Some(&Platform::Web));

    assert!(manager.has_used_platform(&Platform::Playwright));
    assert!(manager.has_used_platform(&Platform::Nodejs));
    assert!(manager.has_used_platform(&Platform::Web));
    assert_eq!(manager.used_platforms().len(), 3);
}

#[test]
fn a_platform_is_recorded_once_and_clear_forgets() {
    let mut manager = SharedStateManager::default();
    manager.advance_step(Some(&Platform::Web));
    manager.advance_step(None);
    manager.advance_step(Some(&Platform::Web));
    manager.record_platform_usage(&Platform::Go);
    manager.record_platform_usage(&Platform::Web);
    assert_eq!(manager.current_step_index(), 3);
    assert_eq!(manager.used_platforms(), &[Platform::Web, Platform::Go]);
    assert!(!manager.has_used_platform(&Platform::Java));

    manager.clear();
    assert_eq!(manager.current_step_index(), 0);
    assert!(manager.used_platforms().is_empty());
    assert!(!manager.has_used_platform(&Platform::Web));
}
