use scylla_pool::recycling::{CLEAN_QUERY, VERIFY_QUERY};
use scylla_pool::{Config, Manager, RecyclingMethod};

#[test]
fn default_method_is_fast() {
    assert!(matches!(RecyclingMethod::default(), RecyclingMethod::Fast));
}

#[test]
fn fast_has_no_statement() {
    assert_eq!(RecyclingMethod::Fast.query(), None);
    assert!(!RecyclingMethod::Fast.validates());
}

#[test]
fn checking_methods_have_their_statement() {
    assert_eq!(
        RecyclingMethod::Verified.query().as_deref(),
        Some("SELECT now() FROM system.local")
    );
    assert_eq!(RecyclingMethod::Verified.query().as_deref(), Some(VERIFY_QUERY));
    assert_eq!(RecyclingMethod::Clean.query().as_deref(), Some(CLEAN_QUERY));
    assert!(CLEAN_QUERY.contains("DISCARD TEMP"));
    assert!(CLEAN_QUERY.contains("UNLISTEN *"));
    assert!(CLEAN_QUERY.contains("pg_advisory_unlock_all"));
    assert_eq!(
        RecyclingMethod::Custom("SELECT 1".to_string()).query().as_deref(),
        Some("SELECT 1")
    );
    assert!(RecyclingMethod::Verified.validates());
    assert!(RecyclingMethod::Clean.validates());
    assert!(RecyclingMethod::Custom(String::new()).validates());
}

#[test]
fn manager_defaults_and_overrides() {
    let config = Config::new(vec!["127.0.0.1".to_string()], 9042, "ks".to_string());
    let m = Manager::new(config);
    assert!(matches!(m.recycling, RecyclingMethod::Fast));
    assert_eq!(m.recycle_query(), None);
    let m = m.with_recycling_method(RecyclingMethod::Custom("SELECT 2".to_string()));
    assert_eq!(m.recycle_query().as_deref(), Some("SELECT 2"));
    assert_eq!(m.session_plan().unwrap().node, "127.0.0.1:9042");
}

#[test]
fn manager_refuses_empty_hosts() {
    let bad = Config::new(vec![], 9042, "ks".to_string());
    assert!(Manager::try_new(bad).is_err());
    let good = Config::new(vec!["h".to_string()], 1, "ks".to_string());
    assert!(Manager::try_new(good).is_ok());
}
