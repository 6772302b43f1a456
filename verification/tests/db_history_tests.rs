use ez_migrations::db_history::{
    clear_outcome, entry_outcome, normalize_connection_string, read_outcome, store_outcome, KeyringFailure,
};

#[test]
fn normalize_passes_through_supported_keys_unchanged() {
    let raw = "Server=localhost,1433;Database=foo;User Id=sa;Password=pw;TrustServerCertificate=True";
    let n = normalize_connection_string(raw);
    assert_eq!(n.connection_string, raw);
    assert!(n.ignored_keys.is_empty());
}

#[test]
fn normalize_strips_unsupported_authentication_keyword() {
    let raw = r#"Data Source=localhost,1433;Initial Catalog=cmms;User ID=cmms;Password=cmms;TrustServerCertificate=True;Authentication="Sql Password""#;
    let n = normalize_connection_string(raw);
    assert!(!n.connection_string.contains("Authentication"));
    assert!(n.connection_string.contains("Data Source=localhost,1433"));
    assert!(n.connection_string.contains("Initial Catalog=cmms"));
    assert_eq!(n.ignored_keys, vec!["Authentication".to_string()]);
}

#[test]
fn normalize_strips_multiple_unsupported_keys() {
    let raw = "Server=db;Database=x;User Id=u;Password=p;MultipleActiveResultSets=True;ConnectRetryCount=3;Pooling=true";
    let n = normalize_connection_string(raw);
    assert_eq!(
        n.ignored_keys,
        vec!["MultipleActiveResultSets".to_string(), "ConnectRetryCount".to_string(), "Pooling".to_string()]
    );
    assert!(!n.connection_string.contains("MultipleActiveResultSets"));
    assert!(!n.connection_string.contains("ConnectRetryCount"));
    assert!(!n.connection_string.contains("Pooling"));
}

#[test]
fn normalize_is_case_insensitive() {
    let raw = "SERVER=x;DATABASE=y;USER ID=u;PASSWORD=p";
    let n = normalize_connection_string(raw);
    assert!(n.ignored_keys.is_empty());
    assert_eq!(n.connection_string, raw);
}

#[test]
fn normalize_handles_empty_segments_and_whitespace() {
    let raw = "  Server = x ; ; Database=y ;;User Id=u; Password=p ; ";
    let n = normalize_connection_string(raw);
    assert!(n.connection_string.contains("Server = x"));
    assert!(n.connection_string.contains("Database=y"));
    assert!(!n.connection_string.contains(";;"));
}

#[test]
fn normalize_returns_empty_string_for_empty_input() {
    let n = normalize_connection_string("");
    assert_eq!(n.connection_string, "");
    assert!(n.ignored_keys.is_empty());
}

#[test]
fn normalize_keeps_bare_tokens_and_exact_form() {
    let n = normalize_connection_string("  Server = x ; ; Database=y ;;User Id=u; Password=p ; bare ; Foo = 1");
    assert_eq!(n.connection_string, "Server = x;Database=y;User Id=u;Password=p;bare");
    assert_eq!(n.ignored_keys, vec!["Foo".to_string()]);
}

#[test]
fn normalizing_twice_changes_nothing() {
    let raw = "Server=db;Pooling=true; ;Database=x;Authentication=\"Sql Password\"";
    let once = normalize_connection_string(raw);
    let twice = normalize_connection_string(&once.connection_string);
    assert_eq!(twice.connection_string, once.connection_string);
    assert!(twice.ignored_keys.is_empty());
}

fn failure(no_entry: bool, text: &str) -> KeyringFailure {
    KeyringFailure { no_entry, text: text.to_string() }
}

#[test]
fn keyring_read_of_missing_entry_is_none() {
    assert_eq!(read_outcome(Err(failure(true, "No matching entry found"))), Ok(None));
    assert_eq!(read_outcome(Ok("Server=x".to_string())), Ok(Some("Server=x".to_string())));
}

#[test]
fn keyring_read_failure_names_the_keyring_error() {
    assert_eq!(
        read_outcome(Err(failure(false, "locked"))),
        Err("Failed to read connection string from keyring: locked".to_string())
    );
}

#[test]
fn keyring_clear_of_missing_entry_succeeds() {
    assert_eq!(clear_outcome(Err(failure(true, "none"))), Ok(()));
    assert_eq!(clear_outcome(Err(failure(false, "denied"))), Err("Failed to clear keyring entry: denied".to_string()));
}

#[test]
fn keyring_store_and_access_failures_are_prefixed() {
    assert_eq!(store_outcome(Ok(()), vec!["Encrypt".to_string()]), Ok(vec!["Encrypt".to_string()]));
    assert_eq!(
        store_outcome(Err(failure(false, "full")), Vec::new()),
        Err("Failed to store connection string in keyring: full".to_string())
    );
    assert_eq!(entry_outcome::<u8>(Err(failure(false, "no backend"))), Err("Failed to access OS keyring: no backend".to_string()));
    assert_eq!(entry_outcome::<u8>(Ok(7)), Ok(7));
}
