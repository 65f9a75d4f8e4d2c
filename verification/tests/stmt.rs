use statement_cache::Stmt;

/// A driver failure that can be had without a server: the driver's own
/// rejection of a malformed connection string.
fn driver_error() -> postgres::Error {
    match "no such key".parse::<postgres::Config>() {
        Ok(_) => panic!("a malformed connection string was accepted"),
        Err(error) => error,
    }
}

#[test]
fn new_statement_is_unprepared() {
    let stmt = Stmt::new("SELECT id FROM users");
    assert!(stmt.cached().is_none());
    assert_eq!(stmt.query(), "SELECT id FROM users");
}

#[test]
fn failed_preparation_leaves_statement_unprepared() {
    let mut stmt = Stmt::new("SELEC id FRM users");
    let expected = driver_error().to_string();

    match stmt.settle(Err(driver_error())) {
        Ok(_) => panic!("a failure was turned into a handle"),
        Err(error) => assert_eq!(error.to_string(), expected),
    }
    assert!(stmt.cached().is_none());

    match stmt.settle(Err(driver_error())) {
        Ok(_) => panic!("a failure was turned into a handle"),
        Err(error) => assert_eq!(error.to_string(), expected),
    }
    assert!(stmt.cached().is_none());
    assert_eq!(stmt.query(), "SELEC id FRM users");
}

#[test]
fn driver_error_is_not_closed_connection() {
    let mut stmt = Stmt::new("SELECT 1");
    match stmt.settle(Err(driver_error())) {
        Ok(_) => panic!("a failure was turned into a handle"),
        Err(error) => {
            assert!(!error.is_closed());
            assert!(error.code().is_none());
        }
    }
}

#[test]
fn resolve_retries_after_driver_failure() {
    let mut stmt = Stmt::new("SELEC id FRM users");
    let expected = driver_error().to_string();
    let mut asked: Vec<String> = Vec::new();

    for _ in 0..2 {
        let given = stmt.resolve(|query| {
            asked.push(query.to_string());
            Err(driver_error())
        });
        match given {
            Ok(_) => panic!("a failure was turned into a handle"),
            Err(error) => assert_eq!(error.to_string(), expected),
        }
        assert!(stmt.cached().is_none());
    }
    assert_eq!(
        asked,
        vec![
            "SELEC id FRM users".to_string(),
            "SELEC id FRM users".to_string()
        ]
    );
}
