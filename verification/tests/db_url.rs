use lattice::db_url::{normalize_sqlite_db_url_path, normalized_db_url};

#[test]
fn normalized_db_url_preserves_non_sqlite_urls() {
    assert_eq!(
        normalized_db_url("postgres://localhost/lattice"),
        "postgres://localhost/lattice"
    );
}

#[test]
fn normalized_db_url_adds_mode_when_missing() {
    assert_eq!(
        normalized_db_url("sqlite://./lattice.db"),
        "sqlite://./lattice.db?mode=rwc"
    );
}

#[test]
fn normalized_db_url_normalizes_windows_paths() {
    assert_eq!(
        normalized_db_url(r"sqlite://C:\Temp\lattice.db"),
        "sqlite:///C:/Temp/lattice.db?mode=rwc"
    );
    assert_eq!(
        normalized_db_url(r"sqlite://C:\Temp\lattice.db?mode=rwc"),
        "sqlite:///C:/Temp/lattice.db?mode=rwc"
    );
}

#[test]
fn normalized_db_url_keeps_an_existing_query() {
    assert_eq!(
        normalized_db_url("sqlite://data/app.db?mode=ro&cache=shared"),
        "sqlite://data/app.db?mode=ro&cache=shared"
    );
}

#[test]
fn sqlite_path_is_normalized_without_touching_the_query() {
    assert_eq!(
        normalize_sqlite_db_url_path(r"sqlite://d:\a\b.db?x=\y"),
        r"sqlite:///d:/a/b.db?x=\y"
    );
    assert_eq!(
        normalize_sqlite_db_url_path("mysql://host/db"),
        "mysql://host/db"
    );
    assert_eq!(normalize_sqlite_db_url_path("sqlite://"), "sqlite://");
    assert_eq!(normalized_db_url("sqlite://"), "sqlite://?mode=rwc");
}
