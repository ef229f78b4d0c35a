use sledge::address::StoreAddress;
use sledge::audit::{Action, Assignment, Authenticator, Grant, Permissions, Resource, RoleId, UserId};
use sledge::commodity::{CommodityId, CurrencyCode};
use sledge::configuration::{Binding, Configuration, SchemaVersion, ServerConfig};
use sledge::entity::{EntityStore, PAGE_SIZE};
use sledge::error::Error;
use sledge::fs::{check_file_name, create_datastore, get_current_datastore, CreateDatastoreContents, DataStore, FileSystemStore, FsLayout, FsProbe, FsStep, FsStoreSettings};
use sledge::journal::Journal;
use sledge::ledger::{Ledger, LedgerKind};
use sledge::store_config::{FileSystemConfig, Sqlite, SqliteAutoVacuum, SqliteJournalMode, SqliteLockingMode, SqliteSynchronous};
use sledge::time::{Span, Timestamp};

fn empty_probe() -> FsProbe {
    FsProbe { settings_file: false, journals_dir: false, ledgers_dir: false }
}

/// What a probe of `root` finds after `steps` are carried out.
fn probe_after(root: &str, mut probe: FsProbe, steps: &[FsStep]) -> FsProbe {
    for step in steps {
        match step {
            FsStep::CreateDir(d) if *d == format!("{}/journals", root) => probe.journals_dir = true,
            FsStep::CreateDir(d) if *d == format!("{}/ledgers", root) => probe.ledgers_dir = true,
            FsStep::WriteSettings(f) if *f == format!("{}/settings.json", root) => probe.settings_file = true,
            _ => {}
        }
    }
    probe
}

fn journal(name: &str, created: i64) -> Journal {
    Journal {
        name: name.to_string(),
        created: Timestamp { millis: created },
        read_only_after: None,
        transactions: vec![],
        currency: CurrencyCode::parse("USD").unwrap(),
        signature: None,
    }
}

#[test]
fn created_store_exists_and_cannot_be_created_again() {
    let address = StoreAddress::parse("fstore:///tmp/books").unwrap();
    assert_eq!(address.scheme(), "fstore");
    assert_eq!(address.path(), "/tmp/books");
    let (store, steps) = create_datastore(&address, empty_probe(), CreateDatastoreContents::default()).unwrap();
    assert!(store.as_file_system().connected);
    let probe = probe_after("/tmp/books", empty_probe(), &steps);
    assert!(FileSystemStore::is_present(probe));
    match create_datastore(&address, probe, CreateDatastoreContents::default()) {
        Err(Error::StoreExists { address }) => assert_eq!(address, "fstore:///tmp/books"),
        other => panic!("unexpected {:?}", other.map(|_| ())),
    }
}

#[test]
fn create_plan_lists_the_layout() {
    let address = StoreAddress::parse("fstore:///tmp/books").unwrap();
    let content = CreateDatastoreContents { ledgers: vec![Ledger::new(LedgerKind::Sales, "sales".to_string(), CurrencyCode::parse("EUR").unwrap())], journals: vec![journal("2024", 0)] };
    let (handle, steps) = create_datastore(&address, empty_probe(), content).unwrap();
    let DataStore::FileSystem(store) = handle;
    let shown: Vec<String> = steps.iter().map(|s| format!("{:?}", s)).collect();
    assert_eq!(shown, vec![
        "CreateDir(\"/tmp/books\")",
        "WriteSettings(\"/tmp/books/settings.json\")",
        "WritePermissions(\"/tmp/books/permissions.json\")",
        "CreateDir(\"/tmp/books/journals\")",
        "WriteJournal(\"/tmp/books/journals/2024\", \"2024\")",
        "CreateDir(\"/tmp/books/ledgers\")",
        "WriteLedger(\"/tmp/books/ledgers/sales\", \"sales\")",
    ]);
    assert!(store.journals.get_by_id("2024").is_some());
    assert!(store.ledgers.get_by_id("sales").is_some());
    assert!(matches!(store.settings.default_commodity, CommodityId::Currency(ref c) if c.alpha_code() == "XXX"));
}

#[test]
fn create_refuses_unsafe_or_duplicate_names() {
    let address = StoreAddress::parse("fstore:///tmp/books").unwrap();
    let content = CreateDatastoreContents { ledgers: vec![], journals: vec![journal("../escape", 0)] };
    assert!(matches!(create_datastore(&address, empty_probe(), content), Err(Error::InvalidIdentifier { .. })));
    let content = CreateDatastoreContents { ledgers: vec![], journals: vec![journal("a", 0), journal("a", 1)] };
    assert!(matches!(create_datastore(&address, empty_probe(), content), Err(Error::DuplicateIdentifier { .. })));
    assert!(!check_file_name(".."));
    assert!(!check_file_name(""));
    assert!(check_file_name("2024-q1"));
}

#[test]
fn unknown_scheme_is_refused() {
    let address = StoreAddress::parse("postgres://db/books").unwrap();
    match create_datastore(&address, empty_probe(), CreateDatastoreContents::default()) {
        Err(Error::UnknownStoreScheme { address }) => assert_eq!(address, "postgres://db/books"),
        other => panic!("unexpected {:?}", other.map(|_| ())),
    }
    assert!(matches!(get_current_datastore(&address, empty_probe(), None), Err(Error::UnknownStoreScheme { .. })));
    assert!(matches!(StoreAddress::parse("not a uri"), Err(Error::InvalidAddress { .. })));
}

#[test]
fn connect_needs_an_existing_store_and_falls_back_to_default_settings() {
    let address = StoreAddress::parse("fstore:///srv/ledger/").unwrap();
    assert!(matches!(get_current_datastore(&address, FsProbe { settings_file: true, journals_dir: true, ledgers_dir: false }, None), Err(Error::StoreDoesNotExist { .. })));
    let full = FsProbe { settings_file: true, journals_dir: true, ledgers_dir: true };
    let mut handle = get_current_datastore(&address, full, None).unwrap();
    let store = handle.as_file_system_mut();
    assert_eq!(store.settings.version.major, 0);
    assert_eq!(store.settings.version.minor, 1);
    assert_eq!(store.settings.created.millis, 0);
    assert_eq!(store.layout.settings_path(), "/srv/ledger/settings.json");
    assert_eq!(store.layout.journal_path("2024"), "/srv/ledger/journals/2024");
    assert_eq!(FsLayout::temporary_path("/srv/ledger/journals/2024"), "/srv/ledger/journals/2024.tmp");
    let w = store.journal_file("2024").unwrap();
    assert_eq!(w.target, "/srv/ledger/journals/2024");
    assert_eq!(w.temporary, "/srv/ledger/journals/2024.tmp");
    assert_eq!(store.ledger_file("sales").unwrap().target, "/srv/ledger/ledgers/sales");
    assert!(matches!(store.ledger_file("a/b"), Err(Error::InvalidIdentifier { .. })));
    assert!(store.journals().is_ok());
    handle.disconnect();
    handle.disconnect();
    assert!(matches!(handle.as_file_system_mut().ledgers(), Err(Error::Disconnected)));

    let kept = FsStoreSettings::or_fallback(Some(FsStoreSettings { version: SchemaVersion::new(0, 2, 0), created: Timestamp { millis: 7 }, default_commodity: CommodityId::Currency(CurrencyCode::parse("CHF").unwrap()) }));
    assert_eq!(kept.version.minor, 2);
    assert_eq!(kept.created.millis, 7);
}

#[test]
fn missing_identifier_reads_as_none() {
    let ledgers: EntityStore<Ledger> = EntityStore::new();
    assert!(ledgers.get_by_id("f47ac10b-58cc-4372-a567-0e02b2c3d479").is_none());
}

#[test]
fn written_entity_reads_back_unchanged() {
    let mut table: EntityStore<Journal> = EntityStore::new();
    let mut j = journal("q1", 42);
    j.read_only_after = Some(Span { millis: 99 });
    table.create_with_id(j, "first-quarter".to_string()).unwrap();
    let got = table.get_by_id("first-quarter").unwrap();
    assert_eq!(got.name, "q1");
    assert_eq!(got.created, Timestamp { millis: 42 });
    assert_eq!(got.read_only_after, Some(Span { millis: 99 }));
    assert_eq!(got.currency.alpha_code(), "USD");
    assert!(got.transactions.is_empty());
    assert!(got.signature.is_none());
    assert!(matches!(table.create_with_id(journal("x", 0), "first-quarter".to_string()), Err(Error::DuplicateIdentifier { .. })));
}

#[test]
fn listing_is_ordered_paged_and_repeatable() {
    let mut table: EntityStore<Journal> = EntityStore::new();
    for k in 0..(PAGE_SIZE + 5) {
        // created times out of order on purpose
        let created = ((k * 7) % (PAGE_SIZE + 5)) as i64;
        table.create(journal(&format!("j{}", k), created)).unwrap();
    }
    let (first, next) = table.list(None);
    let (again, next_again) = table.list(None);
    assert_eq!(first.len(), PAGE_SIZE);
    assert_eq!(next, next_again);
    let names: Vec<&String> = first.iter().map(|j| &j.name).collect();
    let names_again: Vec<&String> = again.iter().map(|j| &j.name).collect();
    assert_eq!(names, names_again);
    for w in first.windows(2) {
        assert!(w[0].created.millis <= w[1].created.millis);
    }
    let (rest, after) = table.list(next);
    assert_eq!(rest.len(), 5);
    let (none, unchanged) = table.list(after);
    assert!(none.is_empty());
    assert_eq!(unchanged, after);
}

#[test]
fn update_and_delete_of_missing_entities_fail() {
    let mut table: EntityStore<Journal> = EntityStore::new();
    assert!(matches!(table.update(journal("ghost", 0), Timestamp { millis: 0 }), Err(Error::NotFound { .. })));
    assert!(matches!(table.delete("ghost"), Err(Error::NotFound { .. })));
    table.create(journal("real", 0)).unwrap();
    assert!(table.delete("real").is_ok());
    assert!(table.get_by_id("real").is_none());
}

#[test]
fn currency_codes_come_from_the_iso_list() {
    assert!(CurrencyCode::parse("USD").is_some());
    assert!(CurrencyCode::parse("usd").is_none());
    assert!(CurrencyCode::parse("ZZZ").is_none());
    assert_eq!(CurrencyCode::parse("JPY").unwrap().alpha_code(), "JPY");
}

#[test]
fn each_convenience_check_uses_its_own_action() {
    let perms = Permissions {
        grants: vec![Grant { role: RoleId("clerk".to_string()), resource: Resource::Journal, action: Action::Create }],
        assignments: vec![Assignment { user: UserId("ann".to_string()), role: RoleId("clerk".to_string()) }],
    };
    let ann = || UserId("ann".to_string());
    assert!(perms.user_can_create(ann(), Resource::Journal));
    assert!(!perms.user_can_modify(ann(), Resource::Journal));
    assert!(!perms.user_can_reconcile(ann(), Resource::Journal));
    assert!(!perms.user_can_sign(ann(), Resource::Journal));
    assert!(!perms.user_can_close(ann(), Resource::Journal));
    assert!(!perms.user_can_delete(ann(), Resource::Journal));
    assert!(!perms.user_can_create(ann(), Resource::Ledger));
    assert!(!perms.user_can_create(UserId("bob".to_string()), Resource::Journal));
    assert!(perms.user_has_role(ann(), RoleId("clerk".to_string())));
    assert!(perms.role_can_perform(RoleId("clerk".to_string()), Action::Create, Resource::Journal));
}

#[test]
fn sqlite_options_have_documented_defaults() {
    let s = Sqlite::new("/tmp/books.db".to_string());
    assert_eq!(s.path(), "/tmp/books.db");
    assert_eq!(s.auto_vacuum(), SqliteAutoVacuum::Disabled);
    assert_eq!(s.busy_timeout(), Span { millis: 5000 });
    assert!(!s.create_if_missing());
    assert!(!s.foreign_keys());
    assert!(!s.immutable());
    assert_eq!(s.journal_mode(), SqliteJournalMode::Delete);
    assert_eq!(s.locking_mode(), SqliteLockingMode::Normal);
    assert_eq!(s.page_size(), 4096);
    assert!(!s.read_only());
    assert!(!s.serialized());
    assert!(!s.shared_cache());
    assert_eq!(s.statement_cache_capacity(), 0);
    assert_eq!(s.synchronous(), SqliteSynchronous::Full);
    assert_eq!(SqliteJournalMode::default_for(true), SqliteJournalMode::Memory);
    let mut t = s.clone();
    t.page_size = Some(8192);
    t.read_only = Some(true);
    assert_eq!(t.page_size(), 8192);
    assert!(t.read_only());
    let fs = FileSystemConfig { path: "~/books".to_string() };
    assert_eq!(fs.root_path(Some("/home/ann/books".to_string())), "/home/ann/books");
    assert_eq!(fs.root_path(None), "~/books");
}

#[test]
fn configuration_validity() {
    let good_binding = Binding { host: "localhost".to_string(), port: 8080, ssl: None, options: None };
    assert!(good_binding.is_valid());
    assert!(!Binding::default().is_valid());
    let store = StoreAddress::parse("fstore:///tmp/books").unwrap();
    let mut c = Configuration { version: SchemaVersion::new(0, 1, 0), store: store.clone(), client: None, server: None };
    assert!(c.is_valid());
    c.server = Some(ServerConfig::default());
    assert!(!c.is_valid());
    c.server = Some(ServerConfig { bindings: vec![good_binding.clone()] });
    assert!(c.is_valid());
    c.server = Some(ServerConfig { bindings: vec![good_binding, Binding { host: String::new(), port: 1, ssl: None, options: None }] });
    assert!(!c.is_valid());
    let old = Configuration { version: SchemaVersion::new(0, 2, 0), store, client: None, server: None };
    assert!(!old.is_valid());
}

#[test]
fn error_helpers_build_their_variants() {
    assert!(sledge::error::io_error("/tmp".to_string()).is_retryable());
    assert!(!sledge::error::store_exists("fstore:///x".to_string()).is_retryable());
    assert!(matches!(sledge::error::unknown_store_scheme("x".to_string()), Error::UnknownStoreScheme { .. }));
    assert!(matches!(sledge::error::store_does_not_exist("x".to_string()), Error::StoreDoesNotExist { .. }));
    assert!(matches!(sledge::error::settings_file_error("bad".to_string()), Error::SettingsFileError { .. }));
}

#[test]
fn party_codes_are_checked() {
    assert!(sledge::party::CountryCode::parse("DE").is_some());
    assert!(sledge::party::CountryCode::parse("de").is_none());
    assert!(sledge::party::DunsNumber::parse("150483782").is_some());
    assert!(sledge::party::DunsNumber::parse("15048378").is_none());
    assert!(sledge::party::GlobalLocationNumber::parse("0614141000012").is_some());
    assert!(sledge::party::InternationalCodeDesignator::parse("00a8").is_none());
}
