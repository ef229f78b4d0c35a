//! Selection and options of the physical store: a filesystem directory or a relational
//! database, with the relational options and their defaults.
use crate::address::StoreAddress;
use crate::time::Span;
use vstd::prelude::*;

verus! {

/// Which physical store to use.
#[derive(Clone, Debug)]
pub enum StoreConfig {
    FileSystem(FileSystemConfig),
    Sql(SqlConfig),
}

/// A store kept in a directory.
#[derive(Clone, Debug)]
pub struct FileSystemConfig {
    pub path: String,
}

/// A relational store, given as a connection address or as SQLite options.
#[derive(Clone, Debug)]
pub enum SqlConfig {
    Connection(StoreAddress),
    Sqlite(Sqlite),
}

#[derive(Clone, Copy, Debug, PartialEq, Eq, Structural)]
pub enum SqliteAutoVacuum {
    Disabled,
    Full,
    Incremental,
}

#[derive(Clone, Copy, Debug, PartialEq, Eq, Structural)]
pub enum SqliteJournalMode {
    Delete,
    Truncate,
    Persist,
    Memory,
    Wal,
    Off,
}

#[derive(Clone, Copy, Debug, PartialEq, Eq, Structural)]
pub enum SqliteLockingMode {
    Normal,
    Exclusive,
}

#[derive(Clone, Copy, Debug, PartialEq, Eq, Structural)]
pub enum SqliteSynchronous {
    Off,
    Normal,
    Full,
    Extra,
}

/// SQLite connection options; an option left unset takes its documented default.
#[derive(Clone, Debug)]
pub struct Sqlite {
    pub path: String,
    pub auto_vacuum: Option<SqliteAutoVacuum>,
    pub busy_timeout: Option<Span>,
    pub create_if_missing: Option<bool>,
    pub foreign_keys: Option<bool>,
    pub immutable: Option<bool>,
    pub journal_mode: Option<SqliteJournalMode>,
    pub locking_mode: Option<SqliteLockingMode>,
    pub page_size: Option<u32>,
    pub read_only: Option<bool>,
    pub serialized: Option<bool>,
    pub shared_cache: Option<bool>,
    pub statement_cache_capacity: Option<usize>,
    pub synchronous: Option<SqliteSynchronous>,
}

/// The default busy timeout: five seconds.
pub const DEFAULT_BUSY_TIMEOUT_MILLIS: u64 = 5000;

/// The default page size in bytes.
pub const DEFAULT_PAGE_SIZE: u32 = 4096;

impl StoreConfig {
    pub fn is_file_system(&self) -> (r: bool)
        ensures
            r == (self is FileSystem),
    {
        match self {
            StoreConfig::FileSystem(_) => true,
            _ => false,
        }
    }

    pub fn as_file_system(&self) -> (r: Option<&FileSystemConfig>)
        ensures
            (r is Some) == (self is FileSystem),
            r matches Some(v) ==> *v == self->FileSystem_0,
    {
        match self {
            StoreConfig::FileSystem(v) => Some(v),
            _ => None,
        }
    }

    pub fn is_sql(&self) -> (r: bool)
        ensures
            r == (self is Sql),
    {
        match self {
            StoreConfig::Sql(_) => true,
            _ => false,
        }
    }

    pub fn as_sql(&self) -> (r: Option<&SqlConfig>)
        ensures
            (r is Some) == (self is Sql),
            r matches Some(v) ==> *v == self->Sql_0,
    {
        match self {
            StoreConfig::Sql(v) => Some(v),
            _ => None,
        }
    }
}

impl FileSystemConfig {
    /// The store's root directory: the configured path with its variables expanded, where
    /// the caller could expand them (`expanded`), else the path as written.
    pub fn root_path(&self, expanded: Option<String>) -> (r: String)
        ensures
            expanded matches Some(e) ==> r@ == e@,
            expanded is None ==> r@ == self.path@,
    {
        match expanded {
            Some(e) => e,
            None => self.path.clone(),
        }
    }
}

impl SqlConfig {
    pub fn is_connection_url(&self) -> (r: bool)
        ensures
            r == (self is Connection),
    {
        match self {
            SqlConfig::Connection(_) => true,
            _ => false,
        }
    }

    pub fn as_connection_url(&self) -> (r: Option<&StoreAddress>)
        ensures
            (r is Some) == (self is Connection),
            r matches Some(v) ==> *v == self->Connection_0,
    {
        match self {
            SqlConfig::Connection(v) => Some(v),
            _ => None,
        }
    }

    pub fn is_sqlite(&self) -> (r: bool)
        ensures
            r == (self is Sqlite),
    {
        match self {
            SqlConfig::Sqlite(_) => true,
            _ => false,
        }
    }

    pub fn as_sqlite(&self) -> (r: Option<&Sqlite>)
        ensures
            (r is Some) == (self is Sqlite),
            r matches Some(v) ==> *v == self->Sqlite_0,
    {
        match self {
            SqlConfig::Sqlite(v) => Some(v),
            _ => None,
        }
    }
}

impl Default for SqliteAutoVacuum {
    fn default() -> (r: SqliteAutoVacuum)
        ensures
            r == SqliteAutoVacuum::Disabled,
    {
        SqliteAutoVacuum::Disabled
    }
}

impl SqliteJournalMode {
    /// `Memory` for an in-memory database, else `Delete`.
    pub fn default_for(in_memory: bool) -> (r: SqliteJournalMode)
        ensures
            in_memory ==> r == SqliteJournalMode::Memory,
            !in_memory ==> r == SqliteJournalMode::Delete,
    {
        if in_memory {
            SqliteJournalMode::Memory
        } else {
            SqliteJournalMode::Delete
        }
    }
}

impl Default for SqliteLockingMode {
    fn default() -> (r: SqliteLockingMode)
        ensures
            r == SqliteLockingMode::Normal,
    {
        SqliteLockingMode::Normal
    }
}

impl Default for SqliteSynchronous {
    fn default() -> (r: SqliteSynchronous)
        ensures
            r == SqliteSynchronous::Full,
    {
        SqliteSynchronous::Full
    }
}

/// An unset flag reads as false.
pub open spec fn flag(v: Option<bool>) -> bool {
    v matches Some(b) && b
}

fn flag_or_false(v: Option<bool>) -> (r: bool)
    ensures
        r == flag(v),
{
    match v {
        Some(b) => b,
        None => false,
    }
}

impl Sqlite {
    /// Options for the database file at `path`, all unset but the journal mode, which is
    /// that of an on-disk database.
    pub fn new(path: String) -> (r: Sqlite)
        ensures
            r.path@ == path@,
            r.journal_mode == Some(SqliteJournalMode::Delete),
            r.auto_vacuum is None,
            r.busy_timeout is None,
            r.create_if_missing is None,
            r.foreign_keys is None,
            r.immutable is None,
            r.locking_mode is None,
            r.page_size is None,
            r.read_only is None,
            r.serialized is None,
            r.shared_cache is None,
            r.statement_cache_capacity is None,
            r.synchronous is None,
    {
        Sqlite {
            path,
            auto_vacuum: None,
            busy_timeout: None,
            create_if_missing: None,
            foreign_keys: None,
            immutable: None,
            journal_mode: Some(SqliteJournalMode::default_for(false)),
            locking_mode: None,
            page_size: None,
            read_only: None,
            serialized: None,
            shared_cache: None,
            statement_cache_capacity: None,
            synchronous: None,
        }
    }

    pub fn path(&self) -> (r: &String)
        ensures
            r == &self.path,
    {
        &self.path
    }

    pub fn auto_vacuum(&self) -> (r: SqliteAutoVacuum)
        ensures
            r == (match self.auto_vacuum { Some(v) => v, None => SqliteAutoVacuum::Disabled }),
    {
        match self.auto_vacuum {
            Some(v) => v,
            None => SqliteAutoVacuum::default(),
        }
    }

    pub fn busy_timeout(&self) -> (r: Span)
        ensures
            r == (match self.busy_timeout { Some(v) => v, None => Span { millis: 5000 } }),
    {
        match self.busy_timeout {
            Some(v) => v,
            None => Span { millis: DEFAULT_BUSY_TIMEOUT_MILLIS },
        }
    }

    pub fn create_if_missing(&self) -> (r: bool)
        ensures
            r == flag(self.create_if_missing),
    {
        flag_or_false(self.create_if_missing)
    }

    pub fn foreign_keys(&self) -> (r: bool)
        ensures
            r == flag(self.foreign_keys),
    {
        flag_or_false(self.foreign_keys)
    }

    pub fn immutable(&self) -> (r: bool)
        ensures
            r == flag(self.immutable),
    {
        flag_or_false(self.immutable)
    }

    pub fn journal_mode(&self) -> (r: SqliteJournalMode)
        ensures
            r == (match self.journal_mode { Some(v) => v, None => SqliteJournalMode::Delete }),
    {
        match self.journal_mode {
            Some(v) => v,
            None => SqliteJournalMode::default_for(false),
        }
    }

    pub fn locking_mode(&self) -> (r: SqliteLockingMode)
        ensures
            r == (match self.locking_mode { Some(v) => v, None => SqliteLockingMode::Normal }),
    {
        match self.locking_mode {
            Some(v) => v,
            None => SqliteLockingMode::default(),
        }
    }

    pub fn page_size(&self) -> (r: u32)
        ensures
            r == (match self.page_size { Some(v) => v, None => 4096 }),
    {
        match self.page_size {
            Some(v) => v,
            None => DEFAULT_PAGE_SIZE,
        }
    }

    pub fn read_only(&self) -> (r: bool)
        ensures
            r == flag(self.read_only),
    {
        flag_or_false(self.read_only)
    }

    pub fn serialized(&self) -> (r: bool)
        ensures
            r == flag(self.serialized),
    {
        flag_or_false(self.serialized)
    }

    pub fn shared_cache(&self) -> (r: bool)
        ensures
            r == flag(self.shared_cache),
    {
        flag_or_false(self.shared_cache)
    }

    pub fn statement_cache_capacity(&self) -> (r: usize)
        ensures
            r == (match self.statement_cache_capacity { Some(v) => v, None => 0 }),
    {
        match self.statement_cache_capacity {
            Some(v) => v,
            None => 0,
        }
    }

    pub fn synchronous(&self) -> (r: SqliteSynchronous)
        ensures
            r == (match self.synchronous { Some(v) => v, None => SqliteSynchronous::Full }),
    {
        match self.synchronous {
            Some(v) => v,
            None => SqliteSynchronous::default(),
        }
    }
}

} // verus!
