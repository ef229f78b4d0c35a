//! The filesystem backend: backend resolution by scheme, the store's directory layout, and
//! the decisions of `exists`, `connect` and `create`. The caller looks at the directory
//! and carries out the steps that these functions return.
use crate::address::StoreAddress;
use crate::commodity::{CommodityId, CurrencyCode};
use crate::configuration::SchemaVersion;
use crate::entity::{Entity, EntityStore};
use crate::error::Error;
use crate::journal::Journal;
use crate::ledger::Ledger;
use crate::time::Timestamp;
use vstd::prelude::*;
use vstd::string::*;

verus! {

/// The scheme that selects the filesystem backend.
pub open spec fn fs_scheme() -> Seq<char> {
    seq!['f', 's', 't', 'o', 'r', 'e']
}

/// The settings file's name.
pub open spec fn settings_file_name() -> Seq<char> {
    seq!['s', 'e', 't', 't', 'i', 'n', 'g', 's', '.', 'j', 's', 'o', 'n']
}

/// The permissions file's name.
pub open spec fn permissions_file_name() -> Seq<char> {
    seq!['p', 'e', 'r', 'm', 'i', 's', 's', 'i', 'o', 'n', 's', '.', 'j', 's', 'o', 'n']
}

pub open spec fn journals_dir_name() -> Seq<char> {
    seq!['j', 'o', 'u', 'r', 'n', 'a', 'l', 's']
}

pub open spec fn ledgers_dir_name() -> Seq<char> {
    seq!['l', 'e', 'd', 'g', 'e', 'r', 's']
}

/// `name` inside directory `dir`.
pub open spec fn join(dir: Seq<char>, name: Seq<char>) -> Seq<char> {
    if dir.len() > 0 && dir.last() == '/' {
        dir + name
    } else {
        dir + seq!['/'] + name
    }
}

fn join_exec(dir: &str, name: &str) -> (r: String)
    ensures
        r@ == join(dir@, name@),
{
    let n = dir.unicode_len();
    let mut r = String::from_str(dir);
    if n > 0 && dir.get_char(n - 1) == '/' {
        r.append(name);
    } else {
        let slash = "/";
        proof {
            reveal_strlit("/");
        }
        r.append(slash);
        r.append(name);
        assert(r@ =~= dir@ + seq!['/'] + name@);
    }
    r
}

fn literal(s: &str) -> (r: String)
    ensures
        r@ == s@,
{
    String::from_str(s)
}

/// Whether `id` can name a file inside a store directory.
pub open spec fn is_file_name(id: Seq<char>) -> bool {
    &&& id.len() > 0
    &&& id != seq!['.']
    &&& id != seq!['.', '.']
    &&& forall|i: int| 0 <= i < id.len() ==> id[i] != '/'
}

pub fn check_file_name(id: &str) -> (r: bool)
    ensures
        r == is_file_name(id@),
{
    let n = id.unicode_len();
    if n == 0 {
        return false;
    }
    if n == 1 && id.get_char(0) == '.' {
        assert(id@ =~= seq!['.']);
        return false;
    }
    if n == 2 && id.get_char(0) == '.' && id.get_char(1) == '.' {
        assert(id@ =~= seq!['.', '.']);
        return false;
    }
    let mut i: usize = 0;
    while i < n
        invariant
            n == id@.len(),
            i <= n,
            forall|j: int| 0 <= j < i ==> id@[j] != '/',
        decreases n - i,
    {
        if id.get_char(i) == '/' {
            return false;
        }
        i = i + 1;
    }
    proof {
        if id@ == seq!['.'] || id@ == seq!['.', '.'] {
            assert(id@[0] == '.');
        }
    }
    true
}

/// The kinds of backend.
#[derive(Clone, Copy, Debug, PartialEq, Eq, Structural)]
pub enum Backend {
    FileSystem,
}

/// The backend registered for the address's scheme.
pub fn backend_for(address: &StoreAddress) -> (r: Result<Backend, Error>)
    ensures
        r is Ok <==> address.scheme_view() == fs_scheme(),
        r is Ok ==> r == Ok::<Backend, Error>(Backend::FileSystem),
        r is Err ==> (r->Err_0 matches Error::UnknownStoreScheme { address: a } && a@ == address.text_view()),
{
    let fstore = "fstore";
    proof {
        reveal_strlit("fstore");
        assert(fstore@ =~= fs_scheme());
    }
    if literal(address.scheme()) == literal(fstore) {
        Ok(Backend::FileSystem)
    } else {
        Err(crate::error::unknown_store_scheme(literal(address.as_str())))
    }
}

/// What the caller found at a store's root directory.
#[derive(Clone, Copy, Debug, PartialEq, Eq, Structural)]
pub struct FsProbe {
    /// The settings file is present and a regular file.
    pub settings_file: bool,
    /// The `journals` directory is present.
    pub journals_dir: bool,
    /// The `ledgers` directory is present.
    pub ledgers_dir: bool,
}

impl FsProbe {
    /// A store exists exactly when the settings file and both directories are present.
    pub open spec fn spec_store_exists(self) -> bool {
        self.settings_file && self.journals_dir && self.ledgers_dir
    }

    #[verifier::when_used_as_spec(spec_store_exists)]
    pub fn store_exists(self) -> (r: bool)
        ensures
            r == self.spec_store_exists(),
    {
        self.settings_file && self.journals_dir && self.ledgers_dir
    }
}

/// The paths of a store's layout, under its root directory.
pub struct FsLayout {
    pub root: String,
}

impl FsLayout {
    pub fn new(address: &StoreAddress) -> (r: FsLayout)
        ensures
            r.root@ == address.path_view(),
    {
        FsLayout { root: literal(address.path()) }
    }

    pub fn settings_path(&self) -> (r: String)
        ensures
            r@ == join(self.root@, settings_file_name()),
    {
        let name = "settings.json";
        proof {
            reveal_strlit("settings.json");
        }
        join_exec(self.root.as_str(), name)
    }

    pub fn permissions_path(&self) -> (r: String)
        ensures
            r@ == join(self.root@, permissions_file_name()),
    {
        let name = "permissions.json";
        proof {
            reveal_strlit("permissions.json");
        }
        join_exec(self.root.as_str(), name)
    }

    pub fn journals_dir(&self) -> (r: String)
        ensures
            r@ == join(self.root@, journals_dir_name()),
    {
        let name = "journals";
        proof {
            reveal_strlit("journals");
        }
        join_exec(self.root.as_str(), name)
    }

    pub fn ledgers_dir(&self) -> (r: String)
        ensures
            r@ == join(self.root@, ledgers_dir_name()),
    {
        let name = "ledgers";
        proof {
            reveal_strlit("ledgers");
        }
        join_exec(self.root.as_str(), name)
    }

    /// The file of the journal with identifier `id`.
    pub fn journal_path(&self, id: &str) -> (r: String)
        ensures
            r@ == join(join(self.root@, journals_dir_name()), id@),
    {
        let dir = self.journals_dir();
        join_exec(dir.as_str(), id)
    }

    /// The file of the ledger with identifier `id`.
    pub fn ledger_path(&self, id: &str) -> (r: String)
        ensures
            r@ == join(join(self.root@, ledgers_dir_name()), id@),
    {
        let dir = self.ledgers_dir();
        join_exec(dir.as_str(), id)
    }

    /// The temporary file that a new version of `path` is written to before it is renamed
    /// over `path`.
    pub fn temporary_path(path: &str) -> (r: String)
        ensures
            r@ == path@ + seq!['.', 't', 'm', 'p'],
    {
        let mut r = String::from_str(path);
        let ext = ".tmp";
        proof {
            reveal_strlit(".tmp");
        }
        r.append(ext);
        r
    }
}

/// The settings of a filesystem store.
#[derive(Clone, Debug)]
pub struct FsStoreSettings {
    pub version: SchemaVersion,
    pub created: Timestamp,
    pub default_commodity: CommodityId,
}

/// The store schema version written by this library: 0.1.0.
pub fn store_schema_version() -> (r: SchemaVersion)
    ensures
        r.is_release(0, 1, 0),
{
    SchemaVersion::new(0, 1, 0)
}

impl FsStoreSettings {
    /// The settings used when none can be read: the current schema version, the start of the
    /// epoch, and the code for no currency.
    pub open spec fn is_default(&self) -> bool {
        &&& self.version.is_release(0, 1, 0)
        &&& self.created.millis == 0
        &&& self.default_commodity matches CommodityId::Currency(c) && c@ == seq!['X', 'X', 'X']
    }

    pub fn fallback() -> (r: FsStoreSettings)
        ensures
            r.is_default(),
    {
        FsStoreSettings {
            version: store_schema_version(),
            created: Timestamp::epoch(),
            default_commodity: CommodityId::Currency(CurrencyCode::no_currency()),
        }
    }

    /// The settings that were read, or, where the file was missing or malformed (`None`),
    /// the fallback.
    pub fn or_fallback(read: Option<FsStoreSettings>) -> (r: FsStoreSettings)
        ensures
            read is Some ==> r == read->0,
            read is None ==> r.is_default(),
    {
        match read {
            Some(s) => s,
            None => FsStoreSettings::fallback(),
        }
    }
}

/// One step of laying out a new store on disk.
#[derive(Clone, Debug)]
pub enum FsStep {
    /// Create this directory and its missing parents.
    CreateDir(String),
    /// Write the settings file at this path.
    WriteSettings(String),
    /// Write the permissions file at this path.
    WritePermissions(String),
    /// Write the journal with this identifier (second) to this path (first).
    WriteJournal(String, String),
    /// Write the ledger with this identifier (second) to this path (first).
    WriteLedger(String, String),
}

/// What a step holds, for contracts.
pub enum StepView {
    CreateDir(Seq<char>),
    WriteSettings(Seq<char>),
    WritePermissions(Seq<char>),
    WriteJournal(Seq<char>, Seq<char>),
    WriteLedger(Seq<char>, Seq<char>),
}

impl FsStep {
    pub open spec fn view(&self) -> StepView {
        match self {
            FsStep::CreateDir(p) => StepView::CreateDir(p@),
            FsStep::WriteSettings(p) => StepView::WriteSettings(p@),
            FsStep::WritePermissions(p) => StepView::WritePermissions(p@),
            FsStep::WriteJournal(p, i) => StepView::WriteJournal(p@, i@),
            FsStep::WriteLedger(p, i) => StepView::WriteLedger(p@, i@),
        }
    }
}

pub open spec fn step_views(steps: Seq<FsStep>) -> Seq<StepView> {
    steps.map_values(|s: FsStep| s@)
}

/// The steps that lay out a new store at `root` holding journals and ledgers with the given
/// identifiers: the root, the settings and permissions files, the journals directory and
/// its files, the ledgers directory and its files.
pub open spec fn create_steps(root: Seq<char>, journals: Seq<Seq<char>>, ledgers: Seq<Seq<char>>) -> Seq<StepView> {
    let jdir = join(root, journals_dir_name());
    let ldir = join(root, ledgers_dir_name());
    seq![
        StepView::CreateDir(root),
        StepView::WriteSettings(join(root, settings_file_name())),
        StepView::WritePermissions(join(root, permissions_file_name())),
        StepView::CreateDir(jdir),
    ] + journal_steps(jdir, journals) + seq![StepView::CreateDir(ldir)] + ledger_steps(ldir, ledgers)
}

/// Writing each journal into directory `dir`.
pub open spec fn journal_steps(dir: Seq<char>, keys: Seq<Seq<char>>) -> Seq<StepView> {
    keys.map_values(|k: Seq<char>| StepView::WriteJournal(join(dir, k), k))
}

/// Writing each ledger into directory `dir`.
pub open spec fn ledger_steps(dir: Seq<char>, keys: Seq<Seq<char>>) -> Seq<StepView> {
    keys.map_values(|k: Seq<char>| StepView::WriteLedger(join(dir, k), k))
}

/// What a probe of `root` finds after `step` is carried out.
pub open spec fn probe_step(root: Seq<char>, p: FsProbe, step: StepView) -> FsProbe {
    match step {
        StepView::CreateDir(d) => FsProbe {
            journals_dir: p.journals_dir || d == join(root, journals_dir_name()),
            ledgers_dir: p.ledgers_dir || d == join(root, ledgers_dir_name()),
            ..p
        },
        StepView::WriteSettings(f) => FsProbe {
            settings_file: p.settings_file || f == join(root, settings_file_name()),
            ..p
        },
        _ => p,
    }
}

/// What a probe of `root` finds after `steps` are carried out in order.
pub open spec fn probe_after(root: Seq<char>, p: FsProbe, steps: Seq<StepView>) -> FsProbe
    decreases steps.len(),
{
    if steps.len() == 0 {
        p
    } else {
        probe_step(root, probe_after(root, p, steps.drop_last()), steps.last())
    }
}

proof fn lemma_probe_monotone(root: Seq<char>, p: FsProbe, steps: Seq<StepView>, k: int)
    requires
        0 <= k <= steps.len(),
    ensures
        probe_after(root, p, steps.take(k)).settings_file ==> probe_after(root, p, steps).settings_file,
        probe_after(root, p, steps.take(k)).journals_dir ==> probe_after(root, p, steps).journals_dir,
        probe_after(root, p, steps.take(k)).ledgers_dir ==> probe_after(root, p, steps).ledgers_dir,
    decreases steps.len() - k,
{
    if k < steps.len() {
        let t = steps.take(k + 1);
        assert(t.drop_last() =~= steps.take(k));
        lemma_probe_monotone(root, p, steps, k + 1);
    } else {
        assert(steps.take(k) =~= steps);
    }
}

proof fn lemma_probe_at(root: Seq<char>, p: FsProbe, steps: Seq<StepView>, k: int)
    requires
        0 <= k < steps.len(),
    ensures
        probe_step(root, probe_after(root, p, steps.take(k)), steps[k]).settings_file ==> probe_after(root, p, steps).settings_file,
        probe_step(root, probe_after(root, p, steps.take(k)), steps[k]).journals_dir ==> probe_after(root, p, steps).journals_dir,
        probe_step(root, probe_after(root, p, steps.take(k)), steps[k]).ledgers_dir ==> probe_after(root, p, steps).ledgers_dir,
{
    let t = steps.take(k + 1);
    assert(t.drop_last() =~= steps.take(k));
    assert(t.last() == steps[k]);
    lemma_probe_monotone(root, p, steps, k + 1);
}

/// After the steps that lay out a new store are carried out, whatever was there before, a
/// store exists at its root; a second `create` there therefore fails with `StoreExists`.
pub proof fn lemma_created_store_exists(root: Seq<char>, before: FsProbe, journals: Seq<Seq<char>>, ledgers: Seq<Seq<char>>)
    ensures
        probe_after(root, before, create_steps(root, journals, ledgers)).spec_store_exists(),
{
    let steps = create_steps(root, journals, ledgers);
    let nj = journals.len() as int;
    assert(steps[1] == StepView::WriteSettings(join(root, settings_file_name())));
    assert(steps[3] == StepView::CreateDir(join(root, journals_dir_name())));
    assert(steps[4 + nj] == StepView::CreateDir(join(root, ledgers_dir_name())));
    lemma_probe_at(root, before, steps, 1);
    lemma_probe_at(root, before, steps, 3);
    lemma_probe_at(root, before, steps, 4 + nj);
}

/// Entities are acceptable, have identifiers that can name files, and have distinct
/// identifiers.
pub open spec fn entities_ok<E: Entity>(s: Seq<E>) -> bool {
    &&& forall|i: int| 0 <= i < s.len() ==> (#[trigger] s[i]).outcome() is Ok && is_file_name(s[i].key())
    &&& forall|i: int, j: int| 0 <= i < j < s.len() ==> s[i].key() != s[j].key()
}

/// The identifiers of a list of entities.
pub open spec fn keys_of<E: Entity>(s: Seq<E>) -> Seq<Seq<char>> {
    s.map_values(|e: E| e.key())
}

/// The table holds exactly the entities of `s`, by identifier.
pub open spec fn holds_exactly<E: Entity>(t: EntityStore<E>, s: Seq<E>) -> bool {
    &&& forall|k: Seq<char>| #[trigger] t.map().contains_key(k) <==> exists|j: int| 0 <= j < s.len() && s[j].key() == k
    &&& forall|j: int| 0 <= j < s.len() ==> t.map()[(#[trigger] s[j]).key()] == s[j]
}

/// A table holding `items`, each validated as `create` validates it, with identifiers that
/// can name files.
pub fn load_entities<E: Entity>(items: Vec<E>) -> (r: Result<EntityStore<E>, Error>)
    ensures
        r is Ok <==> entities_ok(items@),
        r matches Ok(t) ==> t.wf() && holds_exactly(t, items@),
        r matches Err(e) ==> (e is InvalidIdentifier || e is DuplicateIdentifier || e is InvariantViolation),
{
    let ghost orig = items@;
    let n = items.len();
    let mut rest = items;
    let mut table: EntityStore<E> = EntityStore::new();
    let mut i: usize = n;
    while i > 0
        invariant
            n == orig.len(),
            orig == items@,
            i <= n,
            rest@ == orig.take(i as int),
            table.wf(),
            forall|j: int| i <= j < n ==> (#[trigger] orig[j]).outcome() is Ok && is_file_name(orig[j].key()),
            forall|a: int, b: int| i <= a < b < n ==> orig[a].key() != orig[b].key(),
            forall|k: Seq<char>| #[trigger] table.map().contains_key(k) <==> exists|j: int| i <= j < n && orig[j].key() == k,
            forall|j: int| i <= j < n ==> table.map()[(#[trigger] orig[j]).key()] == orig[j],
        decreases i,
    {
        let e = match rest.pop() {
            Some(e) => e,
            None => {
                return Err(Error::Disconnected);
            },
        };
        proof {
            assert(e == orig[i - 1]);
            assert(orig.take(i as int).drop_last() =~= orig.take(i - 1));
        }
        let id = e.identifier();
        if !check_file_name(id.as_str()) {
            assert(!((orig[i - 1]).outcome() is Ok && is_file_name(orig[i - 1].key())));
            return Err(Error::InvalidIdentifier { id });
        }
        let ghost m0 = table.map();
        match table.create(e) {
            Err(err) => {
                proof {
                    if m0.contains_key(orig[i - 1].key()) {
                        let j = choose|j: int| i <= j < n && (#[trigger] orig[j]).key() == orig[i - 1].key();
                        assert(orig[i - 1].key() == orig[j].key());
                    } else {
                        assert(!((orig[i - 1]).outcome() is Ok && is_file_name(orig[i - 1].key())));
                    }
                }
                return Err(err);
            },
            Ok(_) => {},
        }
        i = i - 1;
        proof {
            assert forall|k: Seq<char>| #[trigger] table.map().contains_key(k) <==> exists|j: int| i <= j < n && orig[j].key() == k by {
                if table.map().contains_key(k) && k != orig[i as int].key() {
                    assert(m0.contains_key(k));
                }
                if exists|j: int| i <= j < n && orig[j].key() == k {
                    let j = choose|j: int| i <= j < n && orig[j].key() == k;
                    if j > i {
                        assert(m0.contains_key(orig[j].key()));
                    }
                }
            }
            assert forall|j: int| i <= j < n implies table.map()[(#[trigger] orig[j]).key()] == orig[j] by {
                if j > i {
                    assert(m0.contains_key(orig[j].key()));
                    assert(orig[j].key() != orig[i as int].key());
                }
            }
        }
    }
    Ok(table)
}

/// The ledgers and journals that a new store starts with.
pub struct CreateDatastoreContents {
    pub ledgers: Vec<Ledger>,
    pub journals: Vec<Journal>,
}

impl Default for CreateDatastoreContents {
    fn default() -> (r: CreateDatastoreContents)
        ensures
            r.ledgers@.len() == 0,
            r.journals@.len() == 0,
    {
        CreateDatastoreContents { ledgers: Vec::new(), journals: Vec::new() }
    }
}

impl CreateDatastoreContents {
    /// Asks for a personal ledger; the contents stay as they are for now.
    pub fn personal_ledger(self) -> (r: Self)
        ensures
            r == self,
    {
        self
    }

    /// Asks for a general ledger; the contents stay as they are for now.
    pub fn general_ledger(self) -> (r: Self)
        ensures
            r == self,
    {
        self
    }

    /// Asks for a sales ledger; the contents stay as they are for now.
    pub fn sales_ledger(self) -> (r: Self)
        ensures
            r == self,
    {
        self
    }

    /// Asks for a purchase ledger; the contents stay as they are for now.
    pub fn purchase_ledger(self) -> (r: Self)
        ensures
            r == self,
    {
        self
    }

    /// Asks for one journal for all ledgers; the contents stay as they are for now.
    pub fn combined_journal(self) -> (r: Self)
        ensures
            r == self,
    {
        self
    }

    /// Asks for one journal per ledger; the contents stay as they are for now.
    pub fn journal_per_ledger(self) -> (r: Self)
        ensures
            r == self,
    {
        self
    }

    /// Asks for one journal per day; the contents stay as they are for now.
    pub fn daily_journals(self) -> (r: Self)
        ensures
            r == self,
    {
        self
    }
}

/// A connected (or disconnected) filesystem store: its layout, settings, and the entity
/// stores of its ledgers and journals.
pub struct FileSystemStore {
    pub address: StoreAddress,
    pub layout: FsLayout,
    pub settings: FsStoreSettings,
    pub ledgers: EntityStore<Ledger>,
    pub journals: EntityStore<Journal>,
    pub connected: bool,
}

impl FileSystemStore {
    /// The handle is usable: connected, with well-formed entity stores.
    pub open spec fn ready(&self) -> bool {
        self.connected && self.ledgers.wf() && self.journals.wf()
    }

    /// Whether a store exists where `probe` looked.
    pub fn is_present(probe: FsProbe) -> (r: bool)
        ensures
            r == probe.spec_store_exists(),
    {
        probe.store_exists()
    }

    /// Opens the store at `address`, given what a probe of its root found and the settings
    /// that could be read (`None` where the file was missing or malformed). Fails with
    /// `StoreDoesNotExist` where no store exists. The entity stores start empty; the caller
    /// loads the entity files into them.
    pub fn connect(address: &StoreAddress, probe: FsProbe, settings: Option<FsStoreSettings>) -> (r: Result<FileSystemStore, Error>)
        ensures
            r is Ok <==> probe.spec_store_exists(),
            r matches Err(e) ==> (e matches Error::StoreDoesNotExist { address: a } && a@ == address.text_view()),
            r matches Ok(s) ==> {
                &&& s.ready()
                &&& s.layout.root@ == address.path_view()
                &&& s.ledgers.map() == Map::<Seq<char>, Ledger>::empty()
                &&& s.journals.map() == Map::<Seq<char>, Journal>::empty()
                &&& (settings is Some ==> s.settings == settings->0)
                &&& (settings is None ==> s.settings.is_default())
            },
    {
        if !probe.store_exists() {
            return Err(crate::error::store_does_not_exist(literal(address.as_str())));
        }
        Ok(FileSystemStore {
            address: address.clone_address(),
            layout: FsLayout::new(address),
            settings: FsStoreSettings::or_fallback(settings),
            ledgers: EntityStore::new(),
            journals: EntityStore::new(),
            connected: true,
        })
    }

    /// The entity store of the ledgers.
    pub fn ledgers(&mut self) -> (r: Result<&mut EntityStore<Ledger>, Error>)
        ensures
            r is Ok <==> old(self).connected,
            r is Err ==> r->Err_0 is Disconnected && *final(self) == *old(self),
            r matches Ok(t) ==> *t == old(self).ledgers && final(self).ledgers == *final(t)
                && final(self).journals == old(self).journals && final(self).connected == old(self).connected,
    {
        if !self.connected {
            return Err(Error::Disconnected);
        }
        Ok(&mut self.ledgers)
    }

    /// The entity store of the journals.
    pub fn journals(&mut self) -> (r: Result<&mut EntityStore<Journal>, Error>)
        ensures
            r is Ok <==> old(self).connected,
            r is Err ==> r->Err_0 is Disconnected && *final(self) == *old(self),
            r matches Ok(t) ==> *t == old(self).journals && final(self).journals == *final(t)
                && final(self).ledgers == old(self).ledgers && final(self).connected == old(self).connected,
    {
        if !self.connected {
            return Err(Error::Disconnected);
        }
        Ok(&mut self.journals)
    }

    /// Releases the handle. Disconnecting a disconnected handle does nothing; it never fails.
    pub fn disconnect(&mut self)
        ensures
            !final(self).connected,
            final(self).ledgers == old(self).ledgers,
            final(self).journals == old(self).journals,
    {
        self.connected = false;
    }
}

/// Where an entity file is written: first to `temporary`, then renamed over `target`, so
/// that readers see either the old or the new content.
pub struct FsWrite {
    pub temporary: String,
    pub target: String,
}

impl FileSystemStore {
    /// The file of the journal with identifier `id`. Fails with `InvalidIdentifier` where
    /// `id` cannot name a file.
    pub fn journal_file(&self, id: &str) -> (r: Result<FsWrite, Error>)
        ensures
            r is Ok <==> is_file_name(id@),
            r matches Err(e) ==> (e matches Error::InvalidIdentifier { id: x } && x@ == id@),
            r matches Ok(w) ==> w.target@ == join(join(self.layout.root@, journals_dir_name()), id@)
                && w.temporary@ == w.target@ + seq!['.', 't', 'm', 'p'],
    {
        if !check_file_name(id) {
            return Err(Error::InvalidIdentifier { id: literal(id) });
        }
        let target = self.layout.journal_path(id);
        let temporary = FsLayout::temporary_path(target.as_str());
        Ok(FsWrite { temporary, target })
    }

    /// The file of the ledger with identifier `id`. Fails with `InvalidIdentifier` where
    /// `id` cannot name a file.
    pub fn ledger_file(&self, id: &str) -> (r: Result<FsWrite, Error>)
        ensures
            r is Ok <==> is_file_name(id@),
            r matches Err(e) ==> (e matches Error::InvalidIdentifier { id: x } && x@ == id@),
            r matches Ok(w) ==> w.target@ == join(join(self.layout.root@, ledgers_dir_name()), id@)
                && w.temporary@ == w.target@ + seq!['.', 't', 'm', 'p'],
    {
        if !check_file_name(id) {
            return Err(Error::InvalidIdentifier { id: literal(id) });
        }
        let target = self.layout.ledger_path(id);
        let temporary = FsLayout::temporary_path(target.as_str());
        Ok(FsWrite { temporary, target })
    }
}

/// A connected backend, one variant per kind of backend.
pub enum DataStore {
    FileSystem(FileSystemStore),
}

impl DataStore {
    /// The handle is usable.
    pub open spec fn ready(&self) -> bool {
        match self {
            DataStore::FileSystem(s) => s.ready(),
        }
    }

    /// The filesystem store behind this handle.
    pub fn as_file_system(&self) -> (r: &FileSystemStore)
        ensures
            *r == self->FileSystem_0,
    {
        match self {
            DataStore::FileSystem(s) => s,
        }
    }

    /// The filesystem store behind this handle, for changes.
    pub fn as_file_system_mut(&mut self) -> (r: &mut FileSystemStore)
        ensures
            *r == old(self)->FileSystem_0,
            *final(self) == DataStore::FileSystem(*final(r)),
    {
        match self {
            DataStore::FileSystem(s) => s,
        }
    }

    /// Releases the backend. Disconnecting twice does nothing more; it never fails.
    pub fn disconnect(&mut self)
        ensures
            !final(self)->FileSystem_0.connected,
            final(self)->FileSystem_0.journals == old(self)->FileSystem_0.journals,
            final(self)->FileSystem_0.ledgers == old(self)->FileSystem_0.ledgers,
    {
        match self {
            DataStore::FileSystem(s) => s.disconnect(),
        }
    }
}

/// Connects to the store at `address`: fails with `UnknownStoreScheme` where no backend has
/// the address's scheme, else as `FileSystemStore::connect`.
pub fn get_current_datastore(address: &StoreAddress, probe: FsProbe, settings: Option<FsStoreSettings>) -> (r: Result<DataStore, Error>)
    ensures
        address.scheme_view() != fs_scheme() ==> (r matches Err(Error::UnknownStoreScheme { address: a }) && a@ == address.text_view()),
        address.scheme_view() == fs_scheme() && !probe.spec_store_exists() ==> (r matches Err(Error::StoreDoesNotExist { address: a }) && a@ == address.text_view()),
        r is Ok <==> address.scheme_view() == fs_scheme() && probe.spec_store_exists(),
        r matches Ok(DataStore::FileSystem(s)) ==> {
            &&& s.ready()
            &&& s.layout.root@ == address.path_view()
            &&& (settings is Some ==> s.settings == settings->0)
            &&& (settings is None ==> s.settings.is_default())
        },
{
    match backend_for(address) {
        Err(e) => Err(e),
        Ok(Backend::FileSystem) => match FileSystemStore::connect(address, probe, settings) {
            Ok(s) => Ok(DataStore::FileSystem(s)),
            Err(e) => Err(e),
        },
    }
}

/// Decides the creation of a store at `address`, given what a probe of its root found, and
/// the store's initial contents. Fails with `UnknownStoreScheme` where no backend has the
/// scheme, with `StoreExists` where a store is already there, and where an entity of the
/// contents is not acceptable. Otherwise returns the connected handle, holding the contents,
/// and the steps that lay the store out on disk, for the caller to carry out in order.
pub fn create_datastore(address: &StoreAddress, probe: FsProbe, content: CreateDatastoreContents) -> (r: Result<(DataStore, Vec<FsStep>), Error>)
    ensures
        address.scheme_view() != fs_scheme() ==> (r matches Err(Error::UnknownStoreScheme { address: a }) && a@ == address.text_view()),
        address.scheme_view() == fs_scheme() && probe.spec_store_exists() ==> (r matches Err(Error::StoreExists { address: a }) && a@ == address.text_view()),
        r is Ok <==> address.scheme_view() == fs_scheme() && !probe.spec_store_exists()
            && entities_ok(content.journals@) && entities_ok(content.ledgers@),
        r matches Ok((DataStore::FileSystem(s), steps)) ==> {
            &&& s.ready()
            &&& s.layout.root@ == address.path_view()
            &&& s.settings.is_default()
            &&& holds_exactly(s.journals, content.journals@)
            &&& holds_exactly(s.ledgers, content.ledgers@)
            &&& step_views(steps@) == create_steps(address.path_view(), keys_of(content.journals@), keys_of(content.ledgers@))
        },
{
    match backend_for(address) {
        Err(e) => {
            return Err(e);
        },
        Ok(_) => {},
    }
    if probe.store_exists() {
        return Err(crate::error::store_exists(literal(address.as_str())));
    }
    let layout = FsLayout::new(address);
    let ghost jkeys = keys_of(content.journals@);
    let ghost lkeys = keys_of(content.ledgers@);
    let mut steps: Vec<FsStep> = Vec::new();
    steps.push(FsStep::CreateDir(literal(layout.root.as_str())));
    steps.push(FsStep::WriteSettings(layout.settings_path()));
    steps.push(FsStep::WritePermissions(layout.permissions_path()));
    steps.push(FsStep::CreateDir(layout.journals_dir()));
    let ghost head = step_views(steps@);
    proof {
        let root = address.path_view();
        assert(head =~= seq![
            StepView::CreateDir(root),
            StepView::WriteSettings(join(root, settings_file_name())),
            StepView::WritePermissions(join(root, permissions_file_name())),
            StepView::CreateDir(join(root, journals_dir_name())),
        ]);
    }
    let mut i: usize = 0;
    while i < content.journals.len()
        invariant
            i <= content.journals@.len(),
            jkeys == keys_of(content.journals@),
            head.len() == 4,
            layout.root@ == address.path_view(),
            step_views(steps@) =~= head + journal_steps(join(layout.root@, journals_dir_name()), jkeys.take(i as int)),
        decreases content.journals@.len() - i,
    {
        let id = content.journals[i].identifier();
        let path = layout.journal_path(id.as_str());
        let ghost prev = step_views(steps@);
        let ghost sv = StepView::WriteJournal(path@, id@);
        steps.push(FsStep::WriteJournal(path, id));
        proof {
            assert(step_views(steps@) =~= prev.push(sv));
            assert(jkeys[i as int] == content.journals@[i as int].key());
            let d = join(layout.root@, journals_dir_name());
            assert(jkeys.take(i + 1) =~= jkeys.take(i as int).push(jkeys[i as int]));
            assert(journal_steps(d, jkeys.take(i + 1)) =~= journal_steps(d, jkeys.take(i as int)).push(
                StepView::WriteJournal(join(d, jkeys[i as int]), jkeys[i as int]),
            ));
        }
        i = i + 1;
    }
    proof {
        assert(jkeys.take(i as int) =~= jkeys);
    }
    let ghost before_ledgers = step_views(steps@);
    let ldir = layout.ledgers_dir();
    let ghost ldir_view = ldir@;
    steps.push(FsStep::CreateDir(ldir));
    let ghost mid = step_views(steps@);
    proof {
        assert(mid =~= before_ledgers.push(StepView::CreateDir(ldir_view)));
        assert(mid =~= head + journal_steps(join(address.path_view(), journals_dir_name()), jkeys) + seq![
            StepView::CreateDir(join(address.path_view(), ledgers_dir_name())),
        ]);
    }
    i = 0;
    while i < content.ledgers.len()
        invariant
            i <= content.ledgers@.len(),
            lkeys == keys_of(content.ledgers@),
            layout.root@ == address.path_view(),
            step_views(steps@) =~= mid + ledger_steps(join(layout.root@, ledgers_dir_name()), lkeys.take(i as int)),
        decreases content.ledgers@.len() - i,
    {
        let id = content.ledgers[i].identifier();
        let path = layout.ledger_path(id.as_str());
        let ghost prev = step_views(steps@);
        let ghost sv = StepView::WriteLedger(path@, id@);
        steps.push(FsStep::WriteLedger(path, id));
        proof {
            assert(step_views(steps@) =~= prev.push(sv));
            assert(lkeys[i as int] == content.ledgers@[i as int].key());
            let d = join(layout.root@, ledgers_dir_name());
            assert(lkeys.take(i + 1) =~= lkeys.take(i as int).push(lkeys[i as int]));
            assert(ledger_steps(d, lkeys.take(i + 1)) =~= ledger_steps(d, lkeys.take(i as int)).push(
                StepView::WriteLedger(join(d, lkeys[i as int]), lkeys[i as int]),
            ));
        }
        i = i + 1;
    }
    proof {
        assert(lkeys.take(i as int) =~= lkeys);
        assert(step_views(steps@) =~= create_steps(address.path_view(), jkeys, lkeys));
    }
    let CreateDatastoreContents { ledgers, journals } = content;
    let journals = match load_entities(journals) {
        Ok(t) => t,
        Err(e) => {
            return Err(e);
        },
    };
    let ledgers = match load_entities(ledgers) {
        Ok(t) => t,
        Err(e) => {
            return Err(e);
        },
    };
    let store = FileSystemStore {
        address: address.clone_address(),
        layout,
        settings: FsStoreSettings::fallback(),
        ledgers,
        journals,
        connected: true,
    };
    Ok((DataStore::FileSystem(store), steps))
}

} // verus!
