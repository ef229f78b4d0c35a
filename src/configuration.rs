//! The resolved configuration: schema version, store address, and optional client and
//! server settings. It is built once by the caller and passed where it is needed.
use crate::address::StoreAddress;
use crate::commodity::CurrencyCode;
use crate::time::Span;
use vstd::prelude::*;
use vstd::string::*;

verus! {

/// A semantic version: major, minor and patch numbers with optional pre-release and build
/// labels.
#[derive(Clone, Debug)]
pub struct SchemaVersion {
    pub major: u64,
    pub minor: u64,
    pub patch: u64,
    pub pre: String,
    pub build: String,
}

impl SchemaVersion {
    /// A release version with no labels.
    pub fn new(major: u64, minor: u64, patch: u64) -> (r: SchemaVersion)
        ensures
            r.is_release(major, minor, patch),
    {
        SchemaVersion { major, minor, patch, pre: String::new(), build: String::new() }
    }

    /// Whether this is `major.minor.patch` with no pre-release or build label.
    pub open spec fn is_release(&self, major: u64, minor: u64, patch: u64) -> bool {
        &&& self.major == major
        &&& self.minor == minor
        &&& self.patch == patch
        &&& self.pre@ == Seq::<char>::empty()
        &&& self.build@ == Seq::<char>::empty()
    }

    /// Whether `self` and `other` are the same version, labels included.
    pub open spec fn same(&self, other: &SchemaVersion) -> bool {
        &&& self.major == other.major
        &&& self.minor == other.minor
        &&& self.patch == other.patch
        &&& self.pre@ == other.pre@
        &&& self.build@ == other.build@
    }

    pub fn equals(&self, other: &SchemaVersion) -> (r: bool)
        ensures
            r == self.same(other),
    {
        self.major == other.major && self.minor == other.minor && self.patch == other.patch
            && self.pre == other.pre && self.build == other.build
    }
}

/// The configuration file version that this library reads: 0.1.0.
pub fn config_file_version() -> (r: SchemaVersion)
    ensures
        r.is_release(0, 1, 0),
{
    SchemaVersion::new(0, 1, 0)
}

/// Settings for an interactive client.
#[derive(Clone, Debug)]
pub struct ClientConfig {
    pub currency: Option<CurrencyCode>,
    pub locale: Option<String>,
}

impl ClientConfig {
    pub fn currency(&self) -> (r: Option<&CurrencyCode>)
        ensures
            (r is Some) == (self.currency is Some),
            r matches Some(v) ==> *v == self.currency->0,
    {
        self.currency.as_ref()
    }

    pub fn locale(&self) -> (r: Option<&String>)
        ensures
            (r is Some) == (self.locale is Some),
            r matches Some(v) ==> *v == self.locale->0,
    {
        self.locale.as_ref()
    }
}

/// Files holding the TLS key and certificate chain of a binding.
#[derive(Clone, Debug)]
pub struct SslBinding {
    pub private_key_pem_file: String,
    pub certificate_chain_pem_file: String,
}

/// Further options of a binding; none are defined yet.
#[derive(Clone, Debug)]
pub struct BindingOptions {}

/// A host and port that a server listens on.
#[derive(Clone, Debug)]
pub struct Binding {
    pub host: String,
    pub port: u16,
    pub ssl: Option<SslBinding>,
    pub options: Option<BindingOptions>,
}

impl Default for Binding {
    fn default() -> (r: Binding)
        ensures
            r.host@.len() == 0,
            r.port == 0,
            r.ssl is None,
            r.options is None,
    {
        Binding { host: String::new(), port: 0, ssl: None, options: None }
    }
}

impl Binding {
    pub fn host(&self) -> (r: &String)
        ensures
            r == &self.host,
    {
        &self.host
    }

    pub fn port(&self) -> (r: u16)
        ensures
            r == self.port,
    {
        self.port
    }

    pub fn ssl_binding(&self) -> (r: Option<&SslBinding>)
        ensures
            (r is Some) == (self.ssl is Some),
            r matches Some(v) ==> *v == self.ssl->0,
    {
        self.ssl.as_ref()
    }

    pub fn binding_options(&self) -> (r: Option<&BindingOptions>)
        ensures
            (r is Some) == (self.options is Some),
            r matches Some(v) ==> *v == self.options->0,
    {
        self.options.as_ref()
    }

    /// A binding is usable when it names a host and a non-zero port.
    pub open spec fn spec_is_valid(&self) -> bool {
        self.host@.len() > 0 && self.port > 0
    }

    #[verifier::when_used_as_spec(spec_is_valid)]
    pub fn is_valid(&self) -> (r: bool)
        ensures
            r == self.spec_is_valid(),
    {
        self.host.as_str().unicode_len() > 0 && self.port > 0
    }
}

/// Settings for a server: the set of bindings it listens on.
#[derive(Clone, Debug)]
pub struct ServerConfig {
    pub bindings: Vec<Binding>,
}

impl Default for ServerConfig {
    fn default() -> (r: ServerConfig)
        ensures
            r.bindings@.len() == 0,
    {
        ServerConfig { bindings: Vec::new() }
    }
}

impl ServerConfig {
    pub fn bindings(&self) -> (r: &[Binding])
        ensures
            r@ == self.bindings@,
    {
        self.bindings.as_slice()
    }

    /// A server configuration is usable when it has at least one binding and all are usable.
    pub open spec fn spec_is_valid(&self) -> bool {
        &&& self.bindings@.len() > 0
        &&& forall|i: int| 0 <= i < self.bindings@.len() ==> (#[trigger] self.bindings@[i]).spec_is_valid()
    }

    #[verifier::when_used_as_spec(spec_is_valid)]
    pub fn is_valid(&self) -> (r: bool)
        ensures
            r == self.spec_is_valid(),
    {
        if self.bindings.len() == 0 {
            return false;
        }
        let mut i: usize = 0;
        while i < self.bindings.len()
            invariant
                0 <= i <= self.bindings@.len(),
                forall|j: int| 0 <= j < i ==> (#[trigger] self.bindings@[j]).spec_is_valid(),
            decreases self.bindings@.len() - i,
        {
            if !self.bindings[i].is_valid() {
                return false;
            }
            i = i + 1;
        }
        true
    }
}

/// The top-level configuration.
#[derive(Clone, Debug)]
pub struct Configuration {
    pub version: SchemaVersion,
    pub store: StoreAddress,
    pub client: Option<ClientConfig>,
    pub server: Option<ServerConfig>,
}

impl Configuration {
    pub fn schema_version(&self) -> (r: &SchemaVersion)
        ensures
            r == &self.version,
    {
        &self.version
    }

    pub fn store(&self) -> (r: &StoreAddress)
        ensures
            r == &self.store,
    {
        &self.store
    }

    pub fn client(&self) -> (r: Option<&ClientConfig>)
        ensures
            (r is Some) == (self.client is Some),
            r matches Some(v) ==> *v == self.client->0,
    {
        self.client.as_ref()
    }

    pub fn server(&self) -> (r: Option<&ServerConfig>)
        ensures
            (r is Some) == (self.server is Some),
            r matches Some(v) ==> *v == self.server->0,
    {
        self.server.as_ref()
    }

    /// A configuration is accepted when it has the expected version and, if it configures a
    /// server, that server configuration is usable.
    pub open spec fn spec_is_valid(&self) -> bool {
        &&& self.version.is_release(0, 1, 0)
        &&& (self.server matches Some(s) ==> s.spec_is_valid())
    }

    #[verifier::when_used_as_spec(spec_is_valid)]
    pub fn is_valid(&self) -> (r: bool)
        ensures
            r == self.spec_is_valid(),
    {
        let expected = config_file_version();
        if !self.version.equals(&expected) {
            return false;
        }
        match &self.server {
            Some(s) => s.is_valid(),
            None => true,
        }
    }
}

} // verus!
