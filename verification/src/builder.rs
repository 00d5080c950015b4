//! Backend selection: a root location string is parsed once into scheme,
//! host and path prefix, and one backend kind is picked deterministically.

use vstd::prelude::*;

use crate::error::StorageError;
use crate::config::aws::s3_resolved;
use crate::config::aws::S3Builder;
use crate::config::aws::S3Config;
use crate::config::aws::S3ConfigKey;
use crate::config::azure::azure_builder_ok;
use crate::config::azure::AzureBuilder;
use crate::config::azure::AzureConfig;
use crate::config::google::google_resolved;
use crate::config::google::GoogleBuilder;
use crate::config::google::GoogleConfig;
use crate::config::google::GoogleConfigKey;
use crate::path::split_slash;
use crate::path::splits_wf;
use crate::path::StorePath;
use crate::strutil::contains_str;
use crate::strutil::contains_sub;
use crate::strutil::str_eq;

verus! {

/// The closed set of backends a root URL can resolve to.
#[derive(Clone, Copy, Debug, PartialEq, Eq, Structural)]
pub enum ObjectStoreKind {
    /// The local filesystem.
    Local,
    /// The in-memory store.
    InMemory,
    /// An S3-compatible store.
    S3,
    /// Google Cloud Storage.
    Google,
    /// Azure blob storage.
    Azure,
}

/// What parsing a root URL produced: its parts, or the distinguished
/// "no scheme at all" failure that means the string is a local path, or
/// any other parse failure.
pub enum UrlParseOutcome {
    /// A well-formed absolute URL, reduced to the parts the selector
    /// reads. A URL without a host carries the empty string there.
    Parsed { scheme: String, host: String, path: String },
    /// The string has no scheme: it is taken for a local filesystem path.
    RelativeWithoutBase,
    /// The string is no URL at all.
    Invalid { message: String },
}

/// What `url::Url::parse` makes of a root location string: on success the
/// scheme, host and path read back out of the URL, `Err(true)` for a
/// string without a scheme (the local-path fallback), and `Err(false)`
/// for any other parse failure. A fixed function of the string alone.
pub uninterp spec fn url_parse_of(s: Seq<char>) -> Result<(Seq<char>, Seq<char>, Seq<char>), bool>;

/// Relies on `url::Url::parse` to split a root location string, and on
/// `Url::scheme`, `Url::host_str` and `Url::path` to read the parts out;
/// the error variant for strings without a scheme is told apart so the
/// caller can fall back to the local filesystem.
#[verifier::external_body]
fn parse_root_url(s: &str) -> (r: UrlParseOutcome)
    ensures
        match r {
            UrlParseOutcome::Parsed { scheme, host, path } => url_parse_of(s@) == Ok::<
                (Seq<char>, Seq<char>, Seq<char>),
                bool,
            >((scheme@, host@, path@)),
            UrlParseOutcome::RelativeWithoutBase => url_parse_of(s@) == Err::<
                (Seq<char>, Seq<char>, Seq<char>),
                bool,
            >(true),
            UrlParseOutcome::Invalid { .. } => url_parse_of(s@) == Err::<
                (Seq<char>, Seq<char>, Seq<char>),
                bool,
            >(false),
        },
{
    match url::Url::parse(s) {
        Ok(u) => UrlParseOutcome::Parsed {
            scheme: u.scheme().to_string(),
            host: u.host_str().unwrap_or_default().to_string(),
            path: u.path().to_string(),
        },
        Err(url::ParseError::RelativeUrlWithoutBase) => UrlParseOutcome::RelativeWithoutBase,
        Err(e) => UrlParseOutcome::Invalid { message: e.to_string() },
    }
}

/// The scheme dispatch table, with host sniffing for `https`: which
/// backend a scheme and host resolve to, if any.
pub open spec fn spec_backend_kind(scheme: Seq<char>, host: Seq<char>) -> Option<
    ObjectStoreKind,
> {
    if scheme == "file"@ {
        Some(ObjectStoreKind::Local)
    } else if scheme == "memory"@ {
        Some(ObjectStoreKind::InMemory)
    } else if scheme == "az"@ || scheme == "abfs"@ || scheme == "abfss"@ || scheme == "azure"@
        || scheme == "wasb"@ || scheme == "adl"@ {
        Some(ObjectStoreKind::Azure)
    } else if scheme == "s3"@ || scheme == "s3a"@ {
        Some(ObjectStoreKind::S3)
    } else if scheme == "gs"@ {
        Some(ObjectStoreKind::Google)
    } else if scheme == "https"@ {
        if contains_sub(host, "amazonaws.com"@) {
            Some(ObjectStoreKind::S3)
        } else if contains_sub(host, "dfs.core.windows.net"@) || contains_sub(
            host,
            "blob.core.windows.net"@,
        ) {
            Some(ObjectStoreKind::Azure)
        } else {
            None
        }
    } else {
        None
    }
}

impl ObjectStoreKind {
    /// Picks the backend for a scheme and host, exactly as the dispatch
    /// table says.
    pub fn for_scheme(scheme: &str, host: &str) -> (r: Result<ObjectStoreKind, StorageError>)
        ensures
            r matches Ok(k) ==> spec_backend_kind(scheme@, host@) == Some(k),
            r is Err <==> spec_backend_kind(scheme@, host@) is None,
            r is Err ==> r matches Err(StorageError::UnresolvableBackend),
    {
        if str_eq(scheme, "file") {
            Ok(ObjectStoreKind::Local)
        } else if str_eq(scheme, "memory") {
            Ok(ObjectStoreKind::InMemory)
        } else if str_eq(scheme, "az") || str_eq(scheme, "abfs") || str_eq(scheme, "abfss")
            || str_eq(scheme, "azure") || str_eq(scheme, "wasb") || str_eq(scheme, "adl") {
            Ok(ObjectStoreKind::Azure)
        } else if str_eq(scheme, "s3") || str_eq(scheme, "s3a") {
            Ok(ObjectStoreKind::S3)
        } else if str_eq(scheme, "gs") {
            Ok(ObjectStoreKind::Google)
        } else if str_eq(scheme, "https") {
            if contains_str(host, "amazonaws.com") {
                Ok(ObjectStoreKind::S3)
            } else if contains_str(host, "dfs.core.windows.net") || contains_str(
                host,
                "blob.core.windows.net",
            ) {
                Ok(ObjectStoreKind::Azure)
            } else {
                Err(StorageError::UnresolvableBackend)
            }
        } else {
            Err(StorageError::UnresolvableBackend)
        }
    }

    /// Picks the backend for a parsed root URL; anything but a
    /// well-formed URL is unresolvable here.
    pub fn parse_url(outcome: &UrlParseOutcome) -> (r: Result<ObjectStoreKind, StorageError>)
        ensures
            outcome matches UrlParseOutcome::Parsed { scheme, host, .. } ==> {
                &&& (r matches Ok(k) ==> spec_backend_kind(scheme@, host@) == Some(k))
                &&& (r is Err <==> spec_backend_kind(scheme@, host@) is None)
            },
            !(outcome is Parsed) ==> r is Err,
            r is Err ==> r matches Err(StorageError::UnresolvableBackend),
    {
        match outcome {
            UrlParseOutcome::Parsed { scheme, host, .. } => Self::for_scheme(
                scheme.as_str(),
                host.as_str(),
            ),
            _ => Err(StorageError::UnresolvableBackend),
        }
    }
}

/// A root URL, parsed once at store construction time and immutable for
/// the store's lifetime.
pub struct StorageUrl {
    /// The string the store was built from.
    pub raw_url: String,
    /// Its scheme.
    pub scheme: String,
    /// Its host, or empty when it has none.
    pub host: String,
    /// Its path component, parsed into segments.
    pub prefix: StorePath,
}

/// Client tuning handed through to a backend's transport, kept as plain
/// values. Durations are in seconds.
pub struct ClientOptions {
    pub user_agent: Option<String>,
    pub default_content_type: Option<String>,
    pub proxy_url: Option<String>,
    pub allow_http: bool,
    pub allow_insecure: bool,
    pub timeout: Option<u64>,
    pub connect_timeout: Option<u64>,
    pub pool_idle_timeout: Option<u64>,
    pub pool_max_idle_per_host: Option<u64>,
    pub http2_keep_alive_interval: Option<u64>,
    pub http2_keep_alive_timeout: Option<u64>,
    pub http2_keep_alive_while_idle: bool,
    pub http1_only: bool,
    pub http2_only: bool,
}

/// Retry tuning handed through to a backend's transport, kept as plain
/// values. Durations are in seconds.
pub struct RetryConfig {
    pub init_backoff: Option<u64>,
    pub max_backoff: Option<u64>,
    pub max_retries: Option<u64>,
    pub retry_timeout: Option<u64>,
}

/// One backend, fully resolved: either a store the library can drive
/// itself, or the checked configuration a remote client is built from.
pub enum ObjectStoreImpl {
    /// The local filesystem rooted at a path. Canonicalizing the path and
    /// checking that it exists is filesystem work left to the embedder.
    Local { root: String },
    /// A fresh in-memory store.
    InMemory,
    /// An S3-compatible store, with its resolved credentials.
    S3(S3Builder),
    /// An Azure store, with its resolved credentials.
    Azure(AzureBuilder),
    /// A Google Cloud store, with its resolved credentials.
    Gcp(GoogleBuilder),
}

/// What `build` produces: the resolved backend and the scope prefix to
/// carve out of it.
pub struct StoreConfig {
    /// The backend picked by scheme dispatch.
    pub backend: ObjectStoreImpl,
    /// The parsed root URL, when the root location was one.
    pub url: Option<StorageUrl>,
    /// The prefix the store is scoped to, when one was chosen.
    pub prefix: Option<StorePath>,
    /// Client tuning to hand to the backend, when given.
    pub client_options: Option<ClientOptions>,
    /// Retry tuning to hand to the backend, when given.
    pub retry_config: Option<RetryConfig>,
}

impl ObjectStoreImpl {
    /// Pairs the resolved backend with a scope prefix to carve out of it.
    pub fn into_prefix(self, prefix: StorePath) -> (r: StoreConfig)
        requires
            prefix.wf(),
        ensures
            r.backend == self,
            r.prefix == Some(prefix),
            r.url is None,
            r.client_options is None,
            r.retry_config is None,
    {
        StoreConfig {
            backend: self,
            url: None,
            prefix: Some(prefix),
            client_options: None,
            retry_config: None,
        }
    }

    /// Takes the resolved backend whole, with no scope carved out.
    pub fn into_store(self) -> (r: StoreConfig)
        ensures
            r.backend == self,
            r.prefix is None,
            r.url is None,
            r.client_options is None,
            r.retry_config is None,
    {
        StoreConfig {
            backend: self,
            url: None,
            prefix: None,
            client_options: None,
            retry_config: None,
        }
    }
}

/// The chosen backend's configuration resolves from the option map and
/// environment: nothing more is needed for the local and in-memory kinds,
/// while the remote kinds need their required keys and credentials.
pub open spec fn backend_resolves(
    kind: ObjectStoreKind,
    options: Seq<(String, String)>,
    env: Seq<(String, String)>,
) -> bool {
    match kind {
        ObjectStoreKind::Local => true,
        ObjectStoreKind::InMemory => true,
        ObjectStoreKind::S3 => s3_resolved(options, env, S3ConfigKey::Region) is Some
            && s3_resolved(options, env, S3ConfigKey::Bucket) is Some,
        ObjectStoreKind::Azure => azure_builder_ok(options, env),
        ObjectStoreKind::Google => google_resolved(
            options,
            env,
            GoogleConfigKey::ServiceAccount,
        ) is Some,
    }
}

/// The resolved backend is the one the kind dispatch picked; a local
/// backend is rooted at the URL's path.
pub open spec fn backend_matches(
    b: ObjectStoreImpl,
    kind: ObjectStoreKind,
    path: Seq<char>,
) -> bool {
    match kind {
        ObjectStoreKind::Local => b matches ObjectStoreImpl::Local { root } && root@ == path,
        ObjectStoreKind::InMemory => b is InMemory,
        ObjectStoreKind::S3 => b is S3,
        ObjectStoreKind::Azure => b is Azure,
        ObjectStoreKind::Google => b is Gcp,
    }
}

/// Collects everything needed to resolve a root URL into a backend.
pub struct ObjectStoreBuilder {
    url: String,
    prefix: Option<StorePath>,
    path_as_prefix: bool,
    options: Vec<(String, String)>,
    client_options: Option<ClientOptions>,
    retry_config: Option<RetryConfig>,
    env: Vec<(String, String)>,
}

impl ObjectStoreBuilder {
    /// The root location string.
    pub closed spec fn url_view(self) -> Seq<char> {
        self.url@
    }

    /// The explicitly chosen prefix, if any.
    pub closed spec fn prefix_view(self) -> Option<StorePath> {
        self.prefix
    }

    /// Whether the URL's path doubles as the scope prefix.
    pub closed spec fn path_as_prefix_set(self) -> bool {
        self.path_as_prefix
    }

    /// The option map, in insertion order; a later entry wins.
    pub closed spec fn options_view(self) -> Seq<(String, String)> {
        self.options@
    }

    /// The environment snapshot used for fallback lookups.
    pub closed spec fn env_view(self) -> Seq<(String, String)> {
        self.env@
    }

    /// The client tuning, if any was given.
    pub closed spec fn client_options_view(self) -> Option<ClientOptions> {
        self.client_options
    }

    /// The retry tuning, if any was given.
    pub closed spec fn retry_config_view(self) -> Option<RetryConfig> {
        self.retry_config
    }

    /// Starts a builder for the given root location.
    pub fn new(url: &str) -> (r: ObjectStoreBuilder)
        ensures
            r.url_view() == url@,
            r.prefix_view() is None,
            !r.path_as_prefix_set(),
            r.options_view() == Seq::<(String, String)>::empty(),
            r.env_view() == Seq::<(String, String)>::empty(),
            r.client_options_view() is None,
            r.retry_config_view() is None,
    {
        ObjectStoreBuilder {
            url: url.to_owned(),
            prefix: None,
            path_as_prefix: false,
            options: Vec::new(),
            client_options: None,
            retry_config: None,
            env: Vec::new(),
        }
    }

    /// Adds a batch of backend options; later entries win over earlier
    /// ones.
    pub fn with_options(self, options: Vec<(String, String)>) -> (r: ObjectStoreBuilder)
        ensures
            r.options_view() == self.options_view() + options@,
            r.url_view() == self.url_view(),
            r.prefix_view() == self.prefix_view(),
            r.path_as_prefix_set() == self.path_as_prefix_set(),
            r.env_view() == self.env_view(),
            r.client_options_view() == self.client_options_view(),
            r.retry_config_view() == self.retry_config_view(),
    {
        let mut s = self;
        let mut options = options;
        s.options.append(&mut options);
        s
    }

    /// Adds one backend option; it wins over earlier entries for the same
    /// key.
    pub fn with_option(self, key: String, value: String) -> (r: ObjectStoreBuilder)
        ensures
            r.options_view() == self.options_view().push((key, value)),
            r.url_view() == self.url_view(),
            r.prefix_view() == self.prefix_view(),
            r.path_as_prefix_set() == self.path_as_prefix_set(),
            r.env_view() == self.env_view(),
            r.client_options_view() == self.client_options_view(),
            r.retry_config_view() == self.retry_config_view(),
    {
        let mut s = self;
        s.options.push((key, value));
        s
    }

    /// Scopes the store to an explicit prefix.
    pub fn with_prefix(self, prefix: StorePath) -> (r: ObjectStoreBuilder)
        requires
            prefix.wf(),
        ensures
            r.prefix_view() == Some(prefix),
            r.url_view() == self.url_view(),
            r.path_as_prefix_set() == self.path_as_prefix_set(),
            r.options_view() == self.options_view(),
            r.env_view() == self.env_view(),
            r.client_options_view() == self.client_options_view(),
            r.retry_config_view() == self.retry_config_view(),
    {
        let mut s = self;
        s.prefix = Some(prefix);
        s
    }

    /// Chooses whether the URL's path becomes the scope prefix when no
    /// explicit prefix is given.
    pub fn with_path_as_prefix(self, path_as_prefix: bool) -> (r: ObjectStoreBuilder)
        ensures
            r.path_as_prefix_set() == path_as_prefix,
            r.url_view() == self.url_view(),
            r.prefix_view() == self.prefix_view(),
            r.options_view() == self.options_view(),
            r.env_view() == self.env_view(),
            r.client_options_view() == self.client_options_view(),
            r.retry_config_view() == self.retry_config_view(),
    {
        let mut s = self;
        s.path_as_prefix = path_as_prefix;
        s
    }

    /// Hands client tuning to the backend.
    pub fn with_client_options(self, options: ClientOptions) -> (r: ObjectStoreBuilder)
        ensures
            r.client_options_view() == Some(options),
            r.url_view() == self.url_view(),
            r.prefix_view() == self.prefix_view(),
            r.path_as_prefix_set() == self.path_as_prefix_set(),
            r.options_view() == self.options_view(),
            r.env_view() == self.env_view(),
            r.retry_config_view() == self.retry_config_view(),
    {
        let mut s = self;
        s.client_options = Some(options);
        s
    }

    /// Hands retry tuning to the backend.
    pub fn with_retry_config(self, retry_config: RetryConfig) -> (r: ObjectStoreBuilder)
        ensures
            r.retry_config_view() == Some(retry_config),
            r.url_view() == self.url_view(),
            r.prefix_view() == self.prefix_view(),
            r.path_as_prefix_set() == self.path_as_prefix_set(),
            r.options_view() == self.options_view(),
            r.env_view() == self.env_view(),
            r.client_options_view() == self.client_options_view(),
    {
        let mut s = self;
        s.retry_config = Some(retry_config);
        s
    }

    /// Supplies the environment snapshot used when an option is absent
    /// from the map. Reading the real process environment is left to the
    /// embedder.
    pub fn with_env(self, env: Vec<(String, String)>) -> (r: ObjectStoreBuilder)
        ensures
            r.env_view() == env@,
            r.url_view() == self.url_view(),
            r.prefix_view() == self.prefix_view(),
            r.path_as_prefix_set() == self.path_as_prefix_set(),
            r.options_view() == self.options_view(),
            r.client_options_view() == self.client_options_view(),
            r.retry_config_view() == self.retry_config_view(),
    {
        let mut s = self;
        s.env = env;
        s
    }

    /// Resolves the root location: parses it as a URL (a string without a
    /// scheme is taken for a local path), dispatches on the scheme, and
    /// checks the chosen backend's credentials. The URL's path component
    /// becomes the scope prefix when `path_as_prefix` is set and no
    /// explicit prefix was supplied.
    pub fn build(self) -> (r: Result<StoreConfig, StorageError>)
        requires
            self.prefix_view() matches Some(p) ==> p.wf(),
        ensures
            r matches Ok(cfg) ==> {
                &&& (cfg.prefix matches Some(p) ==> p.wf())
                &&& (self.prefix_view() matches Some(p) ==> cfg.prefix == Some(p))
                &&& (self.prefix_view() is None && !self.path_as_prefix_set() ==> cfg.prefix
                    is None)
                &&& cfg.client_options == self.client_options_view()
                &&& cfg.retry_config == self.retry_config_view()
            },
            url_parse_of(self.url_view()) matches Err(no_scheme) ==> {
                &&& (!no_scheme ==> r matches Err(StorageError::BackendError { .. }))
                &&& (no_scheme ==> (r matches Ok(cfg) && cfg.backend matches
                    ObjectStoreImpl::Local { root } && root@ == self.url_view() && cfg.url
                    is None && cfg.prefix == self.prefix_view()))
            },
            url_parse_of(self.url_view()) matches Ok(t) ==> {
                let kind = spec_backend_kind(t.0, t.1);
                let needs = self.prefix_view() is None && self.path_as_prefix_set()
                    && t.2.len() > 0;
                &&& (kind is None ==> r matches Err(StorageError::UnresolvableBackend))
                &&& (kind matches Some(kk) ==> {
                    &&& (r is Ok <==> backend_resolves(kk, self.options_view(), self.env_view())
                        && (needs ==> splits_wf(split_slash(t.2))))
                    &&& (r matches Ok(cfg) ==> backend_matches(cfg.backend, kk, t.2) && (needs
                        ==> (cfg.prefix matches Some(p) && p@ == split_slash(t.2))))
                })
            },
    {
        let outcome = parse_root_url(self.url.as_str());
        let kind_result = ObjectStoreKind::parse_url(&outcome);
        let (backend, url, url_path): (ObjectStoreImpl, Option<StorageUrl>, String) =
            match outcome {
            UrlParseOutcome::Parsed { scheme, host, path } => {
                let kind = kind_result?;
                let b = match kind {
                    ObjectStoreKind::Local => ObjectStoreImpl::Local { root: path.clone() },
                    ObjectStoreKind::InMemory => ObjectStoreImpl::InMemory,
                    ObjectStoreKind::S3 => ObjectStoreImpl::S3(
                        S3Config::get_builder(self.url.clone(), &self.options, &self.env)?,
                    ),
                    ObjectStoreKind::Azure => ObjectStoreImpl::Azure(
                        AzureConfig::get_builder(self.url.clone(), &self.options, &self.env)?,
                    ),
                    ObjectStoreKind::Google => ObjectStoreImpl::Gcp(
                        GoogleConfig::get_builder(self.url.clone(), &self.options, &self.env)?,
                    ),
                };
                let url_prefix = match StorePath::parse(path.as_str()) {
                    Ok(p) => p,
                    Err(_) => StorePath::empty(),
                };
                let u = StorageUrl {
                    raw_url: self.url.clone(),
                    scheme,
                    host,
                    prefix: url_prefix,
                };
                (b, Some(u), path)
            },
            UrlParseOutcome::RelativeWithoutBase => {
                (ObjectStoreImpl::Local { root: self.url.clone() }, None, String::new())
            },
            UrlParseOutcome::Invalid { message } => {
                return Err(StorageError::BackendError { message });
            },
        };
        let prefix: Option<StorePath> = match self.prefix {
            Some(p) => Some(p),
            None => {
                if self.path_as_prefix && url_path.as_str().unicode_len() > 0 {
                    Some(StorePath::parse(url_path.as_str())?)
                } else {
                    None
                }
            },
        };
        proof {
            if prefix is Some && self.prefix is None {
                assert(splits_wf(split_slash(url_path@)));
            }
        }
        let mut cfg = match prefix {
            Some(p) => backend.into_prefix(p),
            None => backend.into_store(),
        };
        cfg.url = url;
        cfg.client_options = self.client_options;
        cfg.retry_config = self.retry_config;
        Ok(cfg)
    }
}

} // verus!
