//! Proxy configuration: its model, defaults, validation and path handling.
//!
//! Listen addresses, URLs and filesystem paths are held as their text
//! (`SocketAddr`, `Url` and `Path` displayed), the form in which they are
//! read from and written to the JSON configuration file.
use vstd::prelude::*;

use crate::names::{has_name, lemma_has_name_index, name_get, names_sorted, NameMap};
use crate::text::{append_str, chars_of, str_eq, trim_seq, trim_str};

verus! {

/// The configuration file name looked up beside the executable and in the
/// user's configuration directory.
pub const DEFAULT_CONFIG_FILE: &'static str = "config.json";

/// An upstream provider: its base URL and the name of the stored secret that
/// holds its API key, if it needs one.
#[derive(Debug, Clone)]
pub struct RouteConfig {
    /// The serialized form of a parsed URL (`Url::parse` then `to_string`),
    /// as configurations are read; the scheme checks read it as such.
    pub base_url: String,
    pub upstream_api_key: Option<String>,
}

/// Where requests for one model go, and the model name to send upstream.
#[derive(Debug, Clone)]
pub struct ModelRoute {
    pub route: String,
    pub upstream_model: Option<String>,
}

/// Payload archive compression.
#[derive(Debug, Clone, Copy, PartialEq, Eq)]
pub enum Compression {
    Zstd,
}

/// Payload capture settings.
#[derive(Debug, Clone, Copy)]
pub struct PayloadCaptureConfig {
    pub default_enabled: bool,
    pub compression: Compression,
}

/// Log output format.
#[derive(Debug, Clone, Copy, PartialEq, Eq)]
pub enum LogFormat {
    Json,
}

/// Logging settings.
#[derive(Debug, Clone)]
pub struct LoggingConfig {
    pub format: LogFormat,
    pub level: String,
}

/// The configuration file chosen, and whether it has to be created.
#[derive(Debug, Clone)]
pub struct ConfigPaths {
    pub config: String,
    pub created: bool,
}

/// The whole proxy configuration.
pub struct Config {
    pub proxy_listen: String,
    pub admin_listen: String,
    pub database: String,
    pub payload_dir: String,
    pub master_key: String,
    pub default_route: String,
    pub routes: NameMap<RouteConfig>,
    pub models: NameMap<ModelRoute>,
    pub payload_capture: PayloadCaptureConfig,
    pub logging: LoggingConfig,
}

/// Why a configuration could not be found, read, parsed or accepted.
#[derive(Debug)]
#[allow(inconsistent_fields)]
pub enum ConfigError {
    MissingExecutablePath,
    MissingHomeDirectory,
    Invalid(String),
    Read { path: String, source: std::io::Error },
    Write { path: String, source: std::io::Error },
    Parse { path: String, source: serde_json::Error },
    Serialize(serde_json::Error),
}

// ---------------------------------------------------------------- defaults

impl Default for PayloadCaptureConfig {
    fn default() -> (c: Self)
        ensures
            c.default_enabled,
            c.compression == Compression::Zstd,
    {
        PayloadCaptureConfig { default_enabled: true, compression: Compression::Zstd }
    }
}

impl Default for LoggingConfig {
    fn default() -> (c: Self)
        ensures
            c.format == LogFormat::Json,
            c.level@ == "info"@,
    {
        LoggingConfig { format: LogFormat::Json, level: "info".to_owned() }
    }
}

/// The default route table: one route, `local`, to LM Studio on
/// `http://localhost:1234/` with no upstream secret.
pub open spec fn is_default_routes(routes: NameMap<RouteConfig>) -> bool {
    &&& routes.entries().len() == 1
    &&& routes.entries()[0].0@ == "local"@
    &&& routes.entries()[0].1.base_url@ == "http://localhost:1234/"@
    &&& routes.entries()[0].1.upstream_api_key is None
}

/// Whether `c` is the default configuration.
pub open spec fn is_default_config(c: Config) -> bool {
    &&& c.proxy_listen@ == "0.0.0.0:8080"@
    &&& c.admin_listen@ == "0.0.0.0:8081"@
    &&& c.database@ == "./data/llm-proxy.sqlite"@
    &&& c.payload_dir@ == "./data/payloads"@
    &&& c.master_key@ == "./data/master.key"@
    &&& c.default_route@ == "local"@
    &&& is_default_routes(c.routes)
    &&& c.models.entries().len() == 0
    &&& c.payload_capture.default_enabled
    &&& c.payload_capture.compression == Compression::Zstd
    &&& c.logging.format == LogFormat::Json
    &&& c.logging.level@ == "info"@
}

impl Default for Config {
    fn default() -> (c: Self)
        ensures
            is_default_config(c),
    {
        let routes = NameMap::singleton(
            "local".to_owned(),
            RouteConfig { base_url: "http://localhost:1234/".to_owned(), upstream_api_key: None },
        );
        Config {
            proxy_listen: "0.0.0.0:8080".to_owned(),
            admin_listen: "0.0.0.0:8081".to_owned(),
            database: "./data/llm-proxy.sqlite".to_owned(),
            payload_dir: "./data/payloads".to_owned(),
            master_key: "./data/master.key".to_owned(),
            default_route: "local".to_owned(),
            routes,
            models: NameMap::new(),
            payload_capture: PayloadCaptureConfig::default(),
            logging: LoggingConfig::default(),
        }
    }
}

// ---------------------------------------------------------------- validation

/// Position of the first `:` in `url` at or after `i`, or its length.
pub open spec fn colon_index(url: Seq<char>, i: int) -> int
    decreases url.len() - i,
{
    if i < 0 || i >= url.len() {
        url.len() as int
    } else if url[i] == ':' {
        i
    } else {
        colon_index(url, i + 1)
    }
}

/// The scheme of a URL, from its text: everything before the first `:`.
/// For the serialized form of a parsed URL, which is what
/// [`RouteConfig::base_url`] holds, this is exactly what `Url::scheme`
/// returns (the serialization begins with the scheme and a `:`); for other
/// text it is only the text before the first `:`.
pub open spec fn url_scheme(url: Seq<char>) -> Seq<char> {
    url.take(colon_index(url, 0))
}

/// The scheme of the URL `url`.
pub fn scheme_of(url: &str) -> (r: String)
    ensures
        r@ == url_scheme(url@),
{
    let v = chars_of(url);
    let mut i: usize = 0;
    while i < v.len() && v[i] != ':'
        invariant
            v@ == url@,
            i <= v@.len(),
            colon_index(url@, 0) == colon_index(url@, i as int),
        decreases v.len() - i,
    {
        i = i + 1;
    }
    let t = crate::text::take_chars(&v, i);
    crate::text::string_from_chars(&t)
}

/// What is wrong with the route `name`, if anything.
pub open spec fn route_problem(name: Seq<char>, route: RouteConfig) -> Option<Seq<char>> {
    let scheme = url_scheme(route.base_url@);
    if trim_seq(name).len() == 0 {
        Some("route names cannot be empty"@)
    } else if scheme == "http"@ || scheme == "https"@ {
        None
    } else {
        Some("route '"@ + name + "' has unsupported URL scheme '"@ + scheme + "'"@)
    }
}

/// What is wrong with the model mapping `name`, if anything.
pub open spec fn model_problem(
    name: Seq<char>,
    mapping: ModelRoute,
    routes: Seq<(String, RouteConfig)>,
) -> Option<Seq<char>> {
    if trim_seq(name).len() == 0 {
        Some("model names cannot be empty"@)
    } else if !has_name(routes, mapping.route@) {
        Some("model '"@ + name + "' references unknown route '"@ + mapping.route@ + "'"@)
    } else {
        None
    }
}

/// The first problem among the routes from position `i` on.
pub open spec fn first_route_problem(routes: Seq<(String, RouteConfig)>, i: int) -> Option<Seq<char>>
    decreases routes.len() - i,
{
    if i < 0 || i >= routes.len() {
        None
    } else {
        match route_problem(routes[i].0@, routes[i].1) {
            Some(m) => Some(m),
            None => first_route_problem(routes, i + 1),
        }
    }
}

/// The first problem among the model mappings from position `i` on.
pub open spec fn first_model_problem(
    models: Seq<(String, ModelRoute)>,
    routes: Seq<(String, RouteConfig)>,
    i: int,
) -> Option<Seq<char>>
    decreases models.len() - i,
{
    if i < 0 || i >= models.len() {
        None
    } else {
        match model_problem(models[i].0@, models[i].1, routes) {
            Some(m) => Some(m),
            None => first_model_problem(models, routes, i + 1),
        }
    }
}

/// The reason `c` is rejected, checked in this order: no routes, a missing
/// default route, then each route in name order, then each model mapping in
/// name order; `None` when `c` is accepted.
pub open spec fn config_problem(c: Config) -> Option<Seq<char>> {
    let routes = c.routes.entries();
    if routes.len() == 0 {
        Some("at least one route is required"@)
    } else if !has_name(routes, c.default_route@) {
        Some("default_route '"@ + c.default_route@ + "' does not exist"@)
    } else {
        match first_route_problem(routes, 0) {
            Some(m) => Some(m),
            None => first_model_problem(c.models.entries(), routes, 0),
        }
    }
}

pub proof fn lemma_no_model_problem(models: Seq<(String, ModelRoute)>, routes: Seq<(String, RouteConfig)>, i: int)
    requires
        0 <= i,
        first_model_problem(models, routes, i) is None,
    ensures
        forall|j: int|
            i <= j < models.len() ==> model_problem(#[trigger] models[j].0@, models[j].1, routes) is None,
    decreases models.len() - i,
{
    if i < models.len() {
        lemma_no_model_problem(models, routes, i + 1);
    }
}

/// Builds `a + b + c + d + e`.
fn concat5(a: &str, b: &str, c: &str, d: &str, e: &str) -> (r: String)
    ensures
        r@ == a@ + b@ + c@ + d@ + e@,
{
    let mut r = String::new();
    append_str(&mut r, a);
    append_str(&mut r, b);
    append_str(&mut r, c);
    append_str(&mut r, d);
    append_str(&mut r, e);
    assert(r@ =~= a@ + b@ + c@ + d@ + e@);
    r
}

impl Config {
    /// Checks the configuration; on rejection the error says why.
    #[verifier::loop_isolation(false)]
    pub fn validate(&self) -> (r: Result<(), ConfigError>)
        ensures
            r is Ok <==> config_problem(*self) is None,
            r matches Err(e) ==> (e matches ConfigError::Invalid(m) && m@ == config_problem(
                *self,
            ).unwrap()),
    {
        let routes = self.routes.as_slice();
        if routes.len() == 0 {
            return Err(ConfigError::Invalid("at least one route is required".to_owned()));
        }
        if !self.routes.contains_key(self.default_route.as_str()) {
            let m = concat5(
                "default_route '",
                self.default_route.as_str(),
                "' does not exist",
                "",
                "",
            );
            proof {
                reveal_strlit("");
            }
            assert(m@ =~= "default_route '"@ + self.default_route@ + "' does not exist"@);
            return Err(ConfigError::Invalid(m));
        }
        let mut i: usize = 0;
        while i < routes.len()
            invariant
                routes@ == self.routes.entries(),
                i <= routes@.len(),
                first_route_problem(routes@, 0) == first_route_problem(routes@, i as int),
            decreases routes.len() - i,
        {
            let name = &routes[i].0;
            let route = &routes[i].1;
            let trimmed = trim_str(name.as_str());
            if trimmed.as_str().is_empty() {
                return Err(ConfigError::Invalid("route names cannot be empty".to_owned()));
            }
            let scheme = scheme_of(route.base_url.as_str());
            if !(str_eq(scheme.as_str(), "http") || str_eq(scheme.as_str(), "https")) {
                let m = concat5(
                    "route '",
                    name.as_str(),
                    "' has unsupported URL scheme '",
                    scheme.as_str(),
                    "'",
                );
                return Err(ConfigError::Invalid(m));
            }
            i = i + 1;
        }
        let models = self.models.as_slice();
        let mut j: usize = 0;
        while j < models.len()
            invariant
                routes@ == self.routes.entries(),
                models@ == self.models.entries(),
                j <= models@.len(),
                first_model_problem(models@, routes@, 0) == first_model_problem(
                    models@,
                    routes@,
                    j as int,
                ),
            decreases models.len() - j,
        {
            let name = &models[j].0;
            let mapping = &models[j].1;
            let trimmed = trim_str(name.as_str());
            if trimmed.as_str().is_empty() {
                return Err(ConfigError::Invalid("model names cannot be empty".to_owned()));
            }
            if !self.routes.contains_key(mapping.route.as_str()) {
                let m = concat5(
                    "model '",
                    name.as_str(),
                    "' references unknown route '",
                    mapping.route.as_str(),
                    "'",
                );
                return Err(ConfigError::Invalid(m));
            }
            j = j + 1;
        }
        Ok(())
    }
}

/// The default configuration is accepted by [`Config::validate`].
pub proof fn default_config_is_valid(c: Config)
    requires
        is_default_config(c),
    ensures
        config_problem(c) is None,
{
    let routes = c.routes.entries();
    reveal_strlit("local");
    reveal_strlit("http://localhost:1234/");
    reveal_strlit("http");
    assert(has_name(routes, c.default_route@)) by {
        assert(routes[0].0@ == c.default_route@);
    }
    let name = routes[0].0@;
    assert(trim_seq(name) == name) by {
        assert(!crate::text::is_ws(name[0]));
        assert(!crate::text::is_ws(name.last()));
    }
    let url = routes[0].1.base_url@;
    assert(colon_index(url, 0) == 4) by {
        assert(url[0] == 'h' && url[1] == 't' && url[2] == 't' && url[3] == 'p' && url[4] == ':');
        assert(colon_index(url, 4) == 4);
        assert(colon_index(url, 3) == 4);
        assert(colon_index(url, 2) == 4);
        assert(colon_index(url, 1) == 4);
    }
    assert(url_scheme(url) =~= "http"@);
    assert(route_problem(name, routes[0].1) is None);
    assert(first_route_problem(routes, 1) is None);
    assert(first_route_problem(routes, 0) is None);
    assert(first_model_problem(c.models.entries(), routes, 0) is None);
}

/// Whether some route refers to the upstream secret `name`.
pub open spec fn is_referenced_secret(routes: Seq<(String, RouteConfig)>, name: Seq<char>) -> bool {
    exists|i: int|
        0 <= i < routes.len() && (#[trigger] routes[i].1.upstream_api_key matches Some(s) && s@ == name)
}

impl Config {
    /// The names of the upstream secrets the routes refer to, each once, in
    /// ascending order.
    pub fn referenced_upstream_secrets(&self) -> (r: Vec<String>)
        ensures
            forall|i: int, j: int| 0 <= i < j < r@.len() ==> crate::names::seq_lt(#[trigger] r@[i]@, #[trigger] r@[j]@),
            forall|name: Seq<char>|
                (exists|i: int| 0 <= i < r@.len() && #[trigger] r@[i]@ == name) <==> is_referenced_secret(
                    self.routes.entries(),
                    name,
                ),
    {
        let routes = self.routes.as_slice();
        let mut set: NameMap<()> = NameMap::new();
        let mut i: usize = 0;
        while i < routes.len()
            invariant
                routes@ == self.routes.entries(),
                i <= routes@.len(),
                forall|name: Seq<char>| #[trigger] set.has(name) <==> is_referenced_secret(routes@.take(i as int), name),
            decreases routes.len() - i,
        {
            let ghost before = set;
            match &routes[i].1.upstream_api_key {
                Some(name) => {
                    set.insert(name.clone(), ());
                },
                None => {},
            }
            proof {
                assert forall|name: Seq<char>| #[trigger] set.has(name) <==> is_referenced_secret(routes@.take(i + 1), name) by {
                    if is_referenced_secret(routes@.take(i + 1), name) {
                        let k = choose|k: int| 0 <= k < i + 1 && (#[trigger] routes@.take(i + 1)[k].1.upstream_api_key matches Some(s) && s@ == name);
                        if k < i {
                            assert(routes@.take(i as int)[k] == routes@[k]);
                        }
                    }
                    if is_referenced_secret(routes@.take(i as int), name) {
                        let k = choose|k: int| 0 <= k < i && (#[trigger] routes@.take(i as int)[k].1.upstream_api_key matches Some(s) && s@ == name);
                        assert(routes@.take(i + 1)[k] == routes@[k]);
                    }
                    if set.has(name) && !before.has(name) {
                        assert(routes@.take(i + 1)[i as int] == routes@[i as int]);
                    }
                }
            }
            i = i + 1;
        }
        assert(routes@.take(routes@.len() as int) =~= routes@);
        let entries = set.as_slice();
        let mut r: Vec<String> = Vec::new();
        let mut k: usize = 0;
        while k < entries.len()
            invariant
                entries@ == set.entries(),
                names_sorted(entries@),
                k <= entries@.len(),
                r@.len() == k,
                forall|m: int| 0 <= m < k ==> #[trigger] r@[m]@ == entries@[m].0@,
            decreases entries.len() - k,
        {
            r.push(entries[k].0.clone());
            k = k + 1;
        }
        proof {
            assert forall|i: int, j: int| 0 <= i < j < r@.len() implies crate::names::seq_lt(#[trigger] r@[i]@, #[trigger] r@[j]@) by {
                assert(crate::names::seq_lt(entries@[i].0@, entries@[j].0@));
            }
            assert forall|name: Seq<char>|
                (exists|i: int| 0 <= i < r@.len() && #[trigger] r@[i]@ == name) <==> is_referenced_secret(self.routes.entries(), name) by {
                if exists|i: int| 0 <= i < r@.len() && #[trigger] r@[i]@ == name {
                    let i = choose|i: int| 0 <= i < r@.len() && #[trigger] r@[i]@ == name;
                    assert(entries@[i].0@ == name);
                    assert(set.has(name));
                }
                if is_referenced_secret(self.routes.entries(), name) {
                    assert(set.has(name));
                    let i = choose|i: int| 0 <= i < entries@.len() && entries@[i].0@ == name;
                    assert(r@[i]@ == name);
                }
            }
        }
        r
    }
}

// ---------------------------------------------------------------- reload

/// Whether a secret named `name` is among the stored secret names.
pub open spec fn secret_stored(stored: Seq<String>, name: Seq<char>) -> bool {
    exists|i: int| 0 <= i < stored.len() && #[trigger] stored[i]@ == name
}

/// The first route, from position `i` on, that refers to an upstream secret
/// that is not stored, as the message that names it.
pub open spec fn first_missing_secret(
    routes: Seq<(String, RouteConfig)>,
    stored: Seq<String>,
    i: int,
) -> Option<Seq<char>>
    decreases routes.len() - i,
{
    if i < 0 || i >= routes.len() {
        None
    } else {
        match routes[i].1.upstream_api_key {
            Some(s) => if !secret_stored(stored, s@) {
                Some(
                    "route '"@ + routes[i].0@ + "' references missing upstream secret '"@ + s@
                        + "'"@,
                )
            } else {
                first_missing_secret(routes, stored, i + 1)
            },
            None => first_missing_secret(routes, stored, i + 1),
        }
    }
}

/// The reason a configuration is refused on reload, given the names of the
/// stored upstream secrets: a problem [`Config::validate`] finds, or else
/// the first route (in name order) whose secret is not stored.
pub open spec fn reload_problem(c: Config, stored: Seq<String>) -> Option<Seq<char>> {
    match config_problem(c) {
        Some(m) => Some(m),
        None => first_missing_secret(c.routes.entries(), stored, 0),
    }
}

/// With no missing secret from position `i` on, every secret those routes
/// refer to is stored.
proof fn lemma_no_missing_secret(routes: Seq<(String, RouteConfig)>, stored: Seq<String>, i: int)
    requires
        0 <= i,
        first_missing_secret(routes, stored, i) is None,
    ensures
        forall|j: int|
            i <= j < routes.len() ==> (#[trigger] routes[j].1.upstream_api_key matches Some(s)
                ==> secret_stored(stored, s@)),
    decreases routes.len() - i,
{
    if i < routes.len() {
        lemma_no_missing_secret(routes, stored, i + 1);
    }
}

/// Whether `name` is among the stored secret names.
fn is_stored(stored: &[String], name: &str) -> (r: bool)
    ensures
        r == secret_stored(stored@, name@),
{
    let mut i: usize = 0;
    while i < stored.len()
        invariant
            i <= stored@.len(),
            forall|k: int| 0 <= k < i ==> #[trigger] stored@[k]@ != name@,
        decreases stored.len() - i,
    {
        if str_eq(stored[i].as_str(), name) {
            return true;
        }
        i = i + 1;
    }
    false
}

impl Config {
    /// Checks a configuration that is to replace the running one: it must
    /// pass [`Config::validate`], and every upstream secret its routes refer
    /// to must be among `stored_secrets`, the names of the secrets stored.
    /// On refusal the error says why.
    pub fn validate_for_reload(&self, stored_secrets: &[String]) -> (r: Result<(), ConfigError>)
        ensures
            r is Ok <==> reload_problem(*self, stored_secrets@) is None,
            r matches Err(e) ==> (e matches ConfigError::Invalid(m) && m@ == reload_problem(
                *self,
                stored_secrets@,
            ).unwrap()),
            r is Ok ==> forall|name: Seq<char>|
                is_referenced_secret(self.routes.entries(), name) ==> secret_stored(
                    stored_secrets@,
                    name,
                ),
    {
        match self.validate() {
            Err(e) => return Err(e),
            Ok(()) => {},
        }
        let routes = self.routes.as_slice();
        let mut i: usize = 0;
        while i < routes.len()
            invariant
                routes@ == self.routes.entries(),
                config_problem(*self) is None,
                i <= routes@.len(),
                first_missing_secret(routes@, stored_secrets@, 0) == first_missing_secret(
                    routes@,
                    stored_secrets@,
                    i as int,
                ),
            decreases routes.len() - i,
        {
            match &routes[i].1.upstream_api_key {
                Some(secret) => {
                    if !is_stored(stored_secrets, secret.as_str()) {
                        let m = concat5(
                            "route '",
                            routes[i].0.as_str(),
                            "' references missing upstream secret '",
                            secret.as_str(),
                            "'",
                        );
                        return Err(ConfigError::Invalid(m));
                    }
                },
                None => {},
            }
            i = i + 1;
        }
        proof {
            lemma_no_missing_secret(routes@, stored_secrets@, 0);
            assert forall|name: Seq<char>|
                is_referenced_secret(self.routes.entries(), name) implies secret_stored(
                    stored_secrets@,
                    name,
                ) by {
                let j = choose|j: int|
                    0 <= j < routes@.len() && (#[trigger] routes@[j].1.upstream_api_key matches Some(
                        s,
                    ) && s@ == name);
                assert(routes@[j].1.upstream_api_key matches Some(s) ==> secret_stored(
                    stored_secrets@,
                    s@,
                ));
            }
        }
        Ok(())
    }
}

// ---------------------------------------------------------------- paths

/// Whether a path is absolute (on Unix: it starts at the root `/`).
pub open spec fn is_absolute(path: Seq<char>) -> bool {
    path.len() > 0 && path[0] == '/'
}

/// `base.join(path)` on Unix: an absolute `path` replaces `base`; otherwise
/// `path` is appended, after a `/` unless `base` is empty or ends with one.
pub open spec fn path_join(base: Seq<char>, path: Seq<char>) -> Seq<char> {
    if is_absolute(path) {
        path
    } else if base.len() == 0 || base.last() == '/' {
        base + path
    } else {
        base + seq!['/'] + path
    }
}

/// Whether `path` is absolute.
pub fn path_is_absolute(path: &str) -> (r: bool)
    ensures
        r == is_absolute(path@),
{
    let v = chars_of(path);
    v.len() > 0 && v[0] == '/'
}

/// `base` joined with `path`.
pub fn join_path(base: &str, path: &str) -> (r: String)
    ensures
        r@ == path_join(base@, path@),
{
    if path_is_absolute(path) {
        return path.to_owned();
    }
    let b = chars_of(base);
    let mut r = base.to_owned();
    if b.len() > 0 && b[b.len() - 1] != '/' {
        crate::text::push_char(&mut r, '/');
    }
    append_str(&mut r, path);
    assert(r@ =~= path_join(base@, path@));
    r
}

/// The path a configured `path` stands for when relative paths are read from
/// `base_dir`.
pub open spec fn resolved_path(base_dir: Seq<char>, path: Seq<char>) -> Seq<char> {
    if is_absolute(path) {
        path
    } else {
        path_join(base_dir, path)
    }
}

/// Resolves `path` against `base_dir`, keeping absolute paths as they are.
pub fn resolve_path_from_base(base_dir: &str, path: &str) -> (r: String)
    ensures
        r@ == resolved_path(base_dir@, path@),
{
    if path_is_absolute(path) {
        path.to_owned()
    } else {
        join_path(base_dir, path)
    }
}

// `Path::parent` of a path, displayed; `None` for the root and the empty path.
pub uninterp spec fn path_parent(path: Seq<char>) -> Option<Seq<char>>;

/// The directory that contains `path` (`Path::parent`, displayed).
#[verifier::external_body]
pub(crate) fn parent_dir(path: &str) -> (r: Option<String>)
    ensures
        r is Some == path_parent(path@) is Some,
        r matches Some(p) ==> p@ == path_parent(path@)->0,
{
    std::path::Path::new(path).parent().map(|p| p.to_string_lossy().into_owned())
}

/// The directory relative paths of the configuration file `config_path` are
/// read from: its parent, or `.`.
pub open spec fn config_base_dir(config_path: Seq<char>) -> Seq<char> {
    match path_parent(config_path) {
        Some(p) => p,
        None => "."@,
    }
}

impl Config {
    /// Resolves the database, payload directory and master key paths against
    /// the directory of the configuration file.
    pub fn resolve_relative_paths(&mut self, config_path: &str)
        ensures
            final(self).database@ == resolved_path(config_base_dir(config_path@), old(self).database@),
            final(self).payload_dir@ == resolved_path(config_base_dir(config_path@), old(self).payload_dir@),
            final(self).master_key@ == resolved_path(config_base_dir(config_path@), old(self).master_key@),
            final(self).proxy_listen == old(self).proxy_listen,
            final(self).admin_listen == old(self).admin_listen,
            final(self).default_route == old(self).default_route,
            final(self).routes == old(self).routes,
            final(self).models == old(self).models,
            final(self).payload_capture == old(self).payload_capture,
            final(self).logging == old(self).logging,
    {
        let base_dir = match parent_dir(config_path) {
            Some(p) => p,
            None => ".".to_owned(),
        };
        self.database = resolve_path_from_base(base_dir.as_str(), self.database.as_str());
        self.payload_dir = resolve_path_from_base(base_dir.as_str(), self.payload_dir.as_str());
        self.master_key = resolve_path_from_base(base_dir.as_str(), self.master_key.as_str());
    }
}

/// `config.json` beside the executable in `exe_dir`.
pub open spec fn neighbor_config(exe_dir: Seq<char>) -> Seq<char> {
    path_join(exe_dir, "config.json"@)
}

/// `~/.config/llm-proxy/config.json` for the home directory `home`.
pub open spec fn home_config(home: Seq<char>) -> Seq<char> {
    path_join(path_join(path_join(home, ".config"@), "llm-proxy"@), "config.json"@)
}

/// The configuration file beside the executable.
pub fn neighbor_config_path(exe_dir: &str) -> (r: String)
    ensures
        r@ == neighbor_config(exe_dir@),
{
    join_path(exe_dir, DEFAULT_CONFIG_FILE)
}

/// The configuration file in the user's configuration directory.
pub fn home_config_path(home: &str) -> (r: String)
    ensures
        r@ == home_config(home@),
{
    let a = join_path(home, ".config");
    let b = join_path(a.as_str(), "llm-proxy");
    join_path(b.as_str(), DEFAULT_CONFIG_FILE)
}

/// The configuration file to use when it is given explicitly: created when
/// it does not exist yet.
pub fn explicit_config_paths(path: &str, exists: bool) -> (r: ConfigPaths)
    ensures
        r.config@ == path@,
        r.created == !exists,
{
    ConfigPaths { config: path.to_owned(), created: !exists }
}

/// Chooses the configuration file when none is given: an existing
/// `config.json` beside the executable, else an existing
/// `~/.config/llm-proxy/config.json`, else a new one beside the executable
/// when its directory is writable, else a new one in the home directory.
pub fn config_path_from_dirs(
    exe_dir: &str,
    home: &str,
    neighbor_exists: bool,
    home_config_exists: bool,
    exe_dir_writable: bool,
) -> (r: ConfigPaths)
    ensures
        neighbor_exists ==> r.config@ == neighbor_config(exe_dir@) && !r.created,
        !neighbor_exists && home_config_exists ==> r.config@ == home_config(home@) && !r.created,
        !neighbor_exists && !home_config_exists && exe_dir_writable ==> r.config@ == neighbor_config(
            exe_dir@,
        ) && r.created,
        !neighbor_exists && !home_config_exists && !exe_dir_writable ==> r.config@ == home_config(
            home@,
        ) && r.created,
{
    let neighbor = neighbor_config_path(exe_dir);
    if neighbor_exists {
        return ConfigPaths { created: false, config: neighbor };
    }
    let config = home_config_path(home);
    if home_config_exists {
        return ConfigPaths { created: false, config };
    }
    if exe_dir_writable {
        return ConfigPaths { created: true, config: neighbor };
    }
    ConfigPaths { created: true, config }
}

} // verus!
