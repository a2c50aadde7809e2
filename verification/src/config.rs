//! Backend connection settings: Tauri IPC or an HTTP REST server.

use vstd::prelude::*;

verus! {

/// How the front end reaches its backend.
#[derive(Clone, Copy, Debug, PartialEq, Eq, Structural)]
pub enum BackendMode {
    /// Detected at start-up: Tauri when the Tauri runtime is present, HTTP otherwise.
    Auto,
    /// Tauri IPC commands.
    Tauri,
    /// HTTP REST API.
    Http,
}

impl Default for BackendMode {
    fn default() -> (r: Self)
        ensures
            r == BackendMode::Auto,
    {
        BackendMode::Auto
    }
}

/// Backend settings: the mode and, for HTTP, the server's base URL.
#[derive(Clone, Debug)]
pub struct BackendConfig {
    pub mode: BackendMode,
    /// Base URL of the API server, e.g. "http://localhost:7777"; empty means
    /// same-origin relative paths.
    pub http_base_url: String,
}

/// The default HTTP base URL: empty, i.e. relative "/api/..." paths served
/// through the development proxy.
pub fn default_base_url() -> (r: String)
    ensures
        r@.len() == 0,
{
    String::new()
}

impl Default for BackendConfig {
    fn default() -> (r: Self)
        ensures
            r.mode == BackendMode::Auto,
            r.http_base_url@.len() == 0,
    {
        BackendConfig { mode: BackendMode::Auto, http_base_url: default_base_url() }
    }
}

impl BackendConfig {
    /// A copy of the settings.
    pub fn duplicate(&self) -> (r: BackendConfig)
        ensures
            r.mode == self.mode,
            r.http_base_url@ == self.http_base_url@,
    {
        BackendConfig { mode: self.mode, http_base_url: self.http_base_url.clone() }
    }
}

/// The settings in force for the running front end: what was last set, or
/// the defaults before anything was.
pub struct ConfigStore {
    current: BackendConfig,
}

impl View for ConfigStore {
    type V = (BackendMode, Seq<char>);

    closed spec fn view(&self) -> (BackendMode, Seq<char>) {
        (self.current.mode, self.current.http_base_url@)
    }
}

impl ConfigStore {
    /// A store holding the default settings.
    pub fn new() -> (r: ConfigStore)
        ensures
            r@ == (BackendMode::Auto, Seq::<char>::empty()),
    {
        let r = ConfigStore { current: BackendConfig::default() };
        proof {
            assert(r@.1 =~= Seq::<char>::empty());
        }
        r
    }

    /// The settings in force.
    pub fn get_config(&self) -> (r: BackendConfig)
        ensures
            (r.mode, r.http_base_url@) == self@,
    {
        self.current.duplicate()
    }

    /// Puts `config` in force: a later `get_config` gives back its mode and
    /// base URL, whatever was in force before.
    pub fn set_config(&mut self, config: BackendConfig)
        ensures
            final(self)@ == (config.mode, config.http_base_url@),
    {
        self.current = config;
    }
}

/// The mode actually used: `Auto` resolves to `Tauri` when the Tauri runtime
/// was detected (`tauri_env`) and to `Http` otherwise; other modes stay.
pub fn effective_mode(cfg: &BackendConfig, tauri_env: bool) -> (r: BackendMode)
    ensures
        r == (match cfg.mode {
            BackendMode::Auto => if tauri_env {
                BackendMode::Tauri
            } else {
                BackendMode::Http
            },
            m => m,
        }),
        r != BackendMode::Auto,
{
    match cfg.mode {
        BackendMode::Auto => {
            if tauri_env {
                BackendMode::Tauri
            } else {
                BackendMode::Http
            }
        },
        m => m,
    }
}

/// `s` without any trailing `c` characters.
pub open spec fn strip_trailing(s: Seq<char>, c: char) -> Seq<char>
    decreases s.len(),
{
    if s.len() > 0 && s.last() == c {
        strip_trailing(s.drop_last(), c)
    } else {
        s
    }
}

proof fn lemma_strip_trailing_take(t: Seq<char>, c: char, k: int)
    requires
        0 <= k <= t.len(),
        forall|i: int| k <= i < t.len() ==> #[trigger] t[i] == c,
    ensures
        strip_trailing(t, c) == strip_trailing(t.take(k), c),
    decreases t.len() - k,
{
    if k == t.len() {
        assert(t.take(k) =~= t);
    } else {
        lemma_strip_trailing_take(t, c, k + 1);
        assert(t.take(k + 1).last() == t[k]);
        assert(t.take(k + 1).drop_last() =~= t.take(k));
    }
}

/// The text without all its trailing slashes (what
/// `str::trim_end_matches('/')` gives).
fn trim_trailing_slashes(s: &str) -> (r: &str)
    ensures
        r@ == strip_trailing(s@, '/'),
{
    let n = s.unicode_len();
    let mut b: usize = n;
    while b > 0 && s.get_char(b - 1) == '/'
        invariant
            n == s@.len(),
            b <= n,
            forall|i: int| b <= i < n ==> #[trigger] s@[i] == '/',
        decreases b,
    {
        b = b - 1;
    }
    proof {
        lemma_strip_trailing_take(s@, '/', b as int);
        assert(s@.take(b as int) =~= s@.subrange(0, b as int));
    }
    s.substring_char(0, b)
}

/// URL of an API path (such as "/tracks") for the HTTP backend.
pub open spec fn http_url_spec(base: Seq<char>, path: Seq<char>) -> Seq<char> {
    if base.len() == 0 {
        "/api"@ + path
    } else {
        strip_trailing(base, '/') + "/api"@ + path
    }
}

/// URL of an API path for the HTTP backend: a same-origin "/api{path}" when no
/// base URL is set, otherwise "{base}/api{path}" with the base's trailing
/// slashes removed.
pub fn http_url(cfg: &BackendConfig, path: &str) -> (r: String)
    ensures
        r@ == http_url_spec(cfg.http_base_url@, path@),
{
    if cfg.http_base_url.as_str().unicode_len() == 0 {
        let mut s = String::from_str("/api");
        s.append(path);
        s
    } else {
        let mut s = String::from_str(trim_trailing_slashes(cfg.http_base_url.as_str()));
        s.append("/api");
        s.append(path);
        s
    }
}

} // verus!
