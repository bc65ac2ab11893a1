//! Execution platforms and the configuration of each.

use vstd::prelude::*;
use crate::namemap::NameMap;

verus! {

/// Execution platform for workflows.
#[derive(Debug, Clone, Copy, PartialEq, Eq, Structural, Hash)]
pub enum Platform {
    /// Browser automation (the default).
    Playwright,
    /// Node.js function calls.
    Nodejs,
    /// Rust function calls through a separate process.
    Rust,
    /// Python function calls through a separate process.
    Python,
    /// Java method calls through a separate process.
    Java,
    /// Go function calls through a separate process.
    Go,
    /// HTTP requests made by the runner itself.
    Web,
}

impl Default for Platform {
    fn default() -> (p: Self)
        ensures
            p == Platform::Playwright,
    {
        Platform::Playwright
    }
}

/// Browsers that the browser platform can drive.
#[derive(Debug, Clone, Copy, PartialEq, Eq, Structural)]
pub enum BrowserType {
    Chromium,
    Firefox,
    Webkit,
}

impl Default for BrowserType {
    fn default() -> (b: Self)
        ensures
            b == BrowserType::Chromium,
    {
        BrowserType::Chromium
    }
}

/// Viewport of a browser page. The scale factor is kept as decimal text.
#[derive(Debug, Clone)]
pub struct Viewport {
    pub width: u32,
    pub height: u32,
    pub device_scale_factor: Option<String>,
    pub is_mobile: bool,
}

/// Whether browsers run headless when nothing says otherwise.
pub fn default_headless() -> (b: bool)
    ensures
        b,
{
    true
}

/// Browser automation settings.
#[derive(Debug, Clone)]
pub struct PlaywrightConfig {
    pub browser: BrowserType,
    pub headless: bool,
    pub viewport: Option<Viewport>,
    /// Default timeout in milliseconds.
    pub timeout: Option<u64>,
}

impl Default for PlaywrightConfig {
    fn default() -> (c: Self)
        ensures
            c.browser == BrowserType::Chromium,
            !c.headless,
            c.viewport is None,
            c.timeout is None,
    {
        PlaywrightConfig {
            browser: BrowserType::Chromium,
            headless: false,
            viewport: None,
            timeout: None,
        }
    }
}

/// Names of the lifecycle hooks that a bridge calls inside its registry.
#[derive(Debug, Clone)]
pub struct NodejsHooksConfig {
    pub before_all: Option<String>,
    pub after_all: Option<String>,
    pub before_each: Option<String>,
    pub after_each: Option<String>,
}

impl Default for NodejsHooksConfig {
    fn default() -> (h: Self)
        ensures
            h.before_all is None,
            h.after_all is None,
            h.before_each is None,
            h.after_each is None,
    {
        NodejsHooksConfig { before_all: None, after_all: None, before_each: None, after_each: None }
    }
}

/// Node.js bridge settings.
#[derive(Debug, Clone)]
pub struct NodejsConfig {
    /// Path to the registry file that exports the callable functions.
    pub registry: String,
    pub working_dir: Option<String>,
    pub env_file: Option<String>,
    /// Run the registry through the TypeScript loader.
    pub typescript: bool,
    pub hooks: NodejsHooksConfig,
}

/// Lifecycle hooks of the Rust bridge.
#[derive(Debug, Clone)]
pub struct RustHooksConfig {
    pub before_all: Option<String>,
    pub after_all: Option<String>,
    pub before_each: Option<String>,
    pub after_each: Option<String>,
}

impl Default for RustHooksConfig {
    fn default() -> (h: Self)
        ensures
            h.before_all is None,
            h.after_all is None,
            h.before_each is None,
            h.after_each is None,
    {
        RustHooksConfig { before_all: None, after_all: None, before_each: None, after_each: None }
    }
}

/// Rust bridge settings.
#[derive(Debug, Clone)]
pub struct RustConfig {
    /// Path to the compiled registry binary.
    pub binary: Option<String>,
    /// Or the name of a binary target to build and run.
    pub cargo_bin: Option<String>,
    pub working_dir: Option<String>,
    pub env: NameMap<String>,
    pub hooks: RustHooksConfig,
}

/// Lifecycle hooks of the Python bridge.
#[derive(Debug, Clone)]
pub struct PythonHooksConfig {
    pub before_all: Option<String>,
    pub after_all: Option<String>,
    pub before_each: Option<String>,
    pub after_each: Option<String>,
}

impl Default for PythonHooksConfig {
    fn default() -> (h: Self)
        ensures
            h.before_all is None,
            h.after_all is None,
            h.before_each is None,
            h.after_each is None,
    {
        PythonHooksConfig { before_all: None, after_all: None, before_each: None, after_each: None }
    }
}

/// The interpreter used when a Python configuration names none.
pub fn default_python_interpreter() -> (s: String)
    ensures
        s@ == "python3"@,
{
    "python3".to_string()
}

/// Python bridge settings.
#[derive(Debug, Clone)]
pub struct PythonConfig {
    /// Path to the registry script.
    pub script: String,
    pub interpreter: String,
    pub working_dir: Option<String>,
    /// Virtual environment to run the interpreter from.
    pub venv: Option<String>,
    pub env: NameMap<String>,
    pub hooks: PythonHooksConfig,
}

/// Lifecycle hooks of the Java bridge.
#[derive(Debug, Clone)]
pub struct JavaHooksConfig {
    pub before_all: Option<String>,
    pub after_all: Option<String>,
    pub before_each: Option<String>,
    pub after_each: Option<String>,
}

impl Default for JavaHooksConfig {
    fn default() -> (h: Self)
        ensures
            h.before_all is None,
            h.after_all is None,
            h.before_each is None,
            h.after_each is None,
    {
        JavaHooksConfig { before_all: None, after_all: None, before_each: None, after_each: None }
    }
}

/// The Java launcher used when a configuration names none.
pub fn default_java_executable() -> (s: String)
    ensures
        s@ == "java"@,
{
    "java".to_string()
}

/// Java bridge settings.
#[derive(Debug, Clone)]
pub struct JavaConfig {
    pub jar: Option<String>,
    /// Main class of the registry.
    pub main_class: String,
    pub classpath: Vec<String>,
    pub java_home: String,
    pub jvm_args: Vec<String>,
    pub working_dir: Option<String>,
    pub env: NameMap<String>,
    pub hooks: JavaHooksConfig,
}

/// Lifecycle hooks of the Go bridge.
#[derive(Debug, Clone)]
pub struct GoHooksConfig {
    pub before_all: Option<String>,
    pub after_all: Option<String>,
    pub before_each: Option<String>,
    pub after_each: Option<String>,
}

impl Default for GoHooksConfig {
    fn default() -> (h: Self)
        ensures
            h.before_all is None,
            h.after_all is None,
            h.before_each is None,
            h.after_each is None,
    {
        GoHooksConfig { before_all: None, after_all: None, before_each: None, after_each: None }
    }
}

/// Go bridge settings.
#[derive(Debug, Clone)]
pub struct GoConfig {
    /// Path to the compiled registry binary.
    pub binary: Option<String>,
    /// Or a source file to run with the toolchain.
    pub go_run: Option<String>,
    /// Or a package to compile first and then run.
    pub go_build: Option<String>,
    pub working_dir: Option<String>,
    pub env: NameMap<String>,
    pub hooks: GoHooksConfig,
}

/// How HTTP requests authenticate.
#[derive(Debug, Clone)]
pub enum WebAuthConfig {
    Bearer { token: String },
    Basic { username: String, password: String },
    ApiKey { header: String, key: String },
    /// Accepted in configurations; the HTTP bridge does not apply it.
    OAuth2 { token_url: String, client_id: String, client_secret: String, scope: Option<String> },
}

/// Retry policy of the HTTP bridge.
#[derive(Debug, Clone)]
pub struct WebRetryConfig {
    pub max_attempts: u32,
    /// Delay before the first retry, in milliseconds.
    pub initial_delay: u64,
    /// Upper bound of the delay, in milliseconds.
    pub max_delay: u64,
    /// Response statuses that ask for another attempt.
    pub retry_on_status: Vec<u16>,
}

/// Request timeout in milliseconds when a configuration names none.
pub fn default_web_timeout() -> (t: u64)
    ensures
        t == 30000,
{
    30000
}

/// Whether redirects are followed when a configuration does not say.
pub fn default_follow_redirects() -> (b: bool)
    ensures
        b,
{
    true
}

/// Whether certificates are validated when a configuration does not say.
pub fn default_validate_ssl() -> (b: bool)
    ensures
        b,
{
    true
}

/// Attempts made when a retry policy names no number.
pub fn default_max_retries() -> (n: u32)
    ensures
        n == 3,
{
    3
}

/// First retry delay in milliseconds when a policy names none.
pub fn default_retry_initial_delay() -> (d: u64)
    ensures
        d == 1000,
{
    1000
}

/// Largest retry delay in milliseconds when a policy names none.
pub fn default_retry_max_delay() -> (d: u64)
    ensures
        d == 10000,
{
    10000
}

/// Statuses retried when a policy names none.
pub fn default_retry_status_codes() -> (v: Vec<u16>)
    ensures
        v@ == seq![429u16, 500u16, 502u16, 503u16, 504u16],
{
    let mut v: Vec<u16> = Vec::new();
    v.push(429);
    v.push(500);
    v.push(502);
    v.push(503);
    v.push(504);
    v
}

/// HTTP bridge settings.
#[derive(Debug, Clone)]
pub struct WebConfig {
    pub base_url: String,
    /// Headers sent with every request.
    pub headers: NameMap<String>,
    /// Timeout in milliseconds.
    pub timeout: u64,
    pub auth: Option<WebAuthConfig>,
    pub retry: Option<WebRetryConfig>,
    pub follow_redirects: bool,
    pub validate_ssl: bool,
}

/// `platform` alone where `present` holds, else nothing.
pub open spec fn listed(present: bool, platform: Platform) -> Seq<Platform> {
    if present {
        seq![platform]
    } else {
        Seq::empty()
    }
}

/// One optional configuration per platform.
#[derive(Debug, Clone)]
pub struct PlatformsConfig {
    pub playwright: Option<PlaywrightConfig>,
    pub nodejs: Option<NodejsConfig>,
    pub rust: Option<RustConfig>,
    pub python: Option<PythonConfig>,
    pub java: Option<JavaConfig>,
    pub go: Option<GoConfig>,
    pub web: Option<WebConfig>,
}

impl Default for PlatformsConfig {
    fn default() -> (c: Self)
        ensures
            c == PlatformsConfig::default_spec(),
            c.configured() == Seq::<Platform>::empty(),
    {
        let c = PlatformsConfig {
            playwright: None,
            nodejs: None,
            rust: None,
            python: None,
            java: None,
            go: None,
            web: None,
        };
        assert(c.configured() =~= Seq::<Platform>::empty());
        c
    }
}

impl PlatformsConfig {
    /// No platform configured.
    pub open spec fn default_spec() -> PlatformsConfig {
        PlatformsConfig {
            playwright: None,
            nodejs: None,
            rust: None,
            python: None,
            java: None,
            go: None,
            web: None,
        }
    }

    /// Whether `platform` has a configuration.
    pub open spec fn has(&self, platform: Platform) -> bool {
        match platform {
            Platform::Playwright => self.playwright is Some,
            Platform::Nodejs => self.nodejs is Some,
            Platform::Rust => self.rust is Some,
            Platform::Python => self.python is Some,
            Platform::Java => self.java is Some,
            Platform::Go => self.go is Some,
            Platform::Web => self.web is Some,
        }
    }

    /// The configured platforms, in the fixed order of the platform list.
    pub open spec fn configured(&self) -> Seq<Platform> {
        listed(self.has(Platform::Playwright), Platform::Playwright) + listed(
            self.has(Platform::Nodejs),
            Platform::Nodejs,
        ) + listed(self.has(Platform::Rust), Platform::Rust) + listed(
            self.has(Platform::Python),
            Platform::Python,
        ) + listed(self.has(Platform::Java), Platform::Java) + listed(
            self.has(Platform::Go),
            Platform::Go,
        ) + listed(self.has(Platform::Web), Platform::Web)
    }

    /// Whether `platform` has a configuration.
    pub fn has_platform(&self, platform: &Platform) -> (b: bool)
        ensures
            b == self.has(*platform),
    {
        match platform {
            Platform::Playwright => self.playwright.is_some(),
            Platform::Nodejs => self.nodejs.is_some(),
            Platform::Rust => self.rust.is_some(),
            Platform::Python => self.python.is_some(),
            Platform::Java => self.java.is_some(),
            Platform::Go => self.go.is_some(),
            Platform::Web => self.web.is_some(),
        }
    }

    /// The configured platforms, in the fixed order of the platform list.
    pub fn configured_platforms(&self) -> (v: Vec<Platform>)
        ensures
            v@ == self.configured(),
    {
        let mut v: Vec<Platform> = Vec::new();
        if self.playwright.is_some() {
            v.push(Platform::Playwright);
        }
        if self.nodejs.is_some() {
            v.push(Platform::Nodejs);
        }
        if self.rust.is_some() {
            v.push(Platform::Rust);
        }
        if self.python.is_some() {
            v.push(Platform::Python);
        }
        if self.java.is_some() {
            v.push(Platform::Java);
        }
        if self.go.is_some() {
            v.push(Platform::Go);
        }
        if self.web.is_some() {
            v.push(Platform::Web);
        }
        assert(v@ =~= self.configured());
        v
    }

    /// Whether no platform is configured.
    pub fn is_empty(&self) -> (b: bool)
        ensures
            b == (forall|p: Platform| !self.has(p)),
    {
        let b = self.playwright.is_none() && self.nodejs.is_none() && self.rust.is_none()
            && self.python.is_none() && self.java.is_none() && self.go.is_none()
            && self.web.is_none();
        proof {
            if !b {
                assert(self.has(Platform::Playwright) || self.has(Platform::Nodejs) || self.has(
                    Platform::Rust,
                ) || self.has(Platform::Python) || self.has(Platform::Java) || self.has(
                    Platform::Go,
                ) || self.has(Platform::Web));
            }
        }
        b
    }
}

} // verus!
