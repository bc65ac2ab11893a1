//! The HTTP bridge: how a request is put together, when it is tried
//! again, and what its response is.

use vstd::prelude::*;
use crate::error::BridgeError;
use crate::json::{JsonTree, JsonValue};
use crate::mock_clock::Duration;
use crate::namemap::NameMap;
use crate::platform::{WebAuthConfig, WebConfig, WebRetryConfig};
use crate::result::ApiResponse;
use crate::text::{
    decimal, decimal_text, from_chars, is_char, is_word, join2, slice_chars, strip_end, to_chars,
    upper_case, upper_text,
};

verus! {

/// A request as a step describes it.
#[derive(Debug, Clone)]
pub struct WebRequest {
    pub method: String,
    pub path: String,
    pub headers: Option<NameMap<String>>,
    pub body: Option<JsonValue>,
    pub query: Option<NameMap<String>>,
}

/// The response to a request.
#[derive(Debug, Clone)]
pub struct WebResponse {
    pub status: u16,
    pub headers: NameMap<String>,
    /// The body: JSON where it reads as JSON, else its text; null where
    /// it is empty.
    pub body: JsonValue,
    pub elapsed_ms: u64,
}

impl WebResponse {
    /// The response as an action hands it on.
    pub fn to_api_response(&self) -> (r: ApiResponse)
        ensures
            r.status == self.status,
            r.body@ == self.body@,
            crate::namemap::as_text(r.headers@) == crate::namemap::as_text(self.headers@),
    {
        ApiResponse { status: self.status, headers: self.headers.copy(), body: self.body.clone() }
    }

    /// Whether the status is a success: 200 to 299.
    pub fn is_success(&self) -> (b: bool)
        ensures
            b == (200 <= self.status < 300),
    {
        self.status >= 200 && self.status < 300
    }

    /// Whether the status is an error of the client: 400 to 499.
    pub fn is_client_error(&self) -> (b: bool)
        ensures
            b == (400 <= self.status < 500),
    {
        self.status >= 400 && self.status < 500
    }

    /// Whether the status is an error of the server: 500 and above.
    pub fn is_server_error(&self) -> (b: bool)
        ensures
            b == (self.status >= 500),
    {
        self.status >= 500
    }
}

/// The body of a response: null where the text is empty; the JSON that
/// the text reads as, which `parsed` holds; else the text itself.
pub fn body_value(text: String, parsed: Option<JsonValue>) -> (body: JsonValue)
    ensures
        body@ == if text@.len() == 0 {
            JsonTree::Null
        } else {
            match parsed {
                Some(value) => value@,
                None => JsonTree::Text(text@),
            }
        },
{
    if text.as_str().unicode_len() == 0 {
        JsonValue::Null
    } else {
        match parsed {
            Some(value) => value,
            None => JsonValue::Text(text),
        }
    }
}

/// The address of `path` under `base`: `base` without the slashes at its
/// end, then `path`, with a slash before it where it begins with none.
pub open spec fn joined_url(base: Seq<char>, path: Seq<char>) -> Seq<char> {
    strip_end(base, is_char('/')) + if path.len() > 0 && path[0] == '/' {
        path
    } else {
        seq!['/'] + path
    }
}

/// Two to the power of `n`.
pub open spec fn pow2(n: nat) -> nat
    decreases n,
{
    if n == 0 {
        1
    } else {
        2 * pow2((n - 1) as nat)
    }
}

/// The delay before attempt `attempt` under a retry policy, in
/// milliseconds: the initial delay doubled with every attempt after the
/// first retry, and no more than the largest delay.
pub open spec fn retry_delay(retry: WebRetryConfig, attempt: nat) -> nat {
    let exponent: nat = if attempt == 0 {
        0
    } else {
        (attempt - 1) as nat
    };
    let raw = retry.initial_delay * pow2(exponent);
    if raw <= retry.max_delay {
        raw as nat
    } else {
        retry.max_delay as nat
    }
}

/// Whether the policy asks for another attempt after `status` came back
/// to attempt `attempt`, counted from 0.
pub open spec fn retries(retry: Option<WebRetryConfig>, status: u16, attempt: u32) -> bool {
    match retry {
        Some(r) => attempt < r.max_attempts && r.retry_on_status@.contains(status),
        None => false,
    }
}

/// How a request authenticates.
#[derive(Debug, Clone)]
pub enum AuthPlan {
    /// Nothing is added.
    Nothing,
    /// A header is added.
    Header { name: String, value: String },
    /// Basic authentication with a user name and a password.
    Basic { username: String, password: String },
}

/// The HTTP bridge. It runs inside the engine, without a process of its
/// own.
#[derive(Debug)]
pub struct WebBridge {
    config: WebConfig,
}

impl WebBridge {
    /// The configuration of the bridge.
    pub closed spec fn config(&self) -> WebConfig {
        self.config
    }

    /// A bridge for `config`.
    pub fn new(config: WebConfig) -> (bridge: Self)
        ensures
            bridge.config() == config,
    {
        WebBridge { config }
    }

    /// The request that reads `path`.
    pub fn get(
        &self,
        path: &str,
        headers: Option<NameMap<String>>,
        query: Option<NameMap<String>>,
    ) -> (request: WebRequest)
        ensures
            request.method@ == "GET"@,
            request.path@ == path@,
            request.body is None,
            request.headers == headers,
            request.query == query,
    {
        self.request("GET", path, None, headers, query)
    }

    /// The request that posts `body` to `path`.
    pub fn post(&self, path: &str, body: Option<JsonValue>, headers: Option<NameMap<String>>) -> (request:
        WebRequest)
        ensures
            request.method@ == "POST"@,
            request.path@ == path@,
            request.body == body,
            request.headers == headers,
            request.query is None,
    {
        self.request("POST", path, body, headers, None)
    }

    /// The request that puts `body` at `path`.
    pub fn put(&self, path: &str, body: Option<JsonValue>, headers: Option<NameMap<String>>) -> (request:
        WebRequest)
        ensures
            request.method@ == "PUT"@,
            request.path@ == path@,
            request.body == body,
            request.headers == headers,
            request.query is None,
    {
        self.request("PUT", path, body, headers, None)
    }

    /// The request that patches what is at `path` with `body`.
    pub fn patch(&self, path: &str, body: Option<JsonValue>, headers: Option<NameMap<String>>) -> (request:
        WebRequest)
        ensures
            request.method@ == "PATCH"@,
            request.path@ == path@,
            request.body == body,
            request.headers == headers,
            request.query is None,
    {
        self.request("PATCH", path, body, headers, None)
    }

    /// The request that deletes what is at `path`.
    pub fn delete(&self, path: &str, headers: Option<NameMap<String>>) -> (request: WebRequest)
        ensures
            request.method@ == "DELETE"@,
            request.path@ == path@,
            request.body is None,
            request.headers == headers,
            request.query is None,
    {
        self.request("DELETE", path, None, headers, None)
    }

    /// The request with the method `method` on `path`. Whether the
    /// method is one that the bridge knows is looked at when the request
    /// is sent.
    pub fn request(
        &self,
        method: &str,
        path: &str,
        body: Option<JsonValue>,
        headers: Option<NameMap<String>>,
        query: Option<NameMap<String>>,
    ) -> (request: WebRequest)
        ensures
            request.method@ == method@,
            request.path@ == path@,
            request.body == body,
            request.headers == headers,
            request.query == query,
    {
        WebRequest { method: method.to_string(), path: path.to_string(), headers, body, query }
    }

    /// The configuration of the bridge.
    pub fn settings(&self) -> (config: &WebConfig)
        ensures
            *config == self.config(),
    {
        &self.config
    }

    /// The address of `path`.
    pub fn build_url(&self, path: &str) -> (url: String)
        ensures
            url@ == joined_url(self.config().base_url@, path@),
    {
        let base = to_chars(self.config.base_url.as_str());
        let mut end: usize = base.len();
        while end > 0 && base[end - 1] == '/'
            invariant
                end <= base.len(),
                forall|i: int| end <= i < base.len() ==> #[trigger] base[i] == '/',
            decreases end,
        {
            end = end - 1;
        }
        proof {
            lemma_strip_end(base@, '/', end as int);
        }
        let mut url = slice_chars(&base, 0, end);
        assert(url@ == base@.take(end as int));
        let p = to_chars(path);
        if !(p.len() > 0 && p[0] == '/') {
            url.push('/');
        }
        let mut rest = p;
        let ghost rest_view = rest@;
        url.append(&mut rest);
        proof {
            assert(url@ =~= joined_url(self.config().base_url@, path@));
        }
        from_chars(&url)
    }

    /// Whether another attempt follows after `status` came back to
    /// attempt `attempt`.
    pub fn should_retry(&self, status: u16, attempt: u32) -> (b: bool)
        ensures
            b == retries(self.config().retry, status, attempt),
    {
        match &self.config.retry {
            Some(retry) => {
                if attempt >= retry.max_attempts {
                    return false;
                }
                let mut i: usize = 0;
                while i < retry.retry_on_status.len()
                    invariant
                        i <= retry.retry_on_status.len(),
                        attempt < retry.max_attempts,
                        self.config().retry == Some(*retry),
                        forall|j: int| 0 <= j < i ==> retry.retry_on_status[j] != status,
                    decreases retry.retry_on_status.len() - i,
                {
                    if retry.retry_on_status[i] == status {
                        assert(retry.retry_on_status@[i as int] == status);
                        return true;
                    }
                    i = i + 1;
                }
                false
            },
            None => false,
        }
    }

    /// The delay before attempt `attempt`: that of the policy, or a second
    /// where there is no policy.
    pub fn get_retry_delay(&self, attempt: u32) -> (d: Duration)
        ensures
            d@ == match self.config().retry {
                Some(retry) => retry_delay(retry, attempt as nat) * 1_000_000,
                None => 1_000_000_000,
            },
    {
        match &self.config.retry {
            None => Duration::from_millis(1000),
            Some(retry) => {
                let exponent: u32 = if attempt == 0 {
                    0
                } else {
                    attempt - 1
                };
                if retry.initial_delay == 0 {
                    assert(retry.initial_delay * pow2(exponent as nat) == 0) by (nonlinear_arith)
                        requires
                            retry.initial_delay == 0,
                    ;
                    return Duration::from_millis(0);
                }
                let ghost start = retry.initial_delay as int;
                let ghost cap = retry.max_delay as int;
                let mut delay: u64 = retry.initial_delay;
                let mut k: u32 = 0;
                let mut capped = false;
                proof {
                    reveal_with_fuel(pow2, 2);
                    assert(pow2(0) == 1);
                    assert(start * pow2(0) == start) by (nonlinear_arith)
                        requires
                            pow2(0) == 1,
                    ;
                }
                while k < exponent && !capped
                    invariant
                        k <= exponent,
                        start == retry.initial_delay,
                        cap == retry.max_delay,
                        start > 0,
                        capped ==> start * pow2(k as nat) > cap,
                        !capped ==> delay == start * pow2(k as nat),
                    decreases exponent - k + if capped { 0int } else { 1int },
                {
                    proof {
                        reveal_with_fuel(pow2, 2);
                        assert(start * pow2((k + 1) as nat) == 2 * (start * pow2(k as nat)))
                            by (nonlinear_arith)
                            requires
                                pow2((k + 1) as nat) == 2 * pow2(k as nat),
                        ;
                    }
                    if delay > retry.max_delay {
                        capped = true;
                    } else if delay > u64::MAX / 2 {
                        k = k + 1;
                        capped = true;
                    } else {
                        delay = delay * 2;
                        k = k + 1;
                    }
                }
                proof {
                    lemma_pow2_grows(start, k as nat, exponent as nat);
                }
                if capped || delay > retry.max_delay {
                    Duration::from_millis(retry.max_delay)
                } else {
                    Duration::from_millis(delay)
                }
            },
        }
    }

    /// How a request authenticates: a bearer token and an API key go into
    /// a header, basic authentication is left to the client, and OAuth2
    /// adds nothing.
    pub fn auth_plan(&self) -> (plan: AuthPlan)
        ensures
            match self.config().auth {
                Some(WebAuthConfig::Bearer { token }) => plan matches AuthPlan::Header {
                    name,
                    value,
                } && name@ == "Authorization"@ && value@ == "Bearer "@ + token@,
                Some(WebAuthConfig::Basic { username, password }) => plan matches AuthPlan::Basic {
                    username: u,
                    password: p,
                } && u@ == username@ && p@ == password@,
                Some(WebAuthConfig::ApiKey { header, key }) => plan matches AuthPlan::Header {
                    name,
                    value,
                } && name@ == header@ && value@ == key@,
                Some(WebAuthConfig::OAuth2 { .. }) => plan is Nothing,
                None => plan is Nothing,
            },
    {
        match &self.config.auth {
            Some(WebAuthConfig::Bearer { token }) => AuthPlan::Header {
                name: "Authorization".to_string(),
                value: join2("Bearer ", token.as_str()),
            },
            Some(WebAuthConfig::Basic { username, password }) => AuthPlan::Basic {
                username: username.clone(),
                password: password.clone(),
            },
            Some(WebAuthConfig::ApiKey { header, key }) => AuthPlan::Header {
                name: header.clone(),
                value: key.clone(),
            },
            Some(WebAuthConfig::OAuth2 { .. }) => AuthPlan::Nothing,
            None => AuthPlan::Nothing,
        }
    }

    /// The headers of a request in the order in which they are applied:
    /// those of the configuration first, then those of the call.
    pub fn layered_headers(&self, extra: Option<&NameMap<String>>) -> (headers: Vec<
        (String, String),
    >)
        ensures
            headers.len() == self.config().headers.pairs().len() + match extra {
                Some(more) => more.pairs().len(),
                None => 0,
            },
            forall|i: int|
                0 <= i < self.config().headers.pairs().len() ==> (#[trigger] headers[i]).0@
                    == self.config().headers.pairs()[i].0 && headers[i].1@
                    == self.config().headers.pairs()[i].1@,
            extra matches Some(more) ==> forall|i: int|
                0 <= i < more.pairs().len() ==> (#[trigger] headers[self.config().headers.pairs().len()
                    + i]).0@ == more.pairs()[i].0 && headers[self.config().headers.pairs().len()
                    + i].1@ == more.pairs()[i].1@,
    {
        let mut headers: Vec<(String, String)> = Vec::new();
        let n = self.config.headers.len();
        let mut i: usize = 0;
        while i < n
            invariant
                i <= n,
                n == self.config.headers.pairs().len(),
                headers.len() == i,
                forall|j: int|
                    0 <= j < i ==> (#[trigger] headers[j]).0@ == self.config.headers.pairs()[j].0
                        && headers[j].1@ == self.config.headers.pairs()[j].1@,
            decreases n - i,
        {
            headers.push(
                (self.config.headers.name_at(i).clone(), self.config.headers.value_at(i).clone()),
            );
            i = i + 1;
        }
        if let Some(more) = extra {
            let m = more.len();
            let mut k: usize = 0;
            while k < m
                invariant
                    k <= m,
                    m == more.pairs().len(),
                    n == self.config.headers.pairs().len(),
                    headers.len() == n + k,
                    forall|j: int|
                        0 <= j < n ==> (#[trigger] headers[j]).0@ == self.config.headers.pairs()[j].0
                            && headers[j].1@ == self.config.headers.pairs()[j].1@,
                    forall|j: int|
                        0 <= j < k ==> (#[trigger] headers[n + j]).0@ == more.pairs()[j].0
                            && headers[n + j].1@ == more.pairs()[j].1@,
                decreases m - k,
            {
                headers.push((more.name_at(k).clone(), more.value_at(k).clone()));
                k = k + 1;
            }
        }
        headers
    }
}

proof fn lemma_strip_end(s: Seq<char>, c: char, b: int)
    requires
        0 <= b <= s.len(),
        forall|i: int| b <= i < s.len() ==> #[trigger] s[i] == c,
        b > 0 ==> s[b - 1] != c,
    ensures
        strip_end(s, is_char(c)) == s.take(b),
    decreases s.len() - b,
{
    if b == s.len() {
        assert(s.take(b) == s);
    } else {
        let rest = s.drop_last();
        assert(s[s.len() - 1] == c);
        assert forall|i: int| b <= i < rest.len() implies #[trigger] rest[i] == c by {
            assert(rest[i] == s[i]);
        }
        lemma_strip_end(rest, c, b);
        assert(rest.take(b) == s.take(b));
    }
}

proof fn lemma_pow2_grows(start: int, k: nat, n: nat)
    requires
        k <= n,
        start >= 0,
    ensures
        start * pow2(k) <= start * pow2(n),
        pow2(k) > 0,
    decreases n - k,
{
    if k < n {
        lemma_pow2_grows(start, k + 1, n);
        reveal_with_fuel(pow2, 2);
        assert(start * pow2(k) <= start * pow2(k + 1)) by (nonlinear_arith)
            requires
                pow2(k + 1) == 2 * pow2(k),
                start >= 0,
                pow2(k) >= 0,
        ;
    } else {
        lemma_pow2_positive(k);
    }
    lemma_pow2_positive(k);
}

proof fn lemma_pow2_positive(k: nat)
    ensures
        pow2(k) > 0,
    decreases k,
{
    if k > 0 {
        lemma_pow2_positive((k - 1) as nat);
    }
}

/// The methods that the bridge knows.
#[derive(Debug, Clone, Copy, PartialEq, Eq, Structural)]
pub enum HttpMethod {
    Get,
    Post,
    Put,
    Patch,
    Delete,
    Head,
}

/// The method that `name` stands for, in any case.
pub open spec fn method_named(name: Seq<char>) -> Option<HttpMethod> {
    method_given(upper_text(name))
}

/// The method whose name reads `upper` in upper case.
pub open spec fn method_given(upper: Seq<char>) -> Option<HttpMethod> {
    if upper == "GET"@ {
        Some(HttpMethod::Get)
    } else if upper == "POST"@ {
        Some(HttpMethod::Post)
    } else if upper == "PUT"@ {
        Some(HttpMethod::Put)
    } else if upper == "PATCH"@ {
        Some(HttpMethod::Patch)
    } else if upper == "DELETE"@ {
        Some(HttpMethod::Delete)
    } else if upper == "HEAD"@ {
        Some(HttpMethod::Head)
    } else {
        None
    }
}

/// The method that `name` stands for; any other name is refused.
pub fn http_method(name: &str) -> (r: Result<HttpMethod, BridgeError>)
    ensures
        match method_named(name@) {
            Some(method) => r == Ok::<HttpMethod, BridgeError>(method),
            None => r matches Err(BridgeError::UnsupportedAction(m)) && m@
                == "Unknown HTTP method: "@ + name@,
        },
{
    let upper = upper_case(name);
    method_from(name, upper.as_str())
}

/// The method that `name` stands for, where `upper` is how it reads in
/// upper case; a name that stands for none is refused.
pub fn method_from(name: &str, upper: &str) -> (r: Result<HttpMethod, BridgeError>)
    ensures
        match method_given(upper@) {
            Some(method) => r == Ok::<HttpMethod, BridgeError>(method),
            None => r matches Err(BridgeError::UnsupportedAction(m)) && m@
                == "Unknown HTTP method: "@ + name@,
        },
{
    let upper = to_chars(upper);
    if is_word(&upper, "GET") {
        Ok(HttpMethod::Get)
    } else if is_word(&upper, "POST") {
        Ok(HttpMethod::Post)
    } else if is_word(&upper, "PUT") {
        Ok(HttpMethod::Put)
    } else if is_word(&upper, "PATCH") {
        Ok(HttpMethod::Patch)
    } else if is_word(&upper, "DELETE") {
        Ok(HttpMethod::Delete)
    } else if is_word(&upper, "HEAD") {
        Ok(HttpMethod::Head)
    } else {
        Err(BridgeError::UnsupportedAction(join2("Unknown HTTP method: ", name)))
    }
}

/// What to do next with a request.
#[derive(Debug)]
pub enum Attempt {
    /// Send it, after the delay where there is one.
    Send { delay: Option<Duration> },
    /// No attempt is left: the request has failed.
    GiveUp(BridgeError),
}

/// The attempts of one request.
#[derive(Debug)]
pub struct RetryRun {
    attempt: u32,
    max_attempts: u32,
    last_error: Option<BridgeError>,
}

/// How the error of a status that is tried again reads.
pub open spec fn retryable_text(status: u16) -> Seq<char> {
    "Retryable status code: "@ + decimal_text(status as nat)
}

impl RetryRun {
    /// How many attempts have been made.
    pub closed spec fn attempt(&self) -> nat {
        self.attempt as nat
    }

    /// How many attempts there may be.
    pub closed spec fn max_attempts(&self) -> nat {
        self.max_attempts as nat
    }

    /// The error of the last attempt, if it had one.
    pub closed spec fn last_error(&self) -> Option<BridgeError> {
        self.last_error
    }

    /// The attempts of a request over `bridge`: as many as its policy
    /// allows, or one where it has none.
    pub fn new(bridge: &WebBridge) -> (run: Self)
        ensures
            run.attempt() == 0,
            run.last_error() is None,
            run.max_attempts() == match bridge.config().retry {
                Some(retry) => retry.max_attempts as nat,
                None => 1,
            },
    {
        let max_attempts = match &bridge.config.retry {
            Some(retry) => retry.max_attempts,
            None => 1,
        };
        RetryRun { attempt: 0, max_attempts, last_error: None }
    }

    /// Whether an attempt is left.
    pub fn has_attempt(&self) -> (b: bool)
        ensures
            b == (self.attempt() < self.max_attempts()),
    {
        self.attempt < self.max_attempts
    }

    /// What to do next: another attempt while one is left, after the
    /// delay of the policy unless it is the first; else the request fails
    /// with the error of the last attempt, which is handed over.
    pub fn next(&mut self, bridge: &WebBridge) -> (r: Attempt)
        ensures
            final(self).attempt() == old(self).attempt(),
            final(self).max_attempts() == old(self).max_attempts(),
            final(self).last_error() == if old(self).attempt() < old(self).max_attempts() {
                old(self).last_error()
            } else {
                None
            },
            if old(self).attempt() < old(self).max_attempts() {
                r matches Attempt::Send { delay } && match delay {
                    None => old(self).attempt() == 0,
                    Some(d) => old(self).attempt() > 0 && d@ == match bridge.config().retry {
                        Some(retry) => retry_delay(retry, old(self).attempt()) * 1_000_000,
                        None => 1_000_000_000,
                    },
                }
            } else {
                r matches Attempt::GiveUp(e) && match old(self).last_error() {
                    Some(last) => e == last,
                    None => e matches BridgeError::ServerError(m) && m@ == "Request failed"@,
                }
            },
    {
        if self.attempt < self.max_attempts {
            if self.attempt > 0 {
                Attempt::Send { delay: Some(bridge.get_retry_delay(self.attempt)) }
            } else {
                Attempt::Send { delay: None }
            }
        } else {
            let mut last: Option<BridgeError> = None;
            std::mem::swap(&mut self.last_error, &mut last);
            match last {
                Some(e) => Attempt::GiveUp(e),
                None => Attempt::GiveUp(BridgeError::ServerError("Request failed".to_string())),
            }
        }
    }

    /// Whether the request is tried again after `status` came back: it is
    /// where the policy names the status.
    pub fn on_response(&mut self, bridge: &WebBridge, status: u16) -> (again: bool)
        requires
            old(self).attempt() < old(self).max_attempts(),
        ensures
            again == retries(bridge.config().retry, status, old(self).attempt() as u32),
            final(self).max_attempts() == old(self).max_attempts(),
            again ==> final(self).attempt() == old(self).attempt() + 1 && (
            final(self).last_error() matches Some(BridgeError::HttpError { status: s, message })
                && s == status && message@ == retryable_text(status)),
            !again ==> final(self).attempt() == old(self).attempt() && final(self).last_error()
                == old(self).last_error(),
    {
        if bridge.should_retry(status, self.attempt) {
            let shown = decimal(status as u64);
            self.last_error = Some(
                BridgeError::HttpError {
                    status,
                    message: join2("Retryable status code: ", shown.as_str()),
                },
            );
            self.attempt = self.attempt + 1;
            true
        } else {
            false
        }
    }

    /// What follows an attempt that got no response: the request is tried
    /// again where the connection failed or timed out; any other error
    /// ends it.
    pub fn on_error(&mut self, message: String, connect_or_timeout: bool) -> (end: Option<
        BridgeError,
    >)
        requires
            old(self).attempt() < old(self).max_attempts(),
        ensures
            final(self).max_attempts() == old(self).max_attempts(),
            final(self).last_error() matches Some(BridgeError::ServerError(m)) && m@ == message@,
            if connect_or_timeout {
                end is None && final(self).attempt() == old(self).attempt() + 1
            } else {
                (end matches Some(BridgeError::ServerError(m)) && m@ == message@)
                    && final(self).attempt() == old(self).attempt()
            },
    {
        self.last_error = Some(BridgeError::ServerError(message.clone()));
        if connect_or_timeout {
            self.attempt = self.attempt + 1;
            None
        } else {
            Some(BridgeError::ServerError(message))
        }
    }
}

/// The map that the entries of an object are, where every value is a
/// string; a later entry counts over an earlier one of its key.
pub open spec fn strings_map(entries: Seq<(Seq<char>, JsonTree)>) -> Option<
    Map<Seq<char>, Seq<char>>,
>
    decreases entries.len(),
{
    if entries.len() == 0 {
        Some(Map::empty())
    } else {
        match (strings_map(entries.drop_last()), entries.last().1) {
            (Some(before), JsonTree::Text(t)) => Some(before.insert(entries.last().0, t)),
            _ => None,
        }
    }
}

/// The map of strings that a JSON value is, where it is an object of
/// strings.
pub open spec fn string_map_of(value: JsonTree) -> Option<Map<Seq<char>, Seq<char>>> {
    match value {
        JsonTree::Object(entries) => strings_map(entries),
        _ => None,
    }
}

proof fn lemma_strings_none(entries: Seq<(Seq<char>, JsonTree)>, k: int)
    requires
        0 <= k <= entries.len(),
        strings_map(entries.take(k)) is None,
    ensures
        strings_map(entries) is None,
    decreases entries.len() - k,
{
    if k < entries.len() {
        assert(entries.take(k + 1).drop_last() == entries.take(k));
        lemma_strings_none(entries, k + 1);
    } else {
        assert(entries.take(k) == entries);
    }
}

/// The map of strings that a JSON value is.
pub fn string_map(value: &JsonValue) -> (r: Option<NameMap<String>>)
    ensures
        match r {
            Some(map) => string_map_of(value@) == Some(crate::namemap::as_text(map@)),
            None => string_map_of(value@) is None,
        },
{
    match value {
        JsonValue::Object(entries) => {
            let ghost all = value@->Object_0;
            let mut map: NameMap<String> = NameMap::new();
            let mut i: usize = 0;
            proof {
                assert(all.take(0) =~= Seq::<(Seq<char>, JsonTree)>::empty());
                assert(crate::namemap::as_text(map@) =~= Map::<Seq<char>, Seq<char>>::empty());
            }
            while i < entries.len()
                invariant
                    i <= entries.len(),
                    *value == JsonValue::Object(*entries),
                    all == value@->Object_0,
                    strings_map(all.take(i as int)) == Some(crate::namemap::as_text(map@)),
                decreases entries.len() - i,
            {
                proof {
                    let part = all.take(i + 1);
                    assert(part.drop_last() == all.take(i as int));
                    assert(part.last() == all[i as int]);
                    assert(all[i as int].0 == entries[i as int].0@);
                    assert(all[i as int].1 == entries[i as int].1@);
                }
                match entries[i].1.as_str() {
                    Some(text) => {
                        let ghost before = crate::namemap::as_text(map@);
                        map.insert(entries[i].0.clone(), text.clone());
                        assert(crate::namemap::as_text(map@) =~= before.insert(
                            entries[i as int].0@,
                            text@,
                        ));
                    },
                    None => {
                        proof {
                            assert(strings_map(all.take(i + 1)) is None);
                            lemma_strings_none(all, i + 1);
                        }
                        return None;
                    },
                }
                i = i + 1;
            }
            assert(all.take(entries.len() as int) == all);
            Some(map)
        },
        _ => None,
    }
}

/// The request that a call through the uniform operation set describes:
/// the method is the name that is called; the arguments give `path`, a
/// slash where it is no string, and may give `body`, `headers` and
/// `query`, the last two where they are objects of strings.
pub fn call_request(method: &str, args: &JsonValue) -> (request: WebRequest)
    ensures
        request.method@ == method@,
        request.path@ == match args@.get("path"@) {
            Some(JsonTree::Text(path)) => path,
            _ => "/"@,
        },
        match request.body {
            Some(body) => args@.get("body"@) == Some(body@),
            None => args@.get("body"@) is None,
        },
        match request.headers {
            Some(headers) => args@.get("headers"@) is Some && string_map_of(
                args@.get("headers"@)->Some_0,
            ) == Some(crate::namemap::as_text(headers@)),
            None => args@.get("headers"@) is None || string_map_of(args@.get("headers"@)->Some_0)
                is None,
        },
        match request.query {
            Some(query) => args@.get("query"@) is Some && string_map_of(
                args@.get("query"@)->Some_0,
            ) == Some(crate::namemap::as_text(query@)),
            None => args@.get("query"@) is None || string_map_of(args@.get("query"@)->Some_0)
                is None,
        },
{
    let path = match args.get("path") {
        Some(v) => match v.as_str() {
            Some(t) => t.clone(),
            None => "/".to_string(),
        },
        None => "/".to_string(),
    };
    let body = match args.get("body") {
        Some(v) => Some(v.clone()),
        None => None,
    };
    let headers = match args.get("headers") {
        Some(v) => string_map(v),
        None => None,
    };
    let query = match args.get("query") {
        Some(v) => string_map(v),
        None => None,
    };
    WebRequest { method: method.to_string(), path, headers, body, query }
}

} // verus!
