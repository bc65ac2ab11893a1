//! Steps in the browser: what each action asks of the page, which
//! request carries it, and what the answer comes to.

use vstd::prelude::*;
use crate::actions::{agrees, natural, Plan, PlanView, Planned};
use crate::bridge::calls::carries;
use crate::bridge::playwright::{count_tree, text_of_reply, PlaywrightBridge};
use crate::error::{BridgeError, ExecutorError};
use crate::executor::param;
use crate::json::{JsonTree, JsonValue};
use crate::namemap::{as_text, NameMap};
use crate::rpc::{RequestIds, RpcRequest};
use crate::text::{find_from, first_at, is_word, join2, join3, parse_u64, str_eq, to_chars};

verus! {

/// What a step asks of a page.
#[derive(Debug, Clone)]
pub enum BrowserCall {
    Goto { url: String },
    Reload,
    Back,
    Forward,
    Url,
    Title,
    Click { selector: String },
    Fill { selector: String, value: String },
    Type { selector: String, text: String, delay: Option<u64> },
    Select { selector: String, value: String },
    Hover { selector: String },
    Text { selector: String },
    Attribute { selector: String, attribute: String },
    Visible { selector: String },
    Hidden { selector: String },
    TextContains { selector: String, text: String },
    UrlContains { pattern: String },
    TitleIs { title: String },
    WaitSelector { selector: String, timeout: Option<u64> },
    WaitNavigation { timeout: Option<u64> },
    WaitUrl { pattern: String, timeout: Option<u64> },
    /// Sleep for so many milliseconds; the page is not asked.
    Sleep { ms: u64 },
    Screenshot { path: String, full_page: bool },
    Pdf { path: String },
    /// An action on the network, which does nothing yet.
    Nothing,
}

/// What a [`BrowserCall`] holds.
pub enum BrowserView {
    Goto { url: Seq<char> },
    Reload,
    Back,
    Forward,
    Url,
    Title,
    Click { selector: Seq<char> },
    Fill { selector: Seq<char>, value: Seq<char> },
    Type { selector: Seq<char>, text: Seq<char>, delay: Option<u64> },
    Select { selector: Seq<char>, value: Seq<char> },
    Hover { selector: Seq<char> },
    Text { selector: Seq<char> },
    Attribute { selector: Seq<char>, attribute: Seq<char> },
    Visible { selector: Seq<char> },
    Hidden { selector: Seq<char> },
    TextContains { selector: Seq<char>, text: Seq<char> },
    UrlContains { pattern: Seq<char> },
    TitleIs { title: Seq<char> },
    WaitSelector { selector: Seq<char>, timeout: Option<u64> },
    WaitNavigation { timeout: Option<u64> },
    WaitUrl { pattern: Seq<char>, timeout: Option<u64> },
    Sleep { ms: u64 },
    Screenshot { path: Seq<char>, full_page: bool },
    Pdf { path: Seq<char> },
    Nothing,
}

impl View for BrowserCall {
    type V = BrowserView;

    open spec fn view(&self) -> BrowserView {
        match self {
            BrowserCall::Goto { url } => BrowserView::Goto { url: url@ },
            BrowserCall::Reload => BrowserView::Reload,
            BrowserCall::Back => BrowserView::Back,
            BrowserCall::Forward => BrowserView::Forward,
            BrowserCall::Url => BrowserView::Url,
            BrowserCall::Title => BrowserView::Title,
            BrowserCall::Click { selector } => BrowserView::Click { selector: selector@ },
            BrowserCall::Fill { selector, value } => BrowserView::Fill {
                selector: selector@,
                value: value@,
            },
            BrowserCall::Type { selector, text, delay } => BrowserView::Type {
                selector: selector@,
                text: text@,
                delay: *delay,
            },
            BrowserCall::Select { selector, value } => BrowserView::Select {
                selector: selector@,
                value: value@,
            },
            BrowserCall::Hover { selector } => BrowserView::Hover { selector: selector@ },
            BrowserCall::Text { selector } => BrowserView::Text { selector: selector@ },
            BrowserCall::Attribute { selector, attribute } => BrowserView::Attribute {
                selector: selector@,
                attribute: attribute@,
            },
            BrowserCall::Visible { selector } => BrowserView::Visible { selector: selector@ },
            BrowserCall::Hidden { selector } => BrowserView::Hidden { selector: selector@ },
            BrowserCall::TextContains { selector, text } => BrowserView::TextContains {
                selector: selector@,
                text: text@,
            },
            BrowserCall::UrlContains { pattern } => BrowserView::UrlContains { pattern: pattern@ },
            BrowserCall::TitleIs { title } => BrowserView::TitleIs { title: title@ },
            BrowserCall::WaitSelector { selector, timeout } => BrowserView::WaitSelector {
                selector: selector@,
                timeout: *timeout,
            },
            BrowserCall::WaitNavigation { timeout } => BrowserView::WaitNavigation {
                timeout: *timeout,
            },
            BrowserCall::WaitUrl { pattern, timeout } => BrowserView::WaitUrl {
                pattern: pattern@,
                timeout: *timeout,
            },
            BrowserCall::Sleep { ms } => BrowserView::Sleep { ms: *ms },
            BrowserCall::Screenshot { path, full_page } => BrowserView::Screenshot {
                path: path@,
                full_page: *full_page,
            },
            BrowserCall::Pdf { path } => BrowserView::Pdf { path: path@ },
            BrowserCall::Nothing => BrowserView::Nothing,
        }
    }
}

/// The plan that asks `call` of the page.
pub open spec fn asks(call: BrowserView) -> Planned {
    Planned::Plan(PlanView::Browser(call))
}

/// The parameter `name` as a count. A parameter that writes no count
/// counts as one that is not there.
pub open spec fn count_param(params: Map<Seq<char>, Seq<char>>, name: Seq<char>) -> Option<u64> {
    match param(params, name) {
        Some(text) => match natural(text) {
            Some(n) => Some(n as u64),
            None => None,
        },
        None => None,
    }
}

/// The parameter `name` as a count.
fn count_of(params: &NameMap<String>, name: &str) -> (n: Option<u64>)
    ensures
        n == count_param(as_text(params@), name@),
{
    match params.get(name) {
        Some(text) => {
            let digits = to_chars(text.as_str());
            parse_u64(&digits)
        },
        None => None,
    }
}

/// What an action of the category `page` asks for. `goto` needs the
/// parameter `url`.
pub open spec fn planned_page(action: Seq<char>, params: Map<Seq<char>, Seq<char>>) -> Planned {
    if action == "goto"@ {
        match param(params, "url"@) {
            Some(url) => asks(BrowserView::Goto { url }),
            None => Planned::Missing("url"@),
        }
    } else if action == "reload"@ {
        asks(BrowserView::Reload)
    } else if action == "back"@ {
        asks(BrowserView::Back)
    } else if action == "forward"@ {
        asks(BrowserView::Forward)
    } else if action == "url"@ {
        asks(BrowserView::Url)
    } else if action == "title"@ {
        asks(BrowserView::Title)
    } else {
        Planned::Unknown("page/"@ + action)
    }
}

/// What an action of the category `page` asks for.
pub fn execute_page_action(action: &str, params: &NameMap<String>) -> (r: Result<
    Plan,
    ExecutorError,
>)
    ensures
        agrees(r, planned_page(action@, as_text(params@))),
{
    let a = to_chars(action);
    if is_word(&a, "goto") {
        match params.get("url") {
            Some(url) => Ok(Plan::Browser(BrowserCall::Goto { url: url.clone() })),
            None => Err(ExecutorError::MissingParameter("url".to_string())),
        }
    } else if is_word(&a, "reload") {
        Ok(Plan::Browser(BrowserCall::Reload))
    } else if is_word(&a, "back") {
        Ok(Plan::Browser(BrowserCall::Back))
    } else if is_word(&a, "forward") {
        Ok(Plan::Browser(BrowserCall::Forward))
    } else if is_word(&a, "url") {
        Ok(Plan::Browser(BrowserCall::Url))
    } else if is_word(&a, "title") {
        Ok(Plan::Browser(BrowserCall::Title))
    } else {
        Err(ExecutorError::UnknownAction(join2("page/", action)))
    }
}

/// What an action of the category `element` asks for. Every one needs
/// the parameter `selector`, and that is looked for first; `fill` and
/// `select` need `value`, `type` needs `text`, `attribute` needs
/// `attribute`.
pub open spec fn planned_element(action: Seq<char>, params: Map<Seq<char>, Seq<char>>) -> Planned {
    match param(params, "selector"@) {
        None => Planned::Missing("selector"@),
        Some(selector) => if action == "click"@ {
            asks(BrowserView::Click { selector })
        } else if action == "fill"@ {
            match param(params, "value"@) {
                Some(value) => asks(BrowserView::Fill { selector, value }),
                None => Planned::Missing("value"@),
            }
        } else if action == "type"@ {
            match param(params, "text"@) {
                Some(text) => asks(
                    BrowserView::Type { selector, text, delay: count_param(params, "delay"@) },
                ),
                None => Planned::Missing("text"@),
            }
        } else if action == "select"@ {
            match param(params, "value"@) {
                Some(value) => asks(BrowserView::Select { selector, value }),
                None => Planned::Missing("value"@),
            }
        } else if action == "hover"@ {
            asks(BrowserView::Hover { selector })
        } else if action == "text"@ {
            asks(BrowserView::Text { selector })
        } else if action == "attribute"@ {
            match param(params, "attribute"@) {
                Some(attribute) => asks(BrowserView::Attribute { selector, attribute }),
                None => Planned::Missing("attribute"@),
            }
        } else {
            Planned::Unknown("element/"@ + action)
        },
    }
}

/// What an action of the category `element` asks for.
pub fn execute_element_action(action: &str, params: &NameMap<String>) -> (r: Result<
    Plan,
    ExecutorError,
>)
    ensures
        agrees(r, planned_element(action@, as_text(params@))),
{
    let selector = match params.get("selector") {
        Some(selector) => selector.clone(),
        None => {
            return Err(ExecutorError::MissingParameter("selector".to_string()));
        },
    };
    let a = to_chars(action);
    if is_word(&a, "click") {
        Ok(Plan::Browser(BrowserCall::Click { selector }))
    } else if is_word(&a, "fill") {
        match params.get("value") {
            Some(value) => Ok(Plan::Browser(BrowserCall::Fill { selector, value: value.clone() })),
            None => Err(ExecutorError::MissingParameter("value".to_string())),
        }
    } else if is_word(&a, "type") {
        match params.get("text") {
            Some(text) => Ok(
                Plan::Browser(
                    BrowserCall::Type {
                        selector,
                        text: text.clone(),
                        delay: count_of(params, "delay"),
                    },
                ),
            ),
            None => Err(ExecutorError::MissingParameter("text".to_string())),
        }
    } else if is_word(&a, "select") {
        match params.get("value") {
            Some(value) => Ok(
                Plan::Browser(BrowserCall::Select { selector, value: value.clone() }),
            ),
            None => Err(ExecutorError::MissingParameter("value".to_string())),
        }
    } else if is_word(&a, "hover") {
        Ok(Plan::Browser(BrowserCall::Hover { selector }))
    } else if is_word(&a, "text") {
        Ok(Plan::Browser(BrowserCall::Text { selector }))
    } else if is_word(&a, "attribute") {
        match params.get("attribute") {
            Some(attribute) => Ok(
                Plan::Browser(BrowserCall::Attribute { selector, attribute: attribute.clone() }),
            ),
            None => Err(ExecutorError::MissingParameter("attribute".to_string())),
        }
    } else {
        Err(ExecutorError::UnknownAction(join2("element/", action)))
    }
}

/// What an assertion on a page asks for: `visible` and `hidden` need
/// `selector`; `text_contains` needs `selector`, then `text`;
/// `url_contains` needs `pattern`; `title_is` needs `title`.
pub open spec fn planned_page_assert(action: Seq<char>, params: Map<Seq<char>, Seq<char>>) -> Planned {
    if action == "visible"@ {
        match param(params, "selector"@) {
            Some(selector) => asks(BrowserView::Visible { selector }),
            None => Planned::Missing("selector"@),
        }
    } else if action == "hidden"@ {
        match param(params, "selector"@) {
            Some(selector) => asks(BrowserView::Hidden { selector }),
            None => Planned::Missing("selector"@),
        }
    } else if action == "text_contains"@ {
        match param(params, "selector"@) {
            Some(selector) => match param(params, "text"@) {
                Some(text) => asks(BrowserView::TextContains { selector, text }),
                None => Planned::Missing("text"@),
            },
            None => Planned::Missing("selector"@),
        }
    } else if action == "url_contains"@ {
        match param(params, "pattern"@) {
            Some(pattern) => asks(BrowserView::UrlContains { pattern }),
            None => Planned::Missing("pattern"@),
        }
    } else if action == "title_is"@ {
        match param(params, "title"@) {
            Some(title) => asks(BrowserView::TitleIs { title }),
            None => Planned::Missing("title"@),
        }
    } else {
        Planned::Unknown("assert/"@ + action)
    }
}

/// What an assertion on a page asks for.
pub fn execute_assert(action: &str, params: &NameMap<String>) -> (r: Result<Plan, ExecutorError>)
    ensures
        agrees(r, planned_page_assert(action@, as_text(params@))),
{
    let a = to_chars(action);
    if is_word(&a, "visible") {
        match params.get("selector") {
            Some(selector) => Ok(Plan::Browser(BrowserCall::Visible { selector: selector.clone() })),
            None => Err(ExecutorError::MissingParameter("selector".to_string())),
        }
    } else if is_word(&a, "hidden") {
        match params.get("selector") {
            Some(selector) => Ok(Plan::Browser(BrowserCall::Hidden { selector: selector.clone() })),
            None => Err(ExecutorError::MissingParameter("selector".to_string())),
        }
    } else if is_word(&a, "text_contains") {
        match params.get("selector") {
            Some(selector) => match params.get("text") {
                Some(text) => Ok(
                    Plan::Browser(
                        BrowserCall::TextContains { selector: selector.clone(), text: text.clone() },
                    ),
                ),
                None => Err(ExecutorError::MissingParameter("text".to_string())),
            },
            None => Err(ExecutorError::MissingParameter("selector".to_string())),
        }
    } else if is_word(&a, "url_contains") {
        match params.get("pattern") {
            Some(pattern) => Ok(
                Plan::Browser(BrowserCall::UrlContains { pattern: pattern.clone() }),
            ),
            None => Err(ExecutorError::MissingParameter("pattern".to_string())),
        }
    } else if is_word(&a, "title_is") {
        match params.get("title") {
            Some(title) => Ok(Plan::Browser(BrowserCall::TitleIs { title: title.clone() })),
            None => Err(ExecutorError::MissingParameter("title".to_string())),
        }
    } else {
        Err(ExecutorError::UnknownAction(join2("assert/", action)))
    }
}

/// What a wait on a page asks for: `selector` needs `selector`, `url`
/// needs `pattern`, each with the parameter `timeout` as the longest
/// wait; `timeout` sleeps for the milliseconds of `ms`.
pub open spec fn planned_page_wait(action: Seq<char>, params: Map<Seq<char>, Seq<char>>) -> Planned {
    let timeout = count_param(params, "timeout"@);
    if action == "selector"@ {
        match param(params, "selector"@) {
            Some(selector) => asks(BrowserView::WaitSelector { selector, timeout }),
            None => Planned::Missing("selector"@),
        }
    } else if action == "navigation"@ {
        asks(BrowserView::WaitNavigation { timeout })
    } else if action == "url"@ {
        match param(params, "pattern"@) {
            Some(pattern) => asks(BrowserView::WaitUrl { pattern, timeout }),
            None => Planned::Missing("pattern"@),
        }
    } else if action == "timeout"@ {
        match param(params, "ms"@) {
            Some(text) => match natural(text) {
                Some(ms) => asks(BrowserView::Sleep { ms: ms as u64 }),
                None => Planned::Missing("ms must be a number"@),
            },
            None => Planned::Missing("ms"@),
        }
    } else {
        Planned::Unknown("wait/"@ + action)
    }
}

/// What a wait on a page asks for.
pub fn execute_wait_action(action: &str, params: &NameMap<String>) -> (r: Result<
    Plan,
    ExecutorError,
>)
    ensures
        agrees(r, planned_page_wait(action@, as_text(params@))),
{
    let timeout = count_of(params, "timeout");
    let a = to_chars(action);
    if is_word(&a, "selector") {
        match params.get("selector") {
            Some(selector) => Ok(
                Plan::Browser(BrowserCall::WaitSelector { selector: selector.clone(), timeout }),
            ),
            None => Err(ExecutorError::MissingParameter("selector".to_string())),
        }
    } else if is_word(&a, "navigation") {
        Ok(Plan::Browser(BrowserCall::WaitNavigation { timeout }))
    } else if is_word(&a, "url") {
        match params.get("pattern") {
            Some(pattern) => Ok(
                Plan::Browser(BrowserCall::WaitUrl { pattern: pattern.clone(), timeout }),
            ),
            None => Err(ExecutorError::MissingParameter("pattern".to_string())),
        }
    } else if is_word(&a, "timeout") {
        match params.get("ms") {
            Some(text) => {
                let digits = to_chars(text.as_str());
                match parse_u64(&digits) {
                    Some(ms) => Ok(Plan::Browser(BrowserCall::Sleep { ms })),
                    None => Err(ExecutorError::MissingParameter("ms must be a number".to_string())),
                }
            },
            None => Err(ExecutorError::MissingParameter("ms".to_string())),
        }
    } else {
        Err(ExecutorError::UnknownAction(join2("wait/", action)))
    }
}

/// What an action of the category `browser` asks for: `screenshot` and
/// `pdf` need `path`; a screenshot shows the whole page where the
/// parameter `fullPage` is `true`.
pub open spec fn planned_browser(action: Seq<char>, params: Map<Seq<char>, Seq<char>>) -> Planned {
    if action == "screenshot"@ {
        match param(params, "path"@) {
            Some(path) => asks(
                BrowserView::Screenshot {
                    path,
                    full_page: param(params, "fullPage"@) == Some("true"@),
                },
            ),
            None => Planned::Missing("path"@),
        }
    } else if action == "pdf"@ {
        match param(params, "path"@) {
            Some(path) => asks(BrowserView::Pdf { path }),
            None => Planned::Missing("path"@),
        }
    } else {
        Planned::Unknown("browser/"@ + action)
    }
}

/// What an action of the category `browser` asks for.
pub fn execute_browser_action(action: &str, params: &NameMap<String>) -> (r: Result<
    Plan,
    ExecutorError,
>)
    ensures
        agrees(r, planned_browser(action@, as_text(params@))),
{
    let a = to_chars(action);
    if is_word(&a, "screenshot") {
        match params.get("path") {
            Some(path) => {
                let full_page = match params.get("fullPage") {
                    Some(flag) => str_eq(flag.as_str(), "true"),
                    None => false,
                };
                Ok(Plan::Browser(BrowserCall::Screenshot { path: path.clone(), full_page }))
            },
            None => Err(ExecutorError::MissingParameter("path".to_string())),
        }
    } else if is_word(&a, "pdf") {
        match params.get("path") {
            Some(path) => Ok(Plan::Browser(BrowserCall::Pdf { path: path.clone() })),
            None => Err(ExecutorError::MissingParameter("path".to_string())),
        }
    } else {
        Err(ExecutorError::UnknownAction(join2("browser/", action)))
    }
}

/// What an action of the category `network` asks for: `intercept`,
/// `mock` and `wait_for_response` are known and do nothing.
pub open spec fn planned_network(action: Seq<char>) -> Planned {
    if action == "intercept"@ || action == "mock"@ || action == "wait_for_response"@ {
        asks(BrowserView::Nothing)
    } else {
        Planned::Unknown("network/"@ + action)
    }
}

/// What an action of the category `network` asks for.
pub fn execute_network_action(action: &str) -> (r: Result<Plan, ExecutorError>)
    ensures
        agrees(r, planned_network(action@)),
{
    let a = to_chars(action);
    if is_word(&a, "intercept") || is_word(&a, "mock") || is_word(&a, "wait_for_response") {
        Ok(Plan::Browser(BrowserCall::Nothing))
    } else {
        Err(ExecutorError::UnknownAction(join2("network/", action)))
    }
}

/// An object whose members are strings and counts, as the page reads
/// them.
pub open spec fn about_page(page_id: Seq<char>) -> (Seq<char>, JsonTree) {
    ("pageId"@, JsonTree::Text(page_id))
}

/// The method and the parameters of the request that carries `call` to
/// the page `page_id`. An assertion asks for what it then looks at. A
/// sleep and an action that does nothing ask nothing of the page.
pub open spec fn asked(call: BrowserView, page_id: Seq<char>) -> Option<(Seq<char>, JsonTree)> {
    let page = about_page(page_id);
    match call {
        BrowserView::Goto { url } => Some(
            ("page.goto"@, JsonTree::Object(seq![page, ("url"@, JsonTree::Text(url))])),
        ),
        BrowserView::Reload => Some(("page.reload"@, JsonTree::Object(seq![page]))),
        BrowserView::Back => Some(("page.goBack"@, JsonTree::Object(seq![page]))),
        BrowserView::Forward => Some(("page.goForward"@, JsonTree::Object(seq![page]))),
        BrowserView::Url | BrowserView::UrlContains { .. } => Some(
            ("page.url"@, JsonTree::Object(seq![page])),
        ),
        BrowserView::Title | BrowserView::TitleIs { .. } => Some(
            ("page.title"@, JsonTree::Object(seq![page])),
        ),
        BrowserView::Click { selector } => Some(
            (
                "element.click"@,
                JsonTree::Object(seq![page, ("selector"@, JsonTree::Text(selector))]),
            ),
        ),
        BrowserView::Fill { selector, value } => Some(
            (
                "element.fill"@,
                JsonTree::Object(
                    seq![
                        page,
                        ("selector"@, JsonTree::Text(selector)),
                        ("value"@, JsonTree::Text(value)),
                    ],
                ),
            ),
        ),
        BrowserView::Type { selector, text, delay } => Some(
            (
                "element.type"@,
                JsonTree::Object(
                    seq![
                        ("delay"@, count_tree(delay)),
                        page,
                        ("selector"@, JsonTree::Text(selector)),
                        ("text"@, JsonTree::Text(text)),
                    ],
                ),
            ),
        ),
        BrowserView::Select { selector, value } => Some(
            (
                "element.select"@,
                JsonTree::Object(
                    seq![
                        page,
                        ("selector"@, JsonTree::Text(selector)),
                        ("value"@, JsonTree::Text(value)),
                    ],
                ),
            ),
        ),
        BrowserView::Hover { selector } => Some(
            (
                "element.hover"@,
                JsonTree::Object(seq![page, ("selector"@, JsonTree::Text(selector))]),
            ),
        ),
        BrowserView::Text { selector } | BrowserView::TextContains { selector, .. } => Some(
            (
                "element.textContent"@,
                JsonTree::Object(seq![page, ("selector"@, JsonTree::Text(selector))]),
            ),
        ),
        BrowserView::Attribute { selector, attribute } => Some(
            (
                "element.getAttribute"@,
                JsonTree::Object(
                    seq![
                        ("attribute"@, JsonTree::Text(attribute)),
                        page,
                        ("selector"@, JsonTree::Text(selector)),
                    ],
                ),
            ),
        ),
        BrowserView::Visible { selector } | BrowserView::Hidden { selector } => Some(
            (
                "element.isVisible"@,
                JsonTree::Object(seq![page, ("selector"@, JsonTree::Text(selector))]),
            ),
        ),
        BrowserView::WaitSelector { selector, timeout } => Some(
            (
                "wait.selector"@,
                JsonTree::Object(
                    seq![
                        page,
                        ("selector"@, JsonTree::Text(selector)),
                        ("timeout"@, count_tree(timeout)),
                    ],
                ),
            ),
        ),
        BrowserView::WaitNavigation { timeout } => Some(
            ("wait.navigation"@, JsonTree::Object(seq![page, ("timeout"@, count_tree(timeout))])),
        ),
        BrowserView::WaitUrl { pattern, timeout } => Some(
            (
                "wait.url"@,
                JsonTree::Object(
                    seq![
                        page,
                        ("pattern"@, JsonTree::Text(pattern)),
                        ("timeout"@, count_tree(timeout)),
                    ],
                ),
            ),
        ),
        BrowserView::Screenshot { path, full_page } => Some(
            (
                "page.screenshot"@,
                JsonTree::Object(
                    seq![
                        ("fullPage"@, JsonTree::Bool(full_page)),
                        page,
                        ("path"@, JsonTree::Text(path)),
                    ],
                ),
            ),
        ),
        BrowserView::Pdf { path } => Some(
            ("page.pdf"@, JsonTree::Object(seq![page, ("path"@, JsonTree::Text(path))])),
        ),
        BrowserView::Sleep { .. } | BrowserView::Nothing => None,
    }
}

/// The request that carries `call` to the page `page_id`, where the page
/// is asked; else no id is spent.
pub fn browser_request(
    bridge: &PlaywrightBridge,
    ids: &mut RequestIds,
    page_id: &str,
    call: &BrowserCall,
) -> (r: Option<RpcRequest>)
    ensures
        match asked(call@, page_id@) {
            Some((method, params)) => r matches Some(request) && carries(
                request,
                *old(ids),
                *final(ids),
                method,
                params,
            ),
            None => r is None && final(ids).upcoming() == old(ids).upcoming(),
        },
{
    match call {
        BrowserCall::Goto { url } => Some(bridge.page_goto(ids, page_id, url.as_str())),
        BrowserCall::Reload => Some(bridge.page_reload(ids, page_id)),
        BrowserCall::Back => Some(bridge.page_go_back(ids, page_id)),
        BrowserCall::Forward => Some(bridge.page_go_forward(ids, page_id)),
        BrowserCall::Url | BrowserCall::UrlContains { .. } => Some(bridge.page_url(ids, page_id)),
        BrowserCall::Title | BrowserCall::TitleIs { .. } => Some(bridge.page_title(ids, page_id)),
        BrowserCall::Click { selector } => Some(
            bridge.element_click(ids, page_id, selector.as_str()),
        ),
        BrowserCall::Fill { selector, value } => Some(
            bridge.element_fill(ids, page_id, selector.as_str(), value.as_str()),
        ),
        BrowserCall::Type { selector, text, delay } => Some(
            bridge.element_type(ids, page_id, selector.as_str(), text.as_str(), *delay),
        ),
        BrowserCall::Select { selector, value } => Some(
            bridge.element_select(ids, page_id, selector.as_str(), value.as_str()),
        ),
        BrowserCall::Hover { selector } => Some(
            bridge.element_hover(ids, page_id, selector.as_str()),
        ),
        BrowserCall::Text { selector } | BrowserCall::TextContains { selector, .. } => Some(
            bridge.element_text(ids, page_id, selector.as_str()),
        ),
        BrowserCall::Attribute { selector, attribute } => Some(
            bridge.element_attribute(ids, page_id, selector.as_str(), attribute.as_str()),
        ),
        BrowserCall::Visible { selector } | BrowserCall::Hidden { selector } => Some(
            bridge.element_is_visible(ids, page_id, selector.as_str()),
        ),
        BrowserCall::WaitSelector { selector, timeout } => Some(
            bridge.wait_for_selector(ids, page_id, selector.as_str(), *timeout),
        ),
        BrowserCall::WaitNavigation { timeout } => Some(
            bridge.wait_for_navigation(ids, page_id, *timeout),
        ),
        BrowserCall::WaitUrl { pattern, timeout } => Some(
            bridge.wait_for_url(ids, page_id, pattern.as_str(), *timeout),
        ),
        BrowserCall::Screenshot { path, full_page } => Some(
            bridge.screenshot(ids, page_id, path.as_str(), *full_page),
        ),
        BrowserCall::Pdf { path } => Some(bridge.pdf(ids, page_id, path.as_str())),
        BrowserCall::Sleep { .. } | BrowserCall::Nothing => None,
    }
}

/// What a step in the browser comes to.
pub enum BrowserOutcome {
    /// The step has succeeded, with these outputs.
    Outputs(Map<Seq<char>, Seq<char>>),
    /// The answer lacks what was asked for: the server has failed.
    Server(Seq<char>),
    /// An assertion does not hold.
    Failed(Seq<char>),
}

/// Whether `part` stands somewhere in `text`.
pub open spec fn contains(text: Seq<char>, part: Seq<char>) -> bool {
    first_at(text, part, 0) >= 0
}

/// Whether the answer says that the element can be seen. An answer that
/// does not say counts as no.
pub open spec fn seen(reply: JsonTree) -> bool {
    match reply.get("visible"@) {
        Some(value) => value.as_bool() == Some(true),
        None => false,
    }
}

/// One output.
pub open spec fn one_output(name: Seq<char>, value: Seq<char>) -> BrowserOutcome {
    BrowserOutcome::Outputs(Map::<Seq<char>, Seq<char>>::empty().insert(name, value))
}

/// No output.
pub open spec fn no_output() -> BrowserOutcome {
    BrowserOutcome::Outputs(Map::empty())
}

/// What the answer `reply` to the request of `call` comes to. The
/// address, the title and the text of an element become the outputs
/// `url`, `title` and `text`; an attribute becomes the output `value`,
/// empty where the element has none. An assertion fails with what was
/// found and what was expected.
pub open spec fn outcome_of(call: BrowserView, reply: JsonTree) -> BrowserOutcome {
    match call {
        BrowserView::Url => match reply.text_at("url"@) {
            Some(url) => one_output("url"@, url),
            None => BrowserOutcome::Server("No URL returned"@),
        },
        BrowserView::Title => match reply.text_at("title"@) {
            Some(title) => one_output("title"@, title),
            None => BrowserOutcome::Server("No title returned"@),
        },
        BrowserView::Text { .. } => match reply.text_at("text"@) {
            Some(text) => one_output("text"@, text),
            None => BrowserOutcome::Server("No text returned"@),
        },
        BrowserView::Attribute { .. } => match reply.text_at("value"@) {
            Some(value) => one_output("value"@, value),
            None => one_output("value"@, Seq::empty()),
        },
        BrowserView::Visible { selector } => if seen(reply) {
            no_output()
        } else {
            BrowserOutcome::Failed("Element '"@ + selector + "' is not visible"@)
        },
        BrowserView::Hidden { selector } => if seen(reply) {
            BrowserOutcome::Failed("Element '"@ + selector + "' is visible but expected hidden"@)
        } else {
            no_output()
        },
        BrowserView::TextContains { text, .. } => match reply.text_at("text"@) {
            Some(actual) => if contains(actual, text) {
                no_output()
            } else {
                BrowserOutcome::Failed(
                    "Text '"@ + actual + "' does not contain '"@ + text + "'"@,
                )
            },
            None => BrowserOutcome::Server("No text returned"@),
        },
        BrowserView::UrlContains { pattern } => match reply.text_at("url"@) {
            Some(url) => if contains(url, pattern) {
                no_output()
            } else {
                BrowserOutcome::Failed(
                    "URL '"@ + url + "' does not contain '"@ + pattern + "'"@,
                )
            },
            None => BrowserOutcome::Server("No URL returned"@),
        },
        BrowserView::TitleIs { title } => match reply.text_at("title"@) {
            Some(actual) => if actual == title {
                no_output()
            } else {
                BrowserOutcome::Failed(
                    "Title '"@ + actual + "' does not match '"@ + title + "'"@,
                )
            },
            None => BrowserOutcome::Server("No title returned"@),
        },
        _ => no_output(),
    }
}

/// Whether a result is the outcome `outcome`.
pub open spec fn comes_to(r: Result<NameMap<String>, ExecutorError>, outcome: BrowserOutcome) -> bool {
    match outcome {
        BrowserOutcome::Outputs(outputs) => r matches Ok(o) && as_text(o@) == outputs,
        BrowserOutcome::Server(text) => r matches Err(
            ExecutorError::BridgeError(BridgeError::ServerError(m)),
        ) && m@ == text,
        BrowserOutcome::Failed(text) => r matches Err(ExecutorError::AssertionFailed(m)) && m@
            == text,
    }
}

/// The outputs that hold `value` under `name` and nothing else.
fn output(name: &str, value: String) -> (r: Result<NameMap<String>, ExecutorError>)
    ensures
        comes_to(r, one_output(name@, value@)),
{
    let mut outputs: NameMap<String> = NameMap::new();
    outputs.insert(name.to_string(), value);
    assert(as_text(outputs@) =~= Map::<Seq<char>, Seq<char>>::empty().insert(name@, value@));
    Ok(outputs)
}

/// No outputs.
fn nothing() -> (r: Result<NameMap<String>, ExecutorError>)
    ensures
        comes_to(r, no_output()),
{
    let outputs: NameMap<String> = NameMap::new();
    assert(as_text(outputs@) =~= Map::<Seq<char>, Seq<char>>::empty());
    Ok(outputs)
}

/// Whether `part` stands somewhere in `text`.
fn has_part(text: &str, part: &str) -> (b: bool)
    ensures
        b == contains(text@, part@),
{
    let t = to_chars(text);
    let p = to_chars(part);
    find_from(&t, &p, 0).is_some()
}

/// The string under `key` in the answer, or the failure of the server.
fn member_of(reply: &JsonValue, key: &str, missing: &str) -> (r: Result<String, ExecutorError>)
    ensures
        match r {
            Ok(text) => reply@.text_at(key@) == Some(text@),
            Err(e) => reply@.text_at(key@) is None && (e matches ExecutorError::BridgeError(
                BridgeError::ServerError(m),
            ) && m@ == missing@),
        },
{
    match text_of_reply(reply, key, missing) {
        Ok(text) => Ok(text),
        Err(e) => Err(ExecutorError::BridgeError(e)),
    }
}

/// What the answer `reply` to the request of `call` comes to: the
/// outputs of the step, or the error that it ends in. Where no request
/// was made, any value may stand for the answer.
pub fn browser_outcome(call: &BrowserCall, reply: &JsonValue) -> (r: Result<
    NameMap<String>,
    ExecutorError,
>)
    ensures
        comes_to(r, outcome_of(call@, reply@)),
{
    match call {
        BrowserCall::Url => {
            let url = member_of(reply, "url", "No URL returned")?;
            output("url", url)
        },
        BrowserCall::Title => {
            let title = member_of(reply, "title", "No title returned")?;
            output("title", title)
        },
        BrowserCall::Text { .. } => {
            let text = member_of(reply, "text", "No text returned")?;
            output("text", text)
        },
        BrowserCall::Attribute { .. } => {
            match reply.text_at("value") {
                Some(value) => output("value", value.clone()),
                None => {
                    let empty = String::new();
                    assert(empty@ =~= Seq::<char>::empty());
                    output("value", empty)
                },
            }
        },
        BrowserCall::Visible { selector } => {
            if is_seen(reply) {
                nothing()
            } else {
                Err(
                    ExecutorError::AssertionFailed(
                        join3("Element '", selector.as_str(), "' is not visible"),
                    ),
                )
            }
        },
        BrowserCall::Hidden { selector } => {
            if is_seen(reply) {
                Err(
                    ExecutorError::AssertionFailed(
                        join3("Element '", selector.as_str(), "' is visible but expected hidden"),
                    ),
                )
            } else {
                nothing()
            }
        },
        BrowserCall::TextContains { text, .. } => {
            let actual = member_of(reply, "text", "No text returned")?;
            if has_part(actual.as_str(), text.as_str()) {
                nothing()
            } else {
                let head = join3("Text '", actual.as_str(), "' does not contain '");
                Err(ExecutorError::AssertionFailed(join3(head.as_str(), text.as_str(), "'")))
            }
        },
        BrowserCall::UrlContains { pattern } => {
            let url = member_of(reply, "url", "No URL returned")?;
            if has_part(url.as_str(), pattern.as_str()) {
                nothing()
            } else {
                let head = join3("URL '", url.as_str(), "' does not contain '");
                Err(ExecutorError::AssertionFailed(join3(head.as_str(), pattern.as_str(), "'")))
            }
        },
        BrowserCall::TitleIs { title } => {
            let actual = member_of(reply, "title", "No title returned")?;
            if str_eq(actual.as_str(), title.as_str()) {
                nothing()
            } else {
                let head = join3("Title '", actual.as_str(), "' does not match '");
                Err(ExecutorError::AssertionFailed(join3(head.as_str(), title.as_str(), "'")))
            }
        },
        _ => nothing(),
    }
}

/// Whether the answer says that the element can be seen.
fn is_seen(reply: &JsonValue) -> (b: bool)
    ensures
        b == seen(reply@),
{
    match reply.get("visible") {
        Some(value) => match value.as_bool() {
            Some(b) => b,
            None => false,
        },
        None => false,
    }
}

} // verus!
