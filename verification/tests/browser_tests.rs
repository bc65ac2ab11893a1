use testing_actions::actions::playwright::{
    browser_outcome, browser_request, execute_assert, execute_browser_action,
    execute_element_action, execute_network_action, execute_page_action, execute_wait_action,
    BrowserCall,
};
use testing_actions::actions::Plan;
use testing_actions::bridge::playwright::PlaywrightBridge;
use testing_actions::error::{BridgeError, ExecutorError};
use testing_actions::job::NumberValue;
use testing_actions::json::{same_json, JsonValue};
use testing_actions::namemap::NameMap;
use testing_actions::platform::BrowserType;
use testing_actions::rpc::RequestIds;

fn params(list: &[(&str, &str)]) -> NameMap<String> {
    let mut map = NameMap::new();
    for (key, value) in list {
        map.insert(key.to_string(), value.to_string());
    }
    map
}

fn text(s: &str) -> JsonValue {
    JsonValue::Text(s.to_string())
}

fn number(n: u64) -> JsonValue {
    JsonValue::Number(NumberValue::UInt(n))
}

fn object(list: Vec<(&str, JsonValue)>) -> JsonValue {
    JsonValue::Object(list.into_iter().map(|(k, v)| (k.to_string(), v)).collect())
}

fn call(r: Result<Plan, ExecutorError>) -> BrowserCall {
    match r {
        Ok(Plan::Browser(call)) => call,
        other => panic!("unexpected: {:?}", other),
    }
}

fn missing(r: Result<Plan, ExecutorError>) -> String {
    match r {
        Err(ExecutorError::MissingParameter(name)) => name,
        other => panic!("unexpected: {:?}", other),
    }
}

fn unknown(r: Result<Plan, ExecutorError>) -> String {
    match r {
        Err(ExecutorError::UnknownAction(name)) => name,
        other => panic!("unexpected: {:?}", other),
    }
}

fn failed(r: Result<NameMap<String>, ExecutorError>) -> String {
    match r {
        Err(ExecutorError::AssertionFailed(message)) => message,
        other => panic!("unexpected: {:?}", other),
    }
}

fn server(r: Result<NameMap<String>, ExecutorError>) -> String {
    match r {
        Err(ExecutorError::BridgeError(BridgeError::ServerError(message))) => message,
        other => panic!("unexpected: {:?}", other),
    }
}

fn sent(call: &BrowserCall) -> Option<(String, JsonValue)> {
    let bridge = PlaywrightBridge::start();
    let mut ids = RequestIds::new();
    let request = browser_request(&bridge, &mut ids, "page-1", call);
    match request {
        Some(request) => {
            assert_eq!(request.id, 1);
            assert_eq!(request.jsonrpc, "2.0");
            assert_eq!(ids.take(), 2);
            Some((request.method, request.params))
        }
        None => {
            assert_eq!(ids.take(), 1);
            None
        }
    }
}

fn carries(call: &BrowserCall, method: &str, members: Vec<(&str, JsonValue)>) {
    let (m, p) = sent(call).unwrap();
    assert_eq!(m, method, "{:?}", call);
    assert!(same_json(&p, &object(members)), "{:?}: {:?}", call, p);
}

#[test]
fn actions_on_a_page() {
    let p = params(&[("url", "https://example.com")]);
    assert!(matches!(call(execute_page_action("goto", &p)), BrowserCall::Goto { url } if url == "https://example.com"));
    assert_eq!(missing(execute_page_action("goto", &params(&[]))), "url");
    assert!(matches!(call(execute_page_action("reload", &p)), BrowserCall::Reload));
    assert!(matches!(call(execute_page_action("back", &p)), BrowserCall::Back));
    assert!(matches!(call(execute_page_action("forward", &p)), BrowserCall::Forward));
    assert!(matches!(call(execute_page_action("url", &p)), BrowserCall::Url));
    assert!(matches!(call(execute_page_action("title", &p)), BrowserCall::Title));
    assert_eq!(unknown(execute_page_action("Goto", &p)), "page/Goto");
    assert_eq!(unknown(execute_page_action("", &p)), "page/");
}

#[test]
fn actions_on_an_element() {
    let all = params(&[
        ("selector", "#name"),
        ("value", "Ann"),
        ("text", "hello"),
        ("delay", "25"),
        ("attribute", "href"),
    ]);
    assert!(matches!(call(execute_element_action("click", &all)), BrowserCall::Click { selector } if selector == "#name"));
    assert!(matches!(
        call(execute_element_action("fill", &all)),
        BrowserCall::Fill { selector, value } if selector == "#name" && value == "Ann"
    ));
    assert!(matches!(
        call(execute_element_action("type", &all)),
        BrowserCall::Type { text, delay: Some(25), .. } if text == "hello"
    ));
    assert!(matches!(call(execute_element_action("select", &all)), BrowserCall::Select { value, .. } if value == "Ann"));
    assert!(matches!(call(execute_element_action("hover", &all)), BrowserCall::Hover { .. }));
    assert!(matches!(call(execute_element_action("text", &all)), BrowserCall::Text { .. }));
    assert!(matches!(
        call(execute_element_action("attribute", &all)),
        BrowserCall::Attribute { attribute, .. } if attribute == "href"
    ));
    assert_eq!(unknown(execute_element_action("press", &all)), "element/press");

    // the selector is looked for before the action
    assert_eq!(missing(execute_element_action("press", &params(&[]))), "selector");
    let bare = params(&[("selector", "#name")]);
    assert_eq!(missing(execute_element_action("fill", &bare)), "value");
    assert_eq!(missing(execute_element_action("select", &bare)), "value");
    assert_eq!(missing(execute_element_action("type", &bare)), "text");
    assert_eq!(missing(execute_element_action("attribute", &bare)), "attribute");
    // a delay that is no number counts as none
    for delay in ["soon", "-1", "1.5", "", " 5", "18446744073709551616"] {
        let p = params(&[("selector", "#name"), ("text", "x"), ("delay", delay)]);
        assert!(matches!(call(execute_element_action("type", &p)), BrowserCall::Type { delay: None, .. }));
    }
    let p = params(&[("selector", "#name"), ("text", "x"), ("delay", "+7")]);
    assert!(matches!(call(execute_element_action("type", &p)), BrowserCall::Type { delay: Some(7), .. }));
}

#[test]
fn assertions_on_a_page() {
    let all = params(&[("selector", "h1"), ("text", "Welcome"), ("pattern", "/home"), ("title", "Home")]);
    assert!(matches!(call(execute_assert("visible", &all)), BrowserCall::Visible { selector } if selector == "h1"));
    assert!(matches!(call(execute_assert("hidden", &all)), BrowserCall::Hidden { selector } if selector == "h1"));
    assert!(matches!(
        call(execute_assert("text_contains", &all)),
        BrowserCall::TextContains { selector, text } if selector == "h1" && text == "Welcome"
    ));
    assert!(matches!(call(execute_assert("url_contains", &all)), BrowserCall::UrlContains { pattern } if pattern == "/home"));
    assert!(matches!(call(execute_assert("title_is", &all)), BrowserCall::TitleIs { title } if title == "Home"));
    assert_eq!(unknown(execute_assert("status", &all)), "assert/status");
    let none = params(&[]);
    assert_eq!(missing(execute_assert("visible", &none)), "selector");
    assert_eq!(missing(execute_assert("hidden", &none)), "selector");
    assert_eq!(missing(execute_assert("text_contains", &none)), "selector");
    assert_eq!(missing(execute_assert("text_contains", &params(&[("selector", "h1")]))), "text");
    assert_eq!(missing(execute_assert("url_contains", &none)), "pattern");
    assert_eq!(missing(execute_assert("title_is", &none)), "title");
}

#[test]
fn waits_on_a_page() {
    let all = params(&[("selector", ".done"), ("pattern", "**/home"), ("timeout", "5000"), ("ms", "250")]);
    assert!(matches!(
        call(execute_wait_action("selector", &all)),
        BrowserCall::WaitSelector { selector, timeout: Some(5000) } if selector == ".done"
    ));
    assert!(matches!(
        call(execute_wait_action("navigation", &all)),
        BrowserCall::WaitNavigation { timeout: Some(5000) }
    ));
    assert!(matches!(
        call(execute_wait_action("url", &all)),
        BrowserCall::WaitUrl { pattern, timeout: Some(5000) } if pattern == "**/home"
    ));
    assert!(matches!(call(execute_wait_action("timeout", &all)), BrowserCall::Sleep { ms: 250 }));
    assert_eq!(unknown(execute_wait_action("ms", &all)), "wait/ms");

    let none = params(&[("timeout", "never")]);
    assert!(matches!(
        call(execute_wait_action("navigation", &none)),
        BrowserCall::WaitNavigation { timeout: None }
    ));
    assert_eq!(missing(execute_wait_action("selector", &none)), "selector");
    assert_eq!(missing(execute_wait_action("url", &none)), "pattern");
    assert_eq!(missing(execute_wait_action("timeout", &none)), "ms");
    assert_eq!(
        missing(execute_wait_action("timeout", &params(&[("ms", "1s")]))),
        "ms must be a number"
    );
    assert!(matches!(
        call(execute_wait_action("timeout", &params(&[("ms", "18446744073709551615")]))),
        BrowserCall::Sleep { ms: u64::MAX }
    ));
}

#[test]
fn pictures_and_the_network() {
    assert!(matches!(
        call(execute_browser_action("screenshot", &params(&[("path", "a.png"), ("fullPage", "true")]))),
        BrowserCall::Screenshot { path, full_page: true } if path == "a.png"
    ));
    for flag in ["True", "1", "yes", ""] {
        assert!(matches!(
            call(execute_browser_action("screenshot", &params(&[("path", "a.png"), ("fullPage", flag)]))),
            BrowserCall::Screenshot { full_page: false, .. }
        ));
    }
    assert!(matches!(
        call(execute_browser_action("screenshot", &params(&[("path", "a.png")]))),
        BrowserCall::Screenshot { full_page: false, .. }
    ));
    assert!(matches!(
        call(execute_browser_action("pdf", &params(&[("path", "a.pdf")]))),
        BrowserCall::Pdf { path } if path == "a.pdf"
    ));
    assert_eq!(missing(execute_browser_action("screenshot", &params(&[]))), "path");
    assert_eq!(missing(execute_browser_action("pdf", &params(&[]))), "path");
    assert_eq!(unknown(execute_browser_action("close", &params(&[]))), "browser/close");

    for action in ["intercept", "mock", "wait_for_response"] {
        assert!(matches!(call(execute_network_action(action)), BrowserCall::Nothing));
    }
    assert_eq!(unknown(execute_network_action("block")), "network/block");
}

#[test]
fn what_is_asked_of_the_page() {
    let page = || ("pageId", text("page-1"));
    let s = |v: &str| v.to_string();
    carries(&BrowserCall::Goto { url: s("u") }, "page.goto", vec![page(), ("url", text("u"))]);
    carries(&BrowserCall::Reload, "page.reload", vec![page()]);
    carries(&BrowserCall::Back, "page.goBack", vec![page()]);
    carries(&BrowserCall::Forward, "page.goForward", vec![page()]);
    carries(&BrowserCall::Url, "page.url", vec![page()]);
    carries(&BrowserCall::UrlContains { pattern: s("x") }, "page.url", vec![page()]);
    carries(&BrowserCall::Title, "page.title", vec![page()]);
    carries(&BrowserCall::TitleIs { title: s("x") }, "page.title", vec![page()]);
    carries(&BrowserCall::Click { selector: s("a") }, "element.click", vec![page(), ("selector", text("a"))]);
    carries(
        &BrowserCall::Fill { selector: s("a"), value: s("v") },
        "element.fill",
        vec![page(), ("selector", text("a")), ("value", text("v"))],
    );
    carries(
        &BrowserCall::Type { selector: s("a"), text: s("t"), delay: Some(5) },
        "element.type",
        vec![("delay", number(5)), page(), ("selector", text("a")), ("text", text("t"))],
    );
    carries(
        &BrowserCall::Type { selector: s("a"), text: s("t"), delay: None },
        "element.type",
        vec![("delay", JsonValue::Null), page(), ("selector", text("a")), ("text", text("t"))],
    );
    carries(
        &BrowserCall::Select { selector: s("a"), value: s("v") },
        "element.select",
        vec![page(), ("selector", text("a")), ("value", text("v"))],
    );
    carries(&BrowserCall::Hover { selector: s("a") }, "element.hover", vec![page(), ("selector", text("a"))]);
    carries(&BrowserCall::Text { selector: s("a") }, "element.textContent", vec![page(), ("selector", text("a"))]);
    carries(
        &BrowserCall::TextContains { selector: s("a"), text: s("t") },
        "element.textContent",
        vec![page(), ("selector", text("a"))],
    );
    carries(
        &BrowserCall::Attribute { selector: s("a"), attribute: s("href") },
        "element.getAttribute",
        vec![("attribute", text("href")), page(), ("selector", text("a"))],
    );
    carries(&BrowserCall::Visible { selector: s("a") }, "element.isVisible", vec![page(), ("selector", text("a"))]);
    carries(&BrowserCall::Hidden { selector: s("a") }, "element.isVisible", vec![page(), ("selector", text("a"))]);
    carries(
        &BrowserCall::WaitSelector { selector: s("a"), timeout: Some(9) },
        "wait.selector",
        vec![page(), ("selector", text("a")), ("timeout", number(9))],
    );
    carries(
        &BrowserCall::WaitNavigation { timeout: None },
        "wait.navigation",
        vec![page(), ("timeout", JsonValue::Null)],
    );
    carries(
        &BrowserCall::WaitUrl { pattern: s("p"), timeout: Some(1) },
        "wait.url",
        vec![page(), ("pattern", text("p")), ("timeout", number(1))],
    );
    carries(
        &BrowserCall::Screenshot { path: s("a.png"), full_page: true },
        "page.screenshot",
        vec![("fullPage", JsonValue::Bool(true)), page(), ("path", text("a.png"))],
    );
    carries(&BrowserCall::Pdf { path: s("a.pdf") }, "page.pdf", vec![page(), ("path", text("a.pdf"))]);
    assert!(sent(&BrowserCall::Sleep { ms: 5 }).is_none());
    assert!(sent(&BrowserCall::Nothing).is_none());
}

#[test]
fn the_browser_and_its_pages() {
    let bridge = PlaywrightBridge::start();
    assert_eq!(bridge.run.program, "node");
    assert_eq!(bridge.run.args, vec!["extensions/playwright/server.js".to_string()]);
    assert_eq!(bridge.run.working_dir, None);
    assert!(bridge.run.env.is_empty());

    let mut ids = RequestIds::new();
    for (browser, name) in [
        (BrowserType::Chromium, "chromium"),
        (BrowserType::Firefox, "firefox"),
        (BrowserType::Webkit, "webkit"),
    ] {
        let request = bridge.browser_launch(&mut ids, browser, true);
        assert_eq!(request.method, "browser.launch");
        assert!(same_json(
            &request.params,
            &object(vec![("browserType", text(name)), ("headless", JsonValue::Bool(true))])
        ));
    }
    let request = bridge.page_new(&mut ids, "b-1");
    assert_eq!((request.id, request.method.as_str()), (4, "page.new"));
    assert!(same_json(&request.params, &object(vec![("browserId", text("b-1"))])));
    let request = bridge.browser_close(&mut ids, "b-1");
    assert_eq!((request.id, request.method.as_str()), (5, "browser.close"));
    assert!(same_json(&request.params, &object(vec![("browserId", text("b-1"))])));

    assert_eq!(PlaywrightBridge::launched(&object(vec![("browserId", text("b-1"))])).unwrap(), "b-1");
    assert!(matches!(
        PlaywrightBridge::launched(&object(vec![("browserId", number(1))])),
        Err(BridgeError::ServerError(m)) if m == "No browser ID returned"
    ));
    assert_eq!(PlaywrightBridge::opened(&object(vec![("pageId", text("p-1"))])).unwrap(), "p-1");
    assert!(matches!(
        PlaywrightBridge::opened(&JsonValue::Null),
        Err(BridgeError::ServerError(m)) if m == "No page ID returned"
    ));
}

#[test]
fn what_the_answers_of_the_page_come_to() {
    let s = |v: &str| v.to_string();
    let one = |r: Result<NameMap<String>, ExecutorError>| r.unwrap().into_entries();
    let none = object(vec![]);

    assert_eq!(
        one(browser_outcome(&BrowserCall::Url, &object(vec![("url", text("https://x/home"))]))),
        vec![(s("url"), s("https://x/home"))]
    );
    assert_eq!(server(browser_outcome(&BrowserCall::Url, &none)), "No URL returned");
    assert_eq!(
        one(browser_outcome(&BrowserCall::Title, &object(vec![("title", text("Home"))]))),
        vec![(s("title"), s("Home"))]
    );
    assert_eq!(server(browser_outcome(&BrowserCall::Title, &none)), "No title returned");
    let read = BrowserCall::Text { selector: s("h1") };
    assert_eq!(
        one(browser_outcome(&read, &object(vec![("text", text("Welcome"))]))),
        vec![(s("text"), s("Welcome"))]
    );
    assert_eq!(server(browser_outcome(&read, &object(vec![("text", JsonValue::Null)]))), "No text returned");
    let attribute = BrowserCall::Attribute { selector: s("a"), attribute: s("href") };
    assert_eq!(
        one(browser_outcome(&attribute, &object(vec![("value", text("/home"))]))),
        vec![(s("value"), s("/home"))]
    );
    assert_eq!(
        one(browser_outcome(&attribute, &object(vec![("value", JsonValue::Null)]))),
        vec![(s("value"), s(""))]
    );

    let yes = object(vec![("visible", JsonValue::Bool(true))]);
    let no = object(vec![("visible", JsonValue::Bool(false))]);
    let visible = BrowserCall::Visible { selector: s("#ok") };
    let hidden = BrowserCall::Hidden { selector: s("#ok") };
    assert!(one(browser_outcome(&visible, &yes)).is_empty());
    assert_eq!(failed(browser_outcome(&visible, &no)), "Element '#ok' is not visible");
    assert_eq!(failed(browser_outcome(&visible, &none)), "Element '#ok' is not visible");
    assert_eq!(
        failed(browser_outcome(&visible, &object(vec![("visible", text("true"))]))),
        "Element '#ok' is not visible"
    );
    assert!(one(browser_outcome(&hidden, &no)).is_empty());
    assert!(one(browser_outcome(&hidden, &none)).is_empty());
    assert_eq!(
        failed(browser_outcome(&hidden, &yes)),
        "Element '#ok' is visible but expected hidden"
    );

    let holds = BrowserCall::TextContains { selector: s("h1"), text: s("come") };
    assert!(one(browser_outcome(&holds, &object(vec![("text", text("Welcome"))]))).is_empty());
    assert!(one(browser_outcome(&holds, &object(vec![("text", text("come"))]))).is_empty());
    assert_eq!(
        failed(browser_outcome(&holds, &object(vec![("text", text("Welcom"))]))),
        "Text 'Welcom' does not contain 'come'"
    );
    assert_eq!(
        failed(browser_outcome(&holds, &object(vec![("text", text(""))]))),
        "Text '' does not contain 'come'"
    );
    assert_eq!(server(browser_outcome(&holds, &none)), "No text returned");
    let any = BrowserCall::TextContains { selector: s("h1"), text: s("") };
    assert!(one(browser_outcome(&any, &object(vec![("text", text(""))]))).is_empty());

    let at = BrowserCall::UrlContains { pattern: s("/home") };
    assert!(one(browser_outcome(&at, &object(vec![("url", text("https://x/home?a=1"))]))).is_empty());
    assert_eq!(
        failed(browser_outcome(&at, &object(vec![("url", text("https://x/hom"))]))),
        "URL 'https://x/hom' does not contain '/home'"
    );
    assert_eq!(server(browser_outcome(&at, &none)), "No URL returned");

    let titled = BrowserCall::TitleIs { title: s("Home") };
    assert!(one(browser_outcome(&titled, &object(vec![("title", text("Home"))]))).is_empty());
    assert_eq!(
        failed(browser_outcome(&titled, &object(vec![("title", text("Home page"))]))),
        "Title 'Home page' does not match 'Home'"
    );
    assert_eq!(server(browser_outcome(&titled, &none)), "No title returned");

    for call in [
        BrowserCall::Goto { url: s("u") },
        BrowserCall::Reload,
        BrowserCall::Click { selector: s("a") },
        BrowserCall::WaitNavigation { timeout: None },
        BrowserCall::Sleep { ms: 1 },
        BrowserCall::Pdf { path: s("p") },
        BrowserCall::Nothing,
    ] {
        assert!(one(browser_outcome(&call, &JsonValue::Null)).is_empty());
    }
}
