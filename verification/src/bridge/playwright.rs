//! The bridge to the browser: the requests that drive a page, and what
//! the answers hold.

use vstd::prelude::*;
use crate::bridge::calls::{carries, members, object_of};
use crate::bridge::process::{CommandLine, CommandView};
use crate::error::BridgeError;
use crate::job::NumberTree;
use crate::json::{JsonTree, JsonValue};
use crate::namemap::{as_text, NameMap};
use crate::platform::BrowserType;
use crate::rpc::{new_request, RequestIds, RpcRequest};
use crate::text::texts;

verus! {

/// A count as JSON holds it, or null where there is none.
pub open spec fn count_tree(n: Option<u64>) -> JsonTree {
    match n {
        Some(n) => JsonTree::Number(NumberTree::UInt(n as int)),
        None => JsonTree::Null,
    }
}

/// A count as JSON holds it, or null where there is none.
pub fn count(n: Option<u64>) -> (r: JsonValue)
    ensures
        r@ == count_tree(n),
{
    match n {
        Some(n) => JsonValue::natural(n),
        None => JsonValue::Null,
    }
}

/// The name of a browser as the server reads it.
pub open spec fn browser_name(browser: BrowserType) -> Seq<char> {
    match browser {
        BrowserType::Chromium => "chromium"@,
        BrowserType::Firefox => "firefox"@,
        BrowserType::Webkit => "webkit"@,
    }
}

/// The string that `reply` holds under `key`; where it holds none, the
/// server has failed, and the error says `missing`.
pub fn text_of_reply(reply: &JsonValue, key: &str, missing: &str) -> (r: Result<
    String,
    BridgeError,
>)
    ensures
        match r {
            Ok(text) => reply@.text_at(key@) == Some(text@),
            Err(e) => reply@.text_at(key@) is None && (e matches BridgeError::ServerError(m)
                && m@ == missing@),
        },
{
    match reply.text_at(key) {
        Some(text) => Ok(text.clone()),
        None => Err(BridgeError::ServerError(missing.to_string())),
    }
}

/// The bridge to the browser. Its server is a script that Node.js runs;
/// every request but the launch of a browser names the page or the
/// browser that it is about.
#[derive(Debug)]
pub struct PlaywrightBridge {
    /// The command that runs the server.
    pub run: CommandLine,
}

impl PlaywrightBridge {
    /// The bridge, with the command that runs its server: `node` on the
    /// script of the server, in the directory of the engine.
    pub fn start() -> (bridge: Self)
        ensures
            bridge.run@ == (CommandView {
                program: "node"@,
                args: seq!["extensions/playwright/server.js"@],
                working_dir: None,
                env: Map::empty(),
            }),
    {
        let args = vec!["extensions/playwright/server.js".to_string()];
        assert(texts(args@) =~= seq!["extensions/playwright/server.js"@]);
        let bare: NameMap<String> = NameMap::new();
        assert(as_text(bare@) =~= Map::<Seq<char>, Seq<char>>::empty());
        PlaywrightBridge { run: CommandLine::new("node", &args, &None, &bare) }
    }

    /// The request that launches a browser, with or without a window.
    pub fn browser_launch(&self, ids: &mut RequestIds, browser: BrowserType, headless: bool) -> (request:
        RpcRequest)
        ensures
            carries(
                request,
                *old(ids),
                *final(ids),
                "browser.launch"@,
                JsonTree::Object(
                    seq![
                        ("browserType"@, JsonTree::Text(browser_name(browser))),
                        ("headless"@, JsonTree::Bool(headless)),
                    ],
                ),
            ),
    {
        let name = match browser {
            BrowserType::Chromium => "chromium",
            BrowserType::Firefox => "firefox",
            BrowserType::Webkit => "webkit",
        };
        let list = vec![("browserType", JsonValue::text(name)), ("headless", JsonValue::Bool(headless))];
        assert(members(list@) =~= seq![
            ("browserType"@, JsonTree::Text(browser_name(browser))),
            ("headless"@, JsonTree::Bool(headless)),
        ]);
        new_request(ids, "browser.launch", object_of(list))
    }

    /// The browser that the answer to a launch names.
    pub fn launched(reply: &JsonValue) -> (r: Result<String, BridgeError>)
        ensures
            match r {
                Ok(id) => reply@.text_at("browserId"@) == Some(id@),
                Err(e) => reply@.text_at("browserId"@) is None && (e
                    matches BridgeError::ServerError(m) && m@ == "No browser ID returned"@),
            },
    {
        text_of_reply(reply, "browserId", "No browser ID returned")
    }

    /// The request that opens a page in the browser `browser_id`.
    pub fn page_new(&self, ids: &mut RequestIds, browser_id: &str) -> (request: RpcRequest)
        ensures
            carries(
                request,
                *old(ids),
                *final(ids),
                "page.new"@,
                JsonTree::Object(seq![("browserId"@, JsonTree::Text(browser_id@))]),
            ),
    {
        let list = vec![("browserId", JsonValue::text(browser_id))];
        assert(members(list@) =~= seq![("browserId"@, JsonTree::Text(browser_id@))]);
        new_request(ids, "page.new", object_of(list))
    }

    /// The page that the answer to the opening of a page names.
    pub fn opened(reply: &JsonValue) -> (r: Result<String, BridgeError>)
        ensures
            match r {
                Ok(id) => reply@.text_at("pageId"@) == Some(id@),
                Err(e) => reply@.text_at("pageId"@) is None && (e
                    matches BridgeError::ServerError(m) && m@ == "No page ID returned"@),
            },
    {
        text_of_reply(reply, "pageId", "No page ID returned")
    }

    /// The request that closes the browser `browser_id`.
    pub fn browser_close(&self, ids: &mut RequestIds, browser_id: &str) -> (request: RpcRequest)
        ensures
            carries(
                request,
                *old(ids),
                *final(ids),
                "browser.close"@,
                JsonTree::Object(seq![("browserId"@, JsonTree::Text(browser_id@))]),
            ),
    {
        let list = vec![("browserId", JsonValue::text(browser_id))];
        assert(members(list@) =~= seq![("browserId"@, JsonTree::Text(browser_id@))]);
        new_request(ids, "browser.close", object_of(list))
    }

    /// The request that opens `url` in the page.
    pub fn page_goto(&self, ids: &mut RequestIds, page_id: &str, url: &str) -> (request: RpcRequest)
        ensures
            carries(
                request,
                *old(ids),
                *final(ids),
                "page.goto"@,
                JsonTree::Object(
                    seq![
                        ("pageId"@, JsonTree::Text(page_id@)),
                        ("url"@, JsonTree::Text(url@)),
                    ],
                ),
            ),
    {
        let list = vec![
            ("pageId", JsonValue::text(page_id)),
            ("url", JsonValue::text(url)),
        ];
        assert(members(list@) =~= seq![
            ("pageId"@, JsonTree::Text(page_id@)),
            ("url"@, JsonTree::Text(url@)),
        ]);
        new_request(ids, "page.goto", object_of(list))
    }

    /// The request that loads the page again.
    pub fn page_reload(&self, ids: &mut RequestIds, page_id: &str) -> (request: RpcRequest)
        ensures
            carries(
                request,
                *old(ids),
                *final(ids),
                "page.reload"@,
                JsonTree::Object(
                    seq![
                        ("pageId"@, JsonTree::Text(page_id@)),
                    ],
                ),
            ),
    {
        let list = vec![
            ("pageId", JsonValue::text(page_id)),
        ];
        assert(members(list@) =~= seq![
            ("pageId"@, JsonTree::Text(page_id@)),
        ]);
        new_request(ids, "page.reload", object_of(list))
    }

    /// The request that goes one page back.
    pub fn page_go_back(&self, ids: &mut RequestIds, page_id: &str) -> (request: RpcRequest)
        ensures
            carries(
                request,
                *old(ids),
                *final(ids),
                "page.goBack"@,
                JsonTree::Object(
                    seq![
                        ("pageId"@, JsonTree::Text(page_id@)),
                    ],
                ),
            ),
    {
        let list = vec![
            ("pageId", JsonValue::text(page_id)),
        ];
        assert(members(list@) =~= seq![
            ("pageId"@, JsonTree::Text(page_id@)),
        ]);
        new_request(ids, "page.goBack", object_of(list))
    }

    /// The request that goes one page forward.
    pub fn page_go_forward(&self, ids: &mut RequestIds, page_id: &str) -> (request: RpcRequest)
        ensures
            carries(
                request,
                *old(ids),
                *final(ids),
                "page.goForward"@,
                JsonTree::Object(
                    seq![
                        ("pageId"@, JsonTree::Text(page_id@)),
                    ],
                ),
            ),
    {
        let list = vec![
            ("pageId", JsonValue::text(page_id)),
        ];
        assert(members(list@) =~= seq![
            ("pageId"@, JsonTree::Text(page_id@)),
        ]);
        new_request(ids, "page.goForward", object_of(list))
    }

    /// The request that asks for the address of the page.
    pub fn page_url(&self, ids: &mut RequestIds, page_id: &str) -> (request: RpcRequest)
        ensures
            carries(
                request,
                *old(ids),
                *final(ids),
                "page.url"@,
                JsonTree::Object(
                    seq![
                        ("pageId"@, JsonTree::Text(page_id@)),
                    ],
                ),
            ),
    {
        let list = vec![
            ("pageId", JsonValue::text(page_id)),
        ];
        assert(members(list@) =~= seq![
            ("pageId"@, JsonTree::Text(page_id@)),
        ]);
        new_request(ids, "page.url", object_of(list))
    }

    /// The request that asks for the title of the page.
    pub fn page_title(&self, ids: &mut RequestIds, page_id: &str) -> (request: RpcRequest)
        ensures
            carries(
                request,
                *old(ids),
                *final(ids),
                "page.title"@,
                JsonTree::Object(
                    seq![
                        ("pageId"@, JsonTree::Text(page_id@)),
                    ],
                ),
            ),
    {
        let list = vec![
            ("pageId", JsonValue::text(page_id)),
        ];
        assert(members(list@) =~= seq![
            ("pageId"@, JsonTree::Text(page_id@)),
        ]);
        new_request(ids, "page.title", object_of(list))
    }

    /// The request that clicks the element.
    pub fn element_click(
        &self,
        ids: &mut RequestIds,
        page_id: &str,
        selector: &str,
    ) -> (request: RpcRequest)
        ensures
            carries(
                request,
                *old(ids),
                *final(ids),
                "element.click"@,
                JsonTree::Object(
                    seq![
                        ("pageId"@, JsonTree::Text(page_id@)),
                        ("selector"@, JsonTree::Text(selector@)),
                    ],
                ),
            ),
    {
        let list = vec![
            ("pageId", JsonValue::text(page_id)),
            ("selector", JsonValue::text(selector)),
        ];
        assert(members(list@) =~= seq![
            ("pageId"@, JsonTree::Text(page_id@)),
            ("selector"@, JsonTree::Text(selector@)),
        ]);
        new_request(ids, "element.click", object_of(list))
    }

    /// The request that fills the element with `value`.
    pub fn element_fill(
        &self,
        ids: &mut RequestIds,
        page_id: &str,
        selector: &str,
        value: &str,
    ) -> (request: RpcRequest)
        ensures
            carries(
                request,
                *old(ids),
                *final(ids),
                "element.fill"@,
                JsonTree::Object(
                    seq![
                        ("pageId"@, JsonTree::Text(page_id@)),
                        ("selector"@, JsonTree::Text(selector@)),
                        ("value"@, JsonTree::Text(value@)),
                    ],
                ),
            ),
    {
        let list = vec![
            ("pageId", JsonValue::text(page_id)),
            ("selector", JsonValue::text(selector)),
            ("value", JsonValue::text(value)),
        ];
        assert(members(list@) =~= seq![
            ("pageId"@, JsonTree::Text(page_id@)),
            ("selector"@, JsonTree::Text(selector@)),
            ("value"@, JsonTree::Text(value@)),
        ]);
        new_request(ids, "element.fill", object_of(list))
    }

    /// The request that types `text` into the element, key by key, with
    /// `delay` milliseconds between two keys.
    pub fn element_type(
        &self,
        ids: &mut RequestIds,
        page_id: &str,
        selector: &str,
        text: &str,
        delay: Option<u64>,
    ) -> (request: RpcRequest)
        ensures
            carries(
                request,
                *old(ids),
                *final(ids),
                "element.type"@,
                JsonTree::Object(
                    seq![
                        ("delay"@, count_tree(delay)),
                        ("pageId"@, JsonTree::Text(page_id@)),
                        ("selector"@, JsonTree::Text(selector@)),
                        ("text"@, JsonTree::Text(text@)),
                    ],
                ),
            ),
    {
        let list = vec![
            ("delay", count(delay)),
            ("pageId", JsonValue::text(page_id)),
            ("selector", JsonValue::text(selector)),
            ("text", JsonValue::text(text)),
        ];
        assert(members(list@) =~= seq![
            ("delay"@, count_tree(delay)),
            ("pageId"@, JsonTree::Text(page_id@)),
            ("selector"@, JsonTree::Text(selector@)),
            ("text"@, JsonTree::Text(text@)),
        ]);
        new_request(ids, "element.type", object_of(list))
    }

    /// The request that selects `value` in the element.
    pub fn element_select(
        &self,
        ids: &mut RequestIds,
        page_id: &str,
        selector: &str,
        value: &str,
    ) -> (request: RpcRequest)
        ensures
            carries(
                request,
                *old(ids),
                *final(ids),
                "element.select"@,
                JsonTree::Object(
                    seq![
                        ("pageId"@, JsonTree::Text(page_id@)),
                        ("selector"@, JsonTree::Text(selector@)),
                        ("value"@, JsonTree::Text(value@)),
                    ],
                ),
            ),
    {
        let list = vec![
            ("pageId", JsonValue::text(page_id)),
            ("selector", JsonValue::text(selector)),
            ("value", JsonValue::text(value)),
        ];
        assert(members(list@) =~= seq![
            ("pageId"@, JsonTree::Text(page_id@)),
            ("selector"@, JsonTree::Text(selector@)),
            ("value"@, JsonTree::Text(value@)),
        ]);
        new_request(ids, "element.select", object_of(list))
    }

    /// The request that moves the pointer over the element.
    pub fn element_hover(
        &self,
        ids: &mut RequestIds,
        page_id: &str,
        selector: &str,
    ) -> (request: RpcRequest)
        ensures
            carries(
                request,
                *old(ids),
                *final(ids),
                "element.hover"@,
                JsonTree::Object(
                    seq![
                        ("pageId"@, JsonTree::Text(page_id@)),
                        ("selector"@, JsonTree::Text(selector@)),
                    ],
                ),
            ),
    {
        let list = vec![
            ("pageId", JsonValue::text(page_id)),
            ("selector", JsonValue::text(selector)),
        ];
        assert(members(list@) =~= seq![
            ("pageId"@, JsonTree::Text(page_id@)),
            ("selector"@, JsonTree::Text(selector@)),
        ]);
        new_request(ids, "element.hover", object_of(list))
    }

    /// The request that asks for the text of the element.
    pub fn element_text(
        &self,
        ids: &mut RequestIds,
        page_id: &str,
        selector: &str,
    ) -> (request: RpcRequest)
        ensures
            carries(
                request,
                *old(ids),
                *final(ids),
                "element.textContent"@,
                JsonTree::Object(
                    seq![
                        ("pageId"@, JsonTree::Text(page_id@)),
                        ("selector"@, JsonTree::Text(selector@)),
                    ],
                ),
            ),
    {
        let list = vec![
            ("pageId", JsonValue::text(page_id)),
            ("selector", JsonValue::text(selector)),
        ];
        assert(members(list@) =~= seq![
            ("pageId"@, JsonTree::Text(page_id@)),
            ("selector"@, JsonTree::Text(selector@)),
        ]);
        new_request(ids, "element.textContent", object_of(list))
    }

    /// The request that asks for the attribute `attribute` of the element.
    pub fn element_attribute(
        &self,
        ids: &mut RequestIds,
        page_id: &str,
        selector: &str,
        attribute: &str,
    ) -> (request: RpcRequest)
        ensures
            carries(
                request,
                *old(ids),
                *final(ids),
                "element.getAttribute"@,
                JsonTree::Object(
                    seq![
                        ("attribute"@, JsonTree::Text(attribute@)),
                        ("pageId"@, JsonTree::Text(page_id@)),
                        ("selector"@, JsonTree::Text(selector@)),
                    ],
                ),
            ),
    {
        let list = vec![
            ("attribute", JsonValue::text(attribute)),
            ("pageId", JsonValue::text(page_id)),
            ("selector", JsonValue::text(selector)),
        ];
        assert(members(list@) =~= seq![
            ("attribute"@, JsonTree::Text(attribute@)),
            ("pageId"@, JsonTree::Text(page_id@)),
            ("selector"@, JsonTree::Text(selector@)),
        ]);
        new_request(ids, "element.getAttribute", object_of(list))
    }

    /// The request that asks whether the element can be seen.
    pub fn element_is_visible(
        &self,
        ids: &mut RequestIds,
        page_id: &str,
        selector: &str,
    ) -> (request: RpcRequest)
        ensures
            carries(
                request,
                *old(ids),
                *final(ids),
                "element.isVisible"@,
                JsonTree::Object(
                    seq![
                        ("pageId"@, JsonTree::Text(page_id@)),
                        ("selector"@, JsonTree::Text(selector@)),
                    ],
                ),
            ),
    {
        let list = vec![
            ("pageId", JsonValue::text(page_id)),
            ("selector", JsonValue::text(selector)),
        ];
        assert(members(list@) =~= seq![
            ("pageId"@, JsonTree::Text(page_id@)),
            ("selector"@, JsonTree::Text(selector@)),
        ]);
        new_request(ids, "element.isVisible", object_of(list))
    }

    /// The request that waits for the element, `timeout` milliseconds at
    /// most.
    pub fn wait_for_selector(
        &self,
        ids: &mut RequestIds,
        page_id: &str,
        selector: &str,
        timeout: Option<u64>,
    ) -> (request: RpcRequest)
        ensures
            carries(
                request,
                *old(ids),
                *final(ids),
                "wait.selector"@,
                JsonTree::Object(
                    seq![
                        ("pageId"@, JsonTree::Text(page_id@)),
                        ("selector"@, JsonTree::Text(selector@)),
                        ("timeout"@, count_tree(timeout)),
                    ],
                ),
            ),
    {
        let list = vec![
            ("pageId", JsonValue::text(page_id)),
            ("selector", JsonValue::text(selector)),
            ("timeout", count(timeout)),
        ];
        assert(members(list@) =~= seq![
            ("pageId"@, JsonTree::Text(page_id@)),
            ("selector"@, JsonTree::Text(selector@)),
            ("timeout"@, count_tree(timeout)),
        ]);
        new_request(ids, "wait.selector", object_of(list))
    }

    /// The request that waits until the page has moved on.
    pub fn wait_for_navigation(
        &self,
        ids: &mut RequestIds,
        page_id: &str,
        timeout: Option<u64>,
    ) -> (request: RpcRequest)
        ensures
            carries(
                request,
                *old(ids),
                *final(ids),
                "wait.navigation"@,
                JsonTree::Object(
                    seq![
                        ("pageId"@, JsonTree::Text(page_id@)),
                        ("timeout"@, count_tree(timeout)),
                    ],
                ),
            ),
    {
        let list = vec![
            ("pageId", JsonValue::text(page_id)),
            ("timeout", count(timeout)),
        ];
        assert(members(list@) =~= seq![
            ("pageId"@, JsonTree::Text(page_id@)),
            ("timeout"@, count_tree(timeout)),
        ]);
        new_request(ids, "wait.navigation", object_of(list))
    }

    /// The request that waits until the address of the page matches
    /// `pattern`.
    pub fn wait_for_url(
        &self,
        ids: &mut RequestIds,
        page_id: &str,
        pattern: &str,
        timeout: Option<u64>,
    ) -> (request: RpcRequest)
        ensures
            carries(
                request,
                *old(ids),
                *final(ids),
                "wait.url"@,
                JsonTree::Object(
                    seq![
                        ("pageId"@, JsonTree::Text(page_id@)),
                        ("pattern"@, JsonTree::Text(pattern@)),
                        ("timeout"@, count_tree(timeout)),
                    ],
                ),
            ),
    {
        let list = vec![
            ("pageId", JsonValue::text(page_id)),
            ("pattern", JsonValue::text(pattern)),
            ("timeout", count(timeout)),
        ];
        assert(members(list@) =~= seq![
            ("pageId"@, JsonTree::Text(page_id@)),
            ("pattern"@, JsonTree::Text(pattern@)),
            ("timeout"@, count_tree(timeout)),
        ]);
        new_request(ids, "wait.url", object_of(list))
    }

    /// The request that saves a picture of the page, or of all of it, at
    /// `path`.
    pub fn screenshot(
        &self,
        ids: &mut RequestIds,
        page_id: &str,
        path: &str,
        full_page: bool,
    ) -> (request: RpcRequest)
        ensures
            carries(
                request,
                *old(ids),
                *final(ids),
                "page.screenshot"@,
                JsonTree::Object(
                    seq![
                        ("fullPage"@, JsonTree::Bool(full_page)),
                        ("pageId"@, JsonTree::Text(page_id@)),
                        ("path"@, JsonTree::Text(path@)),
                    ],
                ),
            ),
    {
        let list = vec![
            ("fullPage", JsonValue::Bool(full_page)),
            ("pageId", JsonValue::text(page_id)),
            ("path", JsonValue::text(path)),
        ];
        assert(members(list@) =~= seq![
            ("fullPage"@, JsonTree::Bool(full_page)),
            ("pageId"@, JsonTree::Text(page_id@)),
            ("path"@, JsonTree::Text(path@)),
        ]);
        new_request(ids, "page.screenshot", object_of(list))
    }

    /// The request that prints the page to `path`.
    pub fn pdf(&self, ids: &mut RequestIds, page_id: &str, path: &str) -> (request: RpcRequest)
        ensures
            carries(
                request,
                *old(ids),
                *final(ids),
                "page.pdf"@,
                JsonTree::Object(
                    seq![
                        ("pageId"@, JsonTree::Text(page_id@)),
                        ("path"@, JsonTree::Text(path@)),
                    ],
                ),
            ),
    {
        let list = vec![
            ("pageId", JsonValue::text(page_id)),
            ("path", JsonValue::text(path)),
        ];
        assert(members(list@) =~= seq![
            ("pageId"@, JsonTree::Text(page_id@)),
            ("path"@, JsonTree::Text(path@)),
        ]);
        new_request(ids, "page.pdf", object_of(list))
    }
}

} // verus!
