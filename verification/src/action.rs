//! Actions: the `category/action` pair that a step names in `uses`.

use vstd::prelude::*;
use crate::platform::Platform;
use crate::text::{from_chars, is_word, join2, join3, split_chars, split_text, to_chars};

verus! {

/// The categories of actions. The set is closed.
#[derive(Debug, Clone, Copy, PartialEq, Eq, Structural)]
pub enum ActionCategory {
    Page,
    Element,
    Assert,
    Wait,
    Browser,
    Network,
    Node,
    Ctx,
    Mock,
    Hook,
    Rs,
    Py,
    Java,
    Go,
    Web,
    Fail,
    Clock,
    Bash,
}

/// The platform that a category needs; none for the categories that work
/// on every platform.
pub open spec fn platform_of(category: ActionCategory) -> Option<Platform> {
    match category {
        ActionCategory::Page | ActionCategory::Element | ActionCategory::Browser
        | ActionCategory::Network => Some(Platform::Playwright),
        ActionCategory::Node | ActionCategory::Ctx | ActionCategory::Mock
        | ActionCategory::Hook => Some(Platform::Nodejs),
        ActionCategory::Rs => Some(Platform::Rust),
        ActionCategory::Py => Some(Platform::Python),
        ActionCategory::Java => Some(Platform::Java),
        ActionCategory::Go => Some(Platform::Go),
        ActionCategory::Web => Some(Platform::Web),
        ActionCategory::Assert | ActionCategory::Wait | ActionCategory::Fail
        | ActionCategory::Clock | ActionCategory::Bash => None,
    }
}

/// The category that `name` stands for.
pub open spec fn category_named(name: Seq<char>) -> Option<ActionCategory> {
    if name == "page"@ {
        Some(ActionCategory::Page)
    } else if name == "element"@ {
        Some(ActionCategory::Element)
    } else if name == "assert"@ {
        Some(ActionCategory::Assert)
    } else if name == "wait"@ {
        Some(ActionCategory::Wait)
    } else if name == "browser"@ {
        Some(ActionCategory::Browser)
    } else if name == "network"@ {
        Some(ActionCategory::Network)
    } else if name == "node"@ {
        Some(ActionCategory::Node)
    } else if name == "ctx"@ {
        Some(ActionCategory::Ctx)
    } else if name == "mock"@ {
        Some(ActionCategory::Mock)
    } else if name == "hook"@ {
        Some(ActionCategory::Hook)
    } else if name == "rs"@ {
        Some(ActionCategory::Rs)
    } else if name == "py"@ {
        Some(ActionCategory::Py)
    } else if name == "java"@ {
        Some(ActionCategory::Java)
    } else if name == "go"@ {
        Some(ActionCategory::Go)
    } else if name == "web"@ {
        Some(ActionCategory::Web)
    } else if name == "fail"@ {
        Some(ActionCategory::Fail)
    } else if name == "clock"@ {
        Some(ActionCategory::Clock)
    } else if name == "bash"@ {
        Some(ActionCategory::Bash)
    } else {
        None
    }
}

/// The category that `name` stands for.
pub fn category_from_name(name: &Vec<char>) -> (c: Option<ActionCategory>)
    ensures
        c == category_named(name@),
{
    if is_word(name, "page") {
        Some(ActionCategory::Page)
    } else if is_word(name, "element") {
        Some(ActionCategory::Element)
    } else if is_word(name, "assert") {
        Some(ActionCategory::Assert)
    } else if is_word(name, "wait") {
        Some(ActionCategory::Wait)
    } else if is_word(name, "browser") {
        Some(ActionCategory::Browser)
    } else if is_word(name, "network") {
        Some(ActionCategory::Network)
    } else if is_word(name, "node") {
        Some(ActionCategory::Node)
    } else if is_word(name, "ctx") {
        Some(ActionCategory::Ctx)
    } else if is_word(name, "mock") {
        Some(ActionCategory::Mock)
    } else if is_word(name, "hook") {
        Some(ActionCategory::Hook)
    } else if is_word(name, "rs") {
        Some(ActionCategory::Rs)
    } else if is_word(name, "py") {
        Some(ActionCategory::Py)
    } else if is_word(name, "java") {
        Some(ActionCategory::Java)
    } else if is_word(name, "go") {
        Some(ActionCategory::Go)
    } else if is_word(name, "web") {
        Some(ActionCategory::Web)
    } else if is_word(name, "fail") {
        Some(ActionCategory::Fail)
    } else if is_word(name, "clock") {
        Some(ActionCategory::Clock)
    } else if is_word(name, "bash") {
        Some(ActionCategory::Bash)
    } else {
        None
    }
}

impl ActionCategory {
    /// Whether the category needs the browser platform.
    pub fn requires_playwright(&self) -> (b: bool)
        ensures
            b == (platform_of(*self) == Some(Platform::Playwright)),
    {
        matches!(
            self,
            ActionCategory::Page | ActionCategory::Element | ActionCategory::Browser
                | ActionCategory::Network
        )
    }

    /// Whether the category needs the Node.js bridge.
    pub fn requires_nodejs(&self) -> (b: bool)
        ensures
            b == (platform_of(*self) == Some(Platform::Nodejs)),
    {
        matches!(
            self,
            ActionCategory::Node | ActionCategory::Ctx | ActionCategory::Mock | ActionCategory::Hook
        )
    }

    /// Whether the category needs the Rust bridge.
    pub fn requires_rust(&self) -> (b: bool)
        ensures
            b == (platform_of(*self) == Some(Platform::Rust)),
    {
        matches!(self, ActionCategory::Rs)
    }

    /// Whether the category needs the Python bridge.
    pub fn requires_python(&self) -> (b: bool)
        ensures
            b == (platform_of(*self) == Some(Platform::Python)),
    {
        matches!(self, ActionCategory::Py)
    }

    /// Whether the category needs the Java bridge.
    pub fn requires_java(&self) -> (b: bool)
        ensures
            b == (platform_of(*self) == Some(Platform::Java)),
    {
        matches!(self, ActionCategory::Java)
    }

    /// Whether the category needs the Go bridge.
    pub fn requires_go(&self) -> (b: bool)
        ensures
            b == (platform_of(*self) == Some(Platform::Go)),
    {
        matches!(self, ActionCategory::Go)
    }

    /// Whether the category needs the HTTP bridge.
    pub fn requires_web(&self) -> (b: bool)
        ensures
            b == (platform_of(*self) == Some(Platform::Web)),
    {
        matches!(self, ActionCategory::Web)
    }

    /// Whether the category works on every platform.
    pub fn is_platform_agnostic(&self) -> (b: bool)
        ensures
            b == (platform_of(*self) is None),
    {
        matches!(
            self,
            ActionCategory::Assert | ActionCategory::Wait | ActionCategory::Fail
                | ActionCategory::Clock | ActionCategory::Bash
        )
    }

    /// The platform that the category needs, if it needs one.
    pub fn infer_platform(&self) -> (p: Option<Platform>)
        ensures
            p == platform_of(*self),
    {
        if self.requires_playwright() {
            Some(Platform::Playwright)
        } else if self.requires_nodejs() {
            Some(Platform::Nodejs)
        } else if self.requires_rust() {
            Some(Platform::Rust)
        } else if self.requires_python() {
            Some(Platform::Python)
        } else if self.requires_java() {
            Some(Platform::Java)
        } else if self.requires_go() {
            Some(Platform::Go)
        } else if self.requires_web() {
            Some(Platform::Web)
        } else {
            None
        }
    }
}

/// An action as parsed from `uses`.
#[derive(Debug, Clone)]
pub struct ParsedAction {
    pub category: ActionCategory,
    pub action: String,
}

/// Whether an action of `category` can run on `platform`: the category
/// needs that platform, or works on every platform.
pub open spec fn compatible(category: ActionCategory, platform: Platform) -> bool {
    platform_of(category) == Some(platform) || platform_of(category) is None
}

/// What `uses` parses to: it must be two pieces around one slash, the first
/// the name of a category.
pub open spec fn parsed(uses: Seq<char>) -> Result<(ActionCategory, Seq<char>), Seq<char>> {
    let pieces = split_text(uses, '/');
    if pieces.len() != 2 {
        Err("Invalid action format '"@ + uses + "'. Expected 'category/action'"@)
    } else {
        match category_named(pieces[0]) {
            Some(category) => Ok((category, pieces[1])),
            None => Err("Unknown action category: "@ + pieces[0]),
        }
    }
}

impl ParsedAction {
    /// Parses an action such as `page/goto` into its category and its name.
    pub fn parse(uses: &str) -> (r: Result<Self, String>)
        ensures
            match r {
                Ok(action) => parsed(uses@) == Ok::<(ActionCategory, Seq<char>), Seq<char>>(
                    (action.category, action.action@),
                ),
                Err(message) => parsed(uses@) == Err::<(ActionCategory, Seq<char>), Seq<char>>(
                    message@,
                ),
            },
    {
        let chars = to_chars(uses);
        let pieces = split_chars(&chars, '/');
        if pieces.len() != 2 {
            return Err(join3("Invalid action format '", uses, "'. Expected 'category/action'"));
        }
        match category_from_name(&pieces[0]) {
            Some(category) => Ok(ParsedAction { category, action: from_chars(&pieces[1]) }),
            None => {
                let name = from_chars(&pieces[0]);
                Err(join2("Unknown action category: ", name.as_str()))
            },
        }
    }

    /// Whether the action can run on `platform`.
    pub fn is_compatible_with(&self, platform: &Platform) -> (b: bool)
        ensures
            b == compatible(self.category, *platform),
    {
        match platform {
            Platform::Playwright => self.category.requires_playwright()
                || self.category.is_platform_agnostic(),
            Platform::Nodejs => self.category.requires_nodejs()
                || self.category.is_platform_agnostic(),
            Platform::Rust => self.category.requires_rust() || self.category.is_platform_agnostic(),
            Platform::Python => self.category.requires_python()
                || self.category.is_platform_agnostic(),
            Platform::Java => self.category.requires_java() || self.category.is_platform_agnostic(),
            Platform::Go => self.category.requires_go() || self.category.is_platform_agnostic(),
            Platform::Web => self.category.requires_web() || self.category.is_platform_agnostic(),
        }
    }
}

} // verus!
