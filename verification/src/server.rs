//! The server of a registry: it answers the requests of the engine, one
//! at a time, out of a registry and of the context that the functions of
//! the registry share.

use vstd::prelude::*;
use crate::bridge::calls::{members, object_of};
use crate::bridge::AssertionResult;
use crate::context::option_text;
use crate::job::NumberTree;
use crate::json::{items_view, JsonTree, JsonValue};
use crate::namemap::{as_text, NameMap};
use crate::registry::{kept, ClockState, Context, RustRegistry};
use crate::rpc::{
    FunctionInfo, RpcRequest, RpcResponse, FUNCTION_ERROR, HOOK_ERROR, INVALID_PARAMS,
    METHOD_NOT_FOUND, PARSE_ERROR,
};
use crate::text::{is_word, join3, to_chars, trim_chars, trim_text};
use crate::web::{string_map, string_map_of};

verus! {

/// What a response says.
pub enum Reply {
    Success(JsonTree),
    Failure(int, Seq<char>),
}

/// Whether `response` answers the request `id` with `reply`.
pub open spec fn answers(response: RpcResponse, id: u64, reply: Reply) -> bool {
    response.jsonrpc@ == "2.0"@ && response.id == id && match reply {
        Reply::Success(value) => response.error is None && (response.result matches Some(v) && v@
            == value),
        Reply::Failure(code, message) => response.result is None && (response.error matches Some(
            e,
        ) && e.code == code && e.message@ == message),
    }
}

/// The answer that all went well.
pub open spec fn done() -> Reply {
    Reply::Success(JsonTree::Object(seq![("ok"@, JsonTree::Bool(true))]))
}

/// The values of a context by key, each by what it holds.
pub open spec fn held(ctx: Context) -> Map<Seq<char>, JsonTree> {
    Map::new(|key: Seq<char>| ctx@.contains_key(key), |key: Seq<char>| ctx@[key]@)
}

/// Whether two contexts differ in nothing but their values.
pub open spec fn same_but_values(before: Context, after: Context) -> bool {
    after.outputs() == before.outputs() && after.info() == before.info() && after.clock_state()
        == before.clock_state()
}

/// Whether two contexts hold the same values.
pub open spec fn same_values(before: Context, after: Context) -> bool {
    after@ == before@ && after.entries() == before.entries()
}

/// A function or an assertion as a listing shows it.
pub open spec fn listed(info: FunctionInfo) -> JsonTree {
    JsonTree::Object(
        seq![("description"@, JsonTree::Text(info.description@)), ("name"@, JsonTree::Text(info.name@))],
    )
}

/// What a listing shows.
pub open spec fn listing(infos: Seq<FunctionInfo>) -> Seq<JsonTree> {
    Seq::new(infos.len(), |i: int| listed(infos[i]))
}

/// A value, or null where there is none.
pub open spec fn tree_or_null(value: Option<JsonValue>) -> JsonTree {
    match value {
        Some(v) => v@,
        None => JsonTree::Null,
    }
}

/// What an assertion came to, as the engine reads it.
pub open spec fn assertion_tree(result: AssertionResult) -> JsonTree {
    JsonTree::Object(
        seq![
            ("actual"@, tree_or_null(result.actual)),
            ("expected"@, tree_or_null(result.expected)),
            (
                "message"@,
                match result.message {
                    Some(m) => JsonTree::Text(m@),
                    None => JsonTree::Null,
                },
            ),
            ("success"@, JsonTree::Bool(result.success)),
        ],
    )
}

/// The answer that all went well.
pub fn ok_reply(id: u64) -> (response: RpcResponse)
    ensures
        answers(response, id, done()),
{
    let list = vec![("ok", JsonValue::Bool(true))];
    assert(members(list@) =~= seq![("ok"@, JsonTree::Bool(true))]);
    RpcResponse::success(id, object_of(list))
}

/// The answer to a call of a function: what it returned, as the member
/// `result`; or its error, as an error of the function.
pub fn call_reply(id: u64, outcome: Result<JsonValue, String>) -> (response: RpcResponse)
    ensures
        answers(
            response,
            id,
            match outcome {
                Ok(value) => Reply::Success(JsonTree::Object(seq![("result"@, value@)])),
                Err(message) => Reply::Failure(FUNCTION_ERROR as int, message@),
            },
        ),
{
    match outcome {
        Ok(value) => {
            let list = vec![("result", value)];
            assert(members(list@) =~= seq![("result"@, value@)]);
            RpcResponse::success(id, object_of(list))
        },
        Err(message) => RpcResponse::error(id, FUNCTION_ERROR, message.as_str()),
    }
}

/// The answer to a call of a hook: that all went well; or its error, as
/// an error of the hook.
pub fn hook_reply(id: u64, outcome: Result<(), String>) -> (response: RpcResponse)
    ensures
        answers(
            response,
            id,
            match outcome {
                Ok(_) => done(),
                Err(message) => Reply::Failure(HOOK_ERROR as int, message@),
            },
        ),
{
    match outcome {
        Ok(_) => ok_reply(id),
        Err(message) => RpcResponse::error(id, HOOK_ERROR, message.as_str()),
    }
}

/// The answer to an assertion: what it came to. An assertion that does
/// not hold is no error of the server.
pub fn assertion_reply(id: u64, result: AssertionResult) -> (response: RpcResponse)
    ensures
        answers(response, id, Reply::Success(assertion_tree(result))),
{
    let ghost wanted = assertion_tree(result)->Object_0;
    let actual = match result.actual {
        Some(v) => v,
        None => JsonValue::Null,
    };
    let expected = match result.expected {
        Some(v) => v,
        None => JsonValue::Null,
    };
    let message = match result.message {
        Some(m) => JsonValue::Text(m),
        None => JsonValue::Null,
    };
    let list = vec![
        ("actual", actual),
        ("expected", expected),
        ("message", message),
        ("success", JsonValue::Bool(result.success)),
    ];
    assert(members(list@) =~= wanted);
    RpcResponse::success(id, object_of(list))
}

/// The answer to a listing: the functions or assertions `infos`, under
/// `key`, each with its name and its description.
pub fn listing_reply(id: u64, key: &str, infos: Vec<FunctionInfo>) -> (response: RpcResponse)
    ensures
        answers(
            response,
            id,
            Reply::Success(JsonTree::Object(seq![(key@, JsonTree::Array(listing(infos@)))])),
        ),
{
    let ghost wanted = listing(infos@);
    let mut items: Vec<JsonValue> = Vec::new();
    for info in it: infos
        invariant
            wanted == listing(it.seq()),
            items.len() == it.index(),
            forall|j: int| 0 <= j < items.len() ==> (#[trigger] items[j])@ == wanted[j],
    {
        let list = vec![
            ("description", JsonValue::Text(info.description)),
            ("name", JsonValue::Text(info.name)),
        ];
        assert(members(list@) =~= listed(info)->Object_0);
        items.push(object_of(list));
    }
    assert(items_view(items@) =~= wanted);
    let list = vec![(key, JsonValue::array(items))];
    assert(members(list@) =~= seq![(key@, JsonTree::Array(wanted))]);
    RpcResponse::success(id, object_of(list))
}

/// The answer to a request that lacks the parameter `name`.
fn missing(id: u64, name: &str) -> (response: RpcResponse)
    ensures
        answers(response, id, lacks(name@)),
{
    let message = join3("Missing '", name, "' param");
    RpcResponse::error(id, INVALID_PARAMS, message.as_str())
}

/// The methods whose answer the registry decides.
pub open spec fn asks_registry(method: Seq<char>, params: JsonTree) -> bool {
    ((method == "fn.call"@ || method == "assert.custom"@) && params.text_at("name"@) is Some) || (
    method == "hook.call"@ && params.text_at("hook"@) is Some) || method == "list_functions"@
        || method == "list_assertions"@
}

/// The pattern of a request to clear: every key, where it names none.
pub open spec fn clear_pattern(params: JsonTree) -> Seq<char> {
    match params.text_at("pattern"@) {
        Some(pattern) => pattern,
        None => "*"@,
    }
}

/// A string of the parameters, empty where it is not there.
pub open spec fn text_or_empty(params: JsonTree, key: Seq<char>) -> Seq<char> {
    match params.text_at(key) {
        Some(text) => text,
        None => Seq::empty(),
    }
}

/// The outputs of a request to mirror the outputs of a step: an object
/// of strings, and else none.
pub open spec fn mirrored(params: JsonTree) -> Map<Seq<char>, Seq<char>> {
    match string_map_of(params.get_or_null("outputs"@)) {
        Some(outputs) => outputs,
        None => Map::empty(),
    }
}

/// Whether `clock` is the state of the clock that `params` describe:
/// the virtual time in milliseconds and as text, each where it is
/// there, and whether time stands still, which it does not where the
/// parameters do not say.
pub open spec fn reads_clock(params: JsonTree, clock: ClockState) -> bool {
    (match params.get_or_null("virtual_time_ms"@).as_integer() {
        Some(ms) => clock.virtual_time_ms == Some(ms as i64),
        None => clock.virtual_time_ms is None,
    }) && option_text(clock.virtual_time_iso) == params.text_at("virtual_time_iso"@) && clock.frozen
        == (params.get_or_null("frozen"@).as_bool() == Some(true))
}

/// The answer to a request that lacks the parameter `name`.
pub open spec fn lacks(name: Seq<char>) -> Reply {
    Reply::Failure(INVALID_PARAMS as int, "Missing '"@ + name + "' param"@)
}

/// The answer to a request to read: the value under the parameter
/// `key`, or null where there is none, as the member `value`.
pub open spec fn get_reply(params: JsonTree, ctx: Context) -> Reply {
    match params.text_at("key"@) {
        Some(key) => Reply::Success(
            JsonTree::Object(
                seq![
                    (
                        "value"@,
                        if ctx@.contains_key(key) {
                            ctx@[key]@
                        } else {
                            JsonTree::Null
                        },
                    ),
                ],
            ),
        ),
        None => lacks("key"@),
    }
}

/// The answer to a request that needs the parameter `name` and then
/// goes well.
pub open spec fn done_with(params: JsonTree, name: Seq<char>) -> Reply {
    match params.text_at(name) {
        Some(_) => done(),
        None => lacks(name),
    }
}

/// What a request to write does to the context: the parameter `value`,
/// or null, stands under the parameter `key`. A request without a key
/// changes nothing.
pub open spec fn set_changes(params: JsonTree, before: Context, after: Context) -> bool {
    match params.text_at("key"@) {
        Some(key) => held(after) == held(before).insert(key, params.get_or_null("value"@))
            && same_but_values(before, after),
        None => after == before,
    }
}

/// The answer to a request to clear: how many values went, as the
/// member `cleared`.
pub open spec fn clear_reply(params: JsonTree, ctx: Context) -> Reply {
    Reply::Success(
        JsonTree::Object(
            seq![
                (
                    "cleared"@,
                    JsonTree::Number(
                        NumberTree::UInt(
                            ctx.entries().len() - kept(ctx.entries(), clear_pattern(params)).len(),
                        ),
                    ),
                ),
            ],
        ),
    )
}

/// What a request to clear does to the context: the values whose keys
/// match the pattern go, the others stay in their order.
pub open spec fn clear_changes(params: JsonTree, before: Context, after: Context) -> bool {
    after.entries() == kept(before.entries(), clear_pattern(params)) && same_but_values(
        before,
        after,
    )
}

/// What a request to say where the run stands does to the context.
pub open spec fn info_changes(params: JsonTree, before: Context, after: Context) -> bool {
    after.info() == (
        text_or_empty(params, "runId"@),
        text_or_empty(params, "jobName"@),
        text_or_empty(params, "stepName"@),
    ) && same_values(before, after) && after.outputs() == before.outputs() && after.clock_state()
        == before.clock_state()
}

/// What a request to mirror the outputs of a step does to the context.
/// A request without a step changes nothing.
pub open spec fn sync_changes(params: JsonTree, before: Context, after: Context) -> bool {
    match params.text_at("stepId"@) {
        Some(step) => after.outputs() == before.outputs().insert(step, mirrored(params))
            && same_values(before, after) && after.info() == before.info() && after.clock_state()
            == before.clock_state(),
        None => after == before,
    }
}

/// What a request to set the clock does to the context.
pub open spec fn clock_changes(params: JsonTree, before: Context, after: Context) -> bool {
    (after.clock_state() matches Some(clock) && reads_clock(params, clock)) && same_values(
        before,
        after,
    ) && after.outputs() == before.outputs() && after.info() == before.info()
}

/// What the server answers to `method` with `params`, out of the
/// context `ctx` alone. A request that lacks what its method needs is
/// refused, and so is a method that the server does not know.
pub open spec fn reply_to(method: Seq<char>, params: JsonTree, ctx: Context) -> Reply
    recommends
        !asks_registry(method, params),
{
    if method == "fn.call"@ || method == "assert.custom"@ {
        lacks("name"@)
    } else if method == "hook.call"@ {
        lacks("hook"@)
    } else if method == "ctx.get"@ {
        get_reply(params, ctx)
    } else if method == "ctx.set"@ {
        done_with(params, "key"@)
    } else if method == "ctx.clear"@ {
        clear_reply(params, ctx)
    } else if method == "ctx.syncStepOutputs"@ {
        done_with(params, "stepId"@)
    } else if method == "ctx.setExecutionInfo"@ || method == "clock.sync"@ {
        done()
    } else {
        Reply::Failure(METHOD_NOT_FOUND as int, "Method not found"@)
    }
}

/// What `method` with `params` does to the context, where the registry
/// is not asked: what `before` becomes is `after`.
pub open spec fn changes(method: Seq<char>, params: JsonTree, before: Context, after: Context) -> bool
    recommends
        !asks_registry(method, params),
{
    if method == "ctx.set"@ {
        set_changes(params, before, after)
    } else if method == "ctx.clear"@ {
        clear_changes(params, before, after)
    } else if method == "ctx.setExecutionInfo"@ {
        info_changes(params, before, after)
    } else if method == "ctx.syncStepOutputs"@ {
        sync_changes(params, before, after)
    } else if method == "clock.sync"@ {
        clock_changes(params, before, after)
    } else {
        after == before
    }
}

/// No two methods of the server have the same name: all differ in
/// length but three of seven characters and two of nine, which differ
/// in their first or fifth character.
proof fn lemma_methods_differ()
    ensures
        "fn.call"@.len() == 7 && "fn.call"@[0] == 'f',
        "ctx.get"@.len() == 7 && "ctx.get"@[0] == 'c' && "ctx.get"@[4] == 'g',
        "ctx.set"@.len() == 7 && "ctx.set"@[0] == 'c' && "ctx.set"@[4] == 's',
        "ctx.clear"@.len() == 9 && "ctx.clear"@[0] == 'c',
        "hook.call"@.len() == 9 && "hook.call"@[0] == 'h',
        "ctx.setExecutionInfo"@.len() == 20,
        "ctx.syncStepOutputs"@.len() == 19,
        "assert.custom"@.len() == 13,
        "list_functions"@.len() == 14,
        "list_assertions"@.len() == 15,
        "clock.sync"@.len() == 10,
{
    reveal_strlit("fn.call");
    reveal_strlit("ctx.get");
    reveal_strlit("ctx.set");
    reveal_strlit("ctx.clear");
    reveal_strlit("ctx.setExecutionInfo");
    reveal_strlit("ctx.syncStepOutputs");
    reveal_strlit("hook.call");
    reveal_strlit("assert.custom");
    reveal_strlit("list_functions");
    reveal_strlit("list_assertions");
    reveal_strlit("clock.sync");
}

/// Whether the server passes over the line `line`: it holds nothing
/// but white space.
pub fn is_blank(line: &str) -> (b: bool)
    ensures
        b == (trim_text(line@).len() == 0),
{
    let chars = to_chars(line);
    trim_chars(&chars).len() == 0
}

/// The server of the registry `registry`, with the context that its
/// functions share.
pub struct RpcServer<R: RustRegistry> {
    pub registry: R,
    pub context: Context,
}

impl<R: RustRegistry> RpcServer<R> {
    /// A server of `registry` with an empty context.
    pub fn new(registry: R) -> (server: Self)
        ensures
            server.registry == registry,
            server.context@ == Map::<Seq<char>, JsonValue>::empty(),
            server.context.entries().len() == 0,
            server.context.clock_state() is None,
    {
        RpcServer { registry, context: Context::new() }
    }

    /// Answers `request`. Where the registry is not asked, the answer
    /// and what becomes of the context follow from the request and the
    /// context alone; where it is, the answer is made of what it
    /// returned, and the registry is left as it was.
    pub fn handle_request(&mut self, request: RpcRequest) -> (response: RpcResponse)
        ensures
            response.jsonrpc@ == "2.0"@,
            response.id == request.id,
            final(self).registry == old(self).registry,
            !asks_registry(request.method@, request.params@) ==> answers(
                response,
                request.id,
                reply_to(request.method@, request.params@, old(self).context),
            ) && changes(
                request.method@,
                request.params@,
                old(self).context,
                final(self).context,
            ),
    {
        let id = request.id;
        let params = request.params;
        let method = to_chars(request.method.as_str());
        proof {
            lemma_methods_differ();
        }
        if is_word(&method, "fn.call") {
            self.handle_fn_call(id, params)
        } else if is_word(&method, "ctx.get") {
            self.handle_ctx_get(id, params)
        } else if is_word(&method, "ctx.set") {
            self.handle_ctx_set(id, params)
        } else if is_word(&method, "ctx.clear") {
            self.handle_ctx_clear(id, params)
        } else if is_word(&method, "ctx.setExecutionInfo") {
            self.handle_set_execution_info(id, params)
        } else if is_word(&method, "ctx.syncStepOutputs") {
            self.handle_sync_step_outputs(id, params)
        } else if is_word(&method, "hook.call") {
            self.handle_hook_call(id, params)
        } else if is_word(&method, "assert.custom") {
            self.handle_assert_custom(id, params)
        } else if is_word(&method, "list_functions") {
            self.handle_list_functions(id)
        } else if is_word(&method, "list_assertions") {
            self.handle_list_assertions(id)
        } else if is_word(&method, "clock.sync") {
            self.handle_clock_sync(id, params)
        } else {
            RpcResponse::error(id, METHOD_NOT_FOUND, "Method not found")
        }
    }

    /// Answers a line of input that was read as `parsed`: the request
    /// is handled; a line that is no request is answered, under the id
    /// 0, with the error of the reading.
    pub fn answer(&mut self, parsed: Result<RpcRequest, String>) -> (response: RpcResponse)
        ensures
            response.jsonrpc@ == "2.0"@,
            final(self).registry == old(self).registry,
            match parsed {
                Ok(request) => response.id == request.id && (!asks_registry(
                    request.method@,
                    request.params@,
                ) ==> answers(
                    response,
                    request.id,
                    reply_to(request.method@, request.params@, old(self).context),
                ) && changes(
                    request.method@,
                    request.params@,
                    old(self).context,
                    final(self).context,
                )),
                Err(e) => answers(response, 0, Reply::Failure(PARSE_ERROR as int, e@))
                    && final(self).context == old(self).context,
            },
    {
        match parsed {
            Ok(request) => self.handle_request(request),
            Err(e) => RpcResponse::error(0, PARSE_ERROR, e.as_str()),
        }
    }

    /// Calls the function that the parameter `name` names on the
    /// parameter `args`.
    pub fn handle_fn_call(&mut self, id: u64, params: JsonValue) -> (response: RpcResponse)
        ensures
            response.jsonrpc@ == "2.0"@,
            response.id == id,
            final(self).registry == old(self).registry,
            params@.text_at("name"@) is None ==> answers(response, id, lacks("name"@))
                && final(self).context == old(self).context,
    {
        let name = match params.text_at("name") {
            Some(name) => name,
            None => {
                return missing(id, "name");
            },
        };
        let args = params.copy_of("args");
        let outcome = self.registry.call(name.as_str(), args, &mut self.context);
        call_reply(id, outcome)
    }

    /// Reads the value under the parameter `key`.
    pub fn handle_ctx_get(&self, id: u64, params: JsonValue) -> (response: RpcResponse)
        ensures
            answers(response, id, get_reply(params@, self.context)),
    {
        let key = match params.text_at("key") {
            Some(key) => key,
            None => {
                return missing(id, "key");
            },
        };
        let value = match self.context.get(key.as_str()) {
            Some(value) => value.copy(),
            None => JsonValue::Null,
        };
        let list = vec![("value", value)];
        assert(members(list@) =~= seq![("value"@, value@)]);
        RpcResponse::success(id, object_of(list))
    }

    /// Puts the parameter `value` under the parameter `key`.
    pub fn handle_ctx_set(&mut self, id: u64, params: JsonValue) -> (response: RpcResponse)
        ensures
            final(self).registry == old(self).registry,
            answers(response, id, done_with(params@, "key"@)),
            set_changes(params@, old(self).context, final(self).context),
    {
        let key = match params.text_at("key") {
            Some(key) => key,
            None => {
                return missing(id, "key");
            },
        };
        let value = params.copy_of("value");
        let ghost before = self.context;
        self.context.set(key.as_str(), value);
        assert(held(self.context) =~= held(before).insert(key@, value@));
        ok_reply(id)
    }

    /// Clears the values whose keys match the parameter `pattern`.
    pub fn handle_ctx_clear(&mut self, id: u64, params: JsonValue) -> (response: RpcResponse)
        ensures
            final(self).registry == old(self).registry,
            answers(response, id, clear_reply(params@, old(self).context)),
            clear_changes(params@, old(self).context, final(self).context),
    {
        let cleared = match params.text_at("pattern") {
            Some(pattern) => self.context.clear(pattern.as_str()),
            None => self.context.clear("*"),
        };
        let list = vec![("cleared", JsonValue::natural(cleared))];
        assert(members(list@) =~= seq![
            ("cleared"@, JsonTree::Number(NumberTree::UInt(cleared as int))),
        ]);
        RpcResponse::success(id, object_of(list))
    }

    /// Sets where in the run the registry is called from.
    pub fn handle_set_execution_info(&mut self, id: u64, params: JsonValue) -> (response:
        RpcResponse)
        ensures
            final(self).registry == old(self).registry,
            answers(response, id, done()),
            info_changes(params@, old(self).context, final(self).context),
    {
        let run_id = match params.text_at("runId") {
            Some(text) => text.as_str(),
            None => "",
        };
        let job_name = match params.text_at("jobName") {
            Some(text) => text.as_str(),
            None => "",
        };
        let step_name = match params.text_at("stepName") {
            Some(text) => text.as_str(),
            None => "",
        };
        proof {
            reveal_strlit("");
            assert(""@ =~= Seq::<char>::empty());
        }
        self.context.set_execution_info(run_id, job_name, step_name);
        ok_reply(id)
    }

    /// Mirrors the outputs of the step that the parameter `stepId`
    /// names.
    pub fn handle_sync_step_outputs(&mut self, id: u64, params: JsonValue) -> (response:
        RpcResponse)
        ensures
            final(self).registry == old(self).registry,
            answers(response, id, done_with(params@, "stepId"@)),
            sync_changes(params@, old(self).context, final(self).context),
    {
        let step_id = match params.text_at("stepId") {
            Some(step_id) => step_id,
            None => {
                return missing(id, "stepId");
            },
        };
        let given = params.copy_of("outputs");
        let outputs = match string_map(&given) {
            Some(outputs) => outputs,
            None => {
                let none: NameMap<String> = NameMap::new();
                assert(as_text(none@) =~= Map::<Seq<char>, Seq<char>>::empty());
                none
            },
        };
        self.context.set_step_outputs(step_id.as_str(), outputs);
        ok_reply(id)
    }

    /// Calls the hook that the parameter `hook` names.
    pub fn handle_hook_call(&mut self, id: u64, params: JsonValue) -> (response: RpcResponse)
        ensures
            response.jsonrpc@ == "2.0"@,
            response.id == id,
            final(self).registry == old(self).registry,
            params@.text_at("hook"@) is None ==> answers(response, id, lacks("hook"@))
                && final(self).context == old(self).context,
    {
        let hook = match params.text_at("hook") {
            Some(hook) => hook,
            None => {
                return missing(id, "hook");
            },
        };
        let outcome = self.registry.call_hook(hook.as_str(), &mut self.context);
        hook_reply(id, outcome)
    }

    /// Makes the assertion that the parameter `name` names on the
    /// parameter `params`.
    pub fn handle_assert_custom(&self, id: u64, params: JsonValue) -> (response: RpcResponse)
        ensures
            response.jsonrpc@ == "2.0"@,
            response.id == id,
            params@.text_at("name"@) is None ==> answers(response, id, lacks("name"@)),
    {
        let name = match params.text_at("name") {
            Some(name) => name,
            None => {
                return missing(id, "name");
            },
        };
        let given = params.copy_of("params");
        let result = self.registry.call_assertion(name.as_str(), given, &self.context);
        assertion_reply(id, result)
    }

    /// Lists the functions of the registry.
    pub fn handle_list_functions(&self, id: u64) -> (response: RpcResponse)
        ensures
            response.jsonrpc@ == "2.0"@,
            response.id == id,
            response.error is None,
    {
        listing_reply(id, "functions", self.registry.list_functions())
    }

    /// Lists the assertions of the registry.
    pub fn handle_list_assertions(&self, id: u64) -> (response: RpcResponse)
        ensures
            response.jsonrpc@ == "2.0"@,
            response.id == id,
            response.error is None,
    {
        listing_reply(id, "assertions", self.registry.list_assertions())
    }

    /// Sets the state of the clock as the parameters describe it.
    pub fn handle_clock_sync(&mut self, id: u64, params: JsonValue) -> (response: RpcResponse)
        ensures
            final(self).registry == old(self).registry,
            answers(response, id, done()),
            clock_changes(params@, old(self).context, final(self).context),
    {
        let ms = match params.get("virtual_time_ms") {
            Some(value) => value.as_i64(),
            None => None,
        };
        let iso = match params.text_at("virtual_time_iso") {
            Some(text) => Some(text.clone()),
            None => None,
        };
        let frozen = match params.get("frozen") {
            Some(value) => match value.as_bool() {
                Some(b) => b,
                None => false,
            },
            None => false,
        };
        self.context.set_clock(ms, iso, frozen);
        ok_reply(id)
    }
}

} // verus!
