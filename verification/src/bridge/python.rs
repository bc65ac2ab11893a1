//! The bridge to a registry written in Python.

use vstd::prelude::*;
use crate::bridge::calls::{carries, clock_request, clock_tree, function_request};
use crate::bridge::process::{CommandLine, CommandView};
use crate::context::option_text;
use crate::json::{JsonTree, JsonValue};
use crate::mock_clock::ClockSyncState;
use crate::namemap::as_text;
use crate::platform::PythonConfig;
use crate::rpc::{RequestIds, RpcRequest};
use crate::text::texts;

verus! {

/// The bridge to a Python registry: how its process is started, and
/// what is sent to it.
#[derive(Debug)]
pub struct PythonBridge {
    /// The command that runs the registry.
    pub run: CommandLine,
}

impl PythonBridge {
    /// The bridge that `config` describes. `venv_python` is the
    /// interpreter of the virtual environment, where the configuration
    /// names one: it runs the script in place of the interpreter of the
    /// configuration.
    pub fn from_config(config: &PythonConfig, venv_python: Option<&str>) -> (bridge: Self)
        ensures
            bridge.run@ == (CommandView {
                program: match venv_python {
                    Some(python) => python@,
                    None => config.interpreter@,
                },
                args: seq![config.script@],
                working_dir: option_text(config.working_dir),
                env: as_text(config.env@),
            }),
    {
        let args = vec![config.script.clone()];
        assert(texts(args@) =~= seq![config.script@]);
        let program = match venv_python {
            Some(python) => python,
            None => config.interpreter.as_str(),
        };
        PythonBridge { run: CommandLine::new(program, &args, &config.working_dir, &config.env) }
    }

    /// The request that calls the function `name` on `args`.
    pub fn fn_call(&self, ids: &mut RequestIds, name: &str, args: JsonValue) -> (request: RpcRequest)
        ensures
            carries(
                request,
                *old(ids),
                *final(ids),
                "fn.call"@,
                JsonTree::Object(seq![("args"@, args@), ("name"@, JsonTree::Text(name@))]),
            ),
    {
        function_request(ids, "fn.call", name, args)
    }

    /// The request that hands the state of the clock to the registry.
    pub fn sync_clock(&self, ids: &mut RequestIds, state: ClockSyncState) -> (request: RpcRequest)
        ensures
            carries(
                request,
                *old(ids),
                *final(ids),
                "clock.sync"@,
                clock_tree(state),
            ),
    {
        clock_request(ids, state)
    }
}

} // verus!
