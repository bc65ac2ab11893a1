//! The bridge to a registry that runs on Node.js.

use vstd::prelude::*;
use crate::bridge::calls::{carries, clock_request, clock_tree, function_request};
use crate::bridge::process::{CommandLine, CommandView};
use crate::context::option_text;
use crate::json::{JsonTree, JsonValue};
use crate::mock_clock::ClockSyncState;
use crate::namemap::{as_text, NameMap};
use crate::platform::NodejsConfig;
use crate::rpc::{RequestIds, RpcRequest};
use crate::text::texts;

verus! {

/// The arguments of the server that loads the registry at `registry`.
pub open spec fn server_args(
    registry: Seq<char>,
    typescript: bool,
    env_file: Option<Seq<char>>,
) -> Seq<Seq<char>> {
    seq!["extensions/nodejs/server.js"@, "--registry"@, registry] + (if typescript {
        seq!["--typescript"@]
    } else {
        Seq::empty()
    }) + (match env_file {
        Some(file) => seq!["--env-file"@, file],
        None => Seq::empty(),
    })
}

/// The command that runs the server in `working_dir` on the registry at
/// `registry`.
pub open spec fn server_command(
    registry: Seq<char>,
    working_dir: Seq<char>,
    typescript: bool,
    env_file: Option<Seq<char>>,
) -> CommandView {
    CommandView {
        program: "node"@,
        args: server_args(registry, typescript, env_file),
        working_dir: Some(working_dir),
        env: Map::empty(),
    }
}

/// The characters of an optional string.
pub open spec fn text_of(s: Option<&str>) -> Option<Seq<char>> {
    match s {
        Some(t) => Some(t@),
        None => None,
    }
}

/// `std::path::Path::join` on the directory `dir`: the path `path` as it
/// is, where it is absolute, and else below `dir`. Nothing is stated of
/// the result: how a path is written depends on the platform.
#[verifier::external_body]
fn path_below(dir: &str, path: &str) -> (r: String) {
    std::path::Path::new(dir).join(path).to_string_lossy().to_string()
}

/// The bridge to a Node.js registry: how its process is started, and
/// what is sent to it.
#[derive(Debug)]
pub struct NodejsBridge {
    /// The command that runs the registry.
    pub run: CommandLine,
}

impl NodejsBridge {
    /// The bridge to the registry at `registry`, whose server runs in
    /// `working_dir`.
    pub fn with_registry(
        registry: &str,
        working_dir: &str,
        typescript: bool,
        env_file: Option<&str>,
    ) -> (bridge: Self)
        ensures
            bridge.run@ == server_command(registry@, working_dir@, typescript, text_of(env_file)),
    {
        let mut args = vec![
            "extensions/nodejs/server.js".to_string(),
            "--registry".to_string(),
            registry.to_string(),
        ];
        if typescript {
            args.push("--typescript".to_string());
        }
        if let Some(file) = env_file {
            args.push("--env-file".to_string());
            args.push(file.to_string());
        }
        assert(texts(args@) =~= server_args(registry@, typescript, text_of(env_file)));
        let bare: NameMap<String> = NameMap::new();
        assert(as_text(bare@) =~= Map::<Seq<char>, Seq<char>>::empty());
        let dir = Some(working_dir.to_string());
        NodejsBridge { run: CommandLine::new("node", &args, &dir, &bare) }
    }

    /// The bridge to the registry at `registry_path`, a path that is
    /// absolute or else stands below `working_dir`: the third argument
    /// of the command is that path, resolved.
    pub fn new(registry_path: &str, working_dir: &str, typescript: bool, env_file: Option<&str>) -> (bridge:
        Self)
        ensures
            bridge.run@ == server_command(
                bridge.run@.args[2],
                working_dir@,
                typescript,
                text_of(env_file),
            ),
    {
        let registry = path_below(working_dir, registry_path);
        Self::with_registry(registry.as_str(), working_dir, typescript, env_file)
    }

    /// The bridge that `config` describes. Without a working directory
    /// the server runs in `.`.
    pub fn from_config(config: &NodejsConfig) -> (bridge: Self)
        ensures
            bridge.run@ == server_command(
                bridge.run@.args[2],
                match config.working_dir {
                    Some(dir) => dir@,
                    None => "."@,
                },
                config.typescript,
                option_text(config.env_file),
            ),
    {
        let dir = match &config.working_dir {
            Some(dir) => dir.as_str(),
            None => ".",
        };
        let env_file = match &config.env_file {
            Some(file) => Some(file.as_str()),
            None => None,
        };
        Self::new(config.registry.as_str(), dir, config.typescript, env_file)
    }

    /// The request that calls the function `name` on `args`.
    pub fn fn_call(&self, ids: &mut RequestIds, name: &str, args: JsonValue) -> (request: RpcRequest)
        ensures
            carries(
                request,
                *old(ids),
                *final(ids),
                "fn.call"@,
                JsonTree::Object(seq![("args"@, args@), ("name"@, JsonTree::Text(name@))]),
            ),
    {
        function_request(ids, "fn.call", name, args)
    }

    /// The request that hands the state of the clock to the registry.
    pub fn sync_clock(&self, ids: &mut RequestIds, state: ClockSyncState) -> (request: RpcRequest)
        ensures
            carries(
                request,
                *old(ids),
                *final(ids),
                "clock.sync"@,
                clock_tree(state),
            ),
    {
        clock_request(ids, state)
    }
}

} // verus!
