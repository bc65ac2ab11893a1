//! The bridge to a registry that runs on the Java machine.

use vstd::prelude::*;
use crate::bridge::calls::{carries, clock_request, clock_tree, function_request, list_request};
use crate::bridge::process::{join, joined, CommandLine, CommandView};
use crate::context::option_text;
use crate::json::{JsonTree, JsonValue};
use crate::mock_clock::ClockSyncState;
use crate::namemap::as_text;
use crate::platform::{JavaConfig, Platform};
use crate::rpc::{RequestIds, RpcRequest};
use crate::text::{append_names, texts};

verus! {

/// The entries of the class path: the archive first, where there is
/// one, then the entries of the configuration.
pub open spec fn class_entries(config: JavaConfig) -> Seq<Seq<char>> {
    match config.jar {
        Some(jar) => seq![jar@] + texts(config.classpath@),
        None => texts(config.classpath@),
    }
}

/// The class path: its entries with a colon between each two, or a
/// semicolon on Windows; a point where there is no entry.
pub open spec fn class_path(config: JavaConfig, windows: bool) -> Seq<char> {
    if class_entries(config).len() == 0 {
        "."@
    } else {
        joined(
            class_entries(config),
            if windows {
                ";"@
            } else {
                ":"@
            },
        )
    }
}

/// The arguments of the machine: its own, then the class path, then the
/// main class.
pub open spec fn machine_args(config: JavaConfig, windows: bool) -> Seq<Seq<char>> {
    texts(config.jvm_args@) + seq!["-cp"@, class_path(config, windows), config.main_class@]
}

/// The bridge to a Java registry: how its process is started, and what
/// is sent to it.
#[derive(Debug)]
pub struct JavaBridge {
    /// The command that runs the registry.
    pub run: CommandLine,
}

impl JavaBridge {
    /// The bridge that `config` describes, on Windows or elsewhere.
    pub fn from_config(config: &JavaConfig, windows: bool) -> (bridge: Self)
        ensures
            bridge.run@ == (CommandView {
                program: config.java_home@,
                args: machine_args(*config, windows),
                working_dir: option_text(config.working_dir),
                env: as_text(config.env@),
            }),
    {
        let mut entries: Vec<String> = Vec::new();
        if let Some(jar) = &config.jar {
            entries.push(jar.clone());
        }
        append_names(&mut entries, &config.classpath);
        assert(texts(entries@) =~= class_entries(*config));
        let path = if entries.len() == 0 {
            ".".to_string()
        } else {
            join(
                &entries,
                if windows {
                    ";"
                } else {
                    ":"
                },
            )
        };
        let mut args: Vec<String> = Vec::new();
        append_names(&mut args, &config.jvm_args);
        assert(texts(args@) =~= texts(config.jvm_args@));
        args.push("-cp".to_string());
        args.push(path);
        args.push(config.main_class.clone());
        assert(texts(args@) =~= machine_args(*config, windows));
        JavaBridge {
            run: CommandLine::new(
                config.java_home.as_str(),
                &args,
                &config.working_dir,
                &config.env,
            ),
        }
    }

    /// The request that calls the method `name` on `args`.
    pub fn method_call(&self, ids: &mut RequestIds, name: &str, args: JsonValue) -> (request:
        RpcRequest)
        ensures
            carries(
                request,
                *old(ids),
                *final(ids),
                "method.call"@,
                JsonTree::Object(seq![("args"@, args@), ("name"@, JsonTree::Text(name@))]),
            ),
    {
        function_request(ids, "method.call", name, args)
    }

    /// The request that asks the registry for its methods.
    pub fn list_methods(&self, ids: &mut RequestIds) -> (request: RpcRequest)
        ensures
            carries(
                request,
                *old(ids),
                *final(ids),
                "list_methods"@,
                JsonTree::Object(Seq::empty()),
            ),
    {
        list_request(Platform::Java, ids, false)
    }

    /// The request that hands the state of the clock to the registry.
    pub fn sync_clock(&self, ids: &mut RequestIds, state: ClockSyncState) -> (request: RpcRequest)
        ensures
            carries(
                request,
                *old(ids),
                *final(ids),
                "clock.sync"@,
                clock_tree(state),
            ),
    {
        clock_request(ids, state)
    }
}

} // verus!
