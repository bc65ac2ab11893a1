//! The bridge to a registry written in Rust.

use vstd::prelude::*;
use crate::bridge::calls::{carries, clock_request, clock_tree};
use crate::bridge::process::{CommandLine, CommandView};
use crate::context::option_text;
use crate::error::BridgeError;
use crate::json::JsonValue;
use crate::mock_clock::ClockSyncState;
use crate::namemap::{as_text, NameMap};
use crate::platform::RustConfig;
use crate::rpc::{RequestIds, RpcRequest};
use crate::text::{join3, texts};

verus! {

/// Whether the registry is built before it runs: the configuration
/// names no binary, but a binary target to build.
pub open spec fn built_first(config: RustConfig) -> bool {
    config.binary is None && config.cargo_bin is Some
}

/// Where a build leaves the binary `bin`, as the metadata of the
/// package say: below `debug` in the target directory. None where the
/// metadata name no target directory.
pub open spec fn binary_in(metadata: crate::json::JsonTree, bin: Seq<char>) -> Option<Seq<char>> {
    match metadata.get("target_directory"@) {
        Some(dir) => match dir.as_text() {
            Some(dir) => Some(dir + "/debug/"@ + bin),
            None => None,
        },
        None => None,
    }
}

/// The bridge to a Rust registry: how its process is started, and what
/// is sent to it.
#[derive(Debug)]
pub struct RustBridge {
    /// The command that runs the registry.
    pub run: CommandLine,
}

impl RustBridge {
    /// The commands that come before the registry runs, where it is
    /// built first: `cargo build --bin` with the target, and `cargo
    /// metadata --format-version 1 --no-deps`, whose output says where
    /// the binary lies. Both run in the working directory.
    pub fn build_commands(config: &RustConfig) -> (r: Option<(CommandLine, CommandLine)>)
        ensures
            match r {
                Some((build, metadata)) => built_first(*config) && build@ == (CommandView {
                    program: "cargo"@,
                    args: seq!["build"@, "--bin"@, config.cargo_bin->0@],
                    working_dir: option_text(config.working_dir),
                    env: Map::empty(),
                }) && metadata@ == (CommandView {
                    program: "cargo"@,
                    args: seq!["metadata"@, "--format-version"@, "1"@, "--no-deps"@],
                    working_dir: option_text(config.working_dir),
                    env: Map::empty(),
                }),
                None => !built_first(*config),
            },
    {
        if config.binary.is_some() {
            return None;
        }
        match &config.cargo_bin {
            None => None,
            Some(bin) => {
                let bare: NameMap<String> = NameMap::new();
                assert(as_text(bare@) =~= Map::<Seq<char>, Seq<char>>::empty());
                let build_args = vec!["build".to_string(), "--bin".to_string(), bin.clone()];
                assert(texts(build_args@) =~= seq!["build"@, "--bin"@, bin@]);
                let metadata_args = vec![
                    "metadata".to_string(),
                    "--format-version".to_string(),
                    "1".to_string(),
                    "--no-deps".to_string(),
                ];
                assert(texts(metadata_args@) =~= seq![
                    "metadata"@,
                    "--format-version"@,
                    "1"@,
                    "--no-deps"@,
                ]);
                Some(
                    (
                        CommandLine::new("cargo", &build_args, &config.working_dir, &bare),
                        CommandLine::new("cargo", &metadata_args, &config.working_dir, &bare),
                    ),
                )
            },
        }
    }

    /// Where the build left the binary `bin`, as `metadata` say.
    pub fn built_binary(metadata: &JsonValue, bin: &str) -> (r: Result<String, BridgeError>)
        ensures
            match r {
                Ok(path) => binary_in(metadata@, bin@) == Some(path@),
                Err(e) => binary_in(metadata@, bin@) is None && (e
                    matches BridgeError::StartupFailed(m) && m@
                    == "No target_directory in metadata"@),
            },
    {
        let dir = match metadata.get("target_directory") {
            Some(value) => value.as_str(),
            None => None,
        };
        match dir {
            Some(dir) => Ok(join3(dir.as_str(), "/debug/", bin)),
            None => Err(BridgeError::StartupFailed("No target_directory in metadata".to_string())),
        }
    }

    /// The bridge that `config` describes. `built` is the binary that
    /// the build left, where the registry is built first; none where the
    /// build failed.
    pub fn from_config(config: &RustConfig, built: Option<&str>) -> (r: Result<Self, BridgeError>)
        ensures
            match r {
                Ok(bridge) => bridge.run@ == (CommandView {
                    program: match config.binary {
                        Some(binary) => binary@,
                        None => built->0@,
                    },
                    args: Seq::empty(),
                    working_dir: option_text(config.working_dir),
                    env: as_text(config.env@),
                }) && (config.binary is Some || (config.cargo_bin is Some && built is Some)),
                Err(e) => config.binary is None && (e matches BridgeError::StartupFailed(m)
                    && match config.cargo_bin {
                    Some(bin) => built is None && m@ == "cargo build --bin "@ + bin@ + " failed"@,
                    None => m@ == "Rust config requires either 'binary' or 'cargo_bin'"@,
                }),
            },
    {
        let none: Vec<String> = Vec::new();
        assert(texts(none@) =~= Seq::<Seq<char>>::empty());
        if let Some(binary) = &config.binary {
            return Ok(
                RustBridge {
                    run: CommandLine::new(
                        binary.as_str(),
                        &none,
                        &config.working_dir,
                        &config.env,
                    ),
                },
            );
        }
        match &config.cargo_bin {
            None => Err(
                BridgeError::StartupFailed(
                    "Rust config requires either 'binary' or 'cargo_bin'".to_string(),
                ),
            ),
            Some(bin) => match built {
                Some(path) => Ok(
                    RustBridge {
                        run: CommandLine::new(path, &none, &config.working_dir, &config.env),
                    },
                ),
                None => Err(
                    BridgeError::StartupFailed(
                        join3("cargo build --bin ", bin.as_str(), " failed"),
                    ),
                ),
            },
        }
    }

    /// The request that hands the state of the clock to the registry.
    pub fn sync_clock(&self, ids: &mut RequestIds, state: ClockSyncState) -> (request: RpcRequest)
        ensures
            carries(
                request,
                *old(ids),
                *final(ids),
                "clock.sync"@,
                clock_tree(state),
            ),
    {
        clock_request(ids, state)
    }
}

/// Marks a bridge to a Rust registry.
pub trait RustOperations {
}

impl RustOperations for RustBridge {
}

} // verus!
