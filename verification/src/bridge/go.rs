//! The bridge to a registry written in Go.

use vstd::prelude::*;
use crate::bridge::calls::{carries, clock_request, clock_tree};
use crate::bridge::process::{CommandLine, CommandView};
use crate::context::option_text;
use crate::error::BridgeError;
use crate::mock_clock::ClockSyncState;
use crate::namemap::{as_text, NameMap};
use crate::platform::GoConfig;
use crate::rpc::{RequestIds, RpcRequest};
use crate::text::{from_chars, texts, to_chars};

verus! {

/// The character that stands for `c` in the name of a binary: an
/// underscore for a slash, a backslash and a point.
pub open spec fn name_char(c: char) -> char {
    if c == '/' || c == '\\' || c == '.' {
        '_'
    } else {
        c
    }
}

/// The name of the binary that is built from the package `package`.
pub open spec fn built_name(package: Seq<char>) -> Seq<char> {
    Seq::new(package.len(), |i: int| name_char(package[i])) + "_bridge"@
}

/// The name of the binary that is built from the package `package`.
pub fn binary_name(package: &str) -> (name: String)
    ensures
        name@ == built_name(package@),
{
    let chars = to_chars(package);
    let mut out: Vec<char> = Vec::new();
    let mut i: usize = 0;
    while i < chars.len()
        invariant
            i <= chars.len(),
            out@ == Seq::new(i as nat, |j: int| name_char(chars[j])),
        decreases chars.len() - i,
    {
        let c = chars[i];
        let d = if c == '/' || c == '\\' || c == '.' {
            '_'
        } else {
            c
        };
        out.push(d);
        assert(out@ =~= Seq::new((i + 1) as nat, |j: int| name_char(chars[j])));
        i = i + 1;
    }
    let mut tail = to_chars("_bridge");
    out.append(&mut tail);
    assert(out@ =~= built_name(package@));
    from_chars(&out)
}

/// The command that builds the registry before it runs, where the
/// configuration asks for one: `go build -o` with the name of the
/// binary and the package, in the working directory.
pub open spec fn build_of(config: GoConfig) -> Option<CommandView> {
    match (config.binary, config.go_run, config.go_build) {
        (None, None, Some(package)) => Some(
            CommandView {
                program: "go"@,
                args: seq!["build"@, "-o"@, built_name(package@), package@],
                working_dir: option_text(config.working_dir),
                env: Map::empty(),
            },
        ),
        _ => None,
    }
}

/// The program and the arguments that run the registry: the binary; or
/// else `go run` on the source; or else the binary that was built. None
/// where the configuration names none of the three.
pub open spec fn run_of(config: GoConfig) -> Option<(Seq<char>, Seq<Seq<char>>)> {
    match (config.binary, config.go_run, config.go_build) {
        (Some(binary), _, _) => Some((binary@, Seq::empty())),
        (None, Some(source), _) => Some(("go"@, seq!["run"@, source@])),
        (None, None, Some(package)) => Some((built_name(package@), Seq::empty())),
        (None, None, None) => None,
    }
}

/// The bridge to a Go registry: how its process is started, and what is
/// sent to it.
#[derive(Debug)]
pub struct GoBridge {
    /// The command that builds the registry, where it is built first.
    pub build: Option<CommandLine>,
    /// The command that runs the registry.
    pub run: CommandLine,
}

impl GoBridge {
    /// The bridge that `config` describes. The registry runs in the
    /// working directory of the configuration, with its environment.
    pub fn from_config(config: &GoConfig) -> (r: Result<Self, BridgeError>)
        ensures
            match r {
                Ok(bridge) => run_of(*config) matches Some((program, args)) && bridge.run@ == (
                CommandView {
                    program,
                    args,
                    working_dir: option_text(config.working_dir),
                    env: as_text(config.env@),
                }) && match bridge.build {
                    Some(build) => build_of(*config) == Some(build@),
                    None => build_of(*config) is None,
                },
                Err(e) => run_of(*config) is None && (e matches BridgeError::ConfigError(m) && m@
                    == "Go config must specify 'binary', 'go_run', or 'go_build'"@),
            },
    {
        let none: Vec<String> = Vec::new();
        assert(texts(none@) =~= Seq::<Seq<char>>::empty());
        if let Some(binary) = &config.binary {
            let run = CommandLine::new(binary.as_str(), &none, &config.working_dir, &config.env);
            Ok(GoBridge { build: None, run })
        } else if let Some(source) = &config.go_run {
            let args = vec!["run".to_string(), source.clone()];
            assert(texts(args@) =~= seq!["run"@, source@]);
            let run = CommandLine::new("go", &args, &config.working_dir, &config.env);
            Ok(GoBridge { build: None, run })
        } else if let Some(package) = &config.go_build {
            let name = binary_name(package.as_str());
            let args = vec!["build".to_string(), "-o".to_string(), name.clone(), package.clone()];
            assert(texts(args@) =~= seq![
                "build"@,
                "-o"@,
                built_name(package@),
                package@,
            ]);
            let bare: NameMap<String> = NameMap::new();
            assert(as_text(bare@) =~= Map::<Seq<char>, Seq<char>>::empty());
            let build = CommandLine::new("go", &args, &config.working_dir, &bare);
            let run = CommandLine::new(name.as_str(), &none, &config.working_dir, &config.env);
            Ok(GoBridge { build: Some(build), run })
        } else {
            Err(
                BridgeError::ConfigError(
                    "Go config must specify 'binary', 'go_run', or 'go_build'".to_string(),
                ),
            )
        }
    }

    /// The request that hands the state of the clock to the registry.
    pub fn sync_clock(&self, ids: &mut RequestIds, state: ClockSyncState) -> (request: RpcRequest)
        ensures
            carries(
                request,
                *old(ids),
                *final(ids),
                "clock.sync"@,
                clock_tree(state),
            ),
    {
        clock_request(ids, state)
    }
}

/// Marks a bridge to a Go registry.
pub trait GoOperations {
}

impl GoOperations for GoBridge {
}

} // verus!
