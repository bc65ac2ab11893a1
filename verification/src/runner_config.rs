//! The configuration of a run over a directory of workflows.

use vstd::prelude::*;
use crate::job::Step;
use crate::namemap::NameMap;
use crate::executor::overlaid;
use crate::platform::{
    GoConfig, JavaConfig, NodejsConfig, PlatformsConfig, PlaywrightConfig, PythonConfig,
    RustConfig, WebConfig,
};
use crate::text::str_eq;

verus! {

/// Where runs are kept.
#[derive(Debug, Clone)]
pub enum DatabaseConfigYaml {
    Memory,
    Sqlite { path: String },
    Postgres { url: String },
    Mysql { url: String },
}

impl Default for DatabaseConfigYaml {
    fn default() -> (d: Self)
        ensures
            d is Memory,
    {
        DatabaseConfigYaml::Memory
    }
}

/// The file of a SQLite database where a configuration names none.
pub fn default_sqlite_path() -> (s: String)
    ensures
        s@ == ".testing-actions/runs.db"@,
{
    ".testing-actions/runs.db".to_string()
}

/// Steps to run around workflows, jobs and steps.
#[derive(Debug, Clone)]
pub struct ProfileHooks {
    pub workflow: Vec<Step>,
    pub job: Vec<Step>,
    pub step: Vec<Step>,
}

impl Default for ProfileHooks {
    fn default() -> (h: Self)
        ensures
            h.workflow@.len() == 0,
            h.job@.len() == 0,
            h.step@.len() == 0,
    {
        ProfileHooks { workflow: Vec::new(), job: Vec::new(), step: Vec::new() }
    }
}

/// A named variant of a run, with platforms and hooks of its own.
#[derive(Debug, Clone)]
pub struct Profile {
    pub platforms: PlatformsConfig,
    pub env: NameMap<String>,
    pub before: ProfileHooks,
    pub after: ProfileHooks,
}

impl Default for Profile {
    fn default() -> (p: Self)
        ensures
            p.platforms == PlatformsConfig::default_spec(),
            p.env.pairs().len() == 0,
    {
        Profile {
            platforms: PlatformsConfig::default(),
            env: NameMap::new(),
            before: ProfileHooks::default(),
            after: ProfileHooks::default(),
        }
    }
}

/// How many workflows run at a time where a configuration does not say.
pub fn default_parallel() -> (n: usize)
    ensures
        n == 4,
{
    4
}

/// The configuration of a run over a directory.
#[derive(Debug, Clone)]
pub struct RunnerConfig {
    /// How many workflows run at a time.
    pub parallel: usize,
    /// Whether a failure ends the run for all but the always-running.
    pub fail_fast: bool,
    pub platforms: PlatformsConfig,
    pub database: DatabaseConfigYaml,
    /// Steps run before any workflow.
    pub before: Vec<Step>,
    /// Steps run after all workflows.
    pub after: Vec<Step>,
    /// Named profiles, each a run of its own.
    pub profiles: NameMap<Profile>,
}

impl Default for RunnerConfig {
    fn default() -> (c: Self)
        ensures
            c.parallel == 4,
            !c.fail_fast,
            c.platforms == PlatformsConfig::default_spec(),
            c.database is Memory,
            c.before@.len() == 0,
            c.after@.len() == 0,
            c.profiles.pairs().len() == 0,
    {
        RunnerConfig {
            parallel: default_parallel(),
            fail_fast: false,
            platforms: PlatformsConfig::default(),
            database: DatabaseConfigYaml::default(),
            before: Vec::new(),
            after: Vec::new(),
            profiles: NameMap::new(),
        }
    }
}

/// The configurations of the platforms for a profile, in two layers:
/// those of the run, and over them those of the profile.
#[derive(Debug, Clone, Copy)]
pub struct ProfilePlatforms<'a> {
    pub base: &'a PlatformsConfig,
    pub over: Option<&'a PlatformsConfig>,
}

impl<'a> ProfilePlatforms<'a> {
    /// The two layers as one: for each platform the configuration of
    /// the profile, where it has one, else that of the run.
    pub open spec fn merged(&self) -> PlatformsConfig {
        match self.over {
            Some(over) => overlaid(*self.base, *over),
            None => *self.base,
        }
    }

    /// The configuration of the browser.
    pub fn playwright(&self) -> (r: Option<&'a PlaywrightConfig>)
        ensures
            match r {
                Some(c) => self.merged().playwright == Some(*c),
                None => self.merged().playwright is None,
            },
    {
        match self.over {
            Some(over) => match &over.playwright {
                Some(c) => Some(c),
                None => self.base.playwright.as_ref(),
            },
            None => self.base.playwright.as_ref(),
        }
    }

    /// The configuration of Node.js.
    pub fn nodejs(&self) -> (r: Option<&'a NodejsConfig>)
        ensures
            match r {
                Some(c) => self.merged().nodejs == Some(*c),
                None => self.merged().nodejs is None,
            },
    {
        match self.over {
            Some(over) => match &over.nodejs {
                Some(c) => Some(c),
                None => self.base.nodejs.as_ref(),
            },
            None => self.base.nodejs.as_ref(),
        }
    }

    /// The configuration of Rust.
    pub fn rust(&self) -> (r: Option<&'a RustConfig>)
        ensures
            match r {
                Some(c) => self.merged().rust == Some(*c),
                None => self.merged().rust is None,
            },
    {
        match self.over {
            Some(over) => match &over.rust {
                Some(c) => Some(c),
                None => self.base.rust.as_ref(),
            },
            None => self.base.rust.as_ref(),
        }
    }

    /// The configuration of Python.
    pub fn python(&self) -> (r: Option<&'a PythonConfig>)
        ensures
            match r {
                Some(c) => self.merged().python == Some(*c),
                None => self.merged().python is None,
            },
    {
        match self.over {
            Some(over) => match &over.python {
                Some(c) => Some(c),
                None => self.base.python.as_ref(),
            },
            None => self.base.python.as_ref(),
        }
    }

    /// The configuration of Java.
    pub fn java(&self) -> (r: Option<&'a JavaConfig>)
        ensures
            match r {
                Some(c) => self.merged().java == Some(*c),
                None => self.merged().java is None,
            },
    {
        match self.over {
            Some(over) => match &over.java {
                Some(c) => Some(c),
                None => self.base.java.as_ref(),
            },
            None => self.base.java.as_ref(),
        }
    }

    /// The configuration of Go.
    pub fn go(&self) -> (r: Option<&'a GoConfig>)
        ensures
            match r {
                Some(c) => self.merged().go == Some(*c),
                None => self.merged().go is None,
            },
    {
        match self.over {
            Some(over) => match &over.go {
                Some(c) => Some(c),
                None => self.base.go.as_ref(),
            },
            None => self.base.go.as_ref(),
        }
    }

    /// The configuration of HTTP.
    pub fn web(&self) -> (r: Option<&'a WebConfig>)
        ensures
            match r {
                Some(c) => self.merged().web == Some(*c),
                None => self.merged().web is None,
            },
    {
        match self.over {
            Some(over) => match &over.web {
                Some(c) => Some(c),
                None => self.base.web.as_ref(),
            },
            None => self.base.web.as_ref(),
        }
    }
}

impl RunnerConfig {
    /// The platforms of the profile `name`: those of the profile, where
    /// there is one of that name other than `default`, laid over those
    /// of the configuration itself; else those of the configuration
    /// alone.
    pub open spec fn platforms_of(&self, name: Seq<char>) -> PlatformsConfig {
        if name != "default"@ && self.profiles@.contains_key(name) {
            overlaid(self.platforms, self.profiles@[name].platforms)
        } else {
            self.platforms
        }
    }

    /// Whether the configuration has profiles.
    pub fn has_profiles(&self) -> (b: bool)
        ensures
            b == (self.profiles.pairs().len() > 0),
    {
        !self.profiles.is_empty()
    }

    /// The names of the profiles, or `default` alone where there are none.
    pub fn profile_names(&self) -> (names: Vec<String>)
        ensures
            self.profiles.pairs().len() == 0 ==> names.len() == 1 && names[0]@ == "default"@,
            self.profiles.pairs().len() > 0 ==> names.len() == self.profiles.pairs().len()
                && forall|i: int|
                0 <= i < names.len() ==> (#[trigger] names[i])@ == self.profiles.pairs()[i].0,
    {
        let mut names: Vec<String> = Vec::new();
        if self.profiles.is_empty() {
            names.push("default".to_string());
            return names;
        }
        let n = self.profiles.len();
        let mut i: usize = 0;
        while i < n
            invariant
                i <= n,
                n == self.profiles.pairs().len(),
                names.len() == i,
                forall|j: int| 0 <= j < i ==> (#[trigger] names[j])@ == self.profiles.pairs()[j].0,
            decreases n - i,
        {
            names.push(self.profiles.name_at(i).clone());
            i = i + 1;
        }
        names
    }

    /// The platforms of the profile `profile_name`, in their two layers.
    pub fn platforms_for(&self, profile_name: &str) -> (platforms: ProfilePlatforms<'_>)
        ensures
            platforms.merged() == self.platforms_of(profile_name@),
            *platforms.base == self.platforms,
            match platforms.over {
                Some(over) => profile_name@ != "default"@ && self.profiles@.contains_key(
                    profile_name@,
                ) && *over == self.profiles@[profile_name@].platforms,
                None => profile_name@ == "default"@ || !self.profiles@.contains_key(
                    profile_name@,
                ),
            },
    {
        if str_eq(profile_name, "default") || self.profiles.is_empty() {
            ProfilePlatforms { base: &self.platforms, over: None }
        } else {
            match self.profiles.get(profile_name) {
                Some(profile) => ProfilePlatforms {
                    base: &self.platforms,
                    over: Some(&profile.platforms),
                },
                None => ProfilePlatforms { base: &self.platforms, over: None },
            }
        }
    }
}

} // verus!
