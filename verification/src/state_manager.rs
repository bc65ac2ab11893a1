//! State shared by the platforms of one workflow run.

use vstd::prelude::*;
use crate::context::ExecutionContext;
use crate::namemap::{as_nested_text, as_text, NameMap};
use crate::platform::Platform;

verus! {

/// What of a context may leave the engine: all but the values of its
/// secrets, of which only the names are kept.
#[derive(Debug)]
pub struct ExecutionContextSnapshot {
    pub step_outputs: NameMap<NameMap<String>>,
    pub env: NameMap<String>,
    /// The names of the secrets, in the order in which they were set.
    pub secret_names: Vec<String>,
    pub job_outputs: NameMap<NameMap<String>>,
    pub run_id: String,
}

/// A copy of a table of outputs.
pub fn copy_outputs(table: &NameMap<NameMap<String>>) -> (copy: NameMap<NameMap<String>>)
    ensures
        as_nested_text(copy@) == as_nested_text(table@),
{
    let mut copy: NameMap<NameMap<String>> = NameMap::new();
    let n = table.len();
    let mut i: usize = 0;
    let ghost pairs = table.pairs();
    proof {
        assert(pairs.take(0) =~= Seq::<(Seq<char>, NameMap<String>)>::empty());
        assert(as_nested_text(copy@) =~= as_nested_text(
            crate::namemap::bindings(pairs.take(0)),
        ));
    }
    while i < n
        invariant
            i <= n,
            n == table.pairs().len(),
            pairs == table.pairs(),
            as_nested_text(copy@) == as_nested_text(crate::namemap::bindings(pairs.take(i as int))),
        decreases n - i,
    {
        proof {
            let part = pairs.take(i + 1);
            assert(part.drop_last() == pairs.take(i as int));
            assert(part.last() == pairs[i as int]);
        }
        let ghost before = as_nested_text(copy@);
        let inner = table.value_at(i).copy();
        copy.insert(table.name_at(i).clone(), inner);
        proof {
            assert(as_nested_text(copy@) =~= before.insert(
                pairs[i as int].0,
                as_text(pairs[i as int].1@),
            ));
            assert(as_nested_text(crate::namemap::bindings(pairs.take(i + 1))) =~= before.insert(
                pairs[i as int].0,
                as_text(pairs[i as int].1@),
            ));
        }
        i = i + 1;
    }
    assert(pairs.take(n as int) == pairs);
    copy
}

impl ExecutionContextSnapshot {
    /// What of `ctx` may leave the engine.
    pub fn from_context(ctx: &ExecutionContext) -> (snapshot: Self)
        ensures
            as_nested_text(snapshot.step_outputs@) == ctx@.steps,
            as_text(snapshot.env@) == ctx@.env,
            as_nested_text(snapshot.job_outputs@) == ctx@.jobs,
            snapshot.run_id@ == ctx@.run_id,
            snapshot.secret_names.len() == ctx.secrets.pairs().len(),
            forall|i: int|
                0 <= i < snapshot.secret_names.len() ==> (#[trigger] snapshot.secret_names[i])@
                    == ctx.secrets.pairs()[i].0,
    {
        let mut secret_names: Vec<String> = Vec::new();
        let n = ctx.secrets.len();
        let mut i: usize = 0;
        while i < n
            invariant
                i <= n,
                n == ctx.secrets.pairs().len(),
                secret_names.len() == i,
                forall|j: int|
                    0 <= j < i ==> (#[trigger] secret_names[j])@ == ctx.secrets.pairs()[j].0,
            decreases n - i,
        {
            secret_names.push(ctx.secrets.name_at(i).clone());
            i = i + 1;
        }
        ExecutionContextSnapshot {
            step_outputs: copy_outputs(&ctx.steps),
            env: ctx.env.copy(),
            secret_names,
            job_outputs: copy_outputs(&ctx.jobs),
            run_id: ctx.run_id.clone(),
        }
    }
}

/// Counts the steps of a run and remembers the platforms it has used, each
/// once, in the order of first use.
#[derive(Debug)]
pub struct SharedStateManager {
    current_step_index: usize,
    used_platforms: Vec<Platform>,
}

/// `used` with `platform` added at the end, unless it is there already.
pub open spec fn with_platform(used: Seq<Platform>, platform: Platform) -> Seq<Platform> {
    if used.contains(platform) {
        used
    } else {
        used.push(platform)
    }
}

impl SharedStateManager {
    /// The number of steps so far.
    pub closed spec fn step_index(&self) -> nat {
        self.current_step_index as nat
    }

    /// The platforms used so far.
    pub closed spec fn used(&self) -> Seq<Platform> {
        self.used_platforms@
    }

    /// A manager that has seen no step and no platform.
    pub fn new() -> (m: Self)
        ensures
            m.step_index() == 0,
            m.used() == Seq::<Platform>::empty(),
    {
        SharedStateManager { current_step_index: 0, used_platforms: Vec::new() }
    }

    /// The number of steps so far.
    pub fn current_step_index(&self) -> (i: usize)
        ensures
            i == self.step_index(),
    {
        self.current_step_index
    }

    /// Counts one more step, and records its platform if it has one.
    pub fn advance_step(&mut self, platform: Option<&Platform>)
        requires
            old(self).step_index() < usize::MAX,
        ensures
            final(self).step_index() == old(self).step_index() + 1,
            final(self).used() == match platform {
                Some(p) => with_platform(old(self).used(), *p),
                None => old(self).used(),
            },
    {
        self.current_step_index = self.current_step_index + 1;
        if let Some(p) = platform {
            self.record_platform_usage(p);
        }
    }

    /// Records that `platform` was used.
    pub fn record_platform_usage(&mut self, platform: &Platform)
        ensures
            final(self).step_index() == old(self).step_index(),
            final(self).used() == with_platform(old(self).used(), *platform),
    {
        if !self.has_used_platform(platform) {
            self.used_platforms.push(*platform);
        }
    }

    /// The platforms used so far, in the order of first use.
    pub fn used_platforms(&self) -> (used: &[Platform])
        ensures
            used@ == self.used(),
    {
        self.used_platforms.as_slice()
    }

    /// Whether `platform` has been used.
    pub fn has_used_platform(&self, platform: &Platform) -> (b: bool)
        ensures
            b == self.used().contains(*platform),
    {
        let mut i: usize = 0;
        while i < self.used_platforms.len()
            invariant
                i <= self.used_platforms.len(),
                forall|j: int| 0 <= j < i ==> self.used_platforms[j] != *platform,
            decreases self.used_platforms.len() - i,
        {
            if self.used_platforms[i] == *platform {
                return true;
            }
            i = i + 1;
        }
        false
    }

    /// Forgets the steps and the platforms.
    pub fn clear(&mut self)
        ensures
            final(self).step_index() == 0,
            final(self).used() == Seq::<Platform>::empty(),
    {
        self.used_platforms.clear();
        self.current_step_index = 0;
    }
}

impl Default for SharedStateManager {
    fn default() -> (m: Self)
        ensures
            m.step_index() == 0,
            m.used() == Seq::<Platform>::empty(),
    {
        SharedStateManager::new()
    }
}

} // verus!
