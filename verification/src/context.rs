//! The context of one workflow run: environment, secrets, and the outputs
//! of the steps and jobs that have finished.

use vstd::prelude::*;
use crate::namemap::{as_nested_text, as_text, NameMap};

verus! {

/// What an [`ExecutionContext`] holds.
pub struct ContextView {
    pub env: Map<Seq<char>, Seq<char>>,
    pub secrets: Map<Seq<char>, Seq<char>>,
    pub steps: Map<Seq<char>, Map<Seq<char>, Seq<char>>>,
    pub jobs: Map<Seq<char>, Map<Seq<char>, Seq<char>>>,
    pub current_job: Option<Seq<char>>,
    pub current_step: Option<Seq<char>>,
    pub run_id: Seq<char>,
}

/// The context of a run. Lookup is case-sensitive, a name that was never
/// set has no value, and a later write to a name replaces the earlier one.
#[derive(Debug)]
pub struct ExecutionContext {
    pub env: NameMap<String>,
    /// Secrets; never written to logs, events or outputs.
    pub secrets: NameMap<String>,
    /// Outputs of steps: step id, then output name.
    pub steps: NameMap<NameMap<String>>,
    /// Outputs of jobs: job name, then output name.
    pub jobs: NameMap<NameMap<String>>,
    pub current_job: Option<String>,
    pub current_step: Option<String>,
    pub run_id: String,
}

/// The characters of a string that may be absent.
pub open spec fn option_text(s: Option<String>) -> Option<Seq<char>> {
    match s {
        Some(t) => Some(t@),
        None => None,
    }
}

/// The output `name` of `id` in a table of outputs.
pub open spec fn output_in(
    table: Map<Seq<char>, Map<Seq<char>, Seq<char>>>,
    id: Seq<char>,
    name: Seq<char>,
) -> Option<Seq<char>> {
    if table.contains_key(id) && table[id].contains_key(name) {
        Some(table[id][name])
    } else {
        None
    }
}

/// `table` after the output `name` of `id` was set to `value`.
pub open spec fn with_output(
    table: Map<Seq<char>, Map<Seq<char>, Seq<char>>>,
    id: Seq<char>,
    name: Seq<char>,
    value: Seq<char>,
) -> Map<Seq<char>, Map<Seq<char>, Seq<char>>> {
    let had = if table.contains_key(id) {
        table[id]
    } else {
        Map::empty()
    };
    table.insert(id, had.insert(name, value))
}

/// `env` with every binding of `more` written over it.
pub open spec fn merged(env: Map<Seq<char>, Seq<char>>, more: Map<Seq<char>, Seq<char>>) -> Map<
    Seq<char>,
    Seq<char>,
> {
    Map::new(
        |name: Seq<char>| env.contains_key(name) || more.contains_key(name),
        |name: Seq<char>|
            if more.contains_key(name) {
                more[name]
            } else {
                env[name]
            },
    )
}

/// A fresh version 4 UUID from the `uuid` crate, in its hyphenated form of
/// 36 characters. Which one it is depends on chance.
#[verifier::external_body]
fn fresh_run_id() -> (id: String)
    ensures
        id@.len() == 36,
{
    uuid::Uuid::new_v4().to_string()
}

/// Sets the output `name` of `id` in a table of outputs.
fn set_in(table: &mut NameMap<NameMap<String>>, id: &str, name: &str, value: String)
    ensures
        as_nested_text(final(table)@) == with_output(
            as_nested_text(old(table)@),
            id@,
            name@,
            value@,
        ),
{
    let ghost before = table@;
    let mut inner = match table.insert(id.to_string(), NameMap::new()) {
        Some(had) => had,
        None => NameMap::new(),
    };
    let ghost had = inner@;
    inner.insert(name.to_string(), value);
    let ghost now = inner@;
    table.insert(id.to_string(), inner);
    proof {
        assert(table@ =~= before.insert(id@, inner));
        let want = with_output(as_nested_text(before), id@, name@, value@);
        assert(as_text(now) =~= as_text(had).insert(name@, value@));
        assert(as_text(had) =~= if before.contains_key(id@) {
            as_text(before[id@]@)
        } else {
            Map::empty()
        });
        assert(as_nested_text(table@) =~= want);
    }
}

/// The output `name` of `id` in a table of outputs.
fn get_in<'a>(table: &'a NameMap<NameMap<String>>, id: &str, name: &str) -> (r: Option<&'a String>)
    ensures
        match r {
            Some(value) => output_in(as_nested_text(table@), id@, name@) == Some(value@),
            None => output_in(as_nested_text(table@), id@, name@) is None,
        },
{
    match table.get(id) {
        Some(inner) => inner.get(name),
        None => None,
    }
}

impl View for ExecutionContext {
    type V = ContextView;

    open spec fn view(&self) -> ContextView {
        ContextView {
            env: as_text(self.env@),
            secrets: as_text(self.secrets@),
            steps: as_nested_text(self.steps@),
            jobs: as_nested_text(self.jobs@),
            current_job: option_text(self.current_job),
            current_step: option_text(self.current_step),
            run_id: self.run_id@,
        }
    }
}

impl ExecutionContext {
    /// An empty context with a run id of its own.
    pub fn new() -> (ctx: Self)
        ensures
            ctx@.env == Map::<Seq<char>, Seq<char>>::empty(),
            ctx@.secrets == Map::<Seq<char>, Seq<char>>::empty(),
            ctx@.steps == Map::<Seq<char>, Map<Seq<char>, Seq<char>>>::empty(),
            ctx@.jobs == Map::<Seq<char>, Map<Seq<char>, Seq<char>>>::empty(),
            ctx@.current_job is None,
            ctx@.current_step is None,
            ctx@.run_id.len() == 36,
    {
        let ctx = ExecutionContext::with_run_id(fresh_run_id());
        ctx
    }

    /// An empty context for the run `run_id`.
    pub fn with_run_id(run_id: String) -> (ctx: Self)
        ensures
            ctx@.env == Map::<Seq<char>, Seq<char>>::empty(),
            ctx@.secrets == Map::<Seq<char>, Seq<char>>::empty(),
            ctx@.steps == Map::<Seq<char>, Map<Seq<char>, Seq<char>>>::empty(),
            ctx@.jobs == Map::<Seq<char>, Map<Seq<char>, Seq<char>>>::empty(),
            ctx@.current_job is None,
            ctx@.current_step is None,
            ctx@.run_id == run_id@,
    {
        let ctx = ExecutionContext {
            env: NameMap::new(),
            secrets: NameMap::new(),
            steps: NameMap::new(),
            jobs: NameMap::new(),
            current_job: None,
            current_step: None,
            run_id,
        };
        proof {
            assert(ctx@.env =~= Map::<Seq<char>, Seq<char>>::empty());
            assert(ctx@.secrets =~= Map::<Seq<char>, Seq<char>>::empty());
            assert(ctx@.steps =~= Map::<Seq<char>, Map<Seq<char>, Seq<char>>>::empty());
            assert(ctx@.jobs =~= Map::<Seq<char>, Map<Seq<char>, Seq<char>>>::empty());
        }
        ctx
    }

    /// Sets the output `key` of the step `step_id`.
    pub fn set_output(&mut self, step_id: &str, key: &str, value: String)
        ensures
            final(self)@ == (ContextView {
                steps: with_output(old(self)@.steps, step_id@, key@, value@),
                ..old(self)@
            }),
    {
        set_in(&mut self.steps, step_id, key, value);
    }

    /// The output `key` of the step `step_id`, if it was set.
    pub fn get_output(&self, step_id: &str, key: &str) -> (r: Option<&String>)
        ensures
            match r {
                Some(value) => output_in(self@.steps, step_id@, key@) == Some(value@),
                None => output_in(self@.steps, step_id@, key@) is None,
            },
    {
        get_in(&self.steps, step_id, key)
    }

    /// Sets the environment variable `key`.
    pub fn set_env(&mut self, key: &str, value: String)
        ensures
            final(self)@ == (ContextView { env: old(self)@.env.insert(key@, value@), ..old(self)@ }),
    {
        self.env.insert(key.to_string(), value);
        assert(as_text(self.env@) =~= as_text(old(self).env@).insert(key@, value@));
    }

    /// The environment variable `key`, if it was set.
    pub fn get_env(&self, key: &str) -> (r: Option<&String>)
        ensures
            match r {
                Some(value) => self@.env.contains_key(key@) && self@.env[key@] == value@,
                None => !self@.env.contains_key(key@),
            },
    {
        self.env.get(key)
    }

    /// Sets the secret `key`.
    pub fn set_secret(&mut self, key: &str, value: String)
        ensures
            final(self)@ == (ContextView {
                secrets: old(self)@.secrets.insert(key@, value@),
                ..old(self)@
            }),
    {
        self.secrets.insert(key.to_string(), value);
        assert(as_text(self.secrets@) =~= as_text(old(self).secrets@).insert(key@, value@));
    }

    /// The secret `key`, if it was set.
    pub fn get_secret(&self, key: &str) -> (r: Option<&String>)
        ensures
            match r {
                Some(value) => self@.secrets.contains_key(key@) && self@.secrets[key@] == value@,
                None => !self@.secrets.contains_key(key@),
            },
    {
        self.secrets.get(key)
    }

    /// Sets the output `key` of the job `job_id`.
    pub fn set_job_output(&mut self, job_id: &str, key: &str, value: String)
        ensures
            final(self)@ == (ContextView {
                jobs: with_output(old(self)@.jobs, job_id@, key@, value@),
                ..old(self)@
            }),
    {
        set_in(&mut self.jobs, job_id, key, value);
    }

    /// The output `key` of the job `job_id`, if it was set.
    pub fn get_job_output(&self, job_id: &str, key: &str) -> (r: Option<&String>)
        ensures
            match r {
                Some(value) => output_in(self@.jobs, job_id@, key@) == Some(value@),
                None => output_in(self@.jobs, job_id@, key@) is None,
            },
    {
        get_in(&self.jobs, job_id, key)
    }

    /// All outputs of the step `step_id`, if it has any.
    pub fn get_step_outputs(&self, step_id: &str) -> (r: Option<&NameMap<String>>)
        ensures
            match r {
                Some(outputs) => self@.steps.contains_key(step_id@) && self@.steps[step_id@]
                    == as_text(outputs@),
                None => !self@.steps.contains_key(step_id@),
            },
    {
        self.steps.get(step_id)
    }

    /// All outputs of the job `job_id`, if it has any.
    pub fn get_job_outputs(&self, job_id: &str) -> (r: Option<&NameMap<String>>)
        ensures
            match r {
                Some(outputs) => self@.jobs.contains_key(job_id@) && self@.jobs[job_id@] == as_text(
                    outputs@,
                ),
                None => !self@.jobs.contains_key(job_id@),
            },
    {
        self.jobs.get(job_id)
    }

    /// Writes every variable of `env` over the environment.
    pub fn merge_env(&mut self, env: &NameMap<String>)
        ensures
            final(self)@ == (ContextView {
                env: merged(old(self)@.env, as_text(env@)),
                ..old(self)@
            }),
    {
        let ghost before = as_text(self.env@);
        let ghost pairs = env.pairs();
        let n = env.len();
        let mut i: usize = 0;
        while i < n
            invariant
                i <= n,
                n == env.pairs().len(),
                pairs == env.pairs(),
                crate::namemap::distinct_names(pairs),
                self.secrets == old(self).secrets,
                self.steps == old(self).steps,
                self.jobs == old(self).jobs,
                self.current_job == old(self).current_job,
                self.current_step == old(self).current_step,
                self.run_id == old(self).run_id,
                as_text(self.env@) == merged(
                    before,
                    as_text(crate::namemap::bindings(pairs.subrange(0, i as int))),
                ),
            decreases n - i,
        {
            let name = env.name_at(i).clone();
            let value = env.value_at(i).clone();
            let ghost now = as_text(self.env@);
            self.env.insert(name, value);
            proof {
                let part = pairs.subrange(0, i + 1);
                assert(part.drop_last() == pairs.subrange(0, i as int));
                assert(part.last() == pairs[i as int]);
                assert(as_text(self.env@) =~= now.insert(pairs[i as int].0, pairs[i as int].1@));
                assert(as_text(self.env@) =~= merged(
                    before,
                    as_text(crate::namemap::bindings(part)),
                ));
            }
            i = i + 1;
        }
        proof {
            assert(pairs.subrange(0, n as int) == pairs);
        }
    }
}

impl Clone for ExecutionContext {
    /// A copy of the context. The two share nothing: a later write to
    /// one is not seen in the other.
    fn clone(&self) -> (copy: Self)
        ensures
            copy@ == self@,
    {
        ExecutionContext {
            env: self.env.copy(),
            secrets: self.secrets.copy(),
            steps: crate::state_manager::copy_outputs(&self.steps),
            jobs: crate::state_manager::copy_outputs(&self.jobs),
            current_job: self.current_job.clone(),
            current_step: self.current_step.clone(),
            run_id: self.run_id.clone(),
        }
    }
}

} // verus!
