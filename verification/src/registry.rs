//! What a registry of functions sees of a run: the shared context of its
//! bridge.

use vstd::prelude::*;
use crate::json::JsonValue;
use crate::context::output_in;
use crate::namemap::{as_nested_text, as_text, NameMap};
use crate::bridge::AssertionResult;
use crate::rpc::FunctionInfo;
use crate::text::{chars_eq, join2, slice_chars, to_chars};

verus! {

/// The state of the clock as a registry holds it.
#[derive(Debug, Clone)]
pub struct ClockState {
    /// Virtual time in milliseconds since the epoch.
    pub virtual_time_ms: Option<i64>,
    /// Virtual time as an RFC 3339 string.
    pub virtual_time_iso: Option<String>,
    pub frozen: bool,
}

/// Whether `s` begins with `prefix`.
pub open spec fn begins_with(s: Seq<char>, prefix: Seq<char>) -> bool {
    prefix.len() <= s.len() && s.take(prefix.len() as int) == prefix
}

/// Whether `s` ends with `suffix`.
pub open spec fn ends_with(s: Seq<char>, suffix: Seq<char>) -> bool {
    suffix.len() <= s.len() && s.skip(s.len() - suffix.len()) == suffix
}

/// The first place of `s` that holds `c`, or the length of `s`.
pub open spec fn first_of_char(s: Seq<char>, c: char) -> int
    decreases s.len(),
{
    if s.len() == 0 {
        0
    } else if s[0] == c {
        0
    } else {
        1 + first_of_char(s.drop_first(), c)
    }
}

/// Whether `key` matches `pattern`. A star alone matches every key; a
/// pattern that ends with a star matches the keys that begin with what
/// stands before it; one that begins with a star, those that end with
/// what stands after it; one with a star inside, those that begin with
/// what stands before its first star and end with what stands after it;
/// a pattern without a star matches itself alone.
pub open spec fn matches(key: Seq<char>, pattern: Seq<char>) -> bool {
    if pattern == seq!['*'] {
        true
    } else if pattern.len() > 0 && pattern.last() == '*' {
        begins_with(key, pattern.drop_last())
    } else if pattern.len() > 0 && pattern[0] == '*' {
        ends_with(key, pattern.drop_first())
    } else if first_of_char(pattern, '*') < pattern.len() {
        let star = first_of_char(pattern, '*');
        begins_with(key, pattern.take(star)) && ends_with(key, pattern.skip(star + 1))
    } else {
        key == pattern
    }
}

/// Whether `v` begins with the characters of `p` from `a` up to `b`.
fn starts(v: &Vec<char>, p: &Vec<char>, a: usize, b: usize) -> (r: bool)
    requires
        a <= b <= p.len(),
    ensures
        r == begins_with(v@, p@.subrange(a as int, b as int)),
{
    let n = b - a;
    if n > v.len() {
        return false;
    }
    let part = slice_chars(p, a, b);
    let head = slice_chars(v, 0, n);
    assert(v@.take(n as int) == v@.subrange(0, n as int));
    chars_eq(&head, &part)
}

/// Whether `v` ends with the characters of `p` from `a` up to `b`.
fn ends(v: &Vec<char>, p: &Vec<char>, a: usize, b: usize) -> (r: bool)
    requires
        a <= b <= p.len(),
    ensures
        r == ends_with(v@, p@.subrange(a as int, b as int)),
{
    let n = b - a;
    if n > v.len() {
        return false;
    }
    let part = slice_chars(p, a, b);
    let tail = slice_chars(v, v.len() - n, v.len());
    assert(v@.skip(v.len() - n) == v@.subrange(v.len() - n, v.len() as int));
    chars_eq(&tail, &part)
}

/// The first place of `v` that holds `c`, or the length of `v`.
fn find_char(v: &Vec<char>, c: char) -> (r: usize)
    ensures
        r == first_of_char(v@, c),
        r <= v.len(),
{
    let mut i: usize = 0;
    assert(v@.skip(0) == v@);
    while i < v.len() && v[i] != c
        invariant
            i <= v.len(),
            first_of_char(v@, c) == i + first_of_char(v@.skip(i as int), c),
        decreases v.len() - i,
    {
        proof {
            assert(v@.skip(i as int)[0] == v[i as int]);
            assert(v@.skip(i as int).drop_first() == v@.skip(i + 1));
        }
        i = i + 1;
    }
    proof {
        if i < v.len() {
            assert(v@.skip(i as int)[0] == v[i as int]);
        } else {
            assert(v@.skip(i as int).len() == 0);
        }
    }
    i
}

/// Whether `key` matches `pattern`.
pub fn matches_pattern(key: &str, pattern: &str) -> (r: bool)
    ensures
        r == matches(key@, pattern@),
{
    let k = to_chars(key);
    let p = to_chars(pattern);
    if p.len() == 1 && p[0] == '*' {
        assert(p@ =~= seq!['*']);
        return true;
    }
    if p.len() > 0 && p[p.len() - 1] == '*' {
        assert(p@.drop_last() == p@.subrange(0, p.len() - 1));
        return starts(&k, &p, 0, p.len() - 1);
    }
    if p.len() > 0 && p[0] == '*' {
        assert(p@.drop_first() == p@.subrange(1, p.len() as int));
        return ends(&k, &p, 1, p.len());
    }
    let star = find_char(&p, '*');
    if star < p.len() {
        assert(p@.take(star as int) == p@.subrange(0, star as int));
        assert(p@.skip(star + 1) == p@.subrange(star + 1, p.len() as int));
        return starts(&k, &p, 0, star) && ends(&k, &p, star + 1, p.len());
    }
    chars_eq(&k, &p)
}

/// The context that the functions of a registry share within a run.
#[derive(Debug, Clone)]
pub struct Context {
    data: NameMap<JsonValue>,
    step_outputs: NameMap<NameMap<String>>,
    run_id: String,
    job_name: String,
    step_name: String,
    clock: Option<ClockState>,
}

/// The entries of `entries` whose name does not match `pattern`.
pub open spec fn kept(entries: Seq<(Seq<char>, JsonValue)>, pattern: Seq<char>) -> Seq<
    (Seq<char>, JsonValue),
>
    decreases entries.len(),
{
    if entries.len() == 0 {
        Seq::empty()
    } else if matches(entries.last().0, pattern) {
        kept(entries.drop_last(), pattern)
    } else {
        kept(entries.drop_last(), pattern).push(entries.last())
    }
}

/// Every entry that is kept is an entry with its name.
proof fn lemma_kept_names(entries: Seq<(Seq<char>, JsonValue)>, pattern: Seq<char>)
    ensures
        kept(entries, pattern).len() <= entries.len(),
        forall|i: int|
            0 <= i < kept(entries, pattern).len() ==> exists|j: int|
                0 <= j < entries.len() && entries[j] == #[trigger] kept(entries, pattern)[i],
    decreases entries.len(),
{
    if entries.len() > 0 {
        let front = entries.drop_last();
        lemma_kept_names(front, pattern);
        let now = kept(entries, pattern);
        assert forall|i: int| 0 <= i < now.len() implies exists|j: int|
            0 <= j < entries.len() && entries[j] == #[trigger] now[i] by {
            if !matches(entries.last().0, pattern) && i == now.len() - 1 {
                assert(entries[entries.len() - 1] == now[i]);
            } else {
                let j = choose|j: int|
                    0 <= j < front.len() && front[j] == kept(front, pattern)[i];
                assert(entries[j] == now[i]);
            }
        }
    }
}

impl Context {
    /// The values of the store in the order in which their keys came.
    pub closed spec fn entries(&self) -> Seq<(Seq<char>, JsonValue)> {
        self.data.pairs()
    }

    /// The values of the store by key.
    pub closed spec fn view(&self) -> Map<Seq<char>, JsonValue> {
        self.data@
    }

    /// The outputs of the steps, by step and by name.
    pub closed spec fn outputs(&self) -> Map<Seq<char>, Map<Seq<char>, Seq<char>>> {
        as_nested_text(self.step_outputs@)
    }

    /// The id of the run, the name of the job and the name of the step.
    pub closed spec fn info(&self) -> (Seq<char>, Seq<char>, Seq<char>) {
        (self.run_id@, self.job_name@, self.step_name@)
    }

    /// The state of the clock, if it was set.
    pub closed spec fn clock_state(&self) -> Option<ClockState> {
        self.clock
    }

    /// An empty context.
    pub fn new() -> (c: Self)
        ensures
            c@ == Map::<Seq<char>, JsonValue>::empty(),
            c.entries().len() == 0,
            c.outputs() == Map::<Seq<char>, Map<Seq<char>, Seq<char>>>::empty(),
            c.info() == (Seq::<char>::empty(), Seq::<char>::empty(), Seq::<char>::empty()),
            c.clock_state() is None,
    {
        assert(as_nested_text(Map::<Seq<char>, NameMap<String>>::empty()) =~= Map::<
            Seq<char>,
            Map<Seq<char>, Seq<char>>,
        >::empty());
        Context {
            data: NameMap::new(),
            step_outputs: NameMap::new(),
            run_id: String::new(),
            job_name: String::new(),
            step_name: String::new(),
            clock: None,
        }
    }

    /// The value under `key`, if there is one.
    pub fn get(&self, key: &str) -> (r: Option<&JsonValue>)
        ensures
            match r {
                Some(v) => self@.contains_key(key@) && *v == self@[key@],
                None => !self@.contains_key(key@),
            },
    {
        self.data.get(key)
    }

    /// Puts `value` under `key`.
    pub fn set(&mut self, key: &str, value: JsonValue)
        ensures
            final(self)@ == old(self)@.insert(key@, value),
            final(self).outputs() == old(self).outputs(),
            final(self).info() == old(self).info(),
            final(self).clock_state() == old(self).clock_state(),
    {
        self.data.insert(key.to_string(), value);
    }

    /// Takes the value under `key` out of the store.
    pub fn remove(&mut self, key: &str) -> (r: Option<JsonValue>)
        ensures
            final(self)@ == old(self)@.remove(key@),
            final(self).outputs() == old(self).outputs(),
            final(self).info() == old(self).info(),
            final(self).clock_state() == old(self).clock_state(),
            match r {
                Some(v) => old(self)@.contains_key(key@) && v == old(self)@[key@],
                None => !old(self)@.contains_key(key@),
            },
    {
        self.data.remove(key)
    }

    /// Takes every value whose key matches `pattern` out of the store,
    /// and hands back how many they were.
    pub fn clear(&mut self, pattern: &str) -> (count: u64)
        ensures
            final(self).entries() == kept(old(self).entries(), pattern@),
            count == old(self).entries().len() - final(self).entries().len(),
            final(self).outputs() == old(self).outputs(),
            final(self).info() == old(self).info(),
            final(self).clock_state() == old(self).clock_state(),
    {
        let ghost before = self.data.pairs();
        let mut data: NameMap<JsonValue> = NameMap::new();
        std::mem::swap(&mut self.data, &mut data);
        let entries = data.into_entries();
        let n = entries.len();
        let mut rest: NameMap<JsonValue> = NameMap::new();
        let mut removed: u64 = 0;
        let mut at: usize = 0;
        proof {
            assert(before.take(0) =~= Seq::<(Seq<char>, JsonValue)>::empty());
        }
        for entry in it: entries.into_iter()
            invariant
                at == it.index(),
                at <= n,
                n == before.len(),
                crate::namemap::viewed(it.seq()) == before,
                crate::namemap::distinct_names(before),
                rest.pairs() == kept(before.take(at as int), pattern@),
                removed + rest.pairs().len() == at,
        {
            let (name, value) = entry;
            proof {
                let part = before.take(at + 1);
                assert(part.drop_last() == before.take(at as int));
                assert(part.last() == before[at as int]);
                assert(before[at as int] == (name@, value));
            }
            if matches_pattern(name.as_str(), pattern) {
                removed = removed + 1;
            } else {
                proof {
                    lemma_kept_names(before.take(at as int), pattern@);
                    if rest@.contains_key(name@) {
                        crate::namemap::lemma_bindings_dom(rest.pairs(), name@);
                        let a = choose|a: int|
                            0 <= a < rest.pairs().len() && #[trigger] rest.pairs()[a].0 == name@;
                        let j = choose|j: int|
                            0 <= j < before.take(at as int).len() && before.take(at as int)[j]
                                == rest.pairs()[a];
                        assert(before[j].0 == before[at as int].0);
                    }
                }
                rest.insert(name, value);
            }
            at = at + 1;
        }
        assert(before.take(n as int) == before);
        self.data = rest;
        removed
    }

    /// The values of the store by key.
    pub fn data(&self) -> (data: &NameMap<JsonValue>)
        ensures
            data@ == self@,
            data.pairs() == self.entries(),
    {
        &self.data
    }

    /// The output `output_name` of the step `step_id`, if there is one.
    pub fn get_step_output(&self, step_id: &str, output_name: &str) -> (r: Option<&String>)
        ensures
            match r {
                Some(value) => output_in(self.outputs(), step_id@, output_name@) == Some(value@),
                None => output_in(self.outputs(), step_id@, output_name@) is None,
            },
    {
        match self.step_outputs.get(step_id) {
            Some(outputs) => outputs.get(output_name),
            None => None,
        }
    }

    /// The outputs of the step `step_id`, if it has any.
    pub fn get_step_outputs(&self, step_id: &str) -> (r: Option<&NameMap<String>>)
        ensures
            match r {
                Some(outputs) => self.outputs().contains_key(step_id@) && self.outputs()[step_id@]
                    == as_text(outputs@),
                None => !self.outputs().contains_key(step_id@),
            },
    {
        self.step_outputs.get(step_id)
    }

    /// Sets the outputs of the step `step_id`.
    pub fn set_step_outputs(&mut self, step_id: &str, outputs: NameMap<String>)
        ensures
            final(self).outputs() == old(self).outputs().insert(step_id@, as_text(outputs@)),
            final(self)@ == old(self)@,
            final(self).entries() == old(self).entries(),
            final(self).info() == old(self).info(),
            final(self).clock_state() == old(self).clock_state(),
    {
        let ghost before = as_nested_text(self.step_outputs@);
        self.step_outputs.insert(step_id.to_string(), outputs);
        assert(as_nested_text(self.step_outputs@) =~= before.insert(step_id@, as_text(outputs@)));
    }

    /// The id of the run.
    pub fn run_id(&self) -> (id: &str)
        ensures
            id@ == self.info().0,
    {
        self.run_id.as_str()
    }

    /// The name of the job.
    pub fn job_name(&self) -> (name: &str)
        ensures
            name@ == self.info().1,
    {
        self.job_name.as_str()
    }

    /// The name of the step.
    pub fn step_name(&self) -> (name: &str)
        ensures
            name@ == self.info().2,
    {
        self.step_name.as_str()
    }

    /// Sets where in the run the registry is called from.
    pub fn set_execution_info(&mut self, run_id: &str, job_name: &str, step_name: &str)
        ensures
            final(self).info() == (run_id@, job_name@, step_name@),
            final(self)@ == old(self)@,
            final(self).entries() == old(self).entries(),
            final(self).outputs() == old(self).outputs(),
            final(self).clock_state() == old(self).clock_state(),
    {
        self.run_id = run_id.to_string();
        self.job_name = job_name.to_string();
        self.step_name = step_name.to_string();
    }

    /// Sets the state of the clock.
    pub fn set_clock(
        &mut self,
        virtual_time_ms: Option<i64>,
        virtual_time_iso: Option<String>,
        frozen: bool,
    )
        ensures
            final(self).clock_state() == Some(
                ClockState { virtual_time_ms, virtual_time_iso, frozen },
            ),
            final(self)@ == old(self)@,
            final(self).entries() == old(self).entries(),
            final(self).outputs() == old(self).outputs(),
            final(self).info() == old(self).info(),
    {
        self.clock = Some(ClockState { virtual_time_ms, virtual_time_iso, frozen });
    }

    /// The state of the clock, if it was set.
    pub fn clock(&self) -> (clock: Option<&ClockState>)
        ensures
            match clock {
                Some(c) => self.clock_state() == Some(*c),
                None => self.clock_state() is None,
            },
    {
        self.clock.as_ref()
    }

    /// Whether the clock is on virtual time.
    pub fn is_clock_mocked(&self) -> (b: bool)
        ensures
            b == match self.clock_state() {
                Some(c) => c.virtual_time_ms is Some,
                None => false,
            },
    {
        match &self.clock {
            Some(c) => c.virtual_time_ms.is_some(),
            None => false,
        }
    }

    /// The time of the registry in milliseconds since the epoch: virtual
    /// time where the clock is on it, else `wall`.
    pub fn now(&self, wall: i64) -> (ms: i64)
        ensures
            ms == match self.clock_state() {
                Some(c) => match c.virtual_time_ms {
                    Some(t) => t,
                    None => wall,
                },
                None => wall,
            },
    {
        match &self.clock {
            Some(c) => match c.virtual_time_ms {
                Some(t) => t,
                None => wall,
            },
            None => wall,
        }
    }
}

/// What a registry of functions must offer to be served to workflows.
pub trait RustRegistry: Send + Sync {
    /// Calls the function `name` on `args`. An error fails the step.
    fn call(&self, name: &str, args: JsonValue, ctx: &mut Context) -> Result<JsonValue, String>;

    /// The functions that can be called.
    fn list_functions(&self) -> Vec<FunctionInfo>;

    /// Makes the assertion `name` on `params`. A registry that has none
    /// reports every assertion as unknown: the assertion could not be
    /// made, and the message names it.
    fn call_assertion(&self, name: &str, params: JsonValue, ctx: &Context) -> (r: AssertionResult)
        default_ensures
            !r.success,
            r.message matches Some(m) && m@ == "Unknown assertion: "@ + name@,
            r.actual is None,
            r.expected is None,
    {
        let message = join2("Unknown assertion: ", name);
        AssertionResult::error(message.as_str())
    }

    /// Calls the hook `hook`. A registry that has none lets every hook
    /// pass, and leaves the context as it was; an error ends the
    /// workflow.
    fn call_hook(&self, hook: &str, ctx: &mut Context) -> (r: Result<(), String>)
        default_ensures
            r is Ok,
            *final(ctx) == *old(ctx),
    {
        Ok(())
    }

    /// The assertions that can be made. A registry that has none lists
    /// none.
    fn list_assertions(&self) -> (list: Vec<FunctionInfo>)
        default_ensures
            list@.len() == 0,
    {
        Vec::new()
    }
}

} // verus!
