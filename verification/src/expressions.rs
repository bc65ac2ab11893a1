//! Expressions of the form `${{ … }}` inside strings, and conditions.
//!
//! An expression begins with `${{`, goes on with one or more characters
//! other than `}`, and ends with `}}`. What stands between, with white
//! space at both ends taken off, is a reference: `env.NAME`,
//! `secrets.NAME`, `steps.ID.outputs.NAME`, `jobs.NAME.outputs.NAME`,
//! `run.id` or `run.job`.

use vstd::prelude::*;
use crate::context::{output_in, ContextView, ExecutionContext};
use crate::error::{ExpressionError, ExpressionFault};
use crate::job::{NumberTree, NumberValue, ParamTree, ParamValue};
use crate::json::{JsonTree, JsonValue};
use crate::namemap::{as_text, NameMap};
use crate::text::{
    chars_eq, decimal, decimal_text, find_from, first_at, from_chars, is_word, join2, lower_case,
    lower_text, signed_decimal, signed_text, slice_chars, split_chars, split_text, strip_char,
    strip_chars, to_chars, trim_chars, trim_text,
};

verus! {

/// What the reference `expr` stands for in the context `ctx`.
pub open spec fn single(expr: Seq<char>, ctx: ContextView) -> Result<Seq<char>, ExpressionFault> {
    let parts = split_text(expr, '.');
    let head = parts[0];
    if head == "env"@ {
        if parts.len() != 2 {
            Err(
                ExpressionFault::InvalidSyntax(
                    "env expressions must be env.VAR_NAME, got: "@ + expr,
                ),
            )
        } else if ctx.env.contains_key(parts[1]) {
            Ok(ctx.env[parts[1]])
        } else {
            Err(ExpressionFault::UnknownVariable("env."@ + parts[1]))
        }
    } else if head == "secrets"@ {
        if parts.len() != 2 {
            Err(
                ExpressionFault::InvalidSyntax(
                    "secrets expressions must be secrets.SECRET_NAME, got: "@ + expr,
                ),
            )
        } else if ctx.secrets.contains_key(parts[1]) {
            Ok(ctx.secrets[parts[1]])
        } else {
            Err(ExpressionFault::UnknownVariable("secrets."@ + parts[1]))
        }
    } else if head == "steps"@ {
        if parts.len() != 4 || parts[2] != "outputs"@ {
            Err(
                ExpressionFault::InvalidSyntax(
                    "steps expressions must be steps.STEP_ID.outputs.OUTPUT_NAME, got: "@ + expr,
                ),
            )
        } else {
            match output_in(ctx.steps, parts[1], parts[3]) {
                Some(value) => Ok(value),
                None => Err(
                    ExpressionFault::UnknownVariable(
                        "steps."@ + parts[1] + ".outputs."@ + parts[3],
                    ),
                ),
            }
        }
    } else if head == "jobs"@ {
        if parts.len() != 4 || parts[2] != "outputs"@ {
            Err(
                ExpressionFault::InvalidSyntax(
                    "jobs expressions must be jobs.JOB_NAME.outputs.OUTPUT_NAME, got: "@ + expr,
                ),
            )
        } else {
            match output_in(ctx.jobs, parts[1], parts[3]) {
                Some(value) => Ok(value),
                None => Err(
                    ExpressionFault::UnknownVariable(
                        "jobs."@ + parts[1] + ".outputs."@ + parts[3],
                    ),
                ),
            }
        }
    } else if head == "run"@ {
        if parts.len() >= 2 && parts[1] == "id"@ {
            Ok(ctx.run_id)
        } else if parts.len() >= 2 && parts[1] == "job"@ {
            match ctx.current_job {
                Some(job) => Ok(job),
                None => Err(ExpressionFault::MissingContext("current job"@)),
            }
        } else {
            Err(ExpressionFault::UnknownVariable(expr))
        }
    } else {
        Err(ExpressionFault::UnknownVariable(expr))
    }
}

/// A result by what it holds.
pub open spec fn result_text(r: Result<String, ExpressionError>) -> Result<
    Seq<char>,
    ExpressionFault,
> {
    match r {
        Ok(s) => Ok(s@),
        Err(e) => Err(e@),
    }
}

/// Evaluates one reference, without its `${{ }}`.
pub fn evaluate_single(expr: &str, ctx: &ExecutionContext) -> (r: Result<String, ExpressionError>)
    ensures
        result_text(r) == single(expr@, ctx@),
{
    let chars = to_chars(expr);
    let parts = split_chars(&chars, '.');
    let head = &parts[0];
    if is_word(head, "env") {
        if parts.len() != 2 {
            return Err(
                ExpressionError::InvalidSyntax(
                    join2("env expressions must be env.VAR_NAME, got: ", expr),
                ),
            );
        }
        let name = from_chars(&parts[1]);
        match ctx.env.get(name.as_str()) {
            Some(value) => Ok(value.clone()),
            None => Err(ExpressionError::UnknownVariable(join2("env.", name.as_str()))),
        }
    } else if is_word(head, "secrets") {
        if parts.len() != 2 {
            return Err(
                ExpressionError::InvalidSyntax(
                    join2("secrets expressions must be secrets.SECRET_NAME, got: ", expr),
                ),
            );
        }
        let name = from_chars(&parts[1]);
        match ctx.secrets.get(name.as_str()) {
            Some(value) => Ok(value.clone()),
            None => Err(ExpressionError::UnknownVariable(join2("secrets.", name.as_str()))),
        }
    } else if is_word(head, "steps") {
        if parts.len() != 4 || !is_word(&parts[2], "outputs") {
            return Err(
                ExpressionError::InvalidSyntax(
                    join2(
                        "steps expressions must be steps.STEP_ID.outputs.OUTPUT_NAME, got: ",
                        expr,
                    ),
                ),
            );
        }
        let id = from_chars(&parts[1]);
        let name = from_chars(&parts[3]);
        match ctx.get_output(id.as_str(), name.as_str()) {
            Some(value) => Ok(value.clone()),
            None => {
                let front = join2("steps.", id.as_str());
                let middle = join2(front.as_str(), ".outputs.");
                Err(ExpressionError::UnknownVariable(join2(middle.as_str(), name.as_str())))
            },
        }
    } else if is_word(head, "jobs") {
        if parts.len() != 4 || !is_word(&parts[2], "outputs") {
            return Err(
                ExpressionError::InvalidSyntax(
                    join2("jobs expressions must be jobs.JOB_NAME.outputs.OUTPUT_NAME, got: ", expr),
                ),
            );
        }
        let id = from_chars(&parts[1]);
        let name = from_chars(&parts[3]);
        match ctx.get_job_output(id.as_str(), name.as_str()) {
            Some(value) => Ok(value.clone()),
            None => {
                let front = join2("jobs.", id.as_str());
                let middle = join2(front.as_str(), ".outputs.");
                Err(ExpressionError::UnknownVariable(join2(middle.as_str(), name.as_str())))
            },
        }
    } else if is_word(head, "run") {
        if parts.len() >= 2 && is_word(&parts[1], "id") {
            Ok(ctx.run_id.clone())
        } else if parts.len() >= 2 && is_word(&parts[1], "job") {
            match &ctx.current_job {
                Some(job) => Ok(job.clone()),
                None => Err(ExpressionError::MissingContext("current job".to_string())),
            }
        } else {
            Err(ExpressionError::UnknownVariable(expr.to_string()))
        }
    } else {
        Err(ExpressionError::UnknownVariable(expr.to_string()))
    }
}

/// Whether `${{` stands in `s` at place `i`.
pub open spec fn opens_at(s: Seq<char>, i: int) -> bool {
    0 <= i && i + 3 <= s.len() && s[i] == '$' && s[i + 1] == '{' && s[i + 2] == '{'
}

/// The first place at or after `j` that holds `}`, or the length of `s`
/// where none does.
pub open spec fn body_end(s: Seq<char>, j: int) -> int
    decreases s.len() - j,
{
    if j < 0 || j >= s.len() {
        s.len() as int
    } else if s[j] == '}' {
        j
    } else {
        body_end(s, j + 1)
    }
}

/// Whether an expression begins at place `i` of `s`: `${{`, then one or
/// more characters other than `}`, then `}}`.
pub open spec fn expression_at(s: Seq<char>, i: int) -> bool {
    let e = body_end(s, i + 3);
    opens_at(s, i) && e > i + 3 && e + 2 <= s.len() && s[e] == '}' && s[e + 1] == '}'
}

/// What `s` from place `i` on evaluates to, in one pass from the left: an
/// expression gives way to what its reference stands for, any other
/// character stays. The first reference that stands for nothing is the
/// error.
pub open spec fn evaluated_from(s: Seq<char>, ctx: ContextView, i: int) -> Result<
    Seq<char>,
    ExpressionFault,
>
    decreases s.len() - i,
{
    if i < 0 || i >= s.len() {
        Ok(Seq::empty())
    } else if expression_at(s, i) {
        let e = body_end(s, i + 3);
        match single(trim_text(s.subrange(i + 3, e)), ctx) {
            Err(fault) => Err(fault),
            Ok(value) => match evaluated_from(s, ctx, e + 2) {
                Err(fault) => Err(fault),
                Ok(rest) => Ok(value + rest),
            },
        }
    } else {
        match evaluated_from(s, ctx, i + 1) {
            Err(fault) => Err(fault),
            Ok(rest) => Ok(seq![s[i]] + rest),
        }
    }
}

/// What `s` evaluates to in the context `ctx`.
pub open spec fn evaluated(s: Seq<char>, ctx: ContextView) -> Result<Seq<char>, ExpressionFault> {
    evaluated_from(s, ctx, 0)
}

/// Isolation of contexts. What a reference is worth depends on the
/// context in which it is read and on nothing else; and in a context
/// that holds nothing, as the context of every new run does, no
/// variable of the environment, no secret and no output of a step or of
/// a job is known, whatever another run may have written to its own
/// context: a reference to one has no value.
pub proof fn lemma_nothing_is_known_in_a_new_context(expr: Seq<char>, ctx: ContextView)
    requires
        ctx.env == Map::<Seq<char>, Seq<char>>::empty(),
        ctx.secrets == Map::<Seq<char>, Seq<char>>::empty(),
        ctx.steps == Map::<Seq<char>, Map<Seq<char>, Seq<char>>>::empty(),
        ctx.jobs == Map::<Seq<char>, Map<Seq<char>, Seq<char>>>::empty(),
        split_text(expr, '.')[0] == "env"@ || split_text(expr, '.')[0] == "secrets"@ || split_text(
            expr,
            '.',
        )[0] == "steps"@ || split_text(expr, '.')[0] == "jobs"@,
    ensures
        single(expr, ctx) is Err,
{
}

/// A text without `${{` evaluates to itself, in every context.
pub proof fn lemma_plain_text(s: Seq<char>, ctx: ContextView)
    requires
        forall|i: int| !opens_at(s, i),
    ensures
        evaluated(s, ctx) == Ok::<Seq<char>, ExpressionFault>(s),
{
    lemma_plain_from(s, ctx, 0);
    assert(s.skip(0) == s);
}

proof fn lemma_plain_from(s: Seq<char>, ctx: ContextView, i: int)
    requires
        forall|i: int| !opens_at(s, i),
        0 <= i <= s.len(),
    ensures
        evaluated_from(s, ctx, i) == Ok::<Seq<char>, ExpressionFault>(s.skip(i)),
    decreases s.len() - i,
{
    if i < s.len() {
        assert(!opens_at(s, i));
        lemma_plain_from(s, ctx, i + 1);
        assert(seq![s[i]] + s.skip(i + 1) =~= s.skip(i));
    } else {
        assert(s.skip(i) =~= Seq::<char>::empty());
    }
}

/// The first place at or after `j` that holds `}`.
fn find_close(v: &Vec<char>, j: usize) -> (e: usize)
    ensures
        e == body_end(v@, j as int),
        e <= v.len(),
{
    let mut e: usize = j;
    while e < v.len() && v[e] != '}'
        invariant
            j <= e,
            body_end(v@, j as int) == body_end(v@, e as int),
        decreases v.len() - e,
    {
        e = e + 1;
    }
    if e > v.len() {
        v.len()
    } else {
        e
    }
}

/// Evaluates every expression in `input`.
pub fn evaluate(input: &str, ctx: &ExecutionContext) -> (r: Result<String, ExpressionError>)
    ensures
        result_text(r) == evaluated(input@, ctx@),
{
    let v = to_chars(input);
    let mut out: Vec<char> = Vec::new();
    let mut i: usize = 0;
    while i < v.len()
        invariant
            i <= v.len(),
            v@ == input@,
            match evaluated_from(v@, ctx@, i as int) {
                Ok(rest) => evaluated(v@, ctx@) == Ok::<Seq<char>, ExpressionFault>(out@ + rest),
                Err(fault) => evaluated(v@, ctx@) == Err::<Seq<char>, ExpressionFault>(fault),
            },
        decreases v.len() - i,
    {
        let mut matched = false;
        if v.len() - i >= 3 && v[i] == '$' && v[i + 1] == '{' && v[i + 2] == '{' {
            let e = find_close(&v, i + 3);
            if e > i + 3 && e < v.len() - 1 && v[e] == '}' && v[e + 1] == '}' {
                matched = true;
                let body = slice_chars(&v, i + 3, e);
                let reference = trim_chars(&body);
                let text = from_chars(&reference);
                match evaluate_single(text.as_str(), ctx) {
                    Err(error) => {
                        return Err(error);
                    },
                    Ok(value) => {
                        let mut chars = to_chars(value.as_str());
                        proof {
                            let ghost_rest = evaluated_from(v@, ctx@, e + 2);
                            if ghost_rest is Ok {
                                assert(out@ + (value@ + ghost_rest->Ok_0) =~= (out@ + value@)
                                    + ghost_rest->Ok_0);
                            }
                        }
                        out.append(&mut chars);
                        i = e + 2;
                    },
                }
            }
        }
        if !matched {
            proof {
                assert(!expression_at(v@, i as int));
                let rest = evaluated_from(v@, ctx@, i + 1);
                if rest is Ok {
                    assert(out@ + (seq![v@[i as int]] + rest->Ok_0) =~= out@.push(v@[i as int])
                        + rest->Ok_0);
                }
            }
            out.push(v[i]);
            i = i + 1;
        }
    }
    proof {
        assert(out@ + Seq::<char>::empty() =~= out@);
    }
    Ok(from_chars(&out))
}

/// Whether a value counts as true: it is not empty, not `false`, not `0`,
/// and not `null` or `none` in any mix of upper and lower case.
pub open spec fn truthy(value: Seq<char>) -> bool {
    truthy_given(value, lower_text(value))
}

/// Whether a value counts as true, where `lower` is how it reads in
/// lower case.
pub open spec fn truthy_given(value: Seq<char>, lower: Seq<char>) -> bool {
    value.len() > 0 && value != "false"@ && value != "0"@ && lower != "null"@ && lower != "none"@
}

/// Whether a value counts as true, where `lower` is how it reads in
/// lower case.
pub fn is_truthy_given(value: &str, lower: &str) -> (b: bool)
    ensures
        b == truthy_given(value@, lower@),
{
    let v = to_chars(value);
    let low = to_chars(lower);
    v.len() > 0 && !is_word(&v, "false") && !is_word(&v, "0") && !is_word(&low, "null") && !is_word(
        &low,
        "none",
    )
}

/// Whether a value counts as true.
pub fn is_truthy(value: &str) -> (b: bool)
    ensures
        b == truthy(value@),
{
    let lower = lower_case(value);
    is_truthy_given(value, lower.as_str())
}

/// The two sides of `s` where `pat` stands in it exactly once, counting
/// from the left and without overlap.
pub open spec fn one_split(s: Seq<char>, pat: Seq<char>) -> Option<(Seq<char>, Seq<char>)> {
    let i = first_at(s, pat, 0);
    if i < 0 || first_at(s, pat, i + pat.len()) >= 0 {
        None
    } else {
        Some((s.take(i), s.skip(i + pat.len())))
    }
}

/// One side of a comparison: trimmed and evaluated, or, where it does not
/// evaluate, trimmed and taken as it stands.
pub open spec fn side(text: Seq<char>, ctx: ContextView) -> Seq<char> {
    match evaluated(trim_text(text), ctx) {
        Ok(value) => value,
        Err(_) => trim_text(text),
    }
}

/// `s` without the double quotes around it, then without the single ones.
pub open spec fn unquoted(s: Seq<char>) -> Seq<char> {
    strip_char(strip_char(s, '"'), '\'')
}

/// Whether the condition holds in the context `ctx`. A condition is a
/// comparison with `==` or with `!=`, of sides compared as strings without
/// their quotes; or one of `success()`, `failure()` and `always()`, which
/// are true, false and true; or a text that holds when the value it
/// evaluates to counts as true.
pub open spec fn condition_holds(condition: Seq<char>, ctx: ContextView) -> Result<
    bool,
    ExpressionFault,
> {
    let c = trim_text(condition);
    if one_split(c, "=="@) is Some {
        let sides = one_split(c, "=="@)->Some_0;
        Ok(unquoted(side(sides.0, ctx)) == unquoted(side(sides.1, ctx)))
    } else if one_split(c, "!="@) is Some {
        let sides = one_split(c, "!="@)->Some_0;
        Ok(unquoted(side(sides.0, ctx)) != unquoted(side(sides.1, ctx)))
    } else if c == "success()"@ {
        Ok(true)
    } else if c == "failure()"@ {
        Ok(false)
    } else if c == "always()"@ {
        Ok(true)
    } else {
        match evaluated(c, ctx) {
            Ok(value) => Ok(truthy(value)),
            Err(fault) => Err(fault),
        }
    }
}

/// The two sides of `v` where `pat` stands in it exactly once.
fn split_once_only(v: &Vec<char>, pat: &str) -> (r: Option<(Vec<char>, Vec<char>)>)
    ensures
        match r {
            Some(sides) => one_split(v@, pat@) == Some((sides.0@, sides.1@)),
            None => one_split(v@, pat@) is None,
        },
{
    let p = to_chars(pat);
    match find_from(v, &p, 0) {
        None => None,
        Some(i) => {
            match find_from(v, &p, i + p.len()) {
                Some(_) => None,
                None => {
                    let left = slice_chars(v, 0, i);
                    let right = slice_chars(v, i + p.len(), v.len());
                    Some((left, right))
                },
            }
        },
    }
}

/// One side of a comparison.
fn evaluate_side(text: &Vec<char>, ctx: &ExecutionContext) -> (r: Vec<char>)
    ensures
        r@ == side(text@, ctx@),
{
    let trimmed = trim_chars(text);
    let t = from_chars(&trimmed);
    match evaluate(t.as_str(), ctx) {
        Ok(value) => to_chars(value.as_str()),
        Err(_) => trimmed,
    }
}

/// `v` without its quotes.
fn unquote(v: &Vec<char>) -> (r: Vec<char>)
    ensures
        r@ == unquoted(v@),
{
    let a = strip_chars(v, '"');
    strip_chars(&a, '\'')
}

/// A truth value or a fault, by what the fault holds.
pub open spec fn result_bool(r: Result<bool, ExpressionError>) -> Result<bool, ExpressionFault> {
    match r {
        Ok(b) => Ok(b),
        Err(e) => Err(e@),
    }
}

/// Whether the condition holds in the context `ctx`.
pub fn evaluate_condition(condition: &str, ctx: &ExecutionContext) -> (r: Result<
    bool,
    ExpressionError,
>)
    ensures
        result_bool(r) == condition_holds(condition@, ctx@),
{
    let raw = to_chars(condition);
    let c = trim_chars(&raw);
    match split_once_only(&c, "==") {
        Some(sides) => {
            let left = evaluate_side(&sides.0, ctx);
            let right = evaluate_side(&sides.1, ctx);
            let l = unquote(&left);
            let r = unquote(&right);
            return Ok(chars_eq(&l, &r));
        },
        None => {},
    }
    match split_once_only(&c, "!=") {
        Some(sides) => {
            let left = evaluate_side(&sides.0, ctx);
            let right = evaluate_side(&sides.1, ctx);
            let l = unquote(&left);
            let r = unquote(&right);
            return Ok(!chars_eq(&l, &r));
        },
        None => {},
    }
    if is_word(&c, "success()") {
        Ok(true)
    } else if is_word(&c, "failure()") {
        Ok(false)
    } else if is_word(&c, "always()") {
        Ok(true)
    } else {
        let text = from_chars(&c);
        match evaluate(text.as_str(), ctx) {
            Ok(value) => Ok(is_truthy(value.as_str())),
            Err(error) => Err(error),
        }
    }
}

/// How a number among the parameters reads.
pub open spec fn number_text(n: NumberTree) -> Seq<char> {
    match n {
        NumberTree::Int(i) => signed_text(i),
        NumberTree::UInt(u) => decimal_text(u as nat),
        NumberTree::Real(t) => t,
        NumberTree::NonFinite(t) => t,
    }
}

/// A parameter as a string: a text is evaluated; a number and a truth
/// value read as they are written; null is the empty string; a
/// sequence, a mapping and a value under a tag read as their text form.
pub open spec fn stringified(value: ParamTree, ctx: ContextView) -> Result<
    Seq<char>,
    ExpressionFault,
> {
    match value {
        ParamTree::Text(t) => evaluated(t, ctx),
        ParamTree::Number(n) => Ok(number_text(n)),
        ParamTree::Bool(b) => Ok(
            if b {
                "true"@
            } else {
                "false"@
            },
        ),
        ParamTree::Null => Ok(Seq::empty()),
        ParamTree::Sequence(_, text) => Ok(text),
        ParamTree::Mapping(_, text) => Ok(text),
        ParamTree::Tagged(_, text) => Ok(text),
    }
}

/// The parameters as strings, or the fault of the first of them that does
/// not evaluate.
pub open spec fn stringified_all(params: Seq<(Seq<char>, ParamValue)>, ctx: ContextView) -> Result<
    Map<Seq<char>, Seq<char>>,
    ExpressionFault,
>
    decreases params.len(),
{
    if params.len() == 0 {
        Ok(Map::empty())
    } else {
        match stringified_all(params.drop_last(), ctx) {
            Err(fault) => Err(fault),
            Ok(before) => match stringified(params.last().1@, ctx) {
                Err(fault) => Err(fault),
                Ok(value) => Ok(before.insert(params.last().0, value)),
            },
        }
    }
}

/// A number among the parameters as text.
fn number_string(n: &NumberValue) -> (s: String)
    ensures
        s@ == number_text(n@),
{
    match n {
        NumberValue::Int(i) => signed_decimal(*i),
        NumberValue::UInt(u) => decimal(*u),
        NumberValue::Real(t) => t.clone(),
        NumberValue::NonFinite(t) => t.clone(),
    }
}

/// A parameter as a string.
pub fn stringify(value: &ParamValue, ctx: &ExecutionContext) -> (r: Result<String, ExpressionError>)
    ensures
        result_text(r) == stringified(value@, ctx@),
{
    match value {
        ParamValue::Text(t) => evaluate(t.as_str(), ctx),
        ParamValue::Number(n) => Ok(number_string(n)),
        ParamValue::Bool(b) => Ok(
            if *b {
                "true".to_string()
            } else {
                "false".to_string()
            },
        ),
        ParamValue::Null => Ok(String::new()),
        ParamValue::Sequence(_, text) => Ok(text.clone()),
        ParamValue::Mapping(_, text) => Ok(text.clone()),
        ParamValue::Tagged(_, text) => Ok(text.clone()),
    }
}

/// Evaluates the parameters of a step to strings, for the actions that
/// take simple parameters.
pub fn evaluate_params(params: &NameMap<ParamValue>, ctx: &ExecutionContext) -> (r: Result<
    NameMap<String>,
    ExpressionError,
>)
    ensures
        match stringified_all(params.pairs(), ctx@) {
            Ok(strings) => r matches Ok(map) && as_text(map@) == strings,
            Err(fault) => r matches Err(e) && e@ == fault,
        },
{
    let mut result: NameMap<String> = NameMap::new();
    let n = params.len();
    let mut i: usize = 0;
    proof {
        assert(params.pairs().take(0) =~= Seq::<(Seq<char>, ParamValue)>::empty());
        assert(as_text(result@) =~= Map::<Seq<char>, Seq<char>>::empty());
    }
    while i < n
        invariant
            i <= n,
            n == params.pairs().len(),
            stringified_all(params.pairs().take(i as int), ctx@) == Ok::<
                Map<Seq<char>, Seq<char>>,
                ExpressionFault,
            >(as_text(result@)),
        decreases n - i,
    {
        proof {
            let part = params.pairs().take(i + 1);
            assert(part.drop_last() == params.pairs().take(i as int));
            assert(part.last() == params.pairs()[i as int]);
            lemma_strings_fault_stays(params.pairs(), i + 1, ctx@);
        }
        let name = params.name_at(i).clone();
        match stringify(params.value_at(i), ctx) {
            Err(e) => {
                return Err(e);
            },
            Ok(value) => {
                let ghost before = as_text(result@);
                result.insert(name, value);
                assert(as_text(result@) =~= before.insert(params.pairs()[i as int].0, value@));
            },
        }
        i = i + 1;
    }
    assert(params.pairs().take(n as int) == params.pairs());
    Ok(result)
}

/// Once a parameter has failed to evaluate, the whole evaluation fails
/// with its fault.
proof fn lemma_strings_fault_stays(params: Seq<(Seq<char>, ParamValue)>, k: int, ctx: ContextView)
    requires
        0 <= k <= params.len(),
    ensures
        stringified_all(params.take(k), ctx) matches Err(fault) ==> stringified_all(params, ctx)
            == Err::<Map<Seq<char>, Seq<char>>, ExpressionFault>(fault),
    decreases params.len() - k,
{
    if k < params.len() {
        lemma_strings_fault_stays(params, k + 1, ctx);
        assert(params.take(k + 1).drop_last() == params.take(k));
    } else {
        assert(params.take(k) == params);
    }
}

/// A parameter as a JSON value of the same shape: null, truth values and
/// numbers stay what they are, but for a number that is not finite, which
/// becomes null; a text is evaluated; a sequence becomes an array and a
/// mapping an object, their members converted in the same way; a value
/// under a tag is converted without its tag. An empty mapping stays an
/// empty mapping.
pub open spec fn jsonified(value: ParamTree, ctx: ContextView) -> Result<JsonTree, ExpressionFault>
    decreases value, 0nat,
{
    match value {
        ParamTree::Null => Ok(JsonTree::Null),
        ParamTree::Bool(b) => Ok(JsonTree::Bool(b)),
        ParamTree::Number(NumberTree::NonFinite(_)) => Ok(JsonTree::Null),
        ParamTree::Number(n) => Ok(JsonTree::Number(n)),
        ParamTree::Text(t) => match evaluated(t, ctx) {
            Ok(text) => Ok(JsonTree::Text(text)),
            Err(fault) => Err(fault),
        },
        ParamTree::Sequence(items, _) => match jsonified_items(items, items.len(), ctx) {
            Ok(converted) => Ok(JsonTree::Array(converted)),
            Err(fault) => Err(fault),
        },
        ParamTree::Mapping(entries, _) => match jsonified_entries(entries, entries.len(), ctx) {
            Ok(converted) => Ok(JsonTree::Object(converted)),
            Err(fault) => Err(fault),
        },
        ParamTree::Tagged(inner, _) => jsonified(*inner, ctx),
    }
}

/// The first `n` items converted, or the fault of the first that fails.
pub open spec fn jsonified_items(items: Seq<ParamTree>, n: nat, ctx: ContextView) -> Result<
    Seq<JsonTree>,
    ExpressionFault,
>
    decreases items, n,
{
    if n == 0 || n > items.len() {
        Ok(Seq::empty())
    } else {
        match jsonified_items(items, (n - 1) as nat, ctx) {
            Err(fault) => Err(fault),
            Ok(before) => match jsonified(items[n - 1], ctx) {
                Err(fault) => Err(fault),
                Ok(value) => Ok(before.push(value)),
            },
        }
    }
}

/// The first `n` entries converted, or the fault of the first that fails.
pub open spec fn jsonified_entries(
    entries: Seq<(Seq<char>, ParamTree)>,
    n: nat,
    ctx: ContextView,
) -> Result<Seq<(Seq<char>, JsonTree)>, ExpressionFault>
    decreases entries, n,
{
    if n == 0 || n > entries.len() {
        Ok(Seq::empty())
    } else {
        match jsonified_entries(entries, (n - 1) as nat, ctx) {
            Err(fault) => Err(fault),
            Ok(before) => match jsonified(entries[n - 1].1, ctx) {
                Err(fault) => Err(fault),
                Ok(value) => Ok(before.push((entries[n - 1].0, value))),
            },
        }
    }
}

/// A JSON value or a fault, by what they hold.
pub open spec fn result_json(r: Result<JsonValue, ExpressionError>) -> Result<
    JsonTree,
    ExpressionFault,
> {
    match r {
        Ok(v) => Ok(v@),
        Err(e) => Err(e@),
    }
}

/// A parameter as a JSON value of the same shape, its texts evaluated.
pub fn yaml_to_json_with_expressions(value: &ParamValue, ctx: &ExecutionContext) -> (r: Result<
    JsonValue,
    ExpressionError,
>)
    ensures
        result_json(r) == jsonified(value@, ctx@),
    decreases value,
{
    match value {
        ParamValue::Null => Ok(JsonValue::Null),
        ParamValue::Bool(b) => Ok(JsonValue::Bool(*b)),
        ParamValue::Number(n) => match n {
            NumberValue::NonFinite(_) => Ok(JsonValue::Null),
            _ => Ok(JsonValue::Number(n.clone())),
        },
        ParamValue::Text(t) => match evaluate(t.as_str(), ctx) {
            Ok(text) => Ok(JsonValue::Text(text)),
            Err(e) => Err(e),
        },
        ParamValue::Sequence(items, _) => {
            let ghost all = value@->Sequence_0;
            let mut converted: Vec<JsonValue> = Vec::new();
            let mut i: usize = 0;
            while i < items.len()
                invariant
                    i <= items.len(),
                    decreases_to!(value => *items),
                    value@ is Sequence,
                    value@->Sequence_0 == all,
                    all.len() == items.len(),
                    forall|j: int| 0 <= j < items.len() ==> (#[trigger] items[j])@ == all[j],
                    jsonified_items(all, i as nat, ctx@) matches Ok(seen) && seen.len() == i
                        && forall|j: int| 0 <= j < i ==> (#[trigger] converted[j])@ == seen[j],
                    converted.len() == i,
                decreases items.len() - i,
            {
                proof {
                    lemma_items_fault_stays(all, (i + 1) as nat, ctx@);
                }
                match yaml_to_json_with_expressions(&items[i], ctx) {
                    Err(e) => {
                        assert(jsonified(all[i as int], ctx@) == Err::<JsonTree, ExpressionFault>(e@));
                        assert(jsonified_items(all, (i + 1) as nat, ctx@) == Err::<
                            Seq<JsonTree>,
                            ExpressionFault,
                        >(e@));
                        return Err(e);
                    },
                    Ok(v) => {
                        converted.push(v);
                    },
                }
                i = i + 1;
            }
            let out = JsonValue::Array(converted);
            proof {
                let seen = jsonified_items(all, all.len(), ctx@)->Ok_0;
                assert(out@->Array_0 =~= seen);
            }
            Ok(out)
        },
        ParamValue::Mapping(entries, _) => {
            let ghost all = value@->Mapping_0;
            let mut converted: Vec<(String, JsonValue)> = Vec::new();
            let mut i: usize = 0;
            while i < entries.len()
                invariant
                    i <= entries.len(),
                    decreases_to!(value => *entries),
                    value@ is Mapping,
                    value@->Mapping_0 == all,
                    all.len() == entries.len(),
                    forall|j: int|
                        0 <= j < entries.len() ==> (#[trigger] entries[j]).0@ == all[j].0
                            && entries[j].1@ == all[j].1,
                    jsonified_entries(all, i as nat, ctx@) matches Ok(seen) && seen.len() == i
                        && forall|j: int|
                        0 <= j < i ==> (#[trigger] converted[j]).0@ == seen[j].0 && converted[j].1@
                            == seen[j].1,
                    converted.len() == i,
                decreases entries.len() - i,
            {
                proof {
                    lemma_entries_fault_stays(all, (i + 1) as nat, ctx@);
                }
                match yaml_to_json_with_expressions(&entries[i].1, ctx) {
                    Err(e) => {
                        assert(jsonified(all[i as int].1, ctx@) == Err::<JsonTree, ExpressionFault>(
                            e@,
                        ));
                        assert(jsonified_entries(all, (i + 1) as nat, ctx@) == Err::<
                            Seq<(Seq<char>, JsonTree)>,
                            ExpressionFault,
                        >(e@));
                        return Err(e);
                    },
                    Ok(v) => {
                        converted.push((entries[i].0.clone(), v));
                    },
                }
                i = i + 1;
            }
            let out = JsonValue::Object(converted);
            proof {
                let seen = jsonified_entries(all, all.len(), ctx@)->Ok_0;
                assert forall|j: int| 0 <= j < seen.len() implies out@->Object_0[j] == seen[j] by {
                    assert(converted[j].0@ == seen[j].0);
                }
                assert(out@->Object_0 =~= seen);
            }
            Ok(out)
        },
        ParamValue::Tagged(inner, _) => yaml_to_json_with_expressions(inner, ctx),
    }
}

proof fn lemma_items_fault_stays(items: Seq<ParamTree>, k: nat, ctx: ContextView)
    requires
        k <= items.len(),
    ensures
        jsonified_items(items, k, ctx) matches Err(fault) ==> jsonified_items(
            items,
            items.len(),
            ctx,
        ) == Err::<Seq<JsonTree>, ExpressionFault>(fault),
    decreases items.len() - k,
{
    if k < items.len() {
        lemma_items_fault_stays(items, k + 1, ctx);
    }
}

proof fn lemma_entries_fault_stays(entries: Seq<(Seq<char>, ParamTree)>, k: nat, ctx: ContextView)
    requires
        k <= entries.len(),
    ensures
        jsonified_entries(entries, k, ctx) matches Err(fault) ==> jsonified_entries(
            entries,
            entries.len(),
            ctx,
        ) == Err::<Seq<(Seq<char>, JsonTree)>, ExpressionFault>(fault),
    decreases entries.len() - k,
{
    if k < entries.len() {
        lemma_entries_fault_stays(entries, k + 1, ctx);
    }
}

/// The parameters as JSON values, or the fault of the first of them that
/// does not evaluate.
pub open spec fn jsonified_all(params: Seq<(Seq<char>, ParamValue)>, ctx: ContextView) -> Result<
    Map<Seq<char>, JsonTree>,
    ExpressionFault,
>
    decreases params.len(),
{
    if params.len() == 0 {
        Ok(Map::empty())
    } else {
        match jsonified_all(params.drop_last(), ctx) {
            Err(fault) => Err(fault),
            Ok(before) => match jsonified(params.last().1@, ctx) {
                Err(fault) => Err(fault),
                Ok(value) => Ok(before.insert(params.last().0, value)),
            },
        }
    }
}

/// Each value of `m` by what it holds.
pub open spec fn as_json(m: Map<Seq<char>, JsonValue>) -> Map<Seq<char>, JsonTree> {
    Map::new(|name: Seq<char>| m.contains_key(name), |name: Seq<char>| m[name]@)
}

proof fn lemma_json_fault_stays(params: Seq<(Seq<char>, ParamValue)>, k: int, ctx: ContextView)
    requires
        0 <= k <= params.len(),
    ensures
        jsonified_all(params.take(k), ctx) matches Err(fault) ==> jsonified_all(params, ctx)
            == Err::<Map<Seq<char>, JsonTree>, ExpressionFault>(fault),
    decreases params.len() - k,
{
    if k < params.len() {
        lemma_json_fault_stays(params, k + 1, ctx);
        assert(params.take(k + 1).drop_last() == params.take(k));
    } else {
        assert(params.take(k) == params);
    }
}

/// Evaluates the parameters of a step to JSON values that keep their
/// shape, for the calls to functions of a registry.
pub fn evaluate_params_json(params: &NameMap<ParamValue>, ctx: &ExecutionContext) -> (r: Result<
    NameMap<JsonValue>,
    ExpressionError,
>)
    ensures
        match jsonified_all(params.pairs(), ctx@) {
            Ok(values) => r matches Ok(map) && as_json(map@) == values,
            Err(fault) => r matches Err(e) && e@ == fault,
        },
{
    let mut result: NameMap<JsonValue> = NameMap::new();
    let n = params.len();
    let mut i: usize = 0;
    proof {
        assert(params.pairs().take(0) =~= Seq::<(Seq<char>, ParamValue)>::empty());
        assert(as_json(result@) =~= Map::<Seq<char>, JsonTree>::empty());
    }
    while i < n
        invariant
            i <= n,
            n == params.pairs().len(),
            jsonified_all(params.pairs().take(i as int), ctx@) == Ok::<
                Map<Seq<char>, JsonTree>,
                ExpressionFault,
            >(as_json(result@)),
        decreases n - i,
    {
        proof {
            let part = params.pairs().take(i + 1);
            assert(part.drop_last() == params.pairs().take(i as int));
            assert(part.last() == params.pairs()[i as int]);
            lemma_json_fault_stays(params.pairs(), i + 1, ctx@);
        }
        let name = params.name_at(i).clone();
        match yaml_to_json_with_expressions(params.value_at(i), ctx) {
            Err(e) => {
                return Err(e);
            },
            Ok(value) => {
                let ghost before = as_json(result@);
                result.insert(name, value);
                assert(as_json(result@) =~= before.insert(params.pairs()[i as int].0, value@));
            },
        }
        i = i + 1;
    }
    assert(params.pairs().take(n as int) == params.pairs());
    Ok(result)
}

} // verus!
