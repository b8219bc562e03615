//! What holds of the counts of calls and tokens, number by number.

use vstd::prelude::*;
use crate::json::{JsonView, NumberView, field};
use crate::review_laws::is_list_of;
use crate::usage::{
    Counts, StageUsage, StageView, TokenUsage, call_counts, call_step_value, calls_counts,
    no_counts, plus, reported_counts, stage_counts, stage_value, stage_views, steps_counts,
    steps_sum, summary_value, totals_step_value, totals_value, validation_steps,
    validation_usage_value,
};

verus! {

/// Whether a count is the number that was reported, and nothing where none was.
pub open spec fn is_reported(n: Option<u32>, count: nat) -> bool {
    match n {
        Some(n) => count == n,
        None => count == 0,
    }
}

/// A call counts as one, with the tokens of each sort that it reports.
pub proof fn lemma_call(u: TokenUsage)
    ensures
        call_counts(u).api_calls == 1,
        is_reported(u.prompt, call_counts(u).prompt),
        is_reported(u.completion, call_counts(u).completion),
        is_reported(u.cache_creation, call_counts(u).cache_creation),
        is_reported(u.cache_read, call_counts(u).cache_read),
{
}

/// Counts are added sort by sort; adding nothing, and the order, change nothing.
pub proof fn lemma_plus(a: Counts, b: Counts, c: Counts)
    ensures
        plus(a, b).api_calls == a.api_calls + b.api_calls,
        plus(a, b).prompt == a.prompt + b.prompt,
        plus(a, b).completion == a.completion + b.completion,
        plus(a, b).cache_creation == a.cache_creation + b.cache_creation,
        plus(a, b).cache_read == a.cache_read + b.cache_read,
        plus(a, no_counts()) == a,
        plus(a, b) == plus(b, a),
        plus(plus(a, b), c) == plus(a, plus(b, c)),
{
}

/// No calls count for nothing, and one more adds what it used.
pub proof fn lemma_calls_one_more(calls: Seq<TokenUsage>, call: TokenUsage)
    ensures
        calls_counts(Seq::empty()) == no_counts(),
        calls_counts(calls.push(call)) == plus(calls_counts(calls), call_counts(call)),
        calls_counts(calls).api_calls == calls.len(),
    decreases calls.len(),
{
    assert(calls.push(call).drop_last() =~= calls);
    if calls.len() > 0 {
        lemma_calls_one_more(calls.drop_last(), call);
    }
}

/// The stages count as their calls do.
pub proof fn lemma_stages_one_more(stages: Seq<StageView>, stage: StageView)
    ensures
        stage_counts(Seq::empty()) == no_counts(),
        stage_counts(stages.push(stage)) == plus(stage_counts(stages), call_counts(stage.usage)),
{
    let f = |s: StageView| s.usage;
    let none = Seq::<StageView>::empty();
    assert(none.map_values(f) =~= Seq::<TokenUsage>::empty());
    assert(stages.push(stage).map_values(f) =~= stages.map_values(f).push(stage.usage));
    lemma_calls_one_more(stages.map_values(f), stage.usage);
}

proof fn lemma_count_names_differ()
    ensures
        "api_calls"@ != "prompt_tokens"@,
        "api_calls"@ != "completion_tokens"@,
        "api_calls"@ != "cache_creation_tokens"@,
        "api_calls"@ != "cache_read_tokens"@,
        "prompt_tokens"@ != "completion_tokens"@,
        "prompt_tokens"@ != "cache_creation_tokens"@,
        "prompt_tokens"@ != "cache_read_tokens"@,
        "completion_tokens"@ != "cache_creation_tokens"@,
        "completion_tokens"@ != "cache_read_tokens"@,
        "cache_creation_tokens"@ != "cache_read_tokens"@,
{
    reveal_strlit("api_calls");
    reveal_strlit("prompt_tokens");
    reveal_strlit("completion_tokens");
    reveal_strlit("cache_creation_tokens");
    reveal_strlit("cache_read_tokens");
    assert("api_calls"@.len() == 9 && "prompt_tokens"@.len() == 13 && "completion_tokens"@.len()
        == 17 && "cache_creation_tokens"@.len() == 21 && "cache_read_tokens"@.len() == 17);
    assert("completion_tokens"@[1] != "cache_read_tokens"@[1]);
}

/// Totals have each count under its name, and nothing else.
pub proof fn lemma_totals_members(c: Counts, name: Seq<char>)
    ensures
        field(totals_value(c), "api_calls"@)
            == Some(JsonView::Number(NumberView::Integer(c.api_calls as int))),
        field(totals_value(c), "prompt_tokens"@)
            == Some(JsonView::Number(NumberView::Integer(c.prompt as int))),
        field(totals_value(c), "completion_tokens"@)
            == Some(JsonView::Number(NumberView::Integer(c.completion as int))),
        field(totals_value(c), "cache_creation_tokens"@)
            == Some(JsonView::Number(NumberView::Integer(c.cache_creation as int))),
        field(totals_value(c), "cache_read_tokens"@)
            == Some(JsonView::Number(NumberView::Integer(c.cache_read as int))),
        name != "api_calls"@ && name != "prompt_tokens"@ && name != "completion_tokens"@
            && name != "cache_creation_tokens"@ && name != "cache_read_tokens"@
            ==> field(totals_value(c), name) is None,
{
    lemma_count_names_differ();
}

/// A summary of what was used has each count under its name, and nothing else.
pub proof fn lemma_summary_members(c: Counts, name: Seq<char>)
    ensures
        field(summary_value(c), "api_calls"@)
            == Some(JsonView::Number(NumberView::Integer(c.api_calls as int))),
        field(summary_value(c), "prompt_tokens"@)
            == Some(JsonView::Number(NumberView::Integer(c.prompt as int))),
        field(summary_value(c), "completion_tokens"@)
            == Some(JsonView::Number(NumberView::Integer(c.completion as int))),
        field(summary_value(c), "cache_creation_tokens"@)
            == Some(JsonView::Number(NumberView::Integer(c.cache_creation as int))),
        field(summary_value(c), "cache_read_tokens"@)
            == Some(JsonView::Number(NumberView::Integer(c.cache_read as int))),
        name != "api_calls"@ && name != "prompt_tokens"@ && name != "completion_tokens"@
            && name != "cache_creation_tokens"@ && name != "cache_read_tokens"@
            ==> field(summary_value(c), name) is None,
{
    lemma_count_names_differ();
}

proof fn lemma_step_names_differ()
    ensures
        "step"@ != "prompt_tokens"@,
        "step"@ != "completion_tokens"@,
        "step"@ != "cache_creation_tokens"@,
        "step"@ != "cache_read_tokens"@,
        "step"@ != "api_calls"@,
        "step"@ != "wall_ms"@,
        "step"@ != "error"@,
        "prompt_tokens"@ != "completion_tokens"@,
        "prompt_tokens"@ != "cache_creation_tokens"@,
        "prompt_tokens"@ != "cache_read_tokens"@,
        "prompt_tokens"@ != "api_calls"@,
        "prompt_tokens"@ != "wall_ms"@,
        "prompt_tokens"@ != "error"@,
        "completion_tokens"@ != "cache_creation_tokens"@,
        "completion_tokens"@ != "cache_read_tokens"@,
        "completion_tokens"@ != "api_calls"@,
        "completion_tokens"@ != "wall_ms"@,
        "completion_tokens"@ != "error"@,
        "cache_creation_tokens"@ != "cache_read_tokens"@,
        "cache_creation_tokens"@ != "api_calls"@,
        "cache_creation_tokens"@ != "wall_ms"@,
        "cache_creation_tokens"@ != "error"@,
        "cache_read_tokens"@ != "api_calls"@,
        "cache_read_tokens"@ != "wall_ms"@,
        "cache_read_tokens"@ != "error"@,
        "api_calls"@ != "wall_ms"@,
        "api_calls"@ != "error"@,
        "wall_ms"@ != "error"@,
{
    reveal_strlit("step");
    reveal_strlit("prompt_tokens");
    reveal_strlit("completion_tokens");
    reveal_strlit("cache_creation_tokens");
    reveal_strlit("cache_read_tokens");
    reveal_strlit("api_calls");
    reveal_strlit("wall_ms");
    reveal_strlit("error");
    assert("step"@.len() == 4 && "prompt_tokens"@.len() == 13 && "completion_tokens"@.len() == 17
        && "cache_creation_tokens"@.len() == 21 && "cache_read_tokens"@.len() == 17
        && "api_calls"@.len() == 9 && "wall_ms"@.len() == 7 && "error"@.len() == 5);
    assert("completion_tokens"@[1] != "cache_read_tokens"@[1]);
}

/// A number that may be missing, as it is written.
pub open spec fn is_written(n: Option<u32>, v: Option<JsonView>) -> bool {
    match n {
        Some(n) => v == Some(JsonView::Number(NumberView::Integer(n as int))),
        None => v == Some(JsonView::Null),
    }
}

/// An error that may be missing, as it is written.
pub open spec fn is_written_error(error: Option<Seq<char>>, v: Option<JsonView>) -> bool {
    match error {
        Some(e) => v == Some(JsonView::Text(e)),
        None => v == Some(JsonView::Null),
    }
}

/// Whether a name is one of those that a recorded step has.
pub open spec fn is_step_name(name: Seq<char>) -> bool {
    name == "step"@ || name == "prompt_tokens"@ || name == "completion_tokens"@ || name
        == "cache_creation_tokens"@ || name == "cache_read_tokens"@ || name == "api_calls"@ || name
        == "wall_ms"@ || name == "error"@
}

/// A call is recorded with its name, what it reported, one call, how long it took and its error.
pub proof fn lemma_call_step_members(
    step: Seq<char>,
    usage: TokenUsage,
    wall_ms: u64,
    error: Option<Seq<char>>,
    name: Seq<char>,
)
    ensures
        ({
            let v = call_step_value(step, usage, wall_ms, error);
            &&& field(v, "step"@) == Some(JsonView::Text(step))
            &&& is_written(usage.prompt, field(v, "prompt_tokens"@))
            &&& is_written(usage.completion, field(v, "completion_tokens"@))
            &&& is_written(usage.cache_creation, field(v, "cache_creation_tokens"@))
            &&& is_written(usage.cache_read, field(v, "cache_read_tokens"@))
            &&& field(v, "api_calls"@) == Some(JsonView::Number(NumberView::Integer(1)))
            &&& field(v, "wall_ms"@) == Some(
                JsonView::Number(NumberView::Integer(wall_ms as int)),
            )
            &&& is_written_error(error, field(v, "error"@))
            &&& !is_step_name(name) ==> field(v, name) is None
        }),
{
    lemma_step_names_differ();
}

/// Calls are recorded together with their counts.
pub proof fn lemma_totals_step_members(
    step: Seq<char>,
    c: Counts,
    wall_ms: u64,
    error: Option<Seq<char>>,
    name: Seq<char>,
)
    ensures
        ({
            let v = totals_step_value(step, c, wall_ms, error);
            &&& field(v, "step"@) == Some(JsonView::Text(step))
            &&& field(v, "prompt_tokens"@) == Some(
                JsonView::Number(NumberView::Integer(c.prompt as int)),
            )
            &&& field(v, "completion_tokens"@) == Some(
                JsonView::Number(NumberView::Integer(c.completion as int)),
            )
            &&& field(v, "cache_creation_tokens"@) == Some(
                JsonView::Number(NumberView::Integer(c.cache_creation as int)),
            )
            &&& field(v, "cache_read_tokens"@) == Some(
                JsonView::Number(NumberView::Integer(c.cache_read as int)),
            )
            &&& field(v, "api_calls"@) == Some(
                JsonView::Number(NumberView::Integer(c.api_calls as int)),
            )
            &&& field(v, "wall_ms"@) == Some(
                JsonView::Number(NumberView::Integer(wall_ms as int)),
            )
            &&& is_written_error(error, field(v, "error"@))
            &&& !is_step_name(name) ==> field(v, name) is None
        }),
{
    lemma_step_names_differ();
}

/// A stage is recorded with its name, what it reported, how long it took and its error, and without
/// a number of calls.
pub proof fn lemma_stage_members(s: StageView, name: Seq<char>)
    ensures
        field(stage_value(s), "step"@) == Some(JsonView::Text(s.step)),
        is_written(s.usage.prompt, field(stage_value(s), "prompt_tokens"@)),
        is_written(s.usage.completion, field(stage_value(s), "completion_tokens"@)),
        is_written(s.usage.cache_creation, field(stage_value(s), "cache_creation_tokens"@)),
        is_written(s.usage.cache_read, field(stage_value(s), "cache_read_tokens"@)),
        field(stage_value(s), "wall_ms"@) == Some(
            JsonView::Number(NumberView::Integer(s.wall_ms as int)),
        ),
        is_written_error(s.error, field(stage_value(s), "error"@)),
        !is_step_name(name) || name == "api_calls"@ ==> field(stage_value(s), name) is None,
{
    lemma_step_names_differ();
}

/// The count that a step gives under a name, or else the default.
pub open spec fn is_count_of(step: JsonView, name: Seq<char>, default: nat, n: nat) -> bool {
    match field(step, name) {
        Some(JsonView::Number(NumberView::Integer(k))) if 0 <= k <= u64::MAX => n == k,
        _ => n == default,
    }
}

/// One more step adds the count that it gives under a name, or the default if it gives none.
pub proof fn lemma_steps_one_more(
    steps: Seq<JsonView>,
    step: JsonView,
    name: Seq<char>,
    default: nat,
    n: nat,
)
    requires
        is_count_of(step, name, default, n),
    ensures
        steps_sum(Seq::empty(), name, default) == 0,
        steps_sum(steps.push(step), name, default) == steps_sum(steps, name, default) + n,
{
    assert(steps.push(step).drop_last() =~= steps);
}

/// A recorded step that does not say how many calls it was counts as one; tokens that it does not
/// give count for nothing.
pub proof fn lemma_step_sums(steps: Seq<JsonView>)
    ensures
        steps_counts(steps).api_calls == steps_sum(steps, "api_calls"@, 1),
        steps_counts(steps).prompt == steps_sum(steps, "prompt_tokens"@, 0),
        steps_counts(steps).completion == steps_sum(steps, "completion_tokens"@, 0),
        steps_counts(steps).cache_creation == steps_sum(steps, "cache_creation_tokens"@, 0),
        steps_counts(steps).cache_read == steps_sum(steps, "cache_read_tokens"@, 0),
{
}

/// What a report says was used is taken number by number, calls modulo their width, and a number
/// that it does not give is zero.
pub proof fn lemma_reported_counts(
    usage: JsonView,
    calls: nat,
    prompt: nat,
    completion: nat,
    creation: nat,
    read: nat,
)
    requires
        is_count_of(usage, "api_calls"@, 0, calls),
        is_count_of(usage, "prompt_tokens"@, 0, prompt),
        is_count_of(usage, "completion_tokens"@, 0, completion),
        is_count_of(usage, "cache_creation_tokens"@, 0, creation),
        is_count_of(usage, "cache_read_tokens"@, 0, read),
    ensures
        reported_counts(usage).api_calls == calls % 0x1_0000_0000,
        reported_counts(usage).prompt == prompt,
        reported_counts(usage).completion == completion,
        reported_counts(usage).cache_creation == creation,
        reported_counts(usage).cache_read == read,
{
}

proof fn lemma_usage_names_differ()
    ensures
        "api_calls"@ != "prompt_tokens"@,
        "api_calls"@ != "completion_tokens"@,
        "api_calls"@ != "cache_creation_tokens"@,
        "api_calls"@ != "cache_read_tokens"@,
        "api_calls"@ != "wall_ms"@,
        "api_calls"@ != "model"@,
        "api_calls"@ != "usage_steps"@,
        "prompt_tokens"@ != "completion_tokens"@,
        "prompt_tokens"@ != "cache_creation_tokens"@,
        "prompt_tokens"@ != "cache_read_tokens"@,
        "prompt_tokens"@ != "wall_ms"@,
        "prompt_tokens"@ != "model"@,
        "prompt_tokens"@ != "usage_steps"@,
        "completion_tokens"@ != "cache_creation_tokens"@,
        "completion_tokens"@ != "cache_read_tokens"@,
        "completion_tokens"@ != "wall_ms"@,
        "completion_tokens"@ != "model"@,
        "completion_tokens"@ != "usage_steps"@,
        "cache_creation_tokens"@ != "cache_read_tokens"@,
        "cache_creation_tokens"@ != "wall_ms"@,
        "cache_creation_tokens"@ != "model"@,
        "cache_creation_tokens"@ != "usage_steps"@,
        "cache_read_tokens"@ != "wall_ms"@,
        "cache_read_tokens"@ != "model"@,
        "cache_read_tokens"@ != "usage_steps"@,
        "wall_ms"@ != "model"@,
        "wall_ms"@ != "usage_steps"@,
        "model"@ != "usage_steps"@,
{
    reveal_strlit("api_calls");
    reveal_strlit("prompt_tokens");
    reveal_strlit("completion_tokens");
    reveal_strlit("cache_creation_tokens");
    reveal_strlit("cache_read_tokens");
    reveal_strlit("wall_ms");
    reveal_strlit("model");
    reveal_strlit("usage_steps");
    assert("api_calls"@.len() == 9 && "prompt_tokens"@.len() == 13 && "completion_tokens"@.len()
        == 17 && "cache_creation_tokens"@.len() == 21 && "cache_read_tokens"@.len() == 17
        && "wall_ms"@.len() == 7 && "model"@.len() == 5 && "usage_steps"@.len() == 11);
    assert("completion_tokens"@[1] != "cache_read_tokens"@[1]);
}

/// What a validation used is told by the sums over its steps, the model, and the steps themselves.
pub proof fn lemma_validation_usage_members(
    model_id: Seq<char>,
    steps: Seq<JsonView>,
    name: Seq<char>,
)
    ensures
        ({
            let v = validation_usage_value(model_id, steps);
            let c = steps_counts(steps);
            &&& field(v, "api_calls"@) == Some(
                JsonView::Number(NumberView::Integer(c.api_calls as int)),
            )
            &&& field(v, "prompt_tokens"@) == Some(
                JsonView::Number(NumberView::Integer(c.prompt as int)),
            )
            &&& field(v, "completion_tokens"@) == Some(
                JsonView::Number(NumberView::Integer(c.completion as int)),
            )
            &&& field(v, "cache_creation_tokens"@) == Some(
                JsonView::Number(NumberView::Integer(c.cache_creation as int)),
            )
            &&& field(v, "cache_read_tokens"@) == Some(
                JsonView::Number(NumberView::Integer(c.cache_read as int)),
            )
            &&& field(v, "wall_ms"@) == Some(
                JsonView::Number(NumberView::Integer(steps_sum(steps, "wall_ms"@, 0) as int)),
            )
            &&& field(v, "model"@) == Some(JsonView::Text(model_id))
            &&& field(v, "usage_steps"@) == Some(JsonView::List(steps))
        }),
{
    lemma_usage_names_differ();
}

/// The steps of a validation are those that its usage lists.
pub proof fn lemma_validation_steps(out: JsonView, usage: JsonView, steps: Seq<JsonView>)
    ensures
        field(out, "validation_usage"@) == Some(usage) && is_list_of(usage, "usage_steps"@, steps)
            ==> validation_steps(out) == steps,
        field(out, "validation_usage"@) is None ==> validation_steps(out).len() == 0,
{
    if steps.len() == 0 {
        assert(steps =~= Seq::empty());
    }
}

/// The stages are known by what they recorded, in their order.
pub proof fn lemma_stage_views(stages: Seq<StageUsage>)
    ensures
        stage_views(stages).len() == stages.len(),
        forall|i: int| 0 <= i < stages.len() ==> #[trigger] stage_views(stages)[i] == stages[i]@,
{
}

} // verus!
