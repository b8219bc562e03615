//! Token usage: of one model call, of a stage, of a whole run, and as JSON.

use vstd::prelude::*;

use crate::json::{
    Json, JsonView, field, list_or_empty, number, opt_number, opt_text_value, takes_members,
    unsigned_field, views, with_field,
};

use crate::text::{copy_text, opt_text};

verus! {

/// What the model reported for one call; a count that it did not report is absent.
#[derive(Debug, Clone, Copy, PartialEq, Eq, Structural)]
pub struct TokenUsage {
    pub prompt: Option<u32>,
    pub completion: Option<u32>,
    pub cache_creation: Option<u32>,
    pub cache_read: Option<u32>,
}

/// The usage of one stage of a commit's review.
#[derive(Debug, Clone)]
pub struct StageUsage {
    pub step: String,
    pub usage: TokenUsage,
    pub wall_ms: u64,
    pub error: Option<String>,
}

/// The usage of one stage, with its texts as sequences of characters.
#[verifier::ext_equal]
pub struct StageView {
    pub step: Seq<char>,
    pub usage: TokenUsage,
    pub wall_ms: u64,
    pub error: Option<Seq<char>>,
}

impl StageUsage {
    pub open spec fn view(&self) -> StageView {
        StageView {
            step: self.step@,
            usage: self.usage,
            wall_ms: self.wall_ms,
            error: opt_text(self.error),
        }
    }

    /// The usage of a stage.
    pub fn new(step: &str, usage: TokenUsage, wall_ms: u64, error: Option<String>) -> (r: StageUsage)
        ensures
            r@ == (StageView { step: step@, usage, wall_ms, error: opt_text(error) }),
    {
        StageUsage { step: copy_text(step), usage, wall_ms, error }
    }
}

pub open spec fn stage_views(usage: Seq<StageUsage>) -> Seq<StageView> {
    usage.map_values(|u: StageUsage| u@)
}

/// The usage of a whole run.
#[derive(Debug, Clone, Copy, PartialEq, Eq, Structural)]
pub struct RunTotals {
    pub api_calls: u32,
    pub prompt: u64,
    pub completion: u64,
    pub cache_creation: u64,
    pub cache_read: u64,
}

/// Call and token counts.
pub struct Counts {
    pub api_calls: nat,
    pub prompt: nat,
    pub completion: nat,
    pub cache_creation: nat,
    pub cache_read: nat,
}

/// A count, zero where it was not reported.
pub open spec fn reported(n: Option<u32>) -> nat {
    match n {
        Some(n) => n as nat,
        None => 0,
    }
}

/// No calls and no tokens.
pub open spec fn no_counts() -> Counts {
    Counts { api_calls: 0, prompt: 0, completion: 0, cache_creation: 0, cache_read: 0 }
}

/// The counts of one call.
pub open spec fn call_counts(u: TokenUsage) -> Counts {
    Counts {
        api_calls: 1,
        prompt: reported(u.prompt),
        completion: reported(u.completion),
        cache_creation: reported(u.cache_creation),
        cache_read: reported(u.cache_read),
    }
}

/// The counts of two groups of calls together.
pub open spec fn plus(a: Counts, b: Counts) -> Counts {
    Counts {
        api_calls: a.api_calls + b.api_calls,
        prompt: a.prompt + b.prompt,
        completion: a.completion + b.completion,
        cache_creation: a.cache_creation + b.cache_creation,
        cache_read: a.cache_read + b.cache_read,
    }
}

/// Whether the token counts fit into 64 bits.
pub open spec fn tokens_fit(c: Counts) -> bool {
    &&& c.prompt <= u64::MAX
    &&& c.completion <= u64::MAX
    &&& c.cache_creation <= u64::MAX
    &&& c.cache_read <= u64::MAX
}

/// The counts of a sequence of calls.
pub open spec fn calls_counts(calls: Seq<TokenUsage>) -> Counts
    decreases calls.len(),
{
    if calls.len() == 0 {
        no_counts()
    } else {
        plus(calls_counts(calls.drop_last()), call_counts(calls.last()))
    }
}

/// The counts of two sequences of calls together are those of their concatenation, so it does not
/// matter how calls are grouped before they are summed up.
pub proof fn lemma_counts_add_up(a: Seq<TokenUsage>, b: Seq<TokenUsage>)
    ensures
        calls_counts(a + b) == plus(calls_counts(a), calls_counts(b)),
    decreases b.len(),
{
    if b.len() == 0 {
        assert(a + b == a);
    } else {
        lemma_counts_add_up(a, b.drop_last());
        assert((a + b).drop_last() == a + b.drop_last());
    }
}

impl TokenUsage {
    /// A call of which nothing was reported.
    pub fn none() -> (r: TokenUsage)
        ensures
            call_counts(r) == (Counts { api_calls: 1, ..no_counts() }),
            r.prompt is None && r.completion is None && r.cache_creation is None
                && r.cache_read is None,
    {
        TokenUsage { prompt: None, completion: None, cache_creation: None, cache_read: None }
    }
}

fn add_reported(total: u64, n: Option<u32>) -> (r: u64)
    requires
        total + reported(n) <= u64::MAX,
    ensures
        r == total + reported(n),
{
    match n {
        Some(n) => total + n as u64,
        None => total,
    }
}

impl RunTotals {
    pub open spec fn view(&self) -> Counts {
        Counts {
            api_calls: self.api_calls as nat,
            prompt: self.prompt as nat,
            completion: self.completion as nat,
            cache_creation: self.cache_creation as nat,
            cache_read: self.cache_read as nat,
        }
    }

    /// The totals of a run without calls.
    pub fn new() -> (r: RunTotals)
        ensures
            r@ == no_counts(),
    {
        RunTotals { api_calls: 0, prompt: 0, completion: 0, cache_creation: 0, cache_read: 0 }
    }

    /// Counts one more call.
    pub fn add_usage(&mut self, u: TokenUsage)
        requires
            plus(old(self)@, call_counts(u)).api_calls <= u32::MAX,
            tokens_fit(plus(old(self)@, call_counts(u))),
        ensures
            final(self)@ == plus(old(self)@, call_counts(u)),
    {
        self.api_calls = self.api_calls + 1;
        self.prompt = add_reported(self.prompt, u.prompt);
        self.completion = add_reported(self.completion, u.completion);
        self.cache_creation = add_reported(self.cache_creation, u.cache_creation);
        self.cache_read = add_reported(self.cache_read, u.cache_read);
    }

    /// Adds the totals of another run.
    pub fn merge_from(&mut self, other: RunTotals)
        requires
            plus(old(self)@, other@).api_calls <= u32::MAX,
            tokens_fit(plus(old(self)@, other@)),
        ensures
            final(self)@ == plus(old(self)@, other@),
    {
        self.api_calls = self.api_calls + other.api_calls;
        self.prompt = self.prompt + other.prompt;
        self.completion = self.completion + other.completion;
        self.cache_creation = self.cache_creation + other.cache_creation;
        self.cache_read = self.cache_read + other.cache_read;
    }

    /// Whether the totals of another run can be added.
    pub fn can_merge(&self, other: &RunTotals) -> (r: bool)
        ensures
            r == (plus(self@, other@).api_calls <= u32::MAX && tokens_fit(plus(self@, other@))),
    {
        other.api_calls <= u32::MAX - self.api_calls && other.prompt <= u64::MAX - self.prompt
            && other.completion <= u64::MAX - self.completion && other.cache_creation <= u64::MAX
            - self.cache_creation && other.cache_read <= u64::MAX - self.cache_read
    }

    /// The totals of one call.
    pub fn of_call(u: TokenUsage) -> (r: RunTotals)
        ensures
            r@ == call_counts(u),
    {
        let mut r = RunTotals::new();
        r.add_usage(u);
        r
    }

    /// The totals as the run's report gives them.
    pub fn json(&self) -> (r: Json)
        ensures
            r@ == totals_value(self@),
    {
        Json::object().with("api_calls", Json::number(self.api_calls as u64)).with(
            "prompt_tokens",
            Json::number(self.prompt),
        ).with("completion_tokens", Json::number(self.completion)).with(
            "cache_creation_tokens",
            Json::number(self.cache_creation),
        ).with("cache_read_tokens", Json::number(self.cache_read))
    }
}

/// The report object for the given counts.
pub open spec fn totals_value(c: Counts) -> JsonView {
    JsonView::Object(
        Map::empty().insert("api_calls"@, number(c.api_calls as int)).insert(
            "prompt_tokens"@,
            number(c.prompt as int),
        ).insert("completion_tokens"@, number(c.completion as int)).insert(
            "cache_creation_tokens"@,
            number(c.cache_creation as int),
        ).insert("cache_read_tokens"@, number(c.cache_read as int)),
    )
}

/// The object for a step: its name, the counts, the time and the error.
pub open spec fn step_value(
    step: Seq<char>,
    prompt: JsonView,
    completion: JsonView,
    cache_creation: JsonView,
    cache_read: JsonView,
    api_calls: nat,
    wall_ms: u64,
    error: JsonView,
) -> JsonView {
    JsonView::Object(
        Map::empty().insert("step"@, JsonView::Text(step)).insert("prompt_tokens"@, prompt).insert(
            "completion_tokens"@,
            completion,
        ).insert("cache_creation_tokens"@, cache_creation).insert(
            "cache_read_tokens"@,
            cache_read,
        ).insert("api_calls"@, number(api_calls as int)).insert(
            "wall_ms"@,
            number(wall_ms as int),
        ).insert("error"@, error),
    )
}

/// The object for a step of one call.
pub open spec fn call_step_value(
    step: Seq<char>,
    usage: TokenUsage,
    wall_ms: u64,
    error: Option<Seq<char>>,
) -> JsonView {
    step_value(
        step,
        opt_number(usage.prompt),
        opt_number(usage.completion),
        opt_number(usage.cache_creation),
        opt_number(usage.cache_read),
        1,
        wall_ms,
        opt_text_value(error),
    )
}

/// The object for a step of any number of calls.
pub open spec fn totals_step_value(
    step: Seq<char>,
    c: Counts,
    wall_ms: u64,
    error: Option<Seq<char>>,
) -> JsonView {
    step_value(
        step,
        number(c.prompt as int),
        number(c.completion as int),
        number(c.cache_creation as int),
        number(c.cache_read as int),
        c.api_calls,
        wall_ms,
        opt_text_value(error),
    )
}

/// The object for a step of one call.
pub fn usage_step_json(step: &str, usage: TokenUsage, wall_ms: u64, error: &Option<String>) -> (r:
    Json)
    ensures
        r@ == call_step_value(step@, usage, wall_ms, opt_text(*error)),
{
    Json::object().with("step", Json::text(step)).with(
        "prompt_tokens",
        Json::opt_number(usage.prompt),
    ).with("completion_tokens", Json::opt_number(usage.completion)).with(
        "cache_creation_tokens",
        Json::opt_number(usage.cache_creation),
    ).with("cache_read_tokens", Json::opt_number(usage.cache_read)).with(
        "api_calls",
        Json::number(1),
    ).with("wall_ms", Json::number(wall_ms)).with("error", Json::opt_text(error))
}

/// The object for a step of several calls.
pub fn usage_step_json_from_totals(
    step: &str,
    totals: &RunTotals,
    wall_ms: u64,
    error: &Option<String>,
) -> (r: Json)
    ensures
        r@ == totals_step_value(step@, totals@, wall_ms, opt_text(*error)),
{
    Json::object().with("step", Json::text(step)).with(
        "prompt_tokens",
        Json::number(totals.prompt),
    ).with("completion_tokens", Json::number(totals.completion)).with(
        "cache_creation_tokens",
        Json::number(totals.cache_creation),
    ).with("cache_read_tokens", Json::number(totals.cache_read)).with(
        "api_calls",
        Json::number(totals.api_calls as u64),
    ).with("wall_ms", Json::number(wall_ms)).with("error", Json::opt_text(error))
}

/// The summary object for the given counts.
pub open spec fn summary_value(c: Counts) -> JsonView {
    JsonView::Object(
        Map::empty().insert("prompt_tokens"@, number(c.prompt as int)).insert(
            "completion_tokens"@,
            number(c.completion as int),
        ).insert("cache_creation_tokens"@, number(c.cache_creation as int)).insert(
            "cache_read_tokens"@,
            number(c.cache_read as int),
        ).insert("api_calls"@, number(c.api_calls as int)),
    )
}

pub fn usage_summary_json(
    api_calls: u64,
    prompt: u64,
    completion: u64,
    cache_creation: u64,
    cache_read: u64,
) -> (r: Json)
    ensures
        r@ == summary_value(
            Counts {
                api_calls: api_calls as nat,
                prompt: prompt as nat,
                completion: completion as nat,
                cache_creation: cache_creation as nat,
                cache_read: cache_read as nat,
            },
        ),
{
    Json::object().with("prompt_tokens", Json::number(prompt)).with(
        "completion_tokens",
        Json::number(completion),
    ).with("cache_creation_tokens", Json::number(cache_creation)).with(
        "cache_read_tokens",
        Json::number(cache_read),
    ).with("api_calls", Json::number(api_calls))
}

/// The counts of a sequence of stages, each counting as one call.
pub open spec fn stage_counts(steps: Seq<StageView>) -> Counts {
    calls_counts(steps.map_values(|s: StageView| s.usage))
}

/// The usage of a commit: the sum over its stages.
pub fn commit_usage_json(steps: &Vec<StageUsage>) -> (r: Json)
    requires
        tokens_fit(stage_counts(stage_views(steps@))),
    ensures
        r@ == summary_value(stage_counts(stage_views(steps@))),
{
    let ghost calls = stage_views(steps@).map_values(|s: StageView| s.usage);
    let mut prompt: u64 = 0;
    let mut completion: u64 = 0;
    let mut cache_creation: u64 = 0;
    let mut cache_read: u64 = 0;
    let mut i: usize = 0;
    while i < steps.len()
        invariant
            i <= steps@.len(),
            calls == stage_views(steps@).map_values(|s: StageView| s.usage),
            tokens_fit(calls_counts(calls)),
            calls_counts(calls.take(i as int)) == (Counts {
                api_calls: i as nat,
                prompt: prompt as nat,
                completion: completion as nat,
                cache_creation: cache_creation as nat,
                cache_read: cache_read as nat,
            }),
        decreases steps@.len() - i,
    {
        let u = steps[i].usage;
        proof {
            assert(calls[i as int] == u);
            assert(calls.take(i + 1).drop_last() == calls.take(i as int));
            lemma_counts_add_up(calls.take(i + 1), calls.skip(i + 1));
            assert(calls.take(i + 1) + calls.skip(i + 1) == calls);
        }
        prompt = add_reported(prompt, u.prompt);
        completion = add_reported(completion, u.completion);
        cache_creation = add_reported(cache_creation, u.cache_creation);
        cache_read = add_reported(cache_read, u.cache_read);
        i += 1;
    }
    assert(calls.take(i as int) == calls);
    usage_summary_json(steps.len() as u64, prompt, completion, cache_creation, cache_read)
}


/// The token counts of at most four thousand million calls fit into 64 bits.
pub proof fn lemma_few_calls_fit(calls: Seq<TokenUsage>)
    requires
        calls.len() <= u32::MAX,
    ensures
        tokens_fit(calls_counts(calls)),
{
    lemma_calls_bound(calls);
    let n = calls.len() as int;
    assert(n * 0xffff_ffff <= 0xffff_ffff * 0xffff_ffff) by (nonlinear_arith)
        requires
            0 <= n <= 0xffff_ffff,
    ;
}

proof fn lemma_calls_bound(calls: Seq<TokenUsage>)
    ensures
        calls_counts(calls).prompt <= calls.len() * 0xffff_ffff,
        calls_counts(calls).completion <= calls.len() * 0xffff_ffff,
        calls_counts(calls).cache_creation <= calls.len() * 0xffff_ffff,
        calls_counts(calls).cache_read <= calls.len() * 0xffff_ffff,
    decreases calls.len(),
{
    if calls.len() > 0 {
        lemma_calls_bound(calls.drop_last());
        let n = calls.len() as int;
        assert((n - 1) * 0xffff_ffff + 0xffff_ffff == n * 0xffff_ffff) by (nonlinear_arith);
    }
}

/// The object for a stage in a commit's list of stages.
pub open spec fn stage_value(s: StageView) -> JsonView {
    JsonView::Object(
        Map::empty().insert("step"@, JsonView::Text(s.step)).insert(
            "prompt_tokens"@,
            opt_number(s.usage.prompt),
        ).insert("completion_tokens"@, opt_number(s.usage.completion)).insert(
            "cache_creation_tokens"@,
            opt_number(s.usage.cache_creation),
        ).insert("cache_read_tokens"@, opt_number(s.usage.cache_read)).insert(
            "wall_ms"@,
            number(s.wall_ms as int),
        ).insert("error"@, opt_text_value(s.error)),
    )
}

/// The list of a commit's stages, in their order.
pub fn usage_steps_array(steps: &Vec<StageUsage>) -> (r: Json)
    ensures
        r@ == JsonView::List(stage_views(steps@).map_values(|s: StageView| stage_value(s))),
{
    let mut out: Vec<Json> = Vec::new();
    let mut i: usize = 0;
    while i < steps.len()
        invariant
            i <= steps@.len(),
            out@.len() == i,
            forall|j: int| 0 <= j < i ==> (#[trigger] out@[j])@ == stage_value(steps@[j]@),
        decreases steps@.len() - i,
    {
        let s = &steps[i];
        let entry = Json::object().with("step", Json::text(s.step.as_str())).with(
            "prompt_tokens",
            Json::opt_number(s.usage.prompt),
        ).with("completion_tokens", Json::opt_number(s.usage.completion)).with(
            "cache_creation_tokens",
            Json::opt_number(s.usage.cache_creation),
        ).with("cache_read_tokens", Json::opt_number(s.usage.cache_read)).with(
            "wall_ms",
            Json::number(s.wall_ms),
        ).with("error", Json::opt_text(&s.error));
        out.push(entry);
        i += 1;
    }
    let r = Json::list(out);
    assert(views(out@) =~= stage_views(steps@).map_values(|s: StageView| stage_value(s)));
    r
}

// ---------------------------------------------------------------------------------------------
// Steps held as JSON
// ---------------------------------------------------------------------------------------------

/// A count in a step, `default` where the step does not give it.
pub open spec fn step_count(step: JsonView, name: Seq<char>, default: nat) -> nat {
    match unsigned_field(step, name) {
        Some(n) => n as nat,
        None => default,
    }
}

/// The sum of a count over steps.
pub open spec fn steps_sum(steps: Seq<JsonView>, name: Seq<char>, default: nat) -> nat
    decreases steps.len(),
{
    if steps.len() == 0 {
        0
    } else {
        steps_sum(steps.drop_last(), name, default) + step_count(steps.last(), name, default)
    }
}

/// The counts of steps. A step that gives no number of calls counts as one call.
pub open spec fn steps_counts(steps: Seq<JsonView>) -> Counts {
    Counts {
        api_calls: steps_sum(steps, "api_calls"@, 1),
        prompt: steps_sum(steps, "prompt_tokens"@, 0),
        completion: steps_sum(steps, "completion_tokens"@, 0),
        cache_creation: steps_sum(steps, "cache_creation_tokens"@, 0),
        cache_read: steps_sum(steps, "cache_read_tokens"@, 0),
    }
}

/// Whether the counts of steps fit into 64 bits.
pub open spec fn steps_counts_fit(steps: Seq<JsonView>) -> bool {
    steps_counts(steps).api_calls <= u64::MAX && tokens_fit(steps_counts(steps))
}

/// Whether the counts and the time of steps fit into 64 bits.
pub open spec fn steps_fit(steps: Seq<JsonView>) -> bool {
    steps_counts_fit(steps) && steps_sum(steps, "wall_ms"@, 0) <= u64::MAX
}

proof fn lemma_steps_sum_grows(steps: Seq<JsonView>, name: Seq<char>, default: nat, k: int)
    requires
        0 <= k <= steps.len(),
    ensures
        steps_sum(steps.take(k), name, default) <= steps_sum(steps, name, default),
    decreases steps.len(),
{
    if k == steps.len() {
        assert(steps.take(k) == steps);
    } else {
        lemma_steps_sum_grows(steps.drop_last(), name, default, k);
        assert(steps.drop_last().take(k) == steps.take(k));
    }
}

/// The sum of a count over steps; nothing where it leaves the 64-bit range.
fn try_sum(steps: &Vec<Json>, name: &str, default: u64) -> (r: Option<u64>)
    ensures
        match r {
            Some(n) => n == steps_sum(views(steps@), name@, default as nat),
            None => steps_sum(views(steps@), name@, default as nat) > u64::MAX,
        },
{
    let ghost vs = views(steps@);
    let mut total: u64 = 0;
    let mut i: usize = 0;
    while i < steps.len()
        invariant
            i <= steps@.len(),
            vs == views(steps@),
            total == steps_sum(vs.take(i as int), name@, default as nat),
        decreases steps@.len() - i,
    {
        let n = match steps[i].get_u64(name) {
            Some(n) => n,
            None => default,
        };
        proof {
            assert(vs.take(i + 1).drop_last() == vs.take(i as int));
            assert(vs.take(i + 1).last() == steps@[i as int]@);
            lemma_steps_sum_grows(vs, name@, default as nat, i + 1);
        }
        if n > u64::MAX - total {
            return None;
        }
        total = total + n;
        i += 1;
    }
    assert(vs.take(i as int) == vs);
    Some(total)
}

/// Whether the counts and the time of steps fit into 64 bits.
pub fn can_sum_steps(steps: &Vec<Json>) -> (r: bool)
    ensures
        r == steps_fit(views(steps@)),
{
    try_sum(steps, "api_calls", 1).is_some() && try_sum(steps, "prompt_tokens", 0).is_some()
        && try_sum(steps, "completion_tokens", 0).is_some() && try_sum(
        steps,
        "cache_creation_tokens",
        0,
    ).is_some() && try_sum(steps, "cache_read_tokens", 0).is_some() && try_sum(
        steps,
        "wall_ms",
        0,
    ).is_some()
}

fn sum(steps: &Vec<Json>, name: &str, default: u64) -> (r: u64)
    requires
        steps_sum(views(steps@), name@, default as nat) <= u64::MAX,
    ensures
        r == steps_sum(views(steps@), name@, default as nat),
{
    match try_sum(steps, name, default) {
        Some(n) => n,
        None => 0,
    }
}

/// The summary of steps: the sums of their counts.
pub fn usage_summary_json_from_step_values(steps: &Vec<Json>) -> (r: Json)
    requires
        steps_counts_fit(views(steps@)),
    ensures
        r@ == summary_value(steps_counts(views(steps@))),
{
    usage_summary_json(
        sum(steps, "api_calls", 1),
        sum(steps, "prompt_tokens", 0),
        sum(steps, "completion_tokens", 0),
        sum(steps, "cache_creation_tokens", 0),
        sum(steps, "cache_read_tokens", 0),
    )
}

/// The usage of the validation model: the summary of its steps, their time, its name and the
/// steps themselves.
pub open spec fn validation_usage_value(model_id: Seq<char>, steps: Seq<JsonView>) -> JsonView {
    with_field(
        with_field(
            with_field(
                summary_value(steps_counts(steps)),
                "wall_ms"@,
                number(steps_sum(steps, "wall_ms"@, 0) as int),
            ),
            "model"@,
            JsonView::Text(model_id),
        ),
        "usage_steps"@,
        JsonView::List(steps),
    )
}

pub fn validation_usage_json_from_steps(model_id: &str, steps: Vec<Json>) -> (r: Json)
    requires
        steps_fit(views(steps@)),
    ensures
        r@ == validation_usage_value(model_id@, views(steps@)),
{
    let wall_ms = sum(&steps, "wall_ms", 0);
    usage_summary_json_from_step_values(&steps).with("wall_ms", Json::number(wall_ms)).with(
        "model",
        Json::text(model_id),
    ).with("usage_steps", Json::list(steps))
}

/// The steps that a report records for the validation model.
pub open spec fn validation_steps(out: JsonView) -> Seq<JsonView> {
    match field(out, "validation_usage"@) {
        Some(usage) => list_or_empty(usage, "usage_steps"@),
        None => Seq::empty(),
    }
}

/// A copy of the steps that a report records for the validation model.
pub fn recorded_validation_steps(out: &Json) -> (r: Vec<Json>)
    ensures
        views(r@) == validation_steps(out@),
{
    match out.get("validation_usage") {
        Some(usage) => usage.list_or_empty("usage_steps"),
        None => {
            let r: Vec<Json> = Vec::new();
            assert(views(r@) =~= Seq::<JsonView>::empty());
            r
        },
    }
}

/// Adds a step to those that a report records for the validation model, and sums up anew.
pub fn append_validation_usage_step(out: &mut Json, model_id: &str, step: Json)
    requires
        takes_members(old(out)@),
        steps_fit(validation_steps(old(out)@).push(step@)),
    ensures
        final(out)@ == with_field(
            old(out)@,
            "validation_usage"@,
            validation_usage_value(model_id@, validation_steps(old(out)@).push(step@)),
        ),
{
    let mut steps = recorded_validation_steps(out);
    let ghost before = steps@;
    steps.push(step);
    assert(views(steps@) =~= views(before).push(step@));
    out.set("validation_usage", validation_usage_json_from_steps(model_id, steps));
}

/// A step that was added is the last of the recorded ones, behind those recorded before.
pub proof fn lemma_appended_step_is_recorded(out: JsonView, model_id: Seq<char>, step: JsonView)
    ensures
        ({
            let after = with_field(
                out,
                "validation_usage"@,
                validation_usage_value(model_id, validation_steps(out).push(step)),
            );
            validation_steps(after) == validation_steps(out).push(step)
        }),
{
}

/// Adding a step adds its counts to the sums, and its calls to the number of calls.
pub proof fn lemma_appended_step_counts(steps: Seq<JsonView>, step: JsonView)
    ensures
        steps_counts(steps.push(step)) == plus(
            steps_counts(steps),
            Counts {
                api_calls: step_count(step, "api_calls"@, 1),
                prompt: step_count(step, "prompt_tokens"@, 0),
                completion: step_count(step, "completion_tokens"@, 0),
                cache_creation: step_count(step, "cache_creation_tokens"@, 0),
                cache_read: step_count(step, "cache_read_tokens"@, 0),
            },
        ),
{
    assert(steps.push(step).drop_last() == steps);
}

// ---------------------------------------------------------------------------------------------
// Usage that a finished commit reports
// ---------------------------------------------------------------------------------------------

/// The counts in the `usage` object of a commit; the number of calls is taken modulo 2^32.
pub open spec fn reported_counts(usage: JsonView) -> Counts {
    Counts {
        api_calls: step_count(usage, "api_calls"@, 0) % 0x1_0000_0000,
        prompt: step_count(usage, "prompt_tokens"@, 0),
        completion: step_count(usage, "completion_tokens"@, 0),
        cache_creation: step_count(usage, "cache_creation_tokens"@, 0),
        cache_read: step_count(usage, "cache_read_tokens"@, 0),
    }
}

fn count_or_zero(usage: &Json, name: &str) -> (r: u64)
    ensures
        r == step_count(usage@, name@, 0),
{
    match usage.get_u64(name) {
        Some(n) => n,
        None => 0,
    }
}

/// The totals that the `usage` object of a commit stands for.
pub fn totals_from_report(usage: &Json) -> (r: RunTotals)
    ensures
        r@ == reported_counts(usage@),
{
    let calls = count_or_zero(usage, "api_calls");
    assert(calls as u32 == calls % 0x1_0000_0000) by (bit_vector);
    #[verifier::truncate]
    let api_calls: u32 = calls as u32;
    RunTotals {
        api_calls,
        prompt: count_or_zero(usage, "prompt_tokens"),
        completion: count_or_zero(usage, "completion_tokens"),
        cache_creation: count_or_zero(usage, "cache_creation_tokens"),
        cache_read: count_or_zero(usage, "cache_read_tokens"),
    }
}

} // verus!
