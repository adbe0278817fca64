//! Gas estimation for contract operations: the fee model that turns budget
//! measurements into a cost, the severity bands of CPU use, optimisation
//! suggestions and side-by-side comparisons of related operations.
//!
//! Costs are kept in stroops here; their XLM equivalents, which are
//! floating point, are left to the tools that print reports.

use vstd::prelude::*;

use crate::text::{concat3, contains_text, decimal, decimal_text, same_text, text_contains};

verus! {

/// Stellar fee model: CPU instructions per stroop.
pub const CPU_PER_STROOP: u64 = 10_000;

/// Stellar fee model: memory bytes per stroop.
pub const MEM_PER_STROOP: u64 = 1_024;

/// Stroops per XLM.
pub const STROOPS_PER_XLM: i128 = 10_000_000;

/// CPU threshold above which a warning is emitted.
pub const WARN_CPU: u64 = 1_000_000;

/// CPU threshold above which a critical alert is emitted.
pub const CRITICAL_CPU: u64 = 5_000_000;

/// Memory use from which a memory hint is emitted.
pub const HIGH_MEMORY_BYTES: u64 = 50_000;

/// Raw budget numbers captured after a single invocation, with their cost.
#[derive(Clone, Debug)]
pub struct GasEstimate {
    /// Contract function name.
    pub function_name: String,
    /// Storage access pattern: "cold" (first write) or "warm" (subsequent).
    pub storage_variant: String,
    /// CPU instructions consumed by the invocation.
    pub cpu_instructions: u64,
    /// Memory bytes consumed by the invocation.
    pub memory_bytes: u64,
    /// Estimated cost in stroops (1 XLM = 10,000,000 stroops).
    pub estimated_cost_stroops: i128,
}

/// Side-by-side comparison of two operations.
#[derive(Clone, Debug)]
pub struct Comparison {
    pub label: String,
    pub baseline: String,
    pub candidate: String,
    pub baseline_cpu: u64,
    pub candidate_cpu: u64,
    /// Positive = candidate is more expensive; negative = cheaper.
    pub delta_cpu: i64,
}

/// A single optimisation recommendation.
#[derive(Clone, Debug)]
pub struct Suggestion {
    pub function: String,
    pub severity: Severity,
    pub message: String,
}

#[derive(Clone, Copy, Debug, PartialEq, Eq, Structural)]
pub enum Severity {
    Info,
    Warning,
    Critical,
}

/// `a / b` rounded up, for `a >= 0` and `b > 0`.
pub open spec fn ceil_div(a: int, b: int) -> int {
    (a + b - 1) / b
}

/// The fee for `cpu` instructions and `mem` bytes: each resource charged
/// per started unit.
pub open spec fn cost_stroops(cpu: u64, mem: u64) -> int {
    ceil_div(cpu as int, CPU_PER_STROOP as int) + ceil_div(mem as int, MEM_PER_STROOP as int)
}

/// The severity band of `cpu` instructions: critical from
/// [`CRITICAL_CPU`], a warning from [`WARN_CPU`], nothing below.
pub open spec fn cpu_severity(cpu: u64) -> Option<Severity> {
    if cpu >= CRITICAL_CPU {
        Some(Severity::Critical)
    } else if cpu >= WARN_CPU {
        Some(Severity::Warning)
    } else {
        None
    }
}

/// Convert raw budget numbers to an estimated stroop cost.
pub fn compute_cost_stroops(cpu: u64, mem: u64) -> (r: i128)
    ensures
        r == cost_stroops(cpu, mem),
{
    let cpu_fee = (cpu as i128 + CPU_PER_STROOP as i128 - 1) / CPU_PER_STROOP as i128;
    let mem_fee = (mem as i128 + MEM_PER_STROOP as i128 - 1) / MEM_PER_STROOP as i128;
    proof {
        assert(cpu_fee <= cpu as int + 9999) by (nonlinear_arith)
            requires
                cpu_fee == (cpu as int + 9999) / 10000,
                cpu >= 0,
        ;
        assert(mem_fee <= mem as int + 1023) by (nonlinear_arith)
            requires
                mem_fee == (mem as int + 1023) / 1024,
                mem >= 0,
        ;
    }
    cpu_fee + mem_fee
}

/// The band of `cpu`, shown as a coloured marker.
pub fn severity_marker(cpu: u64) -> (r: &'static str)
    ensures
        r@ == (match cpu_severity(cpu) {
            Some(Severity::Critical) => "🔴"@,
            Some(_) => "🟡"@,
            None => "🟢"@,
        }),
{
    if cpu >= CRITICAL_CPU {
        "🔴"
    } else if cpu >= WARN_CPU {
        "🟡"
    } else {
        "🟢"
    }
}

/// Build a `GasEstimate` from raw budget numbers.
pub fn make_estimate(function_name: &str, storage_variant: &str, cpu: u64, mem: u64) -> (r: GasEstimate)
    ensures
        r.function_name@ == function_name@,
        r.storage_variant@ == storage_variant@,
        r.cpu_instructions == cpu,
        r.memory_bytes == mem,
        r.estimated_cost_stroops == cost_stroops(cpu, mem),
{
    let cost = compute_cost_stroops(cpu, mem);
    GasEstimate {
        function_name: function_name.to_owned(),
        storage_variant: storage_variant.to_owned(),
        cpu_instructions: cpu,
        memory_bytes: mem,
        estimated_cost_stroops: cost,
    }
}

/// A suggestion as plain values: function, severity, message.
pub type SuggestionView = (Seq<char>, Severity, Seq<char>);

pub open spec fn suggestion_view(s: Suggestion) -> SuggestionView {
    (s.function@, s.severity, s.message@)
}

/// The message for high CPU use.
pub open spec fn cpu_message(cpu: u64) -> Seq<char> {
    "CPU usage ("@ + decimal(cpu as nat)
        + " instructions) is high. Consider caching storage reads or splitting the operation into smaller steps."@
}

/// The message for high memory use.
pub open spec fn memory_message(mem: u64) -> Seq<char> {
    "Memory usage ("@ + decimal(mem as nat)
        + " bytes) is elevated. Avoid allocating large Vecs/Maps inside the contract; prefer pagination."@
}

/// The suggestions one estimate gives rise to, in order: its CPU band, its
/// memory use, then hints for leaderboard, split and (CPU-heavy)
/// subscription operations.
pub open spec fn suggestions_for(e: GasEstimate) -> Seq<SuggestionView> {
    let f = e.function_name@;
    let cpu_part = match cpu_severity(e.cpu_instructions) {
        Some(sev) => seq![(f, sev, cpu_message(e.cpu_instructions))],
        None => Seq::empty(),
    };
    let mem_part = if e.memory_bytes >= HIGH_MEMORY_BYTES {
        seq![(f, Severity::Warning, memory_message(e.memory_bytes))]
    } else {
        Seq::empty()
    };
    let leaderboard_part = if contains_text(f, "leaderboard"@) {
        seq![(
            f,
            Severity::Info,
            "Leaderboard queries iterate over all participants. Maintain a pre-sorted index in storage to avoid O(n) scans."@,
        )]
    } else {
        Seq::empty()
    };
    let split_part = if contains_text(f, "split"@) {
        seq![(
            f,
            Severity::Info,
            "tip_split iterates over recipients and writes one storage entry per recipient. Batch writes are bounded by the 2–10 recipient limit."@,
        )]
    } else {
        Seq::empty()
    };
    let subscription_part = if contains_text(f, "subscription"@) && e.cpu_instructions >= WARN_CPU {
        seq![(
            f,
            Severity::Info,
            "Subscription operations read and write the full Subscription struct. Ensure the struct size stays small to minimise serialisation cost."@,
        )]
    } else {
        Seq::empty()
    };
    cpu_part + mem_part + leaderboard_part + split_part + subscription_part
}

/// The suggestions for a list of estimates, estimate by estimate.
pub open spec fn all_suggestions(es: Seq<GasEstimate>) -> Seq<SuggestionView>
    decreases es.len(),
{
    if es.len() == 0 {
        Seq::empty()
    } else {
        all_suggestions(es.drop_last()) + suggestions_for(es.last())
    }
}

fn push_suggestion(
    out: &mut Vec<Suggestion>,
    function: &String,
    severity: Severity,
    message: String,
)
    ensures
        final(out)@.len() == old(out)@.len() + 1,
        forall|i: int| 0 <= i < old(out)@.len() ==> #[trigger] final(out)@[i] == old(out)@[i],
        suggestion_view(final(out)@[old(out)@.len() as int]) == (function@, severity, message@),
{
    out.push(Suggestion { function: function.clone(), severity, message });
}

/// The views of the suggestions in `v`.
pub open spec fn views_of(v: Seq<Suggestion>) -> Seq<SuggestionView> {
    v.map_values(|s: Suggestion| suggestion_view(s))
}

/// Appends the suggestions for `e` to `out`.
fn suggest_for(out: &mut Vec<Suggestion>, e: &GasEstimate)
    ensures
        views_of(final(out)@) == views_of(old(out)@) + suggestions_for(*e),
{
    let ghost before = out@;
    if e.cpu_instructions >= CRITICAL_CPU {
        let m = concat3("CPU usage (", decimal_text(e.cpu_instructions).as_str(),
            " instructions) is high. Consider caching storage reads or splitting the operation into smaller steps.");
        push_suggestion(out, &e.function_name, Severity::Critical, m);
    } else if e.cpu_instructions >= WARN_CPU {
        let m = concat3("CPU usage (", decimal_text(e.cpu_instructions).as_str(),
            " instructions) is high. Consider caching storage reads or splitting the operation into smaller steps.");
        push_suggestion(out, &e.function_name, Severity::Warning, m);
    }
    if e.memory_bytes >= HIGH_MEMORY_BYTES {
        let m = concat3("Memory usage (", decimal_text(e.memory_bytes).as_str(),
            " bytes) is elevated. Avoid allocating large Vecs/Maps inside the contract; prefer pagination.");
        push_suggestion(out, &e.function_name, Severity::Warning, m);
    }
    if text_contains(e.function_name.as_str(), "leaderboard") {
        push_suggestion(out, &e.function_name, Severity::Info,
            "Leaderboard queries iterate over all participants. Maintain a pre-sorted index in storage to avoid O(n) scans.".to_owned());
    }
    if text_contains(e.function_name.as_str(), "split") {
        push_suggestion(out, &e.function_name, Severity::Info,
            "tip_split iterates over recipients and writes one storage entry per recipient. Batch writes are bounded by the 2–10 recipient limit.".to_owned());
    }
    if text_contains(e.function_name.as_str(), "subscription") && e.cpu_instructions >= WARN_CPU {
        push_suggestion(out, &e.function_name, Severity::Info,
            "Subscription operations read and write the full Subscription struct. Ensure the struct size stays small to minimise serialisation cost.".to_owned());
    }
    proof {
        assert(views_of(out@) =~= views_of(before) + suggestions_for(*e));
    }
}

/// Derive optimisation suggestions from a list of estimates: for each
/// estimate, those of [`suggestions_for`], in order.
pub fn generate_suggestions(estimates: &[GasEstimate]) -> (r: Vec<Suggestion>)
    ensures
        views_of(r@) == all_suggestions(estimates@),
{
    let mut out: Vec<Suggestion> = Vec::new();
    let mut k: usize = 0;
    while k < estimates.len()
        invariant
            0 <= k <= estimates@.len(),
            views_of(out@) == all_suggestions(estimates@.take(k as int)),
        decreases estimates@.len() - k,
    {
        suggest_for(&mut out, &estimates[k]);
        proof {
            let es = estimates@.take(k + 1);
            assert(es.drop_last() =~= estimates@.take(k as int));
        }
        k = k + 1;
    }
    proof {
        assert(estimates@.take(k as int) =~= estimates@);
    }
    out
}

pub open spec fn is_match(e: GasEstimate, name: Seq<char>, variant: Seq<char>) -> bool {
    e.function_name@ == name && e.storage_variant@ == variant
}

/// The first estimate of `name` under `variant`, by position.
pub fn find_estimate(estimates: &[GasEstimate], name: &str, variant: &str) -> (r: Option<usize>)
    ensures
        match r {
            Some(i) => i < estimates@.len() && is_match(estimates@[i as int], name@, variant@)
                && forall|j: int| 0 <= j < i ==> !is_match(#[trigger] estimates@[j], name@, variant@),
            None => forall|j: int| 0 <= j < estimates@.len() ==> !is_match(#[trigger] estimates@[j], name@, variant@),
        },
{
    let mut i: usize = 0;
    while i < estimates.len()
        invariant
            0 <= i <= estimates@.len(),
            forall|j: int| 0 <= j < i ==> !is_match(#[trigger] estimates@[j], name@, variant@),
        decreases estimates@.len() - i,
    {
        let e = &estimates[i];
        if same_text(e.function_name.as_str(), name) && same_text(e.storage_variant.as_str(), variant) {
            return Some(i);
        }
        i = i + 1;
    }
    None
}

/// The position of the first estimate of `name` under `variant`.
pub open spec fn first_match(es: Seq<GasEstimate>, name: Seq<char>, variant: Seq<char>) -> Option<int>
    decreases es.len(),
{
    if es.len() == 0 {
        None
    } else {
        match first_match(es.drop_last(), name, variant) {
            Some(i) => Some(i),
            None => if is_match(es.last(), name, variant) {
                Some(es.len() - 1)
            } else {
                None
            },
        }
    }
}

proof fn lemma_first_match(es: Seq<GasEstimate>, name: Seq<char>, variant: Seq<char>, n: int)
    requires
        0 <= n <= es.len(),
        forall|j: int| 0 <= j < n ==> !is_match(#[trigger] es[j], name, variant),
        n < es.len() ==> is_match(es[n], name, variant),
    ensures
        first_match(es, name, variant) == (if n < es.len() {
            Some(n)
        } else {
            None::<int>
        }),
    decreases es.len(),
{
    if es.len() > 0 {
        let p = es.drop_last();
        if n < es.len() - 1 {
            lemma_first_match(p, name, variant, n);
        } else {
            assert forall|j: int| 0 <= j < p.len() implies !is_match(#[trigger] p[j], name, variant) by {
                assert(p[j] == es[j]);
            }
            lemma_first_match(p, name, variant, p.len() as int);
        }
    }
}

/// The operations compared, as (label, baseline function, baseline
/// variant, candidate function, candidate variant).
pub open spec fn comparison_pair(k: int) -> (Seq<char>, Seq<char>, Seq<char>, Seq<char>, Seq<char>) {
    if k == 0 {
        ("tip: cold vs warm"@, "tip"@, "cold"@, "tip"@, "warm"@)
    } else if k == 1 {
        ("tip vs tip_with_fee"@, "tip"@, "cold"@, "tip_with_fee"@, "cold"@)
    } else if k == 2 {
        ("tip vs tip_split (3 recipients)"@, "tip"@, "cold"@, "tip_split"@, "cold"@)
    } else if k == 3 {
        ("withdraw vs get_withdrawable_balance"@, "withdraw"@, "warm"@, "get_withdrawable_balance"@, "warm"@)
    } else {
        (
            "create_subscription vs execute_subscription_payment"@,
            "create_subscription"@,
            "cold"@,
            "execute_subscription_payment"@,
            "warm"@,
        )
    }
}

/// The number of compared pairs.
pub const COMPARISON_COUNT: usize = 5;

fn pair_at(k: usize) -> (r: (&'static str, &'static str, &'static str, &'static str, &'static str))
    requires
        k < COMPARISON_COUNT,
    ensures
        (r.0@, r.1@, r.2@, r.3@, r.4@) == comparison_pair(k as int),
{
    if k == 0 {
        ("tip: cold vs warm", "tip", "cold", "tip", "warm")
    } else if k == 1 {
        ("tip vs tip_with_fee", "tip", "cold", "tip_with_fee", "cold")
    } else if k == 2 {
        ("tip vs tip_split (3 recipients)", "tip", "cold", "tip_split", "cold")
    } else if k == 3 {
        ("withdraw vs get_withdrawable_balance", "withdraw", "warm", "get_withdrawable_balance", "warm")
    } else {
        (
            "create_subscription vs execute_subscription_payment",
            "create_subscription",
            "cold",
            "execute_subscription_payment",
            "warm",
        )
    }
}

/// A comparison as plain values: label, baseline, candidate, their CPU
/// use and the difference.
pub type ComparisonView = (Seq<char>, Seq<char>, Seq<char>, u64, u64, i64);

pub open spec fn comparison_view(c: Comparison) -> ComparisonView {
    (c.label@, c.baseline@, c.candidate@, c.baseline_cpu, c.candidate_cpu, c.delta_cpu)
}

/// How an operation is shown in a comparison: `name (variant)`.
pub open spec fn shown_as(name: Seq<char>, variant: Seq<char>) -> Seq<char> {
    name + " ("@ + variant + ")"@
}

/// The difference in CPU use, as the machine computes it from the two
/// counts taken as `i64`.
pub open spec fn cpu_delta(baseline: u64, candidate: u64) -> int {
    (candidate as i64) - (baseline as i64)
}

/// The comparison of pair `k`, when both of its operations were measured.
pub open spec fn comparison_entry(es: Seq<GasEstimate>, k: int) -> Seq<ComparisonView> {
    let (label, bf, bv, cf, cv) = comparison_pair(k);
    match (first_match(es, bf, bv), first_match(es, cf, cv)) {
        (Some(i), Some(j)) => seq![(
            label,
            shown_as(bf, bv),
            shown_as(cf, cv),
            es[i].cpu_instructions,
            es[j].cpu_instructions,
            cpu_delta(es[i].cpu_instructions, es[j].cpu_instructions) as i64,
        )],
        _ => Seq::empty(),
    }
}

/// The difference of pair `k` fits in `i64` wherever both operations were
/// measured.
pub open spec fn entry_computable(es: Seq<GasEstimate>, k: int) -> bool {
    let (label, bf, bv, cf, cv) = comparison_pair(k);
    match (first_match(es, bf, bv), first_match(es, cf, cv)) {
        (Some(i), Some(j)) => i64::MIN <= cpu_delta(es[i].cpu_instructions, es[j].cpu_instructions) <= i64::MAX,
        _ => true,
    }
}

/// The comparisons of the first `n` pairs, in order.
pub open spec fn comparisons_upto(es: Seq<GasEstimate>, n: int) -> Seq<ComparisonView>
    decreases n,
{
    if n <= 0 {
        Seq::empty()
    } else {
        comparisons_upto(es, n - 1) + comparison_entry(es, n - 1)
    }
}

/// Build comparison entries from a slice of estimates: for each compared
/// pair whose two operations were both measured (the first estimate of
/// each counts), one entry.
pub fn generate_comparisons(estimates: &[GasEstimate]) -> (r: Vec<Comparison>)
    requires
        forall|k: int| 0 <= k < COMPARISON_COUNT ==> #[trigger] entry_computable(estimates@, k),
    ensures
        r@.map_values(|c: Comparison| comparison_view(c)) == comparisons_upto(estimates@, COMPARISON_COUNT as int),
{
    let mut out: Vec<Comparison> = Vec::new();
    let mut k: usize = 0;
    while k < COMPARISON_COUNT
        invariant
            0 <= k <= COMPARISON_COUNT,
            forall|q: int| 0 <= q < COMPARISON_COUNT ==> #[trigger] entry_computable(estimates@, q),
            out@.map_values(|c: Comparison| comparison_view(c)) == comparisons_upto(estimates@, k as int),
        decreases COMPARISON_COUNT - k,
    {
        let (label, base_fn, base_var, cand_fn, cand_var) = pair_at(k);
        let base = find_estimate(estimates, base_fn, base_var);
        let cand = find_estimate(estimates, cand_fn, cand_var);
        proof {
            match base {
                Some(i) => lemma_first_match(estimates@, base_fn@, base_var@, i as int),
                None => lemma_first_match(estimates@, base_fn@, base_var@, estimates@.len() as int),
            }
            match cand {
                Some(j) => lemma_first_match(estimates@, cand_fn@, cand_var@, j as int),
                None => lemma_first_match(estimates@, cand_fn@, cand_var@, estimates@.len() as int),
            }
            assert(entry_computable(estimates@, k as int));
        }
        let ghost before = out@;
        match (base, cand) {
            (Some(i), Some(j)) => {
                let b = &estimates[i];
                let c = &estimates[j];
                let delta = c.cpu_instructions as i64 - b.cpu_instructions as i64;
                let baseline = concat3(concat3(b.function_name.as_str(), " (", b.storage_variant.as_str()).as_str(), ")", "");
                let candidate = concat3(concat3(c.function_name.as_str(), " (", c.storage_variant.as_str()).as_str(), ")", "");
                proof {
                    reveal_strlit("");
                    assert(baseline@ =~= shown_as(base_fn@, base_var@));
                    assert(candidate@ =~= shown_as(cand_fn@, cand_var@));
                }
                out.push(Comparison {
                    label: label.to_owned(),
                    baseline,
                    candidate,
                    baseline_cpu: b.cpu_instructions,
                    candidate_cpu: c.cpu_instructions,
                    delta_cpu: delta,
                });
            },
            _ => {},
        }
        proof {
            assert(out@.map_values(|c: Comparison| comparison_view(c)) =~= before.map_values(
                |c: Comparison| comparison_view(c),
            ) + comparison_entry(estimates@, k as int));
        }
        k = k + 1;
    }
    out
}

/// Whether the CPU differences of all measured pairs fit in `i64`, so that
/// [`generate_comparisons`] can be called on `estimates`.
pub fn comparisons_computable(estimates: &[GasEstimate]) -> (r: bool)
    ensures
        r == forall|k: int| 0 <= k < COMPARISON_COUNT ==> #[trigger] entry_computable(estimates@, k),
{
    let mut k: usize = 0;
    while k < COMPARISON_COUNT
        invariant
            0 <= k <= COMPARISON_COUNT,
            forall|q: int| 0 <= q < k ==> #[trigger] entry_computable(estimates@, q),
        decreases COMPARISON_COUNT - k,
    {
        let (_label, base_fn, base_var, cand_fn, cand_var) = pair_at(k);
        let base = find_estimate(estimates, base_fn, base_var);
        let cand = find_estimate(estimates, cand_fn, cand_var);
        proof {
            match base {
                Some(i) => lemma_first_match(estimates@, base_fn@, base_var@, i as int),
                None => lemma_first_match(estimates@, base_fn@, base_var@, estimates@.len() as int),
            }
            match cand {
                Some(j) => lemma_first_match(estimates@, cand_fn@, cand_var@, j as int),
                None => lemma_first_match(estimates@, cand_fn@, cand_var@, estimates@.len() as int),
            }
        }
        match (base, cand) {
            (Some(i), Some(j)) => {
                let b = estimates[i].cpu_instructions as i64;
                let c = estimates[j].cpu_instructions as i64;
                if c.checked_sub(b).is_none() {
                    proof {
                        assert(!entry_computable(estimates@, k as int));
                    }
                    return false;
                }
            },
            _ => {},
        }
        k = k + 1;
    }
    true
}

} // verus!
