//! History snipping: keeps a conversation history within a token budget with one
//! of four strategies.
//!
//! - `KeepRecent` keeps the most recent messages that fit.
//! - `PriorityBased` scores every message (role, recency, length) and keeps the
//!   best-scored ones that fit, in their order in the history.
//! - `Smart` replaces older messages by segment summaries and keeps the most
//!   recent ones verbatim.
//! - `Hybrid` keeps the best-scored older messages within half of their budget,
//!   summarizes the rest, and keeps the most recent ones verbatim.

use vstd::prelude::*;
use crate::context::{
    ContextEntry, token_count_of, token_total, token_total_exec, copy_entries,
    lemma_token_total_concat,
};
use crate::compact::{copy_range, batches};
use crate::text::{
    chars_of, push_all, take_chars, take_chars_exec, views, split_any, split_any_exec,
    lemma_split_any_nonempty, str_eq, string_of,
};
use crate::ids::{new_id, now_micros};

verus! {

/// How the history is brought within budget.
#[derive(Debug, Clone, Copy, PartialEq, Eq, Structural)]
pub enum SnipStrategy {
    /// Keep the most recent messages.
    KeepRecent,
    /// Keep the best-scored messages.
    PriorityBased,
    /// Summarize older messages segment by segment.
    Smart,
    /// Keep the best-scored older messages and summarize the rest.
    Hybrid,
}

impl Default for SnipStrategy {
    fn default() -> (s: Self)
        ensures
            s == SnipStrategy::Hybrid,
    {
        SnipStrategy::Hybrid
    }
}

/// Configuration of history snipping.
#[derive(Debug, Clone, Copy)]
pub struct HistorySnipConfig {
    /// Token limit of the history window.
    pub max_tokens: usize,
    /// Strategy used when the history is over budget.
    pub strategy: SnipStrategy,
    /// Number of most recent messages always kept.
    pub keep_recent_count: usize,
    /// Messages per summarized segment.
    pub segment_size: usize,
    /// Tokens reserved for the system prompt.
    pub system_prompt_reserve: usize,
    /// Whether snipping runs at all.
    pub enabled: bool,
}

impl Default for HistorySnipConfig {
    fn default() -> (c: Self)
        ensures
            c.max_tokens == 100_000,
            c.strategy == SnipStrategy::Hybrid,
            c.keep_recent_count == 10,
            c.segment_size == 6,
            c.system_prompt_reserve == 4000,
            c.enabled,
    {
        HistorySnipConfig {
            max_tokens: 100_000,
            strategy: SnipStrategy::Hybrid,
            keep_recent_count: 10,
            segment_size: 6,
            system_prompt_reserve: 4000,
            enabled: true,
        }
    }
}

/// A summary that replaced a segment of messages.
#[derive(Debug)]
pub struct SnippedSegment {
    pub id: String,
    pub summary: String,
    pub original_count: usize,
    pub original_tokens: usize,
    pub compressed_tokens: usize,
    /// Timestamps of the first and last summarized message.
    pub time_range: (i64, i64),
    /// When the summary was made.
    pub created_at: i64,
}

/// Counters of snipping runs.
#[derive(Debug, Clone, Copy)]
pub struct SnipStats {
    pub total_snips: usize,
    pub total_messages_compressed: usize,
    pub total_tokens_saved: usize,
    pub segments_created: usize,
    pub current_strategy: SnipStrategy,
    pub is_enabled: bool,
}

/// The token budget of the history: the window minus the system-prompt reserve.
pub open spec fn budget_of(cfg: HistorySnipConfig) -> nat {
    if cfg.max_tokens >= cfg.system_prompt_reserve {
        (cfg.max_tokens - cfg.system_prompt_reserve) as nat
    } else {
        0
    }
}

/// `a - b`, or zero when `b > a`.
pub open spec fn sat_sub(a: nat, b: nat) -> nat {
    if a >= b {
        (a - b) as nat
    } else {
        0
    }
}

// ===== KeepRecent =====

/// `out` holds the most recent entries of `es`: as many as fit in `budget`, at most `keep`.
pub open spec fn keep_recent_result(es: Seq<ContextEntry>, budget: nat, keep: nat, out: Seq<ContextEntry>) -> bool {
    exists|c: nat|
        {
            &&& c <= keep && c <= es.len()
            &&& #[trigger] es.skip(es.len() - c) == out
            &&& token_total(out) <= budget
            &&& (c < keep && c < es.len()) ==> token_total(es.skip(es.len() - c - 1)) > budget
        }
}

pub proof fn lemma_token_total_prepend(x: ContextEntry, s: Seq<ContextEntry>)
    ensures
        token_total(seq![x] + s) == x.token_count + token_total(s),
{
    lemma_token_total_concat(seq![x], s);
    assert(seq![x].drop_last() =~= Seq::<ContextEntry>::empty());
    assert(seq![x].last() == x);
    assert(token_total(seq![x]) == token_total(seq![x].drop_last()) + x.token_count);
}

/// Strategy `KeepRecent` (see `keep_recent_result`).
pub fn strategy_keep_recent(es: &[ContextEntry], budget: usize, keep: usize) -> (out: Vec<ContextEntry>)
    ensures
        keep_recent_result(es@, budget as nat, keep as nat, out@),
{
    let n = es.len();
    let mut c: usize = 0;
    let mut sum: usize = 0;
    let mut stop = false;
    assert(es@.skip(n as int) =~= Seq::<ContextEntry>::empty());
    while !stop && c < keep && c < n
        invariant
            c <= keep && c <= n == es.len(),
            sum <= budget,
            sum == token_total(es@.skip(n - c)),
            stop ==> c < keep && c < n && token_total(es@.skip(n - c - 1)) > budget,
        decreases n - c + if stop { 0int } else { 1int },
    {
        let tok = es[n - 1 - c].token_count;
        proof {
            assert(es@.skip(n - c - 1) =~= seq![es@[n - 1 - c]] + es@.skip(n - c));
            lemma_token_total_prepend(es@[n - 1 - c], es@.skip(n - c));
        }
        if tok > budget - sum {
            stop = true;
        } else {
            sum = sum + tok;
            c += 1;
        }
    }
    let out = copy_range(es, n - c, n);
    assert(es@.subrange(n - c, n as int) =~= es@.skip(n - c));
    assert(es@.skip(es@.len() - (c as nat)) == out@);
    out
}

// ===== Segment summaries =====

/// Sentence ends used for the first sentence of an assistant message.
pub open spec fn sentence_seps() -> Seq<char> {
    seq!['.', '。', '！', '!', '\n']
}

/// Texts joined by newlines.
pub open spec fn join_lines(ls: Seq<Seq<char>>) -> Seq<char>
    decreases ls.len(),
{
    if ls.len() == 0 {
        Seq::empty()
    } else if ls.len() == 1 {
        ls[0]
    } else {
        join_lines(ls.drop_last()) + seq!['\n'] + ls.last()
    }
}

/// `• 用户: ` and the first 120 characters of each user message.
pub open spec fn segment_users(es: Seq<ContextEntry>) -> Seq<Seq<char>>
    decreases es.len(),
{
    if es.len() == 0 {
        Seq::empty()
    } else {
        let prev = segment_users(es.drop_last());
        if es.last().role@ == "user"@ {
            prev.push("• 用户: "@ + take_chars(es.last().content@, 120))
        } else {
            prev
        }
    }
}

/// `• 助手: ` and the first 80 characters of the first sentence of each assistant message.
pub open spec fn segment_assistants(es: Seq<ContextEntry>) -> Seq<Seq<char>>
    decreases es.len(),
{
    if es.len() == 0 {
        Seq::empty()
    } else {
        let prev = segment_assistants(es.drop_last());
        if es.last().role@ == "assistant"@ {
            prev.push("• 助手: "@ + take_chars(split_any(es.last().content@, sentence_seps())[0], 80))
        } else {
            prev
        }
    }
}

/// The summary text of one segment.
pub open spec fn segment_summary(es: Seq<ContextEntry>) -> Seq<char> {
    let us = segment_users(es);
    let asst = segment_assistants(es);
    "[历史对话摘要]\n"@ + (if us.len() > 0 {
        join_lines(us) + seq!['\n']
    } else {
        Seq::empty()
    }) + (if asst.len() > 0 {
        join_lines(asst)
    } else {
        Seq::empty()
    })
}

/// Appends `line` to the newline-joined `acc` holding `count` texts.
fn append_line(acc: &mut Vec<char>, count: usize, line: &Vec<char>)
    ensures
        count == 0 ==> final(acc)@ == old(acc)@ + line@,
        count > 0 ==> final(acc)@ == old(acc)@ + seq!['\n'] + line@,
{
    if count > 0 {
        acc.push('\n');
    }
    push_all(acc, line);
}

/// The summary text of one segment (see `segment_summary`).
pub fn create_segment_summary(es: &[ContextEntry]) -> (r: Vec<char>)
    ensures
        r@ == segment_summary(es@),
{
    let mut seps: Vec<char> = Vec::new();
    seps.push('.');
    seps.push('。');
    seps.push('！');
    seps.push('!');
    seps.push('\n');
    assert(seps@ =~= sentence_seps());
    let mut users: Vec<char> = Vec::new();
    let mut asst: Vec<char> = Vec::new();
    let mut nu: usize = 0;
    let mut na: usize = 0;
    let mut i: usize = 0;
    while i < es.len()
        invariant
            i <= es.len(),
            seps@ == sentence_seps(),
            nu == segment_users(es@.take(i as int)).len(),
            na == segment_assistants(es@.take(i as int)).len(),
            nu <= i && na <= i,
            users@ == join_lines(segment_users(es@.take(i as int))),
            asst@ == join_lines(segment_assistants(es@.take(i as int))),
        decreases es.len() - i,
    {
        let e = &es[i];
        assert(es@.take(i + 1).drop_last() =~= es@.take(i as int));
        proof {
            reveal_strlit("user");
            reveal_strlit("assistant");
            assert("user"@.len() == 4 && "assistant"@.len() == 9);
        }
        let content = chars_of(e.content.as_str());
        if str_eq(e.role.as_str(), "user") {
            let mut line = chars_of("• 用户: ");
            let pv = take_chars_exec(&content, 120);
            push_all(&mut line, &pv);
            let ghost before = users@;
            append_line(&mut users, nu, &line);
            proof {
                let s = segment_users(es@.take(i + 1));
                assert(s.drop_last() =~= segment_users(es@.take(i as int)));
                assert(s.last() == line@);
            }
            nu += 1;
            assert(segment_assistants(es@.take(i + 1)) == segment_assistants(es@.take(i as int)));
        } else if str_eq(e.role.as_str(), "assistant") {
            let pieces = split_any_exec(&content, &seps);
            proof {
                lemma_split_any_nonempty(content@, seps@);
            }
            assert(views(pieces@)[0] == pieces@[0]@);
            let mut line = chars_of("• 助手: ");
            let pv = take_chars_exec(&pieces[0], 80);
            push_all(&mut line, &pv);
            append_line(&mut asst, na, &line);
            proof {
                let s = segment_assistants(es@.take(i + 1));
                assert(s.drop_last() =~= segment_assistants(es@.take(i as int)));
                assert(s.last() == line@);
            }
            na += 1;
        }
        i += 1;
    }
    assert(es@.take(es@.len() as int) =~= es@);
    let mut out = chars_of("[历史对话摘要]\n");
    if nu > 0 {
        push_all(&mut out, &users);
        out.push('\n');
    }
    if na > 0 {
        push_all(&mut out, &asst);
    }
    assert(out@ =~= segment_summary(es@));
    out
}

} // verus!

verus! {

/// How many of the leading costs fit in `budget`, stopping at the first that does not.
pub open spec fn fit_count(costs: Seq<nat>, budget: nat) -> nat
    decreases costs.len(),
{
    if costs.len() == 0 || costs[0] > budget {
        0
    } else {
        1 + fit_count(costs.drop_first(), (budget - costs[0]) as nat)
    }
}

/// Token counts of the summaries of `segs`.
pub open spec fn summary_costs(segs: Seq<Seq<ContextEntry>>) -> Seq<nat> {
    segs.map_values(|s: Seq<ContextEntry>| token_count_of(segment_summary(s)))
}

/// `sg` records the summary of `seg`.
pub open spec fn segment_record(sg: SnippedSegment, seg: Seq<ContextEntry>) -> bool {
    &&& sg.summary@ == segment_summary(seg)
    &&& sg.original_count == seg.len()
    &&& sg.original_tokens == token_total(seg)
    &&& sg.compressed_tokens == token_count_of(segment_summary(seg))
    &&& seg.len() > 0 ==> sg.time_range == (seg[0].timestamp, seg.last().timestamp)
}

/// `out` starts with fresh system entries holding the summaries of the first
/// `c` segments of `segs`, followed by `tail`.
pub open spec fn summaries_then(segs: Seq<Seq<ContextEntry>>, c: nat, tail: Seq<ContextEntry>, out: Seq<ContextEntry>) -> bool {
    &&& c <= segs.len()
    &&& out.len() == c + tail.len()
    &&& forall|k: int| 0 <= k < c ==> (#[trigger] out[k]).fresh("system"@, segment_summary(segs[k]))
    &&& out.skip(c as int) == tail
}

/// Strategy `Smart`: the older messages are cut into segments of `seg` messages,
/// and the summaries of the leading segments that fit in what the most recent
/// `keep` messages leave of the budget replace them.
pub open spec fn smart_result(
    es: Seq<ContextEntry>,
    budget: nat,
    keep: nat,
    seg: nat,
    out: Seq<ContextEntry>,
    records: Seq<SnippedSegment>,
) -> bool {
    if es.len() <= keep {
        out == es && records.len() == 0
    } else {
        let split = es.len() - keep;
        let recent = es.skip(split);
        let segs = batches(es.take(split), seg);
        let c = fit_count(summary_costs(segs), sat_sub(budget, token_total(recent)));
        &&& summaries_then(segs, c, recent, out)
        &&& records.len() == c
        &&& forall|k: int| 0 <= k < c ==> segment_record(#[trigger] records[k], segs[k])
    }
}

pub proof fn lemma_token_total_subrange(s: Seq<ContextEntry>, a: int, b: int)
    requires
        0 <= a <= b <= s.len(),
    ensures
        token_total(s.subrange(a, b)) <= token_total(s),
{
    assert(s =~= s.take(a) + s.subrange(a, b) + s.skip(b));
    lemma_token_total_concat(s.take(a) + s.subrange(a, b), s.skip(b));
    lemma_token_total_concat(s.take(a), s.subrange(a, b));
}

/// The record of one summarized segment.
fn make_record(seg: &Vec<ContextEntry>, summary: &Vec<char>, tokens: usize) -> (sg: SnippedSegment)
    requires
        seg.len() > 0,
        summary@ == segment_summary(seg@),
        tokens == token_count_of(segment_summary(seg@)),
        token_total(seg@) <= usize::MAX,
    ensures
        segment_record(sg, seg@),
{
    let total = token_total_exec(seg.as_slice());
    SnippedSegment {
        id: new_id(),
        summary: string_of(summary),
        original_count: seg.len(),
        original_tokens: total as usize,
        compressed_tokens: tokens,
        time_range: (seg[0].timestamp, seg[seg.len() - 1].timestamp),
        created_at: now_micros(),
    }
}

/// Strategy `Smart` (see `smart_result`); also returns the records of the
/// summarized segments.
pub fn strategy_smart(es: &[ContextEntry], budget: usize, keep: usize, seg: usize) -> (r: (Vec<ContextEntry>, Vec<SnippedSegment>))
    requires
        seg > 0 || es.len() <= keep,
        token_total(es@) <= usize::MAX,
    ensures
        smart_result(es@, budget as nat, keep as nat, seg as nat, r.0@, r.1@),
{
    let n = es.len();
    if n <= keep {
        return (copy_entries(es), Vec::new());
    }
    let split = n - keep;
    let recent = copy_range(es, split, n);
    assert(es@.subrange(split as int, n as int) =~= es@.skip(split as int));
    let recent_tokens = token_total_exec(recent.as_slice());
    let summary_budget: u128 = if (budget as u128) >= recent_tokens {
        budget as u128 - recent_tokens
    } else {
        0
    };
    let ghost segs = batches(es@.take(split as int), seg as nat);
    let ghost costs = summary_costs(segs);
    let ghost mut done: Seq<Seq<ContextEntry>> = Seq::empty();
    let mut out: Vec<ContextEntry> = Vec::new();
    let mut records: Vec<SnippedSegment> = Vec::new();
    let mut used: u128 = 0;
    let mut start: usize = 0;
    let mut stop = false;
    assert(es@.subrange(0, split as int) =~= es@.take(split as int));
    assert(costs.skip(0) =~= costs);
    while !stop && start < split
        invariant
            0 < seg,
            start <= split <= n == es.len(),
            token_total(es@) <= usize::MAX,
            segs == batches(es@.take(split as int), seg as nat),
            costs == summary_costs(segs),
            segs == done + batches(es@.subrange(start as int, split as int), seg as nat),
            used <= summary_budget,
            fit_count(costs, summary_budget as nat) == if stop { done.len() as nat } else {
                done.len() + fit_count(costs.skip(done.len() as int), (summary_budget - used) as nat)
            },
            out.len() == done.len(),
            records.len() == done.len(),
            forall|k: int| 0 <= k < done.len() ==> (#[trigger] out@[k]).fresh("system"@, segment_summary(done[k])),
            forall|k: int| 0 <= k < done.len() ==> segment_record(#[trigger] records@[k], done[k]),
            stop ==> done.len() < segs.len(),
        decreases split - start + if stop { 0int } else { 1int },
    {
        let end = if seg >= split - start {
            split
        } else {
            start + seg
        };
        let chunk = copy_range(es, start, end);
        let summary = create_segment_summary(chunk.as_slice());
        let text = string_of(&summary);
        let e = ContextEntry::new("system", text.as_str());
        let rest = Ghost(es@.subrange(start as int, split as int));
        proof {
            if rest@.len() > seg {
                assert(rest@.take(seg as int) =~= es@.subrange(start as int, end as int));
                assert(rest@.skip(seg as int) =~= es@.subrange(end as int, split as int));
            } else {
                assert(rest@ =~= es@.subrange(start as int, end as int));
                assert(es@.subrange(end as int, split as int).len() == 0);
            }
            assert(batches(rest@, seg as nat) =~= seq![chunk@] + batches(es@.subrange(end as int, split as int), seg as nat));
            assert(segs[done.len() as int] == chunk@);
            assert(costs.skip(done.len() as int)[0] == costs[done.len() as int]);
            assert(costs.skip(done.len() as int).drop_first() =~= costs.skip(done.len() + 1int));
        }
        let cost = e.token_count;
        if (cost as u128) > summary_budget - used {
            stop = true;
        } else {
            used = used + cost as u128;
            proof {
                lemma_token_total_subrange(es@, start as int, end as int);
            }
            let rec = make_record(&chunk, &summary, cost);
            out.push(e);
            records.push(rec);
            proof {
                done = done.push(chunk@);
                assert(segs =~= done + batches(es@.subrange(end as int, split as int), seg as nat));
            }
            start = end;
        }
    }
    proof {
        if !stop {
            assert(es@.subrange(start as int, split as int).len() == 0);
            assert(done =~= segs);
            assert(costs.skip(done.len() as int).len() == 0);
        }
    }
    let ghost head = out@;
    let mut j: usize = 0;
    while j < recent.len()
        invariant
            j <= recent.len(),
            out@ == head + recent@.take(j as int),
        decreases recent.len() - j,
    {
        out.push(recent[j].duplicate());
        assert(recent@.take(j + 1) =~= recent@.take(j as int).push(recent@[j as int]));
        j += 1;
    }
    assert(recent@.take(recent@.len() as int) =~= recent@);
    assert(out@.skip(done.len() as int) =~= recent@);
    assert forall|k: int| 0 <= k < done.len() implies (#[trigger] out@[k]).fresh("system"@, segment_summary(segs[k])) by {
        assert(out@[k] == head[k]);
        assert(done[k] == segs[k]);
    }
    assert forall|k: int| 0 <= k < done.len() implies segment_record(#[trigger] records@[k], segs[k]) by {
        assert(done[k] == segs[k]);
    }
    (out, records)
}

} // verus!

verus! {

/// Weight of a role: system 100, user 3, assistant 2, anything else 1.
pub open spec fn role_weight(role: Seq<char>) -> int {
    if role == "system"@ {
        100
    } else if role == "user"@ {
        3
    } else if role == "assistant"@ {
        2
    } else {
        1
    }
}

/// The score of an entry without its recency part: role weight, +1 for fewer than
/// 50 tokens, -2 for assistant messages of more than 500 tokens.
pub open spec fn base_score(e: ContextEntry) -> int {
    role_weight(e.role@) + (if e.token_count < 50 {
        1int
    } else {
        0int
    }) - (if e.role@ == "assistant"@ && e.token_count > 500 {
        2int
    } else {
        0int
    })
}

/// The priority score of the entry at `index` among `total`, multiplied by
/// `total - 1` (when `total > 1`) so that it is an integer: recency adds
/// `10 * index / (total - 1)`, from 0 for the oldest to 10 for the newest (10 for a
/// lone entry). Multiplying every score of a call by the same positive number
/// keeps their order.
pub open spec fn score_key(e: ContextEntry, index: int, total: int) -> int {
    if total > 1 {
        base_score(e) * (total - 1) + 10 * index
    } else {
        base_score(e) + 10
    }
}

/// Scaled scores of all entries of `es`.
pub open spec fn score_keys(es: Seq<ContextEntry>) -> Seq<int> {
    Seq::new(es.len(), |i: int| score_key(es[i], i, es.len() as int))
}

/// Index `a` comes before index `b`: a higher score, or an equal score and an
/// earlier position (a stable sort by descending score).
pub open spec fn ranks_before(keys: Seq<int>, a: int, b: int) -> bool {
    keys[a] > keys[b] || (keys[a] == keys[b] && a < b)
}

/// `order` lists the indices of `keys` from best to worst score.
pub open spec fn is_score_order(keys: Seq<int>, order: Seq<usize>) -> bool {
    &&& order.len() == keys.len()
    &&& forall|i: int| 0 <= i < order.len() ==> (#[trigger] order[i]) < keys.len()
    &&& forall|i: int, j: int|
        0 <= i < j < order.len() ==> ranks_before(keys, #[trigger] order[i] as int, #[trigger] order[j] as int)
}

/// The scaled score of `e` at `index` among `total`.
pub fn score_key_exec(e: &ContextEntry, index: usize, total: usize) -> (k: i128)
    requires
        index < total,
    ensures
        k == score_key(*e, index as int, total as int),
{
    proof {
        reveal_strlit("system");
        reveal_strlit("user");
        reveal_strlit("assistant");
        assert("user"@.len() == 4 && "assistant"@.len() == 9 && "system"@.len() == 6);
    }
    let is_assistant = str_eq(e.role.as_str(), "assistant");
    let w: i128 = if str_eq(e.role.as_str(), "system") {
        100
    } else if str_eq(e.role.as_str(), "user") {
        3
    } else if is_assistant {
        2
    } else {
        1
    };
    let mut base = w;
    if e.token_count < 50 {
        base = base + 1;
    }
    if is_assistant && e.token_count > 500 {
        base = base - 2;
    }
    assert(base == base_score(*e));
    if total > 1 {
        let d = (total - 1) as i128;
        assert(-2 <= base <= 101);
        assert(-2 * d <= base * d <= 101 * d) by (nonlinear_arith)
            requires
                -2 <= base <= 101,
                d >= 0,
        ;
        base * d + 10 * (index as i128)
    } else {
        base + 10
    }
}

/// The indices of `es` from best to worst score (a stable descending sort).
pub fn rank_by_score(es: &[ContextEntry]) -> (order: Vec<usize>)
    ensures
        is_score_order(score_keys(es@), order@),
{
    let n = es.len();
    let ghost keys = score_keys(es@);
    let mut ks: Vec<i128> = Vec::new();
    let mut i: usize = 0;
    while i < n
        invariant
            i <= n == es.len(),
            keys == score_keys(es@),
            ks.len() == i,
            forall|j: int| 0 <= j < i ==> ks@[j] == keys[j],
        decreases n - i,
    {
        ks.push(score_key_exec(&es[i], i, n));
        i += 1;
    }
    let mut order: Vec<usize> = Vec::new();
    let mut i: usize = 0;
    while i < n
        invariant
            i <= n == es.len() == ks.len() == keys.len(),
            forall|j: int| 0 <= j < n ==> ks@[j] == keys[j],
            order.len() == i,
            forall|a: int| 0 <= a < order.len() ==> (#[trigger] order@[a]) < i,
            forall|a: int, b: int|
                0 <= a < b < order.len() ==> ranks_before(keys, #[trigger] order@[a] as int, #[trigger] order@[b] as int),
        decreases n - i,
    {
        let ki = ks[i];
        let mut p: usize = 0;
        while p < order.len() && !(ki > ks[order[p]])
            invariant
                p <= order.len() == i,
                i < n == ks.len() == keys.len(),
                ki == keys[i as int],
                forall|j: int| 0 <= j < n ==> ks@[j] == keys[j],
                forall|a: int| 0 <= a < order.len() ==> (#[trigger] order@[a]) < i,
                forall|a: int| 0 <= a < p ==> keys[order@[a] as int] >= ki,
            decreases order.len() - p,
        {
            p += 1;
        }
        let ghost prev = order@;
        order.insert(p, i);
        assert(order@ =~= prev.take(p as int).push(i) + prev.skip(p as int));
        assert forall|a: int, b: int| 0 <= a < b < order@.len() implies ranks_before(keys, #[trigger] order@[a] as int, #[trigger] order@[b] as int) by {
            if b < p {
                assert(order@[a] == prev[a] && order@[b] == prev[b]);
            } else if a < p && b == p {
                assert(order@[a] == prev[a]);
            } else if a < p && b > p {
                assert(order@[a] == prev[a] && order@[b] == prev[b - 1]);
            } else if a == p {
                assert(order@[b] == prev[b - 1]);
                assert(ranks_before(keys, prev[p as int] as int, prev[b - 1] as int) || b - 1 == p);
            } else {
                assert(order@[a] == prev[a - 1] && order@[b] == prev[b - 1]);
            }
        }
        i += 1;
    }
    order
}

/// State of the greedy pass: chosen indices, their tokens, and the indices
/// passed over (in the order they were met).
pub struct Greedy {
    pub kept: Set<int>,
    pub tokens: nat,
    pub rejected: Seq<usize>,
}

/// Walks `order` and keeps each entry whose tokens still fit in `budget`.
pub open spec fn greedy(es: Seq<ContextEntry>, order: Seq<usize>, budget: nat) -> Greedy
    decreases order.len(),
{
    if order.len() == 0 {
        Greedy { kept: Set::empty(), tokens: 0, rejected: Seq::empty() }
    } else {
        let g = greedy(es, order.drop_last(), budget);
        let x = order.last();
        let t = es[x as int].token_count as nat;
        if g.tokens + t > budget {
            Greedy { kept: g.kept, tokens: g.tokens, rejected: g.rejected.push(x) }
        } else {
            Greedy { kept: g.kept.insert(x as int), tokens: g.tokens + t, rejected: g.rejected }
        }
    }
}

pub proof fn lemma_greedy_tokens(es: Seq<ContextEntry>, order: Seq<usize>, budget: nat)
    ensures
        greedy(es, order, budget).tokens <= budget,
    decreases order.len(),
{
    if order.len() > 0 {
        lemma_greedy_tokens(es, order.drop_last(), budget);
    }
}

/// The entries of `es[..k]` whose indices are in `kept`, in their order in the history.
pub open spec fn pick(es: Seq<ContextEntry>, kept: Set<int>, k: nat) -> Seq<ContextEntry>
    decreases k,
{
    if k == 0 {
        Seq::empty()
    } else {
        pick(es, kept, (k - 1) as nat) + if kept.contains(k - 1) {
            seq![es[k - 1]]
        } else {
            Seq::empty()
        }
    }
}

/// The greedy pass over `order` (see `greedy`): membership flags of the kept
/// indices, their token total, and the passed-over indices.
pub fn greedy_exec(es: &[ContextEntry], order: &Vec<usize>, budget: usize) -> (r: (Vec<bool>, usize, Vec<usize>))
    requires
        forall|i: int| 0 <= i < order.len() ==> (#[trigger] order@[i]) < es.len(),
    ensures
        r.0.len() == es.len(),
        forall|x: int| 0 <= x < es.len() ==> (r.0@[x] <==> greedy(es@, order@, budget as nat).kept.contains(x)),
        r.1 == greedy(es@, order@, budget as nat).tokens,
        r.2@ == greedy(es@, order@, budget as nat).rejected,
{
    let mut flags: Vec<bool> = Vec::new();
    let mut i: usize = 0;
    while i < es.len()
        invariant
            i <= es.len(),
            flags.len() == i,
            forall|x: int| 0 <= x < i ==> !flags@[x],
        decreases es.len() - i,
    {
        flags.push(false);
        i += 1;
    }
    let mut tokens: usize = 0;
    let mut rejected: Vec<usize> = Vec::new();
    let mut p: usize = 0;
    while p < order.len()
        invariant
            p <= order.len(),
            flags.len() == es.len(),
            forall|i: int| 0 <= i < order.len() ==> (#[trigger] order@[i]) < es.len(),
            tokens <= budget,
            tokens == greedy(es@, order@.take(p as int), budget as nat).tokens,
            rejected@ == greedy(es@, order@.take(p as int), budget as nat).rejected,
            forall|x: int| 0 <= x < es.len() ==> (flags@[x] <==> greedy(es@, order@.take(p as int), budget as nat).kept.contains(x)),
        decreases order.len() - p,
    {
        let x = order[p];
        assert(order@.take(p + 1).drop_last() =~= order@.take(p as int));
        assert(order@.take(p + 1).last() == x);
        let t = es[x].token_count;
        if t > budget - tokens {
            rejected.push(x);
        } else {
            tokens = tokens + t;
            flags.set(x, true);
        }
        p += 1;
    }
    assert(order@.take(order@.len() as int) =~= order@);
    (flags, tokens, rejected)
}

/// The flagged entries, in their order in the history.
pub fn pick_exec(es: &[ContextEntry], flags: &Vec<bool>, Ghost(kept): Ghost<Set<int>>) -> (r: Vec<ContextEntry>)
    requires
        flags.len() == es.len(),
        forall|x: int| 0 <= x < es.len() ==> (flags@[x] <==> kept.contains(x)),
    ensures
        r@ == pick(es@, kept, es.len() as nat),
{
    let mut r: Vec<ContextEntry> = Vec::new();
    let mut i: usize = 0;
    while i < es.len()
        invariant
            i <= es.len() == flags.len(),
            forall|x: int| 0 <= x < es.len() ==> (flags@[x] <==> kept.contains(x)),
            r@ == pick(es@, kept, i as nat),
        decreases es.len() - i,
    {
        let ghost before = r@;
        if flags[i] {
            r.push(es[i].duplicate());
        }
        assert(r@ =~= pick(es@, kept, (i + 1) as nat));
        i += 1;
    }
    r
}

/// Strategy `PriorityBased`: the entries chosen greedily, best score first, within
/// `budget`, in their order in the history.
pub open spec fn priority_result(es: Seq<ContextEntry>, budget: nat, out: Seq<ContextEntry>) -> bool {
    exists|order: Seq<usize>|
        #[trigger] is_score_order(score_keys(es), order) && out == pick(es, greedy(es, order, budget).kept, es.len())
}

/// Strategy `PriorityBased` (see `priority_result`).
pub fn strategy_priority_based(es: &[ContextEntry], budget: usize) -> (out: Vec<ContextEntry>)
    ensures
        priority_result(es@, budget as nat, out@),
{
    let order = rank_by_score(es);
    let (flags, _tokens, _rejected) = greedy_exec(es, &order, budget);
    let out = pick_exec(es, &flags, Ghost(greedy(es@, order@, budget as nat).kept));
    assert(is_score_order(score_keys(es@), order@));
    out
}

} // verus!

verus! {

/// Summaries of the leading segments of `src` (segments of `seg` entries) whose
/// token counts fit in `budget` one after another.
pub fn summarize_fitting(src: &[ContextEntry], seg: usize, budget: u128) -> (out: Vec<ContextEntry>)
    requires
        seg > 0,
    ensures
        summaries_then(batches(src@, seg as nat), fit_count(summary_costs(batches(src@, seg as nat)), budget as nat), Seq::empty(), out@),
{
    let n = src.len();
    let ghost segs = batches(src@, seg as nat);
    let ghost costs = summary_costs(segs);
    let ghost mut done: Seq<Seq<ContextEntry>> = Seq::empty();
    let mut out: Vec<ContextEntry> = Vec::new();
    let mut used: u128 = 0;
    let mut start: usize = 0;
    let mut stop = false;
    assert(src@.subrange(0, n as int) =~= src@);
    assert(costs.skip(0) =~= costs);
    while !stop && start < n
        invariant
            0 < seg,
            start <= n == src.len(),
            segs == batches(src@, seg as nat),
            costs == summary_costs(segs),
            segs == done + batches(src@.subrange(start as int, n as int), seg as nat),
            used <= budget,
            fit_count(costs, budget as nat) == if stop { done.len() as nat } else {
                done.len() + fit_count(costs.skip(done.len() as int), (budget - used) as nat)
            },
            out.len() == done.len(),
            forall|k: int| 0 <= k < done.len() ==> (#[trigger] out@[k]).fresh("system"@, segment_summary(done[k])),
            stop ==> done.len() < segs.len(),
        decreases n - start + if stop { 0int } else { 1int },
    {
        let end = if seg >= n - start {
            n
        } else {
            start + seg
        };
        let chunk = copy_range(src, start, end);
        let summary = create_segment_summary(chunk.as_slice());
        let text = string_of(&summary);
        let e = ContextEntry::new("system", text.as_str());
        let rest = Ghost(src@.subrange(start as int, n as int));
        proof {
            if rest@.len() > seg {
                assert(rest@.take(seg as int) =~= src@.subrange(start as int, end as int));
                assert(rest@.skip(seg as int) =~= src@.subrange(end as int, n as int));
            } else {
                assert(rest@ =~= src@.subrange(start as int, end as int));
                assert(src@.subrange(end as int, n as int).len() == 0);
            }
            assert(batches(rest@, seg as nat) =~= seq![chunk@] + batches(src@.subrange(end as int, n as int), seg as nat));
            assert(segs[done.len() as int] == chunk@);
            assert(costs.skip(done.len() as int)[0] == costs[done.len() as int]);
            assert(costs.skip(done.len() as int).drop_first() =~= costs.skip(done.len() + 1int));
        }
        let cost = e.token_count;
        if (cost as u128) > budget - used {
            stop = true;
        } else {
            used = used + cost as u128;
            out.push(e);
            proof {
                done = done.push(chunk@);
                assert(segs =~= done + batches(src@.subrange(end as int, n as int), seg as nat));
            }
            start = end;
        }
    }
    proof {
        if !stop {
            assert(src@.subrange(start as int, n as int).len() == 0);
            assert(done =~= segs);
            assert(costs.skip(done.len() as int).len() == 0);
        }
    }
    assert(out@.skip(done.len() as int) =~= Seq::<ContextEntry>::empty());
    assert forall|k: int| 0 <= k < done.len() implies (#[trigger] out@[k]).fresh("system"@, segment_summary(segs[k])) by {
        assert(done[k] == segs[k]);
    }
    out
}

/// Strategy `Hybrid`: of the older messages, the best-scored are kept greedily
/// within half of what the most recent `keep` messages leave of the budget; the
/// others, in score order, are cut into segments of `seg`, and the summaries of
/// the leading segments that fit in the rest replace them. The result is the
/// summaries, the kept older messages in their order in the history, and the recent ones.
pub open spec fn hybrid_result(es: Seq<ContextEntry>, budget: nat, keep: nat, seg: nat, out: Seq<ContextEntry>) -> bool {
    if es.len() <= keep {
        out == es
    } else {
        exists|order: Seq<usize>|
            #[trigger] is_score_order(score_keys(es.take(es.len() - keep)), order) && hybrid_with(es, budget, keep, seg, order, out)
    }
}

/// `out` is what `Hybrid` yields when the older messages are ranked by `order`.
pub open spec fn hybrid_with(es: Seq<ContextEntry>, budget: nat, keep: nat, seg: nat, order: Seq<usize>, out: Seq<ContextEntry>) -> bool {
    let split = es.len() - keep;
    let old = es.take(split);
    let recent = es.skip(split);
    let ob = sat_sub(budget, token_total(recent));
    let g = greedy(old, order, ob / 2);
    let segs = batches(g.rejected.map_values(|x: usize| old[x as int]), seg);
    let c = fit_count(summary_costs(segs), sat_sub(ob, g.tokens));
    summaries_then(segs, c, pick(old, g.kept, split as nat) + recent, out)
}

/// Strategy `Hybrid` (see `hybrid_result`).
pub fn strategy_hybrid(es: &[ContextEntry], budget: usize, keep: usize, seg: usize) -> (out: Vec<ContextEntry>)
    requires
        seg > 0 || es.len() <= keep,
    ensures
        hybrid_result(es@, budget as nat, keep as nat, seg as nat, out@),
{
    let n = es.len();
    if n <= keep {
        return copy_entries(es);
    }
    let split = n - keep;
    let old = copy_range(es, 0, split);
    assert(es@.subrange(0, split as int) =~= es@.take(split as int));
    let recent = copy_range(es, split, n);
    assert(es@.subrange(split as int, n as int) =~= es@.skip(split as int));
    let recent_tokens = token_total_exec(recent.as_slice());
    let old_budget: usize = if (budget as u128) >= recent_tokens {
        (budget as u128 - recent_tokens) as usize
    } else {
        0
    };
    let half = old_budget / 2;
    let order = rank_by_score(old.as_slice());
    let (flags, kept_tokens, rejected) = greedy_exec(old.as_slice(), &order, half);
    let ghost g = greedy(old@, order@, half as nat);
    proof {
        lemma_greedy_tokens(old@, order@, half as nat);
    }
    let mut comp: Vec<ContextEntry> = Vec::new();
    let mut j: usize = 0;
    while j < rejected.len()
        invariant
            j <= rejected.len(),
            rejected@ == g.rejected,
            g == greedy(old@, order@, half as nat),
            forall|i: int| 0 <= i < order.len() ==> (#[trigger] order@[i]) < old.len(),
            comp@ == rejected@.take(j as int).map_values(|x: usize| old@[x as int]),
        decreases rejected.len() - j,
    {
        proof {
            lemma_rejected_in_range(old@, order@, half as nat);
        }
        let x = rejected[j];
        comp.push(old[x].duplicate());
        assert(rejected@.take(j + 1).map_values(|x: usize| old@[x as int]) =~= rejected@.take(j as int).map_values(|x: usize| old@[x as int]).push(old@[x as int]));
        j += 1;
    }
    assert(rejected@.take(rejected@.len() as int) =~= rejected@);
    let summary_budget: u128 = (old_budget - kept_tokens) as u128;
    let mut out = summarize_fitting(comp.as_slice(), seg, summary_budget);
    let kept = pick_exec(old.as_slice(), &flags, Ghost(g.kept));
    let ghost head = out@;
    let mut tail: Vec<ContextEntry> = Vec::new();
    let mut k: usize = 0;
    while k < kept.len()
        invariant
            k <= kept.len(),
            tail@ == kept@.take(k as int),
        decreases kept.len() - k,
    {
        tail.push(kept[k].duplicate());
        assert(kept@.take(k + 1) =~= kept@.take(k as int).push(kept@[k as int]));
        k += 1;
    }
    let mut k: usize = 0;
    assert(kept@.take(kept@.len() as int) =~= kept@);
    while k < recent.len()
        invariant
            k <= recent.len(),
            tail@ == kept@ + recent@.take(k as int),
        decreases recent.len() - k,
    {
        tail.push(recent[k].duplicate());
        assert(recent@.take(k + 1) =~= recent@.take(k as int).push(recent@[k as int]));
        k += 1;
    }
    assert(recent@.take(recent@.len() as int) =~= recent@);
    let mut k: usize = 0;
    while k < tail.len()
        invariant
            k <= tail.len(),
            out@ == head + tail@.take(k as int),
        decreases tail.len() - k,
    {
        out.push(tail[k].duplicate());
        assert(tail@.take(k + 1) =~= tail@.take(k as int).push(tail@[k as int]));
        k += 1;
    }
    assert(tail@.take(tail@.len() as int) =~= tail@);
    let ghost segs = batches(comp@, seg as nat);
    let ghost c = fit_count(summary_costs(segs), summary_budget as nat);
    assert(out@.skip(c as int) =~= tail@);
    assert forall|q: int| 0 <= q < c implies (#[trigger] out@[q]).fresh("system"@, segment_summary(segs[q])) by {
        assert(out@[q] == head[q]);
    }
    assert(is_score_order(score_keys(old@), order@));
    proof {
        let ob = sat_sub(budget as nat, token_total(es@.skip(split as int)));
        assert(ob == old_budget);
        assert(g.rejected.map_values(|x: usize| old@[x as int]) == comp@);
        assert(sat_sub(ob, g.tokens) == summary_budget);
        assert(pick(old@, g.kept, split as nat) == kept@);
        assert(summaries_then(segs, c, pick(old@, g.kept, split as nat) + es@.skip(split as int), out@));
        assert(hybrid_with(es@, budget as nat, keep as nat, seg as nat, order@, out@));
        assert(is_score_order(score_keys(es@.take(es@.len() - keep)), order@));
    }
    out
}

proof fn lemma_rejected_in_range(es: Seq<ContextEntry>, order: Seq<usize>, budget: nat)
    requires
        forall|i: int| 0 <= i < order.len() ==> (#[trigger] order[i]) < es.len(),
    ensures
        forall|i: int| 0 <= i < greedy(es, order, budget).rejected.len() ==> (#[trigger] greedy(es, order, budget).rejected[i]) < es.len(),
    decreases order.len(),
{
    if order.len() > 0 {
        let d = order.drop_last();
        assert forall|i: int| 0 <= i < d.len() implies (#[trigger] d[i]) < es.len() by {
            assert(d[i] == order[i]);
        }
        lemma_rejected_in_range(es, d, budget);
        let g = greedy(es, d, budget);
        let r = greedy(es, order, budget).rejected;
        assert(order.last() == order[order.len() - 1]);
        assert forall|i: int| 0 <= i < r.len() implies (#[trigger] r[i]) < es.len() by {
            if i < g.rejected.len() {
                assert(r[i] == g.rejected[i]);
            }
        }
    }
}

} // verus!

verus! {

/// `a + b`, capped at `usize::MAX`.
pub open spec fn sat_add(a: nat, b: nat) -> nat {
    if a + b <= usize::MAX {
        a + b
    } else {
        usize::MAX as nat
    }
}

fn sat_add_exec(a: usize, b: usize) -> (r: usize)
    ensures
        r == sat_add(a as nat, b as nat),
{
    if a > usize::MAX - b {
        usize::MAX
    } else {
        a + b
    }
}

/// The strategy's result on an over-budget history.
pub open spec fn strategy_result(
    cfg: HistorySnipConfig,
    es: Seq<ContextEntry>,
    out: Seq<ContextEntry>,
    records: Seq<SnippedSegment>,
) -> bool {
    let budget = budget_of(cfg);
    match cfg.strategy {
        SnipStrategy::KeepRecent => keep_recent_result(es, budget, cfg.keep_recent_count as nat, out)
            && records.len() == 0,
        SnipStrategy::PriorityBased => priority_result(es, budget, out) && records.len() == 0,
        SnipStrategy::Smart => smart_result(
            es,
            budget,
            cfg.keep_recent_count as nat,
            cfg.segment_size as nat,
            out,
            records,
        ),
        SnipStrategy::Hybrid => hybrid_result(
            es,
            budget,
            cfg.keep_recent_count as nat,
            cfg.segment_size as nat,
            out,
        ) && records.len() == 0,
    }
}

/// The history as it is when it fits in `budget`; otherwise its longest
/// suffix that fits.
pub open spec fn fitted(raw: Seq<ContextEntry>, budget: nat, out: Seq<ContextEntry>) -> bool {
    if token_total(raw) <= budget {
        out == raw
    } else {
        keep_recent_result(raw, budget, raw.len(), out)
    }
}

/// The inputs on which snipping runs without fault: when enabled, the token
/// total fits in a `usize`, and a zero segment size is never used to cut older
/// messages.
pub open spec fn snip_admissible(cfg: HistorySnipConfig, es: Seq<ContextEntry>) -> bool {
    &&& cfg.enabled ==> token_total(es) <= usize::MAX
    &&& (cfg.enabled && token_total(es) > budget_of(cfg) && es.len() > cfg.keep_recent_count && (
    cfg.strategy == SnipStrategy::Smart || cfg.strategy == SnipStrategy::Hybrid)) ==> cfg.segment_size
        > 0
}

impl SnippedSegment {
    /// A field-by-field copy.
    pub fn duplicate(&self) -> (s: Self)
        ensures
            s == *self,
    {
        SnippedSegment {
            id: self.id.clone(),
            summary: self.summary.clone(),
            original_count: self.original_count,
            original_tokens: self.original_tokens,
            compressed_tokens: self.compressed_tokens,
            time_range: self.time_range,
            created_at: self.created_at,
        }
    }
}

/// Keeps conversation histories within a token budget, and records what it did.
pub struct HistorySnipManager {
    config: HistorySnipConfig,
    segments: Vec<SnippedSegment>,
    stats: SnipStats,
}

impl HistorySnipManager {
    pub closed spec fn cfg(&self) -> HistorySnipConfig {
        self.config
    }

    /// The recorded segment summaries, oldest first.
    pub closed spec fn segs(&self) -> Seq<SnippedSegment> {
        self.segments@
    }

    pub closed spec fn counters(&self) -> SnipStats {
        self.stats
    }

    pub fn new(config: HistorySnipConfig) -> (m: Self)
        ensures
            m.cfg() == config,
            m.segs().len() == 0,
            m.counters() == (SnipStats {
                total_snips: 0,
                total_messages_compressed: 0,
                total_tokens_saved: 0,
                segments_created: 0,
                current_strategy: config.strategy,
                is_enabled: config.enabled,
            }),
    {
        HistorySnipManager {
            config,
            segments: Vec::new(),
            stats: SnipStats {
                total_snips: 0,
                total_messages_compressed: 0,
                total_tokens_saved: 0,
                segments_created: 0,
                current_strategy: config.strategy,
                is_enabled: config.enabled,
            },
        }
    }

    /// A manager with the default configuration.
    pub fn with_defaults() -> (m: Self)
        ensures
            m.cfg().max_tokens == 100_000,
            m.cfg().strategy == SnipStrategy::Hybrid,
            m.cfg().keep_recent_count == 10,
            m.cfg().segment_size == 6,
            m.cfg().system_prompt_reserve == 4000,
            m.cfg().enabled,
            m.segs().len() == 0,
            m.counters() == (SnipStats {
                total_snips: 0,
                total_messages_compressed: 0,
                total_tokens_saved: 0,
                segments_created: 0,
                current_strategy: SnipStrategy::Hybrid,
                is_enabled: true,
            }),
    {
        Self::new(HistorySnipConfig::default())
    }

    /// Brings `entries` within the token budget with the configured strategy.
    /// Disabled snipping, or a history within budget, returns the entries as
    /// they are and changes nothing; otherwise the counters are updated (and,
    /// for `Smart`, the summarized segments recorded). When the strategy's
    /// result is still over budget (the recent messages it keeps exceed it),
    /// its longest suffix within the budget is returned.
    pub fn snip_if_needed(&mut self, entries: &[ContextEntry]) -> (out: Vec<ContextEntry>)
        requires
            snip_admissible(old(self).cfg(), entries@),
        ensures
            final(self).cfg() == old(self).cfg(),
            !old(self).cfg().enabled || token_total(entries@) <= budget_of(old(self).cfg()) ==> {
                &&& out@ == entries@
                &&& final(self).segs() == old(self).segs()
                &&& final(self).counters() == old(self).counters()
            },
            old(self).cfg().enabled && token_total(entries@) > budget_of(old(self).cfg()) ==> {
                let records = final(self).segs().skip(old(self).segs().len() as int);
                let c = old(self).counters();
                &&& final(self).segs().len() >= old(self).segs().len()
                &&& final(self).segs().take(old(self).segs().len() as int) == old(self).segs()
                &&& exists|raw: Seq<ContextEntry>| #[trigger] strategy_result(old(self).cfg(), entries@, raw, records)
                    && fitted(raw, budget_of(old(self).cfg()), out@)
                &&& token_total(out@) <= budget_of(old(self).cfg())
                &&& final(self).counters() == (SnipStats {
                    total_snips: sat_add(c.total_snips as nat, 1) as usize,
                    total_messages_compressed: sat_add(
                        c.total_messages_compressed as nat,
                        sat_sub(entries@.len(), out@.len()),
                    ) as usize,
                    total_tokens_saved: sat_add(
                        c.total_tokens_saved as nat,
                        sat_sub(token_total(entries@), token_total(out@)),
                    ) as usize,
                    segments_created: sat_add(c.segments_created as nat, records.len()) as usize,
                    current_strategy: c.current_strategy,
                    is_enabled: c.is_enabled,
                })
            },
    {
        let cfg = self.config;
        if !cfg.enabled {
            return copy_entries(entries);
        }
        let total = token_total_exec(entries);
        let budget = if cfg.max_tokens >= cfg.system_prompt_reserve {
            cfg.max_tokens - cfg.system_prompt_reserve
        } else {
            0
        };
        if total <= budget as u128 {
            return copy_entries(entries);
        }
        let ghost old_segs = self.segments@;
        let ghost old_stats = self.stats;
        let (raw, records) = match cfg.strategy {
            SnipStrategy::KeepRecent => (strategy_keep_recent(entries, budget, cfg.keep_recent_count), Vec::new()),
            SnipStrategy::PriorityBased => (strategy_priority_based(entries, budget), Vec::new()),
            SnipStrategy::Smart => strategy_smart(entries, budget, cfg.keep_recent_count, cfg.segment_size),
            SnipStrategy::Hybrid => (strategy_hybrid(entries, budget, cfg.keep_recent_count, cfg.segment_size), Vec::new()),
        };
        let ghost raw_v = raw@;
        assert(strategy_result(cfg, entries@, raw_v, records@));
        let raw_total = token_total_exec(raw.as_slice());
        let out = if raw_total <= budget as u128 {
            raw
        } else {
            strategy_keep_recent(raw.as_slice(), budget, raw.len())
        };
        let mut k: usize = 0;
        while k < records.len()
            invariant
                k <= records.len(),
                self.segments@ == old_segs + records@.take(k as int),
                self.config == cfg,
                self.stats == old_stats,
            decreases records.len() - k,
        {
            self.segments.push(records[k].duplicate());
            assert(records@.take(k + 1) =~= records@.take(k as int).push(records@[k as int]));
            k += 1;
        }
        assert(records@.take(records@.len() as int) =~= records@);
        assert(self.segments@.skip(old_segs.len() as int) =~= records@);
        assert(self.segments@.take(old_segs.len() as int) =~= old_segs);
        let after = token_total_exec(out.as_slice());
        let saved: usize = if total >= after {
            (total - after) as usize
        } else {
            0
        };
        let compressed: usize = if entries.len() >= out.len() {
            entries.len() - out.len()
        } else {
            0
        };
        self.stats.total_snips = sat_add_exec(self.stats.total_snips, 1);
        self.stats.total_messages_compressed = sat_add_exec(self.stats.total_messages_compressed, compressed);
        self.stats.total_tokens_saved = sat_add_exec(self.stats.total_tokens_saved, saved);
        self.stats.segments_created = sat_add_exec(self.stats.segments_created, records.len());
        proof {
            assert(fitted(raw_v, budget as nat, out@));
            if token_total(raw_v) > budget {
                let c = choose|c: nat| {
                    &&& c <= raw_v.len() && c <= raw_v.len()
                    &&& #[trigger] raw_v.skip(raw_v.len() - c) == out@
                    &&& token_total(out@) <= budget
                    &&& (c < raw_v.len() && c < raw_v.len()) ==> token_total(raw_v.skip(raw_v.len() - c - 1)) > budget
                };
            }
        }
        out
    }

    /// The counters.
    pub fn stats(&self) -> (s: SnipStats)
        ensures
            s == self.counters(),
    {
        self.stats
    }

    /// Copies of the recorded segment summaries.
    pub fn get_segments(&self) -> (v: Vec<SnippedSegment>)
        ensures
            v@ == self.segs(),
    {
        let mut v: Vec<SnippedSegment> = Vec::new();
        let mut i: usize = 0;
        while i < self.segments.len()
            invariant
                i <= self.segments.len(),
                v@ == self.segments@.take(i as int),
            decreases self.segments.len() - i,
        {
            v.push(self.segments[i].duplicate());
            assert(self.segments@.take(i + 1) =~= self.segments@.take(i as int).push(self.segments@[i as int]));
            i += 1;
        }
        assert(self.segments@.take(self.segments@.len() as int) =~= self.segments@);
        v
    }

    /// Replaces the configuration (the counters keep their strategy and switch).
    pub fn update_config(&mut self, config: HistorySnipConfig)
        ensures
            final(self).cfg() == config,
            final(self).segs() == old(self).segs(),
            final(self).counters() == old(self).counters(),
    {
        self.config = config;
    }

    /// Turns snipping on or off.
    pub fn set_enabled(&mut self, enabled: bool)
        ensures
            final(self).cfg() == (HistorySnipConfig { enabled, ..old(self).cfg() }),
            final(self).segs() == old(self).segs(),
            final(self).counters() == (SnipStats { is_enabled: enabled, ..old(self).counters() }),
    {
        self.config.enabled = enabled;
        self.stats.is_enabled = enabled;
    }

    /// Changes the strategy.
    pub fn set_strategy(&mut self, strategy: SnipStrategy)
        ensures
            final(self).cfg() == (HistorySnipConfig { strategy, ..old(self).cfg() }),
            final(self).segs() == old(self).segs(),
            final(self).counters() == (SnipStats { current_strategy: strategy, ..old(self).counters() }),
    {
        self.config.strategy = strategy;
        self.stats.current_strategy = strategy;
    }

    /// Forgets the recorded segment summaries.
    pub fn clear(&mut self)
        ensures
            final(self).cfg() == old(self).cfg(),
            final(self).segs().len() == 0,
            final(self).counters() == old(self).counters(),
    {
        self.segments.clear();
    }
}

impl Default for HistorySnipManager {
    fn default() -> (m: Self)
        ensures
            m.cfg().max_tokens == 100_000,
            m.cfg().strategy == SnipStrategy::Hybrid,
            m.cfg().enabled,
            m.segs().len() == 0,
    {
        Self::with_defaults()
    }
}

} // verus!
