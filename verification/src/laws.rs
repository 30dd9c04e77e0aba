//! Properties of the library as a whole, each proved from the contracts of
//! the functions it speaks of.

use vstd::prelude::*;

use crate::api::{chat_url, trim_trailing_slashes, ends_with, after_scheme, has_api_path};
use crate::compact::{
    CompactConfig, CompactLevel, CompactResult, compacted, compact_stages, level_of,
    session_all, memory_all, kept_count,
};
use crate::context::{ContextEntry, token_total, lemma_token_total_concat};
use crate::history_snip::{
    keep_recent_result, priority_result, hybrid_result, hybrid_with, smart_result,
    summaries_then, greedy, pick, is_score_order, score_keys, lemma_greedy_tokens,
    fit_count, summary_costs, sat_sub, segment_summary, lemma_token_total_prepend,
};
use crate::models::ApiKeyConfig;
use crate::sse::sse_content;
use crate::text::{starts_with, occurs_at, replace_all};
use crate::web_search::{html_hits, snippet_hits, HitView, encode_bytes, encode_byte, unreserved, hex_digit};
use vstd::utf8::{encode_utf8, encode_utf8_decode_utf8, encode_scalar};

verus! {

/// KeepRecent keeps a suffix of the history: at most `keep` entries, within
/// the budget.
pub proof fn law_keep_recent_is_recent_suffix(es: Seq<ContextEntry>, budget: nat, keep: nat, out: Seq<ContextEntry>)
    requires
        keep_recent_result(es, budget, keep, out),
    ensures
        out.len() <= keep,
        out.len() <= es.len(),
        out == es.skip(es.len() - out.len()),
        token_total(out) <= budget,
{
    let c = choose|c: nat| {
        &&& c <= keep && c <= es.len()
        &&& #[trigger] es.skip(es.len() - c) == out
        &&& token_total(out) <= budget
        &&& (c < keep && c < es.len()) ==> token_total(es.skip(es.len() - c - 1)) > budget
    };
    assert(es.skip(es.len() - c).len() == c);
}

proof fn lemma_pick_step(es: Seq<ContextEntry>, kept: Set<int>, k: nat)
    requires
        k <= es.len(),
    ensures
        k > 0 ==> token_total(pick(es, kept, k)) == token_total(pick(es, kept, (k - 1) as nat))
            + if kept.contains(k - 1) { es[k - 1].token_count as nat } else { 0 },
{
    if k > 0 {
        let p = pick(es, kept, (k - 1) as nat);
        if kept.contains(k - 1) {
            lemma_token_total_concat(p, seq![es[k - 1]]);
            assert(seq![es[k - 1]].drop_last() =~= Seq::<ContextEntry>::empty());
            let one = seq![es[k - 1]];
            assert(one.last() == es[k - 1]);
            assert(token_total(Seq::<ContextEntry>::empty()) == 0);
            assert(token_total(one) == token_total(one.drop_last()) + one.last().token_count as nat);
            assert(token_total(one) == es[k - 1].token_count as nat);
        } else {
            assert(p + Seq::<ContextEntry>::empty() =~= p);
        }
    }
}

proof fn lemma_pick_insert(es: Seq<ContextEntry>, kept: Set<int>, x: int, k: nat)
    requires
        k <= es.len(),
        !kept.contains(x),
        0 <= x,
    ensures
        token_total(pick(es, kept.insert(x), k)) == token_total(pick(es, kept, k))
            + if x < k { es[x].token_count as nat } else { 0 },
    decreases k,
{
    if k > 0 {
        lemma_pick_insert(es, kept, x, (k - 1) as nat);
        lemma_pick_step(es, kept, k);
        lemma_pick_step(es, kept.insert(x), k);
    }
}

proof fn lemma_pick_empty(es: Seq<ContextEntry>, k: nat)
    requires
        k <= es.len(),
    ensures
        token_total(pick(es, Set::empty(), k)) == 0,
    decreases k,
{
    if k > 0 {
        lemma_pick_empty(es, (k - 1) as nat);
        lemma_pick_step(es, Set::empty(), k);
    }
}

proof fn lemma_greedy_pick(es: Seq<ContextEntry>, order: Seq<usize>, budget: nat)
    requires
        forall|i: int| 0 <= i < order.len() ==> (#[trigger] order[i]) < es.len(),
        forall|i: int, j: int| 0 <= i < j < order.len() ==> order[i] != order[j],
    ensures
        token_total(pick(es, greedy(es, order, budget).kept, es.len())) == greedy(es, order, budget).tokens,
        forall|x: int| #[trigger] greedy(es, order, budget).kept.contains(x) ==> exists|i: int| 0 <= i < order.len() && order[i] == x,
    decreases order.len(),
{
    if order.len() == 0 {
        lemma_pick_empty(es, es.len());
    } else {
        let d = order.drop_last();
        assert forall|i: int, j: int| 0 <= i < j < d.len() implies d[i] != d[j] by {
            assert(d[i] == order[i] && d[j] == order[j]);
        }
        assert forall|i: int| 0 <= i < d.len() implies (#[trigger] d[i]) < es.len() by {
            assert(d[i] == order[i]);
        }
        lemma_greedy_pick(es, d, budget);
        let g = greedy(es, d, budget);
        let x = order.last();
        if !g.kept.contains(x as int) {
        } else {
            let i = choose|i: int| 0 <= i < d.len() && d[i] == x as int;
            assert(order[i] == order[order.len() - 1]);
        }
        if g.tokens + es[x as int].token_count as nat <= budget {
            lemma_pick_insert(es, g.kept, x as int, es.len());
        }
        assert forall|y: int| #[trigger] greedy(es, order, budget).kept.contains(y) implies exists|i: int| 0 <= i < order.len() && order[i] == y by {
            if y != x as int {
                let i = choose|i: int| 0 <= i < d.len() && d[i] == y;
                assert(order[i] == d[i]);
            } else {
                assert(order[order.len() - 1] == y);
            }
        }
    }
}

/// PriorityBased keeps entries whose tokens fit in the budget.
pub proof fn law_priority_within_budget(es: Seq<ContextEntry>, budget: nat, out: Seq<ContextEntry>)
    requires
        priority_result(es, budget, out),
    ensures
        token_total(out) <= budget,
{
    let order = choose|order: Seq<usize>| #[trigger] is_score_order(score_keys(es), order)
        && out == pick(es, greedy(es, order, budget).kept, es.len());
    assert(score_keys(es).len() == es.len());
    assert forall|i: int, j: int| 0 <= i < j < order.len() implies order[i] != order[j] by {
        assert(crate::history_snip::ranks_before(score_keys(es), order[i] as int, order[j] as int));
    }
    lemma_greedy_pick(es, order, budget);
    lemma_greedy_tokens(es, order, budget);
}

proof fn lemma_tail_of(out: Seq<ContextEntry>, c: int, tail: Seq<ContextEntry>, recent: Seq<ContextEntry>)
    requires
        0 <= c <= out.len(),
        out.skip(c) == tail,
        tail.len() >= recent.len(),
        tail.skip(tail.len() - recent.len()) == recent,
    ensures
        out.skip(out.len() - recent.len()) == recent,
{
    assert(out.skip(out.len() - recent.len()) =~= tail.skip(tail.len() - recent.len()));
}

/// Hybrid keeps the most recent `keep` entries as they are, at its end.
pub proof fn law_hybrid_keeps_recent(es: Seq<ContextEntry>, budget: nat, keep: nat, seg: nat, out: Seq<ContextEntry>)
    requires
        hybrid_result(es, budget, keep, seg, out),
        keep <= es.len(),
    ensures
        out.len() >= keep,
        out.skip(out.len() - keep) == es.skip(es.len() - keep),
{
    if es.len() <= keep {
        assert(es.skip(0) =~= es);
        assert(out.skip(0) =~= out);
    } else {
        let order = choose|order: Seq<usize>| #[trigger] is_score_order(score_keys(es.take(es.len() - keep)), order)
            && hybrid_with(es, budget, keep, seg, order, out);
        let split = es.len() - keep;
        let old = es.take(split);
        let recent = es.skip(split);
        let ob = crate::history_snip::sat_sub(budget, token_total(recent));
        let g = greedy(old, order, ob / 2);
        let segs = crate::compact::batches(g.rejected.map_values(|x: usize| old[x as int]), seg);
        let c = crate::history_snip::fit_count(crate::history_snip::summary_costs(segs),
            crate::history_snip::sat_sub(ob, g.tokens));
        let tail = pick(old, g.kept, split as nat) + recent;
        assert(summaries_then(segs, c, tail, out));
        assert(tail.skip(tail.len() - recent.len()) =~= recent);
        lemma_tail_of(out, c as int, tail, recent);
    }
}

/// Smart keeps the most recent `keep` entries as they are, at its end.
pub proof fn law_smart_keeps_recent(
    es: Seq<ContextEntry>,
    budget: nat,
    keep: nat,
    seg: nat,
    out: Seq<ContextEntry>,
    records: Seq<crate::history_snip::SnippedSegment>,
)
    requires
        smart_result(es, budget, keep, seg, out, records),
        keep <= es.len(),
    ensures
        out.len() >= keep,
        out.skip(out.len() - keep) == es.skip(es.len() - keep),
{
    if es.len() <= keep {
        assert(es.skip(0) =~= es);
        assert(out.skip(0) =~= out);
    } else {
        let split = es.len() - keep;
        let recent = es.skip(split);
        let segs = crate::compact::batches(es.take(split), seg);
        let c = crate::history_snip::fit_count(crate::history_snip::summary_costs(segs),
            crate::history_snip::sat_sub(budget, token_total(recent)));
        assert(summaries_then(segs, c, recent, out));
        assert(recent.skip(0) =~= recent);
        lemma_tail_of(out, c as int, recent, recent);
    }
}

/// The sum of a sequence of costs.
pub open spec fn cost_sum(s: Seq<nat>) -> nat
    decreases s.len(),
{
    if s.len() == 0 {
        0
    } else {
        s[0] + cost_sum(s.drop_first())
    }
}

proof fn lemma_fit_within(costs: Seq<nat>, budget: nat)
    ensures
        fit_count(costs, budget) <= costs.len(),
        cost_sum(costs.take(fit_count(costs, budget) as int)) <= budget,
    decreases costs.len(),
{
    if costs.len() == 0 || costs[0] > budget {
        assert(costs.take(0).len() == 0);
    } else {
        let rest = costs.drop_first();
        let b = (budget - costs[0]) as nat;
        lemma_fit_within(rest, b);
        let f = fit_count(rest, b);
        let t = costs.take(f + 1int);
        assert(t.drop_first() =~= rest.take(f as int));
        assert(t[0] == costs[0]);
    }
}

proof fn lemma_summaries_total(segs: Seq<Seq<ContextEntry>>, c: nat, xs: Seq<ContextEntry>)
    requires
        c <= segs.len(),
        xs.len() == c,
        forall|k: int| 0 <= k < c ==> (#[trigger] xs[k]).fresh("system"@, segment_summary(segs[k])),
    ensures
        token_total(xs) == cost_sum(summary_costs(segs).take(c as int)),
    decreases c,
{
    if c == 0 {
        assert(xs =~= Seq::<ContextEntry>::empty());
        assert(summary_costs(segs).take(0).len() == 0);
    } else {
        let ds = segs.drop_first();
        let r = xs.drop_first();
        assert forall|k: int| 0 <= k < c - 1 implies (#[trigger] r[k]).fresh("system"@, segment_summary(ds[k])) by {
            assert(r[k] == xs[k + 1]);
            assert(ds[k] == segs[k + 1]);
        }
        lemma_summaries_total(ds, (c - 1) as nat, r);
        assert(seq![xs[0]] + r =~= xs);
        lemma_token_total_prepend(xs[0], r);
        let cs = summary_costs(segs).take(c as int);
        assert(cs.drop_first() =~= summary_costs(ds).take(c - 1));
        assert(xs[0].fresh("system"@, segment_summary(segs[0])));
    }
}

proof fn lemma_summaries_then_total(segs: Seq<Seq<ContextEntry>>, c: nat, tail: Seq<ContextEntry>, out: Seq<ContextEntry>)
    requires
        summaries_then(segs, c, tail, out),
    ensures
        token_total(out) == cost_sum(summary_costs(segs).take(c as int)) + token_total(tail),
{
    let xs = out.take(c as int);
    assert forall|k: int| 0 <= k < c implies (#[trigger] xs[k]).fresh("system"@, segment_summary(segs[k])) by {
        assert(xs[k] == out[k]);
    }
    lemma_summaries_total(segs, c, xs);
    assert(xs + out.skip(c as int) =~= out);
    lemma_token_total_concat(xs, tail);
}

/// The count `fit_count` gives is the largest whose leading costs fit in the
/// budget: its costs fit, and no longer prefix fits.
pub proof fn law_fit_count_is_largest(costs: Seq<nat>, budget: nat, p: nat)
    requires
        p <= costs.len(),
        cost_sum(costs.take(p as int)) <= budget,
    ensures
        p <= fit_count(costs, budget),
        cost_sum(costs.take(fit_count(costs, budget) as int)) <= budget,
    decreases costs.len(),
{
    lemma_fit_within(costs, budget);
    if p > 0 {
        let t = costs.take(p as int);
        let rest = costs.drop_first();
        assert(t[0] == costs[0]);
        assert(t.drop_first() =~= rest.take(p - 1));
        assert(cost_sum(t) == costs[0] + cost_sum(rest.take(p - 1)));
        law_fit_count_is_largest(rest, (budget - costs[0]) as nat, (p - 1) as nat);
    }
}

/// Smart keeps the largest number of leading segment summaries that fit in
/// what the recent entries leave of the budget.
pub proof fn law_smart_summaries_largest(
    es: Seq<ContextEntry>,
    budget: nat,
    keep: nat,
    seg: nat,
    out: Seq<ContextEntry>,
    records: Seq<crate::history_snip::SnippedSegment>,
    p: nat,
)
    requires
        smart_result(es, budget, keep, seg, out, records),
        es.len() > keep,
        p <= crate::compact::batches(es.take(es.len() - keep), seg).len(),
        cost_sum(summary_costs(crate::compact::batches(es.take(es.len() - keep), seg)).take(p as int))
            <= sat_sub(budget, token_total(es.skip(es.len() - keep))),
    ensures
        p <= records.len(),
        cost_sum(summary_costs(crate::compact::batches(es.take(es.len() - keep), seg)).take(records.len() as int))
            <= sat_sub(budget, token_total(es.skip(es.len() - keep))),
{
    let segs = crate::compact::batches(es.take(es.len() - keep), seg);
    assert(summary_costs(segs).len() == segs.len());
    law_fit_count_is_largest(summary_costs(segs), sat_sub(budget, token_total(es.skip(es.len() - keep))), p);
}

/// What the most recent `keep` entries of `es` are: all of `es` when it has no more.
pub open spec fn recent_part(es: Seq<ContextEntry>, keep: nat) -> Seq<ContextEntry> {
    if es.len() <= keep {
        es
    } else {
        es.skip(es.len() - keep)
    }
}

/// Smart stays within the budget whenever the most recent `keep` entries do.
pub proof fn law_smart_within_budget(
    es: Seq<ContextEntry>,
    budget: nat,
    keep: nat,
    seg: nat,
    out: Seq<ContextEntry>,
    records: Seq<crate::history_snip::SnippedSegment>,
)
    requires
        smart_result(es, budget, keep, seg, out, records),
        token_total(recent_part(es, keep)) <= budget,
    ensures
        token_total(out) <= budget,
{
    if es.len() > keep {
        let split = es.len() - keep;
        let recent = es.skip(split);
        let segs = crate::compact::batches(es.take(split), seg);
        let sb = sat_sub(budget, token_total(recent));
        let c = fit_count(summary_costs(segs), sb);
        lemma_fit_within(summary_costs(segs), sb);
        lemma_summaries_then_total(segs, c, recent, out);
    }
}

/// Hybrid stays within the budget whenever the most recent `keep` entries do.
pub proof fn law_hybrid_within_budget(es: Seq<ContextEntry>, budget: nat, keep: nat, seg: nat, out: Seq<ContextEntry>)
    requires
        hybrid_result(es, budget, keep, seg, out),
        token_total(recent_part(es, keep)) <= budget,
    ensures
        token_total(out) <= budget,
{
    if es.len() > keep {
        let order = choose|order: Seq<usize>| #[trigger] is_score_order(score_keys(es.take(es.len() - keep)), order)
            && hybrid_with(es, budget, keep, seg, order, out);
        let split = es.len() - keep;
        let old = es.take(split);
        let recent = es.skip(split);
        let ob = sat_sub(budget, token_total(recent));
        let g = greedy(old, order, ob / 2);
        let segs = crate::compact::batches(g.rejected.map_values(|x: usize| old[x as int]), seg);
        let sb = sat_sub(ob, g.tokens);
        let c = fit_count(summary_costs(segs), sb);
        let kept = pick(old, g.kept, split as nat);
        assert(score_keys(old).len() == old.len());
        assert forall|i: int, j: int| 0 <= i < j < order.len() implies order[i] != order[j] by {
            assert(crate::history_snip::ranks_before(score_keys(old), order[i] as int, order[j] as int));
        }
        assert(old.len() == split);
        lemma_greedy_pick(old, order, ob / 2);
        lemma_greedy_tokens(old, order, ob / 2);
        lemma_fit_within(summary_costs(segs), sb);
        lemma_summaries_then_total(segs, c, kept + recent, out);
        lemma_token_total_concat(kept, recent);
    }
}

/// Level 2 keeps the most recent messages as they are, at its end.
pub proof fn law_session_keeps_recent(cfg: CompactConfig, es: Seq<ContextEntry>, out: Seq<ContextEntry>)
    requires
        session_all(cfg, es, out),
    ensures
        out.len() >= kept_count(cfg.session_keep_recent as nat, es.len()),
        out.skip(out.len() - kept_count(cfg.session_keep_recent as nat, es.len()))
            == es.skip(es.len() - kept_count(cfg.session_keep_recent as nat, es.len())),
{
    let k = kept_count(cfg.session_keep_recent as nat, es.len());
    let split = es.len() - k;
    if split == 0 {
        assert(out.skip(out.len() - k) =~= es.skip(es.len() - k));
    } else {
        let bs = crate::compact::batches(es.take(split), cfg.session_batch_size as nat);
        assert(es.skip(split).skip(0) =~= es.skip(split));
        lemma_tail_of(out, bs.len() as int, es.skip(split), es.skip(split));
    }
}

/// Level 3 keeps the most recent messages as they are, at its end.
pub proof fn law_memory_keeps_recent(cfg: CompactConfig, es: Seq<ContextEntry>, out: Seq<ContextEntry>, count: nat)
    requires
        memory_all(cfg, es, out, count),
    ensures
        out.len() >= kept_count(cfg.session_keep_recent as nat, es.len()),
        out.skip(out.len() - kept_count(cfg.session_keep_recent as nat, es.len()))
            == es.skip(es.len() - kept_count(cfg.session_keep_recent as nat, es.len())),
{
    let k = kept_count(cfg.session_keep_recent as nat, es.len());
    let recent = es.skip(es.len() - k);
    if count > 0 {
        assert(recent.skip(0) =~= recent);
        lemma_tail_of(out, 1, recent, recent);
    } else {
        assert(out.skip(0) =~= out);
    }
}

/// With every level disabled, compaction changes nothing and reports no level.
pub proof fn law_compaction_disabled_is_identity(cfg: CompactConfig, es: Seq<ContextEntry>, out: Seq<ContextEntry>, res: CompactResult)
    requires
        compacted(cfg, es, out, res),
        !cfg.enable_microcompact,
        !cfg.enable_session_compact,
        !cfg.enable_memory_compact,
    ensures
        out == es,
        res.level_applied == CompactLevel::NotApplied,
        res.tokens_before == token_total(es),
        res.memories_extracted == 0,
{
    let (s1, s2) = choose|s1: Seq<ContextEntry>, s2: Seq<ContextEntry>| {
        &&& #[trigger] compact_stages(cfg, es, s1, s2, out, res.memories_extracted as nat)
        &&& res.level_applied == level_of(cfg, s1, s2)
    };
}

/// Below both thresholds, compaction applies level 1 at most, and the number
/// of entries is kept.
pub proof fn law_compaction_small_history(cfg: CompactConfig, es: Seq<ContextEntry>, out: Seq<ContextEntry>, res: CompactResult)
    requires
        compacted(cfg, es, out, res),
        !cfg.enable_microcompact,
        token_total(es) <= cfg.session_compact_threshold,
        token_total(es) <= cfg.memory_compact_threshold,
    ensures
        out == es,
        res.level_applied == CompactLevel::NotApplied,
        res.entries_after == res.entries_before,
{
    let (s1, s2) = choose|s1: Seq<ContextEntry>, s2: Seq<ContextEntry>| {
        &&& #[trigger] compact_stages(cfg, es, s1, s2, out, res.memories_extracted as nat)
        &&& res.level_applied == level_of(cfg, s1, s2)
    };
}

/// A stored API key is read back as it was stored.
pub proof fn law_saved_key_is_read_back(before: Map<Seq<char>, ApiKeyConfig>, after: Map<Seq<char>, ApiKeyConfig>, k: ApiKeyConfig)
    requires
        after == before.insert(k.id@, k),
    ensures
        after.contains_key(k.id@),
        after[k.id@] == k,
        forall|id: Seq<char>| id != k.id@ ==> (#[trigger] after.contains_key(id) == before.contains_key(id)),
{
}

/// A deleted API key is no longer found; the others stay.
pub proof fn law_deleted_key_is_gone(before: Map<Seq<char>, ApiKeyConfig>, after: Map<Seq<char>, ApiKeyConfig>, id: Seq<char>)
    requires
        after == before.remove(id),
    ensures
        !after.contains_key(id),
        forall|other: Seq<char>| other != id && #[trigger] before.contains_key(other) ==> after.contains_key(other)
            && after[other] == before[other],
{
}

/// The end-of-stream line carries no text.
pub proof fn law_done_line_has_no_content()
    ensures
        sse_content("data: [DONE]"@) is None,
{
    reveal_strlit("data: [DONE]");
    reveal_strlit("data: ");
    reveal_strlit("[DONE]");
    let line = "data: [DONE]"@;
    assert(line.subrange(0, 6) =~= "data: "@);
    assert(starts_with(line, "data: "@));
    assert(line.skip(6) =~= "[DONE]"@);
}

proof fn lemma_ends_with_suffix_char(t: Seq<char>)
    requires
        ends_with(t, "/chat/completions"@),
    ensures
        t.len() > 0,
        t.last() == 's',
        trim_trailing_slashes(t) == t,
{
    reveal_strlit("/chat/completions");
    let n = t.len() as int;
    assert(t.subrange(n - 17, n)[16] == t[n - 1]);
}

/// A chat URL that was already built is used as it is.
pub proof fn law_chat_url_idempotent(base: Seq<char>)
    ensures
        chat_url(chat_url(base)) == chat_url(base),
{
    reveal_strlit("/chat/completions");
    reveal_strlit("/v1/chat/completions");
    let u = chat_url(base);
    let t = trim_trailing_slashes(base);
    let sfx = "/chat/completions"@;
    if !ends_with(t, sfx) {
        let added = if has_api_path(after_scheme(t)) { sfx } else { "/v1/chat/completions"@ };
        assert(u == t + added);
        assert(u.subrange(u.len() - 17, u.len() as int) =~= sfx);
    }
    assert(ends_with(u, sfx));
    lemma_ends_with_suffix_char(u);
}

proof fn lemma_snippet_hits_bound(segs: Seq<Seq<char>>, i: int, acc: Seq<HitView>)
    requires
        acc.len() <= 5,
    ensures
        snippet_hits(segs, i, acc).len() <= 5,
    decreases segs.len() - i,
{
    if !(i < 0 || i >= segs.len() || acc.len() >= 5) {
        let next = match crate::web_search::segment_snippet(segs[i]) {
            Some(sn) => if sn.len() > 0 && crate::text::utf8_len(sn) > 20 {
                acc.push(HitView { title: crate::text::take_chars(sn, 60), url: Seq::empty(), snippet: sn })
            } else {
                acc
            },
            None => acc,
        };
        lemma_snippet_hits_bound(segs, i + 1, next);
    }
}

/// The HTML results page yields at most five hits.
pub proof fn law_html_hits_at_most_five(body: Seq<char>)
    ensures
        html_hits(body).len() <= 5,
{
    let segs = crate::text::split_pat(body, crate::web_search::SNIPPET_MARK@);
    lemma_snippet_hits_bound(segs, 1, Seq::empty());
}

} // verus!

verus! {

/// The value of an upper-case hexadecimal digit.
pub open spec fn hex_value(c: char) -> int {
    if 0x30 <= c as int <= 0x39 {
        c as int - 0x30
    } else {
        c as int - 0x41 + 10
    }
}

/// Reads a query text back into bytes: `+` is a space, `%` and two
/// hexadecimal digits are one byte, any other character is its own byte.
pub open spec fn decode_query(cs: Seq<char>) -> Seq<u8>
    decreases cs.len(),
{
    if cs.len() == 0 {
        Seq::empty()
    } else if cs[0] == '+' {
        seq![0x20u8] + decode_query(cs.drop_first())
    } else if cs[0] == '%' && cs.len() >= 3 {
        seq![(hex_value(cs[1]) * 16 + hex_value(cs[2])) as u8] + decode_query(cs.skip(3))
    } else {
        seq![cs[0] as u8] + decode_query(cs.drop_first())
    }
}

proof fn lemma_encode_bytes_front(bs: Seq<u8>)
    requires
        bs.len() > 0,
    ensures
        encode_bytes(bs) == encode_byte(bs[0]) + encode_bytes(bs.drop_first()),
    decreases bs.len(),
{
    if bs.len() == 1 {
        assert(bs.drop_last().len() == 0);
        assert(bs.drop_first().len() == 0);
        assert(bs.last() == bs[0]);
        assert(encode_bytes(bs.drop_last()) == Seq::<char>::empty());
        assert(encode_bytes(bs.drop_first()) == Seq::<char>::empty());
        assert(encode_bytes(bs) == encode_bytes(bs.drop_last()) + encode_byte(bs.last()));
        assert(Seq::<char>::empty() + encode_byte(bs[0]) =~= encode_byte(bs[0]));
        assert(encode_byte(bs[0]) + Seq::<char>::empty() =~= encode_byte(bs[0]));
    } else {
        let d = bs.drop_last();
        lemma_encode_bytes_front(d);
        assert(d[0] == bs[0]);
        assert(bs.drop_first().drop_last() =~= d.drop_first());
        assert(bs.drop_first().last() == bs.last());
        assert(encode_bytes(bs.drop_first()) == encode_bytes(d.drop_first()) + encode_byte(bs.last()));
        assert(encode_bytes(bs) == encode_bytes(d) + encode_byte(bs.last()));
        assert(encode_byte(d[0]) + encode_bytes(d.drop_first()) + encode_byte(bs.last())
            =~= encode_byte(bs[0]) + (encode_bytes(d.drop_first()) + encode_byte(bs.last())));
        assert(encode_bytes(bs) == encode_byte(bs[0]) + encode_bytes(bs.drop_first()));
    }
}

proof fn lemma_decode_encode(bs: Seq<u8>)
    ensures
        decode_query(encode_bytes(bs)) == bs,
    decreases bs.len(),
{
    if bs.len() == 0 {
        assert(encode_bytes(bs).len() == 0);
        assert(decode_query(encode_bytes(bs)) =~= bs);
    } else {
        let b = bs[0];
        let rest = encode_bytes(bs.drop_first());
        lemma_encode_bytes_front(bs);
        lemma_decode_encode(bs.drop_first());
        let s = encode_byte(b) + rest;
        if unreserved(b) {
            assert(s[0] == b as char);
            assert(s.drop_first() =~= rest);
            assert((b as char) as u8 == b);
            assert(decode_query(s) == seq![b] + bs.drop_first());
        } else if b == 0x20 {
            assert(s[0] == '+');
            assert(s.drop_first() =~= rest);
            assert(decode_query(s) == seq![b] + bs.drop_first());
        } else {
            let hi = b / 16;
            let lo = b % 16;
            assert(s[0] == '%' && s[1] == hex_digit(hi) && s[2] == hex_digit(lo));
            assert(s.skip(3) =~= rest);
            assert(hex_value(hex_digit(hi)) == hi);
            assert(hex_value(hex_digit(lo)) == lo);
            assert(hi * 16 + lo == b);
            assert(decode_query(s) == seq![b] + bs.drop_first());
        }
        assert(seq![b] + bs.drop_first() =~= bs);
    }
}

/// Reading an encoded query back gives the UTF-8 bytes of the text.
pub proof fn law_encode_decodes(s: Seq<char>)
    ensures
        decode_query(encode_bytes(encode_utf8(s))) == encode_utf8(s),
{
    lemma_decode_encode(encode_utf8(s));
}

/// Two texts with the same encoded query are the same text.
pub proof fn law_encode_injective(a: Seq<char>, b: Seq<char>)
    requires
        encode_bytes(encode_utf8(a)) == encode_bytes(encode_utf8(b)),
    ensures
        a == b,
{
    lemma_decode_encode(encode_utf8(a));
    lemma_decode_encode(encode_utf8(b));
    encode_utf8_decode_utf8(a);
    encode_utf8_decode_utf8(b);
}

proof fn lemma_encode_utf8_concat(a: Seq<char>, b: Seq<char>)
    ensures
        encode_utf8(a + b) == encode_utf8(a) + encode_utf8(b),
    decreases a.len(),
{
    if a.len() == 0 {
        assert(a + b =~= b);
        assert(encode_utf8(a) =~= Seq::<u8>::empty());
        assert(encode_utf8(a) + encode_utf8(b) =~= encode_utf8(b));
    } else {
        lemma_encode_utf8_concat(a.drop_first(), b);
        assert((a + b)[0] == a[0]);
        assert((a + b).drop_first() =~= a.drop_first() + b);
        assert(encode_utf8(a + b) == encode_scalar(a[0] as u32) + encode_utf8(a.drop_first() + b));
        assert(encode_utf8(a) == encode_scalar(a[0] as u32) + encode_utf8(a.drop_first()));
        assert(encode_scalar(a[0] as u32) + (encode_utf8(a.drop_first()) + encode_utf8(b))
            =~= encode_scalar(a[0] as u32) + encode_utf8(a.drop_first()) + encode_utf8(b));
    }
}

proof fn lemma_encode_bytes_concat(x: Seq<u8>, y: Seq<u8>)
    ensures
        encode_bytes(x + y) == encode_bytes(x) + encode_bytes(y),
    decreases y.len(),
{
    if y.len() == 0 {
        assert(x + y =~= x);
        assert(encode_bytes(y) =~= Seq::<char>::empty());
        assert(encode_bytes(x) + encode_bytes(y) =~= encode_bytes(x));
    } else {
        lemma_encode_bytes_concat(x, y.drop_last());
        assert((x + y).drop_last() =~= x + y.drop_last());
        assert((x + y).last() == y.last());
        assert(encode_bytes(x + y) == encode_bytes(x + y.drop_last()) + encode_byte(y.last()));
        assert(encode_bytes(y) == encode_bytes(y.drop_last()) + encode_byte(y.last()));
        assert(encode_bytes(x) + encode_bytes(y.drop_last()) + encode_byte(y.last())
            =~= encode_bytes(x) + (encode_bytes(y.drop_last()) + encode_byte(y.last())));
    }
}

/// Encoding a query works byte by byte: the encoding of two texts one after
/// the other is the two encodings one after the other.
pub proof fn law_encode_concat(a: Seq<char>, b: Seq<char>)
    ensures
        encode_bytes(encode_utf8(a + b)) == encode_bytes(encode_utf8(a)) + encode_bytes(encode_utf8(b)),
{
    lemma_encode_utf8_concat(a, b);
    lemma_encode_bytes_concat(encode_utf8(a), encode_utf8(b));
}

} // verus!

verus! {

/// Recency raises the priority score: of two entries with the same role and
/// token count in one history, the later one scores strictly higher.
pub proof fn law_score_rises_with_recency(a: ContextEntry, b: ContextEntry, i: int, j: int, total: int)
    requires
        a.role@ == b.role@,
        a.token_count == b.token_count,
        0 <= i < j < total,
    ensures
        crate::history_snip::score_key(a, i, total) < crate::history_snip::score_key(b, j, total),
{
}

/// The recency part of the score runs from 0 for the oldest entry to 10 for
/// the newest (scores are scaled by `total - 1`): the newest of two equal
/// entries scores `10 * (total - 1)` more than the oldest.
pub proof fn law_score_recency_span(a: ContextEntry, b: ContextEntry, total: int)
    requires
        a.role@ == b.role@,
        a.token_count == b.token_count,
        total > 1,
    ensures
        crate::history_snip::score_key(b, total - 1, total) - crate::history_snip::score_key(a, 0, total)
            == 10 * (total - 1),
{
}

/// In a history, of two entries with the same role and token count the later
/// one ranks first, so priority-based snipping prefers it.
pub proof fn law_later_equal_entry_ranks_first(es: Seq<ContextEntry>, i: int, j: int)
    requires
        0 <= i < j < es.len(),
        es[i].role@ == es[j].role@,
        es[i].token_count == es[j].token_count,
    ensures
        crate::history_snip::ranks_before(score_keys(es), j, i),
        !crate::history_snip::ranks_before(score_keys(es), i, j),
{
    law_score_rises_with_recency(es[i], es[j], i, j, es.len() as int);
}

} // verus!

verus! {

/// The question line a user message gives: `Q: ` and its first 100 characters.
pub open spec fn question_line(e: ContextEntry) -> Seq<char> {
    "Q: "@ + crate::text::take_chars(e.content@, 100)
}

/// The answer line an assistant message gives: `A: ` and the first 100
/// characters of its first line that is neither blank nor a `#` heading
/// (`(回复)` when there is none).
pub open spec fn answer_line(e: ContextEntry) -> Seq<char> {
    "A: "@ + crate::text::take_chars(
        match crate::compact::first_meaningful(crate::text::lines(e.content@)) {
            Some(l) => l,
            None => "(回复)"@,
        },
        100,
    )
}

/// A titled list: the title and each line indented by two spaces; nothing
/// when the list is empty.
pub open spec fn titled_section(title: Seq<char>, ls: Seq<Seq<char>>) -> Seq<char> {
    if ls.len() > 0 {
        title + crate::compact::indented(ls)
    } else {
        Seq::empty()
    }
}

proof fn lemma_topics_are_user_lines(es: Seq<ContextEntry>)
    ensures
        crate::compact::batch_topics(es)
            == es.filter(|e: ContextEntry| e.role@ == "user"@).map_values(|e: ContextEntry| question_line(e)),
    decreases es.len(),
{
    reveal(Seq::filter);
    let p = |e: ContextEntry| e.role@ == "user"@;
    let f = |e: ContextEntry| question_line(e);
    if es.len() > 0 {
        lemma_topics_are_user_lines(es.drop_last());
        let sub = es.drop_last().filter(p);
        assert(es.filter(p) == if p(es.last()) { sub.push(es.last()) } else { sub });
        if p(es.last()) {
            assert(sub.push(es.last()).map_values(f) =~= sub.map_values(f).push(f(es.last())));
        }
    } else {
        assert(es.filter(p).map_values(f) =~= Seq::<Seq<char>>::empty());
    }
}

proof fn lemma_points_are_assistant_lines(es: Seq<ContextEntry>)
    ensures
        crate::compact::batch_points(es)
            == es.filter(|e: ContextEntry| e.role@ == "assistant"@).map_values(|e: ContextEntry| answer_line(e)),
    decreases es.len(),
{
    reveal(Seq::filter);
    let p = |e: ContextEntry| e.role@ == "assistant"@;
    let f = |e: ContextEntry| answer_line(e);
    if es.len() > 0 {
        lemma_points_are_assistant_lines(es.drop_last());
        let sub = es.drop_last().filter(p);
        assert(es.filter(p) == if p(es.last()) { sub.push(es.last()) } else { sub });
        if p(es.last()) {
            assert(sub.push(es.last()).map_values(f) =~= sub.map_values(f).push(f(es.last())));
        }
    } else {
        assert(es.filter(p).map_values(f) =~= Seq::<Seq<char>>::empty());
    }
}

/// A session summary is the heading, then the question line of every user
/// message in order under `话题:`, then the answer line of every assistant
/// message in order under `要点:` (a section is left out when it has no line).
pub proof fn law_session_summary_lists_questions_and_answers(es: Seq<ContextEntry>)
    ensures
        crate::compact::session_summary(es) == "[会话历史摘要]\n"@
            + titled_section("话题:\n"@,
                es.filter(|e: ContextEntry| e.role@ == "user"@).map_values(|e: ContextEntry| question_line(e)))
            + titled_section("要点:\n"@,
                es.filter(|e: ContextEntry| e.role@ == "assistant"@).map_values(|e: ContextEntry| answer_line(e))),
{
    lemma_topics_are_user_lines(es);
    lemma_points_are_assistant_lines(es);
}

} // verus!

verus! {

/// The `&quot;` entity.
pub open spec fn quot_entity() -> Seq<char> {
    "&quot;"@
}

/// `s` holds no `&quot;`.
pub open spec fn no_quot_entity(s: Seq<char>) -> bool {
    forall|i: int| !occurs_at(s, quot_entity(), i)
}

proof fn lemma_quot_facts()
    ensures
        quot_entity().len() == 6,
        quot_entity()[0] == '&',
        "\""@.len() == 1,
        "\""@[0] == '"',
        forall|k: int| 0 <= k < 6 ==> quot_entity()[k] != '"',
{
    reveal_strlit("&quot;");
    reveal_strlit("\"");
}

proof fn lemma_unquoted_prefix(t: Seq<char>, u: Seq<char>)
    requires
        forall|k: int| 0 <= k < u.len() ==> u[k] != '"',
        occurs_at(replace_all(t, quot_entity(), "\""@), u, 0),
    ensures
        occurs_at(t, u, 0),
    decreases t.len(),
{
    lemma_quot_facts();
    let q = quot_entity();
    let r = replace_all(t, q, "\""@);
    if u.len() == 0 {
        assert(t.subrange(0, 0) =~= u);
    } else if t.len() < q.len() {
        assert(r == t);
    } else if t.take(q.len() as int) == q {
        assert(r == "\""@ + replace_all(t.skip(6), q, "\""@));
        assert(r.subrange(0, u.len() as int)[0] == r[0]);
        assert(r[0] == '"');
        assert(u[0] == r.subrange(0, u.len() as int)[0]);
    } else {
        let rest = t.skip(1);
        assert(r == seq![t[0]] + replace_all(rest, q, "\""@));
        let rr = replace_all(rest, q, "\""@);
        let ud = u.drop_first();
        assert(rr.subrange(0, ud.len() as int) =~= r.subrange(0, u.len() as int).drop_first());
        lemma_unquoted_prefix(rest, ud);
        assert(t.subrange(0, u.len() as int) =~= seq![t[0]] + rest.subrange(0, ud.len() as int));
        assert(r.subrange(0, u.len() as int)[0] == t[0]);
        assert(u =~= seq![u[0]] + ud);
    }
}

/// Replacing every `&quot;` by `"` leaves no `&quot;`.
proof fn lemma_quot_replaced(s: Seq<char>)
    ensures
        no_quot_entity(replace_all(s, quot_entity(), "\""@)),
    decreases s.len(),
{
    lemma_quot_facts();
    let q = quot_entity();
    let r = replace_all(s, q, "\""@);
    if s.len() < q.len() {
        assert(r == s);
    } else if s.take(q.len() as int) == q {
        let rr = replace_all(s.skip(6), q, "\""@);
        lemma_quot_replaced(s.skip(6));
        assert(r == "\""@ + rr);
        assert forall|i: int| !occurs_at(r, q, i) by {
            if occurs_at(r, q, i) {
                if i == 0 {
                    assert(r.subrange(0, 6)[0] == r[0]);
                } else {
                    assert(r.subrange(i, i + 6) =~= rr.subrange(i - 1, i - 1 + 6));
                    assert(occurs_at(rr, q, i - 1));
                }
            }
        }
    } else {
        let rest = s.skip(1);
        let rr = replace_all(rest, q, "\""@);
        lemma_quot_replaced(rest);
        assert(r == seq![s[0]] + rr);
        assert forall|i: int| !occurs_at(r, q, i) by {
            if occurs_at(r, q, i) {
                if i == 0 {
                    let tail = q.drop_first();
                    assert(rr.subrange(0, 5) =~= r.subrange(0, 6).drop_first());
                    assert(tail.len() == 5);
                    assert forall|k: int| 0 <= k < tail.len() implies tail[k] != '"' by {
                        assert(tail[k] == q[k + 1]);
                    }
                    lemma_unquoted_prefix(rest, tail);
                    assert(s.take(6) =~= seq![s[0]] + rest.subrange(0, 5));
                    assert(s[0] == r[0]);
                    assert(r[0] == r.subrange(0, 6)[0]);
                    assert(q =~= seq![q[0]] + tail);
                } else {
                    assert(r.subrange(i, i + 6) =~= rr.subrange(i - 1, i - 1 + 6));
                    assert(occurs_at(rr, q, i - 1));
                }
            }
        }
    }
}

proof fn lemma_no_quot_subrange(s: Seq<char>, a: int, b: int)
    requires
        0 <= a <= b <= s.len(),
        no_quot_entity(s),
    ensures
        no_quot_entity(s.subrange(a, b)),
{
    assert forall|i: int| !occurs_at(s.subrange(a, b), quot_entity(), i) by {
        if occurs_at(s.subrange(a, b), quot_entity(), i) {
            let n = quot_entity().len() as int;
            assert(s.subrange(a, b).subrange(i, i + n) =~= s.subrange(a + i, a + i + n));
            assert(occurs_at(s, quot_entity(), a + i));
        }
    }
}

/// A snippet read from a result segment holds no `&quot;`: each was read as `"`.
pub proof fn law_snippet_has_no_quot_entity(seg: Seq<char>)
    ensures
        crate::web_search::segment_snippet(seg) matches Some(sn) ==> no_quot_entity(sn),
{
    if let Some(x) = crate::web_search::tag_text(seg) {
        let u = crate::web_search::unescape(crate::web_search::strip_bold(x));
        let y = replace_all(replace_all(replace_all(crate::web_search::strip_bold(x), "&amp;"@, "&"@), "&lt;"@, "<"@), "&gt;"@, ">"@);
        lemma_quot_replaced(y);
        assert(u == replace_all(y, quot_entity(), "\""@));
        let ts = crate::text::trim_start(u);
        crate::text::lemma_trim_start_suffix(u);
        assert(ts =~= u.subrange(u.len() - ts.len(), u.len() as int));
        lemma_no_quot_subrange(u, u.len() - ts.len(), u.len() as int);
        let te = crate::text::trim_end(ts);
        crate::text::lemma_trim_end_prefix(ts);
        assert(te =~= ts.subrange(0, te.len() as int));
        lemma_no_quot_subrange(ts, 0, te.len() as int);
    }
}

proof fn lemma_snippet_hits_no_quot(segs: Seq<Seq<char>>, i: int, acc: Seq<HitView>)
    requires
        forall|k: int| 0 <= k < acc.len() ==> no_quot_entity(#[trigger] acc[k].snippet),
    ensures
        forall|k: int| 0 <= k < snippet_hits(segs, i, acc).len() ==> no_quot_entity(#[trigger] snippet_hits(segs, i, acc)[k].snippet),
    decreases segs.len() - i,
{
    if !(i < 0 || i >= segs.len() || acc.len() >= 5) {
        law_snippet_has_no_quot_entity(segs[i]);
        let next = match crate::web_search::segment_snippet(segs[i]) {
            Some(sn) => if sn.len() > 0 && crate::text::utf8_len(sn) > 20 {
                acc.push(HitView { title: crate::text::take_chars(sn, 60), url: Seq::empty(), snippet: sn })
            } else {
                acc
            },
            None => acc,
        };
        assert forall|k: int| 0 <= k < next.len() implies no_quot_entity(#[trigger] next[k].snippet) by {
            if k < acc.len() {
                assert(next[k] == acc[k]);
            }
        }
        lemma_snippet_hits_no_quot(segs, i + 1, next);
        assert(snippet_hits(segs, i, acc) == snippet_hits(segs, i + 1, next));
    }
}

/// No hit of the HTML results page carries a `&quot;` in its snippet.
pub proof fn law_html_snippets_have_no_quot_entity(body: Seq<char>)
    ensures
        forall|k: int| 0 <= k < html_hits(body).len() ==> no_quot_entity(#[trigger] html_hits(body)[k].snippet),
{
    let segs = crate::text::split_pat(body, crate::web_search::SNIPPET_MARK@);
    lemma_snippet_hits_no_quot(segs, 1, Seq::empty());
    let hs = snippet_hits(segs, 1, Seq::empty());
    let links = crate::text::split_pat(body, crate::web_search::LINK_MARK@);
    assert forall|k: int| 0 <= k < html_hits(body).len() implies no_quot_entity(#[trigger] html_hits(body)[k].snippet) by {
        assert(html_hits(body)[k].snippet == hs[k].snippet);
    }
}

} // verus!

verus! {

/// A successful update of a custom agent files it under the same id with each
/// given field replacing the old one and each missing field kept; the other
/// agents stay as they were.
pub proof fn law_update_replaces_given_fields(
    before: Map<Seq<char>, crate::agents::AgentView>,
    after: Map<Seq<char>, crate::agents::AgentView>,
    id: Seq<char>,
    req: crate::models::UpdateAgentRequest,
)
    requires
        before.contains_key(id),
        after == before.insert(id, crate::endpoints::updated_agent(id, before[id], req)),
    ensures
        after.contains_key(id),
        after[id].agent_id == id,
        after[id].source == "custom"@,
        req.name matches Some(x) ==> after[id].name == x@,
        req.name is None ==> after[id].name == before[id].name,
        req.description matches Some(x) ==> after[id].description == x@,
        req.description is None ==> after[id].description == before[id].description,
        req.when_to_use matches Some(x) ==> after[id].when_to_use == x@,
        req.when_to_use is None ==> after[id].when_to_use == before[id].when_to_use,
        req.tools matches Some(x) ==> after[id].tools == crate::agents::texts(x@),
        req.tools is None ==> after[id].tools == before[id].tools,
        req.model matches Some(x) ==> after[id].model == x@,
        req.model is None ==> after[id].model == before[id].model,
        req.system_prompt matches Some(x) ==> after[id].system_prompt == x@,
        req.system_prompt is None ==> after[id].system_prompt == before[id].system_prompt,
        forall|k: Seq<char>| k != id ==> (#[trigger] after.contains_key(k) == before.contains_key(k))
            && (before.contains_key(k) ==> after[k] == before[k]),
{
}

/// A base whose path (after the scheme) names an API version `/v1`, `/v2`,
/// `/v3` or an API root `/api/`, and that does not already end with
/// `/chat/completions`, gets `/chat/completions` appended to it (without its
/// trailing slashes).
pub proof fn law_chat_url_keeps_named_version(base: Seq<char>, marker: Seq<char>, i: int)
    requires
        marker == "/v1"@ || marker == "/v2"@ || marker == "/v3"@ || marker == "/api/"@,
        occurs_at(crate::api::after_scheme(trim_trailing_slashes(base)), marker, i),
        !ends_with(trim_trailing_slashes(base), "/chat/completions"@),
    ensures
        chat_url(base) == trim_trailing_slashes(base) + "/chat/completions"@,
{
}

/// A base whose path names no API version or root, and that does not already
/// end with `/chat/completions`, gets `/v1/chat/completions` appended.
pub proof fn law_chat_url_adds_default_version(base: Seq<char>)
    requires
        forall|i: int| !occurs_at(crate::api::after_scheme(trim_trailing_slashes(base)), "/v1"@, i),
        forall|i: int| !occurs_at(crate::api::after_scheme(trim_trailing_slashes(base)), "/v2"@, i),
        forall|i: int| !occurs_at(crate::api::after_scheme(trim_trailing_slashes(base)), "/v3"@, i),
        forall|i: int| !occurs_at(crate::api::after_scheme(trim_trailing_slashes(base)), "/api/"@, i),
        !ends_with(trim_trailing_slashes(base), "/chat/completions"@),
    ensures
        chat_url(base) == trim_trailing_slashes(base) + "/v1/chat/completions"@,
{
}

} // verus!

verus! {

/// At the same place and size, a system message outranks a user message, and a
/// user message outranks an assistant message.
pub proof fn law_score_role_order(s: ContextEntry, u: ContextEntry, a: ContextEntry, i: int, total: int)
    requires
        s.role@ == "system"@,
        u.role@ == "user"@,
        a.role@ == "assistant"@,
        s.token_count == u.token_count,
        u.token_count == a.token_count,
        0 <= i < total,
    ensures
        crate::history_snip::score_key(s, i, total) > crate::history_snip::score_key(u, i, total),
        crate::history_snip::score_key(u, i, total) > crate::history_snip::score_key(a, i, total),
{
    reveal_strlit("system");
    reveal_strlit("user");
    reveal_strlit("assistant");
    assert("system"@ != "user"@ && "system"@ != "assistant"@ && "user"@ != "assistant"@) by {
        assert("system"@.len() != "user"@.len());
        assert("system"@.len() != "assistant"@.len());
        assert("user"@.len() != "assistant"@.len());
    }
    if total > 1 {
        assert(crate::history_snip::base_score(s) >= 99);
        assert(crate::history_snip::base_score(u) >= 3);
        assert(crate::history_snip::base_score(a) <= 3);
        let bs = crate::history_snip::base_score(s);
        let bu = crate::history_snip::base_score(u);
        let ba = crate::history_snip::base_score(a);
        let m = total - 1;
        assert(bs * m > bu * m) by (nonlinear_arith)
            requires
                bs > bu,
                m > 0;
        assert(bu * m > ba * m) by (nonlinear_arith)
            requires
                bu > ba,
                m > 0;
    }
}

/// The user line of a segment summary: `• 用户: ` and the first 120 characters.
pub open spec fn segment_user_line(e: ContextEntry) -> Seq<char> {
    "• 用户: "@ + crate::text::take_chars(e.content@, 120)
}

/// The assistant line of a segment summary: `• 助手: ` and the first 80
/// characters of the first sentence.
pub open spec fn segment_assistant_line(e: ContextEntry) -> Seq<char> {
    "• 助手: "@ + crate::text::take_chars(
        crate::text::split_any(e.content@, crate::history_snip::sentence_seps())[0], 80)
}

proof fn lemma_segment_users_filtered(es: Seq<ContextEntry>)
    ensures
        crate::history_snip::segment_users(es)
            == es.filter(|e: ContextEntry| e.role@ == "user"@).map_values(|e: ContextEntry| segment_user_line(e)),
    decreases es.len(),
{
    reveal(Seq::filter);
    let p = |e: ContextEntry| e.role@ == "user"@;
    let f = |e: ContextEntry| segment_user_line(e);
    if es.len() > 0 {
        lemma_segment_users_filtered(es.drop_last());
        let sub = es.drop_last().filter(p);
        assert(es.filter(p) == if p(es.last()) { sub.push(es.last()) } else { sub });
        if p(es.last()) {
            assert(sub.push(es.last()).map_values(f) =~= sub.map_values(f).push(f(es.last())));
        }
    } else {
        assert(es.filter(p).map_values(f) =~= Seq::<Seq<char>>::empty());
    }
}

proof fn lemma_segment_assistants_filtered(es: Seq<ContextEntry>)
    ensures
        crate::history_snip::segment_assistants(es)
            == es.filter(|e: ContextEntry| e.role@ == "assistant"@).map_values(|e: ContextEntry| segment_assistant_line(e)),
    decreases es.len(),
{
    reveal(Seq::filter);
    let p = |e: ContextEntry| e.role@ == "assistant"@;
    let f = |e: ContextEntry| segment_assistant_line(e);
    if es.len() > 0 {
        lemma_segment_assistants_filtered(es.drop_last());
        let sub = es.drop_last().filter(p);
        assert(es.filter(p) == if p(es.last()) { sub.push(es.last()) } else { sub });
        if p(es.last()) {
            assert(sub.push(es.last()).map_values(f) =~= sub.map_values(f).push(f(es.last())));
        }
    } else {
        assert(es.filter(p).map_values(f) =~= Seq::<Seq<char>>::empty());
    }
}

/// A segment summary is its heading, the user line of every user message in
/// order (each ended by a newline), then the assistant line of every assistant
/// message in order, joined by newlines.
pub proof fn law_segment_summary_lists_messages(es: Seq<ContextEntry>)
    ensures
        ({
            let us = es.filter(|e: ContextEntry| e.role@ == "user"@).map_values(|e: ContextEntry| segment_user_line(e));
            let asst = es.filter(|e: ContextEntry| e.role@ == "assistant"@)
                .map_values(|e: ContextEntry| segment_assistant_line(e));
            crate::history_snip::segment_summary(es) == "[历史对话摘要]\n"@
                + (if us.len() > 0 { crate::history_snip::join_lines(us) + seq!['\n'] } else { Seq::empty() })
                + (if asst.len() > 0 { crate::history_snip::join_lines(asst) } else { Seq::empty() })
        }),
{
    lemma_segment_users_filtered(es);
    lemma_segment_assistants_filtered(es);
}

} // verus!

verus! {

/// A long assistant message keeps its first three fifths and its last two
/// fifths of `max` characters, at its start and its end; a message of at most
/// `max` characters is kept whole.
pub proof fn law_truncated_message_keeps_both_ends(max: nat, s: Seq<char>)
    ensures
        s.len() <= max ==> crate::compact::truncate_assistant(max, s) == s,
        s.len() > max ==> {
            let r = crate::compact::truncate_assistant(max, s);
            let ks = (3 * max) / 5;
            let ke = (2 * max) / 5;
            &&& r.len() >= ks + ke
            &&& r.take(ks as int) == s.take(ks as int)
            &&& r.skip(r.len() - ke) == s.skip(s.len() - ke)
        },
{
    if s.len() > max {
        let ks = (3 * max) / 5;
        let ke = (2 * max) / 5;
        let mid = "\n\n... [省略 "@ + crate::text::decimal((s.len() - ks - ke) as nat) + " 字符] ...\n\n"@;
        let r = crate::compact::truncate_assistant(max, s);
        assert(ks + ke <= max);
        assert(r == s.take(ks as int) + mid + s.skip(s.len() - ke));
        assert(r.take(ks as int) =~= s.take(ks as int));
        assert(r.skip(r.len() - ke) =~= s.skip(s.len() - ke));
    }
}

proof fn lemma_memory_sentence_lengths(kws: Seq<Seq<char>>, pieces: Seq<Seq<char>>)
    ensures
        forall|k: int| 0 <= k < crate::compact::memory_sentences(kws, pieces).len() ==>
            10 <= (#[trigger] crate::compact::memory_sentences(kws, pieces)[k]).len() <= 200,
    decreases pieces.len(),
{
    if pieces.len() > 0 {
        lemma_memory_sentence_lengths(kws, pieces.drop_last());
        let prev = crate::compact::memory_sentences(kws, pieces.drop_last());
        let t = crate::text::trim(pieces.last());
        let ms = crate::compact::memory_sentences(kws, pieces);
        if !(t.len() == 0 || t.len() < 10) && crate::compact::has_keyword(kws, crate::text::lowercase(t)) {
            assert(ms == prev.push(crate::text::take_chars(t, 200)));
            assert forall|k: int| 0 <= k < ms.len() implies 10 <= (#[trigger] ms[k]).len() <= 200 by {
                if k < prev.len() {
                    assert(ms[k] == prev[k]);
                }
            }
        } else {
            assert(ms == prev);
        }
    }
}

/// Each memory that level 3 extracts from a message is 10 to 200 characters
/// long, and a message without a keyword gives none.
pub proof fn law_memories_are_ten_to_two_hundred_chars(kws: Seq<Seq<char>>, content: Seq<char>)
    ensures
        forall|k: int| 0 <= k < crate::compact::extract_memories(kws, content).len() ==>
            10 <= (#[trigger] crate::compact::extract_memories(kws, content)[k]).len() <= 200,
        !crate::compact::has_keyword(kws, crate::text::lowercase(content))
            ==> crate::compact::extract_memories(kws, content).len() == 0,
{
    lemma_memory_sentence_lengths(kws, crate::text::split_any(content, crate::compact::memory_seps()));
}

} // verus!
