//! The context window of a session: the entries of its conversation within a
//! token budget. When the entries exceed the window less its reserve, entries
//! are evicted lowest priority first, oldest first among equals; critical
//! entries (system messages) are never evicted.

use vstd::prelude::*;
use crate::history_snip::{HistorySnipConfig, HistorySnipManager, SnipStrategy, SnipStats};
use crate::context::{ContextEntry, ContextPriority, token_total, token_total_exec, copy_entries};

verus! {

/// The position of the first entry with priority `p`.
pub open spec fn first_index(es: Seq<ContextEntry>, p: ContextPriority) -> Option<int>
    decreases es.len(),
{
    if es.len() == 0 {
        None
    } else {
        match first_index(es.drop_last(), p) {
            Some(i) => Some(i),
            None => if es.last().priority == p {
                Some(es.len() - 1)
            } else {
                None
            },
        }
    }
}

/// The entry evicted next: the oldest low-priority entry, else the oldest
/// normal one, else the oldest high one; never a critical one.
pub open spec fn victim(es: Seq<ContextEntry>) -> Option<int> {
    match first_index(es, ContextPriority::Low) {
        Some(i) => Some(i),
        None => match first_index(es, ContextPriority::Normal) {
            Some(i) => Some(i),
            None => first_index(es, ContextPriority::High),
        },
    }
}

/// Evicts entries (see `victim`) until the total fits `budget` or only
/// critical entries are left.
pub open spec fn evict(es: Seq<ContextEntry>, budget: nat) -> Seq<ContextEntry>
    decreases es.len(),
{
    if token_total(es) <= budget {
        es
    } else {
        match victim(es) {
            Some(i) => if 0 <= i < es.len() {
                evict(es.remove(i), budget)
            } else {
                es
            },
            None => es,
        }
    }
}

/// What `first_index` finds: an entry with priority `p` and none before it,
/// or no such entry at all.
pub proof fn lemma_first_index(es: Seq<ContextEntry>, p: ContextPriority)
    ensures
        first_index(es, p) matches Some(i) ==> 0 <= i < es.len() && es[i].priority == p
            && forall|j: int| 0 <= j < i ==> #[trigger] es[j].priority != p,
        first_index(es, p) is None ==> forall|j: int| 0 <= j < es.len() ==> #[trigger] es[j].priority != p,
    decreases es.len(),
{
    if es.len() > 0 {
        let d = es.drop_last();
        lemma_first_index(d, p);
        match first_index(d, p) {
            Some(i) => {
                assert forall|j: int| 0 <= j < i implies #[trigger] es[j].priority != p by {
                    assert(es[j] == d[j]);
                }
                assert(es[i] == d[i]);
            },
            None => {
                assert forall|j: int| 0 <= j < es.len() - 1 implies #[trigger] es[j].priority != p by {
                    assert(es[j] == d[j]);
                }
            },
        }
    }
}

/// The victim is a non-critical entry, and there is one as long as any entry
/// is not critical.
pub proof fn lemma_victim(es: Seq<ContextEntry>)
    ensures
        victim(es) matches Some(i) ==> 0 <= i < es.len() && es[i].priority != ContextPriority::Critical,
        victim(es) is None ==> forall|j: int| 0 <= j < es.len() ==> es[j].priority == ContextPriority::Critical,
{
    lemma_first_index(es, ContextPriority::Low);
    lemma_first_index(es, ContextPriority::Normal);
    lemma_first_index(es, ContextPriority::High);
}

/// After eviction the entries fit the budget, or every one left is critical.
pub proof fn lemma_evict_fits(es: Seq<ContextEntry>, budget: nat)
    ensures
        token_total(evict(es, budget)) <= budget
            || forall|j: int| 0 <= j < evict(es, budget).len() ==> #[trigger] evict(es, budget)[j].priority
                == ContextPriority::Critical,
    decreases es.len(),
{
    lemma_victim(es);
    if token_total(es) > budget {
        if let Some(i) = victim(es) {
            lemma_evict_fits(es.remove(i), budget);
        }
    }
}

/// Eviction never removes a critical entry.
pub proof fn lemma_evict_keeps_critical(es: Seq<ContextEntry>, budget: nat, k: int)
    requires
        0 <= k < es.len(),
        es[k].priority == ContextPriority::Critical,
    ensures
        evict(es, budget).contains(es[k]),
    decreases es.len(),
{
    lemma_victim(es);
    if token_total(es) <= budget {
        assert(es[k] == evict(es, budget)[k]);
    } else {
        match victim(es) {
            Some(i) => {
                let t = es.remove(i);
                let k2 = if k < i { k } else { k - 1 };
                assert(i != k);
                assert(t[k2] == es[k]);
                lemma_evict_keeps_critical(t, budget, k2);
            },
            None => {
                assert(es[k] == evict(es, budget)[k]);
            },
        }
    }
}

/// Eviction keeps the entries within the budget untouched.
pub proof fn lemma_evict_within_budget(es: Seq<ContextEntry>, budget: nat)
    requires
        token_total(es) <= budget,
    ensures
        evict(es, budget) == es,
{
}

/// The number of entries kept, the tokens they hold, and the window's size.
#[derive(Debug, Clone, Copy)]
pub struct ContextStats {
    pub total_entries: usize,
    pub total_tokens: u128,
    pub max_tokens: usize,
}

/// A session's conversation within a token window.
pub struct ContextManager {
    entries: Vec<ContextEntry>,
    max_tokens: usize,
    reserved_tokens: usize,
}

fn first_index_exec(es: &Vec<ContextEntry>, p: ContextPriority) -> (r: Option<usize>)
    ensures
        match first_index(es@, p) {
            Some(i) => r is Some && r->0 == i,
            None => r is None,
        },
{
    let mut i: usize = 0;
    while i < es.len()
        invariant
            i <= es.len(),
            forall|j: int| 0 <= j < i ==> #[trigger] es@[j].priority != p,
        decreases es.len() - i,
    {
        if es[i].priority == p {
            proof {
                lemma_first_index(es@, p);
                if let Some(f) = first_index(es@, p) {
                    if f < i {
                        assert(es@[f].priority != p);
                    } else if f > i {
                        assert(es@[i as int].priority != p);
                    }
                }
            }
            return Some(i);
        }
        i += 1;
    }
    proof {
        lemma_first_index(es@, p);
    }
    None
}

fn victim_exec(es: &Vec<ContextEntry>) -> (r: Option<usize>)
    ensures
        match victim(es@) {
            Some(i) => r is Some && r->0 == i,
            None => r is None,
        },
{
    match first_index_exec(es, ContextPriority::Low) {
        Some(i) => Some(i),
        None => match first_index_exec(es, ContextPriority::Normal) {
            Some(i) => Some(i),
            None => first_index_exec(es, ContextPriority::High),
        },
    }
}

impl ContextManager {
    #[verifier::type_invariant]
    spec fn wf(self) -> bool {
        self.reserved_tokens == self.max_tokens / 10
    }

    /// The entries, oldest first.
    pub closed spec fn entries(self) -> Seq<ContextEntry> {
        self.entries@
    }

    /// The size of the window, in tokens.
    pub closed spec fn max_tokens(self) -> nat {
        self.max_tokens as nat
    }

    /// The tokens the entries may hold: the window less its reserve of a tenth.
    pub closed spec fn budget(self) -> nat {
        (self.max_tokens - self.reserved_tokens) as nat
    }

    /// An empty window of `max_tokens`, a tenth of it held in reserve.
    pub fn with_max_tokens(max_tokens: usize) -> (m: Self)
        ensures
            m.entries() == Seq::<ContextEntry>::empty(),
            m.max_tokens() == max_tokens,
            m.budget() == max_tokens - max_tokens / 10,
    {
        ContextManager { entries: Vec::new(), max_tokens, reserved_tokens: max_tokens / 10 }
    }

    /// An empty window of 128,000 tokens.
    pub fn new() -> (m: Self)
        ensures
            m.entries() == Seq::<ContextEntry>::empty(),
            m.max_tokens() == 128000,
            m.budget() == 115200,
    {
        Self::with_max_tokens(128000)
    }

    /// Adds an entry, then evicts until the entries fit (see `evict`).
    pub fn add_entry(&mut self, entry: ContextEntry)
        ensures
            final(self).entries() == evict(old(self).entries().push(entry), old(self).budget()),
            final(self).max_tokens() == old(self).max_tokens(),
            final(self).budget() == old(self).budget(),
    {
        proof {
            use_type_invariant(&*self);
        }
        let ghost budget = self.budget();
        let limit: usize = self.max_tokens - self.reserved_tokens;
        let mut es: Vec<ContextEntry> = Vec::new();
        std::mem::swap(&mut es, &mut self.entries);
        es.push(entry);
        let ghost start = es@;
        let mut done = false;
        while !done
            invariant
                budget == limit as nat,
                !done ==> evict(es@, budget) == evict(start, budget),
                done ==> es@ == evict(start, budget),
            decreases (if done { 0 } else { es@.len() + 1 }),
        {
            let total = token_total_exec(es.as_slice());
            if total <= limit as u128 {
                done = true;
            } else {
                match victim_exec(&es) {
                    Some(i) => {
                        proof {
                            lemma_victim(es@);
                        }
                        es.remove(i);
                    },
                    None => {
                        done = true;
                    },
                }
            }
        }
        self.entries = es;
    }

    /// Adds a message from the user.
    pub fn add_user(&mut self, content: &str)
        ensures
            exists|e: ContextEntry| #[trigger] e.fresh("user"@, content@)
                && final(self).entries() == evict(old(self).entries().push(e), old(self).budget()),
            final(self).max_tokens() == old(self).max_tokens(),
            final(self).budget() == old(self).budget(),
    {
        let e = ContextEntry::new("user", content);
        let ghost ge = e;
        self.add_entry(e);
        assert(ge.fresh("user"@, content@));
    }

    /// Adds a reply of the assistant.
    pub fn add_assistant(&mut self, content: &str)
        ensures
            exists|e: ContextEntry| #[trigger] e.fresh("assistant"@, content@)
                && final(self).entries() == evict(old(self).entries().push(e), old(self).budget()),
            final(self).max_tokens() == old(self).max_tokens(),
            final(self).budget() == old(self).budget(),
    {
        let e = ContextEntry::new("assistant", content);
        let ghost ge = e;
        self.add_entry(e);
        assert(ge.fresh("assistant"@, content@));
    }

    /// Adds a system message, which is never evicted.
    pub fn add_system(&mut self, content: &str)
        ensures
            exists|e: ContextEntry| #[trigger] e.fresh("system"@, content@)
                && final(self).entries() == evict(old(self).entries().push(e), old(self).budget()),
            final(self).max_tokens() == old(self).max_tokens(),
            final(self).budget() == old(self).budget(),
    {
        let e = ContextEntry::new("system", content);
        let ghost ge = e;
        self.add_entry(e);
        assert(ge.fresh("system"@, content@));
    }

    /// The entries, oldest first.
    pub fn get_entries(&self) -> (r: Vec<ContextEntry>)
        ensures
            r@ == self.entries(),
    {
        copy_entries(self.entries.as_slice())
    }

    /// The number of entries, the tokens they hold, and the window's size.
    pub fn stats(&self) -> (s: ContextStats)
        ensures
            s.total_entries == self.entries().len(),
            s.total_tokens == token_total(self.entries()),
            s.max_tokens == self.max_tokens(),
    {
        ContextStats {
            total_entries: self.entries.len(),
            total_tokens: token_total_exec(self.entries.as_slice()),
            max_tokens: self.max_tokens,
        }
    }

    /// Removes every entry.
    pub fn clear(&mut self)
        ensures
            final(self).entries() == Seq::<ContextEntry>::empty(),
            final(self).max_tokens() == old(self).max_tokens(),
            final(self).budget() == old(self).budget(),
    {
        proof {
            use_type_invariant(&*self);
        }
        self.entries = Vec::new();
    }
}

/// The history of one chat session: its context window and the manager
/// that snips it before each model call.
pub struct SessionContext {
    pub context_mgr: ContextManager,
    pub snip_mgr: HistorySnipManager,
}

impl SessionContext {
    /// A new session: an empty window of 128,000 tokens, and snipping enabled
    /// with the default configuration.
    pub fn new() -> (s: Self)
        ensures
            s.context_mgr.entries() == Seq::<ContextEntry>::empty(),
            s.context_mgr.max_tokens() == 128000,
            s.snip_mgr.cfg().enabled,
            s.snip_mgr.cfg().max_tokens == 100_000,
            s.snip_mgr.cfg().strategy == SnipStrategy::Hybrid,
            s.snip_mgr.cfg().keep_recent_count == 10,
            s.snip_mgr.cfg().segment_size == 6,
            s.snip_mgr.cfg().system_prompt_reserve == 4000,
            s.snip_mgr.segs().len() == 0,
            s.snip_mgr.counters() == (SnipStats {
                total_snips: 0,
                total_messages_compressed: 0,
                total_tokens_saved: 0,
                segments_created: 0,
                current_strategy: SnipStrategy::Hybrid,
                is_enabled: true,
            }),
    {
        let mut config = HistorySnipConfig::default();
        config.enabled = true;
        SessionContext { context_mgr: ContextManager::with_max_tokens(128000), snip_mgr: HistorySnipManager::new(config) }
    }
}

} // verus!
