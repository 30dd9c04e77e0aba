//! Context entries: one message of a conversation, with its token estimate.

use vstd::prelude::*;
use crate::text::{chars_of, is_ws, is_ws_exec};
use crate::ids::{new_id, now_micros};

verus! {

/// How strongly an entry resists eviction.
#[derive(Debug, Clone, Copy, PartialEq, Eq, Structural)]
pub enum ContextPriority {
    Low,
    Normal,
    High,
    Critical,
}

/// Where an entry came from.
#[derive(Debug, Clone, Copy, PartialEq, Eq, Structural)]
pub enum ContextSource {
    Conversation,
    Memory,
}

/// One message of a conversation history.
#[derive(Debug)]
pub struct ContextEntry {
    pub id: String,
    pub role: String,
    pub content: String,
    pub token_count: usize,
    pub priority: ContextPriority,
    pub source: ContextSource,
    /// Creation time, in microseconds since the Unix epoch.
    pub timestamp: i64,
}

/// Characters counted one token each: CJK ideographs, kana, hangul and full-width forms.
pub open spec fn is_cjk(c: char) -> bool {
    let u = c as u32;
    (0x4E00 <= u <= 0x9FFF) || (0x3400 <= u <= 0x4DBF) || (0x3000 <= u <= 0x30FF) || (0xAC00
        <= u <= 0xD7AF) || (0xF900 <= u <= 0xFAFF) || (0xFF00 <= u <= 0xFFEF)
}

pub fn is_cjk_exec(c: char) -> (b: bool)
    ensures
        b == is_cjk(c),
{
    let u = c as u32;
    (0x4E00 <= u && u <= 0x9FFF) || (0x3400 <= u && u <= 0x4DBF) || (0x3000 <= u && u <= 0x30FF)
        || (0xAC00 <= u && u <= 0xD7AF) || (0xF900 <= u && u <= 0xFAFF) || (0xFF00 <= u && u
        <= 0xFFEF)
}

/// Characters that belong to words: neither whitespace nor CJK.
pub open spec fn is_word_char(c: char) -> bool {
    !is_ws(c) && !is_cjk(c)
}

/// Number of CJK characters in `s`.
pub open spec fn cjk_count(s: Seq<char>) -> nat
    decreases s.len(),
{
    if s.len() == 0 {
        0
    } else {
        cjk_count(s.drop_last()) + if is_cjk(s.last()) {
            1nat
        } else {
            0nat
        }
    }
}

/// Number of words in `s`: maximal runs of word characters.
pub open spec fn word_count(s: Seq<char>) -> nat
    decreases s.len(),
{
    if s.len() == 0 {
        0
    } else {
        word_count(s.drop_last()) + if is_word_char(s.last()) && (s.len() == 1 || !is_word_char(
            s[s.len() - 2],
        )) {
            1nat
        } else {
            0nat
        }
    }
}

/// Estimated token count of a text: one token per CJK character, four tokens per
/// three words (rounded up), and at least one token for any non-empty text.
pub open spec fn estimate_tokens(s: Seq<char>) -> nat {
    if s.len() == 0 {
        0
    } else {
        let t = cjk_count(s) + (4 * word_count(s) + 2) / 3;
        if t == 0 {
            1
        } else {
            t
        }
    }
}

/// `n`, capped at `usize::MAX`.
pub open spec fn cap(n: nat) -> nat {
    if n <= usize::MAX {
        n
    } else {
        usize::MAX as nat
    }
}

/// The token count stored for a text.
pub open spec fn token_count_of(s: Seq<char>) -> nat {
    cap(estimate_tokens(s))
}

proof fn lemma_counts_bounded(s: Seq<char>)
    ensures
        cjk_count(s) <= s.len(),
        word_count(s) <= s.len(),
    decreases s.len(),
{
    if s.len() > 0 {
        lemma_counts_bounded(s.drop_last());
    }
}

/// Estimates the tokens of a text (see `estimate_tokens`).
pub fn estimate_tokens_exec(s: &str) -> (n: usize)
    ensures
        n == token_count_of(s@),
{
    let cs = chars_of(s);
    let mut cjk: u128 = 0;
    let mut words: u128 = 0;
    let mut prev_word = false;
    let mut i: usize = 0;
    while i < cs.len()
        invariant
            i <= cs.len(),
            cjk == cjk_count(cs@.take(i as int)),
            words == word_count(cs@.take(i as int)),
            prev_word == (i > 0 && is_word_char(cs@[i - 1])),
        decreases cs.len() - i,
    {
        let c = cs[i];
        let w = !is_ws_exec(c) && !is_cjk_exec(c);
        assert(cs@.take(i + 1).drop_last() =~= cs@.take(i as int));
        proof {
            lemma_counts_bounded(cs@.take(i as int));
        }
        if is_cjk_exec(c) {
            cjk = cjk + 1;
        }
        if w && !prev_word {
            words = words + 1;
        }
        prev_word = w;
        i += 1;
    }
    assert(cs@.take(cs@.len() as int) =~= cs@);
    proof {
        lemma_counts_bounded(cs@);
    }
    if cs.len() == 0 {
        return 0;
    }
    let t = cjk + (4 * words + 2) / 3;
    let t = if t == 0 {
        1
    } else {
        t
    };
    if t > usize::MAX as u128 {
        usize::MAX
    } else {
        t as usize
    }
}

/// Sum of the token counts of `es`.
pub open spec fn token_total(es: Seq<ContextEntry>) -> nat
    decreases es.len(),
{
    if es.len() == 0 {
        0
    } else {
        token_total(es.drop_last()) + es.last().token_count as nat
    }
}

pub proof fn lemma_token_total_concat(a: Seq<ContextEntry>, b: Seq<ContextEntry>)
    ensures
        token_total(a + b) == token_total(a) + token_total(b),
    decreases b.len(),
{
    if b.len() == 0 {
        assert(a + b =~= a);
    } else {
        lemma_token_total_concat(a, b.drop_last());
        assert((a + b).drop_last() =~= a + b.drop_last());
    }
}

pub proof fn lemma_token_total_bound(es: Seq<ContextEntry>)
    ensures
        token_total(es) <= es.len() * (usize::MAX as nat),
    decreases es.len(),
{
    if es.len() > 0 {
        lemma_token_total_bound(es.drop_last());
        assert(token_total(es) <= (es.len() - 1) * (usize::MAX as nat) + usize::MAX) ;
        assert((es.len() - 1) * (usize::MAX as nat) + usize::MAX == es.len() * (usize::MAX as nat))
            by (nonlinear_arith);
    }
}

/// Sum of the token counts of `es`, exactly.
pub fn token_total_exec(es: &[ContextEntry]) -> (n: u128)
    ensures
        n == token_total(es@),
{
    let mut n: u128 = 0;
    let mut i: usize = 0;
    while i < es.len()
        invariant
            i <= es.len(),
            n == token_total(es@.take(i as int)),
        decreases es.len() - i,
    {
        assert(es@.take(i + 1).drop_last() =~= es@.take(i as int));
        proof {
            lemma_token_total_bound(es@.take(i + 1));
            assert((i + 1) * (usize::MAX as nat) <= (usize::MAX as nat) * (usize::MAX as nat))
                by (nonlinear_arith)
                requires
                    i + 1 <= usize::MAX,
            ;
            assert((usize::MAX as nat) * (usize::MAX as nat) <= u128::MAX) by (nonlinear_arith);
        }
        n = n + es[i].token_count as u128;
        i += 1;
    }
    assert(es@.take(es@.len() as int) =~= es@);
    n
}

/// The priority a fresh entry gets from its role: system messages are critical.
pub open spec fn default_priority(role: Seq<char>) -> ContextPriority {
    if role == "system"@ {
        ContextPriority::Critical
    } else {
        ContextPriority::Normal
    }
}

impl ContextEntry {
    /// A fresh entry for `content` with the given identity.
    pub open spec fn fresh(self, role: Seq<char>, content: Seq<char>) -> bool {
        &&& self.role@ == role
        &&& self.content@ == content
        &&& self.token_count == token_count_of(content)
        &&& self.priority == default_priority(role)
        &&& self.source == ContextSource::Conversation
    }

    /// An entry with the given identity and creation time.
    pub fn with_identity(role: &str, content: &str, id: String, timestamp: i64) -> (e: Self)
        ensures
            e.fresh(role@, content@),
            e.id == id,
            e.timestamp == timestamp,
    {
        let role_s = role.to_owned();
        let is_system = role_s == String::from_str("system");
        let priority = if is_system {
            ContextPriority::Critical
        } else {
            ContextPriority::Normal
        };
        proof {
            reveal_strlit("system");
        }
        ContextEntry {
            id,
            role: role_s,
            content: content.to_owned(),
            token_count: estimate_tokens_exec(content),
            priority,
            source: ContextSource::Conversation,
            timestamp,
        }
    }

    /// A new entry with a random id, stamped with the current time.
    pub fn new(role: &str, content: &str) -> (e: Self)
        ensures
            e.fresh(role@, content@),
    {
        let id = new_id();
        let t = now_micros();
        Self::with_identity(role, content, id, t)
    }

    /// A field-by-field copy.
    pub fn duplicate(&self) -> (e: Self)
        ensures
            e == *self,
    {
        ContextEntry {
            id: self.id.clone(),
            role: self.role.clone(),
            content: self.content.clone(),
            token_count: self.token_count,
            priority: self.priority,
            source: self.source,
            timestamp: self.timestamp,
        }
    }
}

/// Copies every entry of `es`.
pub fn copy_entries(es: &[ContextEntry]) -> (r: Vec<ContextEntry>)
    ensures
        r@ == es@,
{
    let mut r: Vec<ContextEntry> = Vec::new();
    let mut i: usize = 0;
    while i < es.len()
        invariant
            i <= es.len(),
            r@ == es@.take(i as int),
        decreases es.len() - i,
    {
        r.push(es[i].duplicate());
        assert(es@.take(i + 1) =~= es@.take(i as int).push(es@[i as int]));
        i += 1;
    }
    assert(es@.take(es@.len() as int) =~= es@);
    r
}

} // verus!
