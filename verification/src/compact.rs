//! Three-tier compaction of a conversation history.
//!
//! Level 1 (micro) trims every message: runs of blank lines and of spaces are
//! collapsed, long assistant replies keep their beginning and end, and long code
//! blocks are cut. Level 2 (session) replaces all but the most recent messages by
//! batch summaries once the history exceeds a token threshold. Level 3 (memory)
//! extracts keyword sentences into one memory block and keeps only the most
//! recent messages once a second threshold is exceeded.

use vstd::prelude::*;
use crate::context::{
    ContextEntry, ContextPriority, ContextSource, token_count_of, token_total, token_total_exec,
    copy_entries,
};
use crate::text::{
    chars_of, string_of, push_all, push_str, prefix, slice_chars, take_chars, take_chars_exec,
    lines, lines_exec, views, collapse, collapse_exec, utf8_len, utf8_len_exec, decimal,
    decimal_exec, starts_with, occurs_at_exec, trim_end, trim_end_len, str_eq, trim_exec, trim,
    contains_seq, contains_exec, lowercase, lowercase_chars, split_any, split_any_exec,
};

verus! {

/// Configuration of the three-tier compaction.
#[derive(Debug)]
pub struct CompactConfig {
    /// Enable level 1 (micro).
    pub enable_microcompact: bool,
    /// Enable level 2 (session).
    pub enable_session_compact: bool,
    /// Enable level 3 (memory).
    pub enable_memory_compact: bool,
    /// Length in characters above which an assistant message is cut (level 1).
    pub micro_max_assistant_chars: usize,
    /// Length in characters above which a code block is cut (level 1).
    pub micro_max_code_block_chars: usize,
    /// Number of recent messages kept intact (levels 2 and 3).
    pub session_keep_recent: usize,
    /// Messages per summary batch (level 2).
    pub session_batch_size: usize,
    /// Keywords that mark memory-worthy sentences (level 3).
    pub memory_keywords: Vec<String>,
    /// Token total above which level 2 runs.
    pub session_compact_threshold: usize,
    /// Token total above which level 3 runs.
    pub memory_compact_threshold: usize,
}

/// The views of a list of strings.
pub open spec fn string_views(v: Seq<String>) -> Seq<Seq<char>> {
    v.map_values(|s: String| s@)
}

/// Copies a list of strings.
pub fn copy_strings(v: &Vec<String>) -> (r: Vec<String>)
    ensures
        r@ == v@,
{
    let mut r: Vec<String> = Vec::new();
    let mut i: usize = 0;
    while i < v.len()
        invariant
            i <= v.len(),
            r@ == v@.take(i as int),
        decreases v.len() - i,
    {
        r.push(v[i].clone());
        assert(v@.take(i + 1) =~= v@.take(i as int).push(v@[i as int]));
        i += 1;
    }
    assert(v@.take(v@.len() as int) =~= v@);
    r
}

impl Default for CompactConfig {
    fn default() -> (c: Self)
        ensures
            c.enable_microcompact && c.enable_session_compact && c.enable_memory_compact,
            c.micro_max_assistant_chars == 2000,
            c.micro_max_code_block_chars == 800,
            c.session_keep_recent == 10,
            c.session_batch_size == 6,
            c.session_compact_threshold == 50_000,
            c.memory_compact_threshold == 80_000,
            string_views(c.memory_keywords@) == seq![
                "important"@, "key"@, "remember"@, "注意"@, "重要"@, "记住"@, "关键"@, "决定"@,
                "结论"@, "TODO"@,
            ],
    {
        let mut kws: Vec<String> = Vec::new();
        kws.push(String::from_str("important"));
        kws.push(String::from_str("key"));
        kws.push(String::from_str("remember"));
        kws.push(String::from_str("注意"));
        kws.push(String::from_str("重要"));
        kws.push(String::from_str("记住"));
        kws.push(String::from_str("关键"));
        kws.push(String::from_str("决定"));
        kws.push(String::from_str("结论"));
        kws.push(String::from_str("TODO"));
        let c = CompactConfig {
            enable_microcompact: true,
            enable_session_compact: true,
            enable_memory_compact: true,
            micro_max_assistant_chars: 2000,
            micro_max_code_block_chars: 800,
            session_keep_recent: 10,
            session_batch_size: 6,
            memory_keywords: kws,
            session_compact_threshold: 50_000,
            memory_compact_threshold: 80_000,
        };
        assert(string_views(c.memory_keywords@) =~= seq![
            "important"@, "key"@, "remember"@, "注意"@, "重要"@, "记住"@, "关键"@, "决定"@,
            "结论"@, "TODO"@,
        ]);
        c
    }
}

/// How far a compaction went.
#[derive(Debug, Clone, Copy, PartialEq, Eq, Structural)]
pub enum CompactLevel {
    NotApplied,
    Micro,
    Session,
    Memory,
}

// ===== Level 1 =====

/// A long assistant message cut to its first three fifths and last two fifths of
/// `max` characters, with a marker that counts the characters left out.
pub open spec fn truncate_assistant(max: nat, s: Seq<char>) -> Seq<char> {
    if s.len() <= max {
        s
    } else {
        let ks = (3 * max) / 5;
        let ke = (2 * max) / 5;
        s.take(ks as int) + "\n\n... [省略 "@ + decimal((s.len() - ks - ke) as nat) + " 字符] ...\n\n"@
            + s.skip(s.len() - ke)
    }
}

/// `floor(k * m / 5)` for `k < 5`, without overflow.
fn fifths(m: usize, k: usize) -> (r: usize)
    requires
        k < 5,
    ensures
        r == (k * m) / 5,
{
    let q = m / 5;
    let rem = m % 5;
    assert(q * k <= m && rem * k < 25) by (nonlinear_arith)
        requires
            q == m / 5,
            rem == m % 5,
            k < 5,
    ;
    assert(q * k + (rem * k) / 5 <= m) by (nonlinear_arith)
        requires
            q == m / 5,
            rem == m % 5,
            k < 5,
    ;
    let r = q * k + (rem * k) / 5;
    assert(r == (k * m) / 5) by (nonlinear_arith)
        requires
            q == m / 5,
            rem == m % 5,
            r == q * k + (rem * k) / 5,
            k < 5,
    ;
    r
}

/// Cuts a long assistant message (see `truncate_assistant`).
pub fn truncate_assistant_message(max: usize, s: &Vec<char>) -> (r: Vec<char>)
    ensures
        r@ == truncate_assistant(max as nat, s@),
{
    if s.len() <= max {
        return prefix(s, s.len());
    }
    let ks = fifths(max, 3);
    let ke = fifths(max, 2);
    assert(ks + ke <= max) by (nonlinear_arith)
        requires
            ks == (3 * max) / 5,
            ke == (2 * max) / 5,
    ;
    let mut out = prefix(s, ks);
    push_str(&mut out, "\n\n... [省略 ");
    let omitted = decimal_exec((s.len() - ks - ke) as u128);
    push_all(&mut out, &omitted);
    push_str(&mut out, " 字符] ...\n\n");
    let tail = slice_chars(s, s.len() - ke, s.len());
    assert(s@.subrange(s@.len() - ke, s@.len() as int) =~= s@.skip(s@.len() - ke));
    push_all(&mut out, &tail);
    out
}

/// The fence that opens and closes a code block.
pub open spec fn fence() -> Seq<char> {
    "```"@
}

/// A finished code block as it is emitted: the header line, the body (cut to
/// `max` characters with a marker when it is longer than `max` characters) and a
/// closing fence.
pub open spec fn emit_block(max: nat, header: Seq<char>, body: Seq<char>) -> Seq<char> {
    header + seq!['\n'] + (if body.len() > max {
        take_chars(body, max) + "\n// ... [代码块已截断，省略 "@ + decimal((body.len() - max) as nat)
            + " 字符] ...\n"@
    } else {
        body
    }) + "```\n"@
}

/// State while scanning lines for code blocks: text emitted so far, whether a
/// block is open, the open block's body and its header line.
pub struct BlockScan {
    pub out: Seq<char>,
    pub in_block: bool,
    pub body: Seq<char>,
    pub header: Seq<char>,
}

/// One line of the code-block scan.
pub open spec fn block_step(max: nat, st: BlockScan, line: Seq<char>) -> BlockScan {
    if starts_with(line, fence()) && !st.in_block {
        BlockScan { out: st.out, in_block: true, body: Seq::empty(), header: line }
    } else if starts_with(line, fence()) && st.in_block {
        BlockScan {
            out: st.out + emit_block(max, st.header, st.body),
            in_block: false,
            body: st.body,
            header: st.header,
        }
    } else if st.in_block {
        BlockScan { out: st.out, in_block: true, body: st.body + line + seq!['\n'], header: st.header }
    } else {
        BlockScan { out: st.out + line + seq!['\n'], in_block: false, body: st.body, header: st.header }
    }
}

/// The scan over the first lines.
pub open spec fn block_scan(max: nat, ls: Seq<Seq<char>>) -> BlockScan
    decreases ls.len(),
{
    if ls.len() == 0 {
        BlockScan { out: Seq::empty(), in_block: false, body: Seq::empty(), header: Seq::empty() }
    } else {
        block_step(max, block_scan(max, ls.drop_last()), ls.last())
    }
}

/// A text with every code block longer than `max` characters cut; an unclosed block
/// is emitted as it stands, and trailing whitespace is removed.
pub open spec fn truncate_code(max: nat, s: Seq<char>) -> Seq<char> {
    let st = block_scan(max, lines(s));
    trim_end(
        if st.in_block {
            st.out + st.header + seq!['\n'] + st.body
        } else {
            st.out
        },
    )
}

/// Cuts long code blocks (see `truncate_code`).
pub fn truncate_code_blocks(max: usize, s: &Vec<char>) -> (r: Vec<char>)
    ensures
        r@ == truncate_code(max as nat, s@),
{
    let ls = lines_exec(s);
    let ghost lv = lines(s@);
    let mut fence_v: Vec<char> = Vec::new();
    push_str(&mut fence_v, "```");
    let mut out: Vec<char> = Vec::new();
    let mut in_block = false;
    let mut body: Vec<char> = Vec::new();
    let mut header: Vec<char> = Vec::new();
    let mut i: usize = 0;
    while i < ls.len()
        invariant
            i <= ls.len(),
            views(ls@) == lv,
            lv.len() == ls.len(),
            fence_v@ == fence(),
            block_scan(max as nat, lv.take(i as int)) == (BlockScan {
                out: out@,
                in_block,
                body: body@,
                header: header@,
            }),
        decreases ls.len() - i,
    {
        let line = &ls[i];
        assert(lv[i as int] == line@);
        assert(lv.take(i + 1).drop_last() =~= lv.take(i as int));
        let is_fence = occurs_at_exec(line, &fence_v, 0);
        let ghost st = BlockScan { out: out@, in_block, body: body@, header: header@ };
        let ghost next = block_step(max as nat, st, line@);
        if is_fence && !in_block {
            in_block = true;
            header = prefix(line, line.len());
            assert(line@.take(line@.len() as int) =~= line@);
            body = Vec::new();
        } else if is_fence && in_block {
            in_block = false;
            push_all(&mut out, &header);
            out.push('\n');
            let blen = body.len();
            if blen > max {
                let cut = take_chars_exec(&body, max);
                push_all(&mut out, &cut);
                push_str(&mut out, "\n// ... [代码块已截断，省略 ");
                let n = decimal_exec((blen - max) as u128);
                push_all(&mut out, &n);
                push_str(&mut out, " 字符] ...\n");
            } else {
                push_all(&mut out, &body);
            }
            push_str(&mut out, "```\n");
            assert(out@ =~= next.out);
        } else if in_block {
            push_all(&mut body, line);
            body.push('\n');
            assert(body@ =~= next.body);
        } else {
            push_all(&mut out, line);
            out.push('\n');
            assert(out@ =~= next.out);
        }
        i += 1;
    }
    assert(lv.take(lv.len() as int) =~= lv);
    let ghost fin = block_scan(max as nat, lv);
    if in_block {
        push_all(&mut out, &header);
        out.push('\n');
        push_all(&mut out, &body);
        assert(out@ =~= fin.out + fin.header + seq!['\n'] + fin.body);
    }
    let n = trim_end_len(&out, out.len());
    assert(out@.take(out@.len() as int) =~= out@);
    prefix(&out, n)
}

} // verus!

verus! {

/// Level 1 applied to the text of one message with the given role.
pub open spec fn micro_content(cfg: CompactConfig, role: Seq<char>, content: Seq<char>) -> Seq<char> {
    let r1 = collapse(content, "\n\n\n"@, "\n\n"@);
    let r2 = collapse(r1, "  "@, " "@);
    let r3 = if role == "assistant"@ && r2.len() > cfg.micro_max_assistant_chars {
        truncate_assistant(cfg.micro_max_assistant_chars as nat, r2)
    } else {
        r2
    };
    truncate_code(cfg.micro_max_code_block_chars as nat, r3)
}

/// `r` is what level 1 makes of `e`: `e` itself when the trimmed text has the same
/// byte length, else `e` with the trimmed text and its token count.
pub open spec fn micro_entry(cfg: CompactConfig, e: ContextEntry, r: ContextEntry) -> bool {
    let c = micro_content(cfg, e.role@, e.content@);
    if utf8_len(c) == utf8_len(e.content@) {
        r == e
    } else {
        &&& r.id == e.id
        &&& r.role == e.role
        &&& r.content@ == c
        &&& r.token_count == token_count_of(c)
        &&& r.priority == e.priority
        &&& r.source == e.source
        &&& r.timestamp == e.timestamp
    }
}

/// `out` is level 1 applied to every entry of `es`.
pub open spec fn micro_all(cfg: CompactConfig, es: Seq<ContextEntry>, out: Seq<ContextEntry>) -> bool {
    out.len() == es.len() && forall|i: int| 0 <= i < es.len() ==> micro_entry(cfg, es[i], #[trigger] out[i])
}

/// `r` is a summary entry: a system message with the given text, priority and source.
pub open spec fn summary_entry(r: ContextEntry, content: Seq<char>, priority: ContextPriority, source: ContextSource) -> bool {
    &&& r.role@ == "system"@
    &&& r.content@ == content
    &&& r.token_count == token_count_of(content)
    &&& r.priority == priority
    &&& r.source == source
}

/// Consecutive batches of `size` elements of `s`; the last may be shorter.
pub open spec fn batches<T>(s: Seq<T>, size: nat) -> Seq<Seq<T>>
    decreases s.len(),
{
    if s.len() == 0 || size == 0 {
        Seq::empty()
    } else if s.len() <= size {
        seq![s]
    } else {
        seq![s.take(size as int)] + batches(s.skip(size as int), size)
    }
}

/// Each text indented by two spaces and ended by a newline.
pub open spec fn indented(ls: Seq<Seq<char>>) -> Seq<char>
    decreases ls.len(),
{
    if ls.len() == 0 {
        Seq::empty()
    } else {
        indented(ls.drop_last()) + "  "@ + ls.last() + seq!['\n']
    }
}

/// The first line that is not blank and does not start with `#`.
pub open spec fn first_meaningful(ls: Seq<Seq<char>>) -> Option<Seq<char>>
    decreases ls.len(),
{
    if ls.len() == 0 {
        None
    } else if crate::text::trim(ls[0]).len() > 0 && !(ls[0].len() > 0 && ls[0][0] == '#') {
        Some(ls[0])
    } else {
        first_meaningful(ls.drop_first())
    }
}

/// Questions of a batch: `Q: ` and the first 100 characters of each user message.
pub open spec fn batch_topics(es: Seq<ContextEntry>) -> Seq<Seq<char>>
    decreases es.len(),
{
    if es.len() == 0 {
        Seq::empty()
    } else {
        let prev = batch_topics(es.drop_last());
        let e = es.last();
        if e.role@ == "user"@ {
            prev.push("Q: "@ + take_chars(e.content@, 100))
        } else {
            prev
        }
    }
}

/// Answers of a batch: `A: ` and the first 100 characters of the first meaningful
/// line of each assistant message (`(回复)` when there is none).
pub open spec fn batch_points(es: Seq<ContextEntry>) -> Seq<Seq<char>>
    decreases es.len(),
{
    if es.len() == 0 {
        Seq::empty()
    } else {
        let prev = batch_points(es.drop_last());
        let e = es.last();
        if e.role@ == "assistant"@ {
            let line = match first_meaningful(lines(e.content@)) {
                Some(l) => l,
                None => "(回复)"@,
            };
            prev.push("A: "@ + take_chars(line, 100))
        } else {
            prev
        }
    }
}

/// The summary text of one batch (level 2).
pub open spec fn session_summary(es: Seq<ContextEntry>) -> Seq<char> {
    let topics = batch_topics(es);
    let points = batch_points(es);
    "[会话历史摘要]\n"@ + (if topics.len() > 0 {
        "话题:\n"@ + indented(topics)
    } else {
        Seq::empty()
    }) + (if points.len() > 0 {
        "要点:\n"@ + indented(points)
    } else {
        Seq::empty()
    })
}

/// Number of recent entries kept: `keep`, or all when there are fewer.
pub open spec fn kept_count(keep: nat, n: nat) -> nat {
    if keep <= n {
        keep
    } else {
        n
    }
}

/// `out` is level 2 applied to `es`: the entries older than the most recent
/// `keep` are replaced, batch by batch, by low-priority summary entries.
pub open spec fn session_all(cfg: CompactConfig, es: Seq<ContextEntry>, out: Seq<ContextEntry>) -> bool {
    let split = es.len() - kept_count(cfg.session_keep_recent as nat, es.len());
    let bs = batches(es.take(split), cfg.session_batch_size as nat);
    if split == 0 {
        out == es
    } else {
        &&& out.len() == bs.len() + (es.len() - split)
        &&& forall|k: int| 0 <= k < bs.len() ==> summary_entry(#[trigger] out[k], session_summary(bs[k]), ContextPriority::Low, ContextSource::Memory)
        &&& out.skip(bs.len() as int) == es.skip(split)
    }
}

} // verus!

verus! {

/// Three-tier compaction of conversation histories.
pub struct CompactService {
    config: CompactConfig,
}

/// Level 1 on one text (see `micro_content`).
pub fn micro_compress_content(cfg: &CompactConfig, role: &str, content: &str) -> (r: Vec<char>)
    ensures
        r@ == micro_content(*cfg, role@, content@),
{
    let cs = chars_of(content);
    let mut p3: Vec<char> = Vec::new();
    push_str(&mut p3, "\n\n\n");
    let mut p2: Vec<char> = Vec::new();
    push_str(&mut p2, "\n\n");
    let mut s2: Vec<char> = Vec::new();
    push_str(&mut s2, "  ");
    let mut s1: Vec<char> = Vec::new();
    push_str(&mut s1, " ");
    proof {
        reveal_strlit("\n\n\n");
        reveal_strlit("\n\n");
        reveal_strlit("  ");
        reveal_strlit(" ");
    }
    let r1 = collapse_exec(cs, &p3, &p2);
    let r2 = collapse_exec(r1, &s2, &s1);
    let r3 = if str_eq(role, "assistant") && r2.len() > cfg.micro_max_assistant_chars {
        truncate_assistant_message(cfg.micro_max_assistant_chars, &r2)
    } else {
        r2
    };
    truncate_code_blocks(cfg.micro_max_code_block_chars, &r3)
}

/// Level 1 on every entry (see `micro_entry`).
pub fn microcompact(cfg: &CompactConfig, entries: &[ContextEntry]) -> (out: Vec<ContextEntry>)
    ensures
        micro_all(*cfg, entries@, out@),
{
    let mut out: Vec<ContextEntry> = Vec::new();
    let mut i: usize = 0;
    while i < entries.len()
        invariant
            i <= entries.len(),
            out.len() == i,
            forall|j: int| 0 <= j < i ==> micro_entry(*cfg, entries@[j], #[trigger] out@[j]),
        decreases entries.len() - i,
    {
        let e = &entries[i];
        let c = micro_compress_content(cfg, e.role.as_str(), e.content.as_str());
        let old_chars = chars_of(e.content.as_str());
        if utf8_len_exec(&c) == utf8_len_exec(&old_chars) {
            out.push(e.duplicate());
        } else {
            let text = string_of(&c);
            let tokens = crate::context::estimate_tokens_exec(text.as_str());
            out.push(
                ContextEntry {
                    id: e.id.clone(),
                    role: e.role.clone(),
                    content: text,
                    token_count: tokens,
                    priority: e.priority,
                    source: e.source,
                    timestamp: e.timestamp,
                },
            );
        }
        i += 1;
    }
    out
}

/// The first line that is not blank and does not start with `#`.
fn first_meaningful_line(ls: &Vec<Vec<char>>) -> (r: Option<Vec<char>>)
    ensures
        match first_meaningful(views(ls@)) {
            Some(l) => r is Some && r->0@ == l,
            None => r is None,
        },
{
    let ghost v = views(ls@);
    let mut i: usize = 0;
    assert(v.skip(0) =~= v);
    while i < ls.len()
        invariant
            i <= ls.len(),
            v == views(ls@),
            first_meaningful(v.skip(i as int)) == first_meaningful(v),
        decreases ls.len() - i,
    {
        let l = &ls[i];
        let t = trim_exec(l);
        assert(v.skip(i as int)[0] == l@);
        assert(v.skip(i as int).drop_first() =~= v.skip(i + 1));
        if t.len() > 0 && !(l.len() > 0 && l[0] == '#') {
            let r = prefix(l, l.len());
            assert(l@.take(l@.len() as int) =~= l@);
            return Some(r);
        }
        i += 1;
    }
    assert(v.skip(i as int).len() == 0);
    None
}

/// The summary text of one batch (see `session_summary`).
pub fn create_session_summary(es: &[ContextEntry]) -> (r: Vec<char>)
    ensures
        r@ == session_summary(es@),
{
    let mut topics: Vec<char> = Vec::new();
    let mut points: Vec<char> = Vec::new();
    let mut n_topics: usize = 0;
    let mut n_points: usize = 0;
    let mut i: usize = 0;
    proof {
        reveal_strlit("user");
        reveal_strlit("assistant");
    }
    while i < es.len()
        invariant
            i <= es.len(),
            n_topics == batch_topics(es@.take(i as int)).len(),
            n_points == batch_points(es@.take(i as int)).len(),
            n_topics <= i,
            n_points <= i,
            topics@ == indented(batch_topics(es@.take(i as int))),
            points@ == indented(batch_points(es@.take(i as int))),
        decreases es.len() - i,
    {
        let e = &es[i];
        assert(es@.take(i + 1).drop_last() =~= es@.take(i as int));
        assert(es@.take(i + 1).last() == es@[i as int]);
        let content = chars_of(e.content.as_str());
        proof {
            reveal_strlit("user");
            reveal_strlit("assistant");
        }
        if str_eq(e.role.as_str(), "user") {
            let ghost before = topics@;
            push_str(&mut topics, "  ");
            push_str(&mut topics, "Q: ");
            let pv = take_chars_exec(&content, 100);
            push_all(&mut topics, &pv);
            topics.push('\n');
            proof {
                let ts = batch_topics(es@.take(i + 1));
                assert(ts.drop_last() =~= batch_topics(es@.take(i as int)));
                assert(topics@ =~= before + "  "@ + ts.last() + seq!['\n']);
            }
            n_topics += 1;
            assert("user"@.len() == 4 && "assistant"@.len() == 9);
            assert(batch_points(es@.take(i + 1)) == batch_points(es@.take(i as int)));
        } else if str_eq(e.role.as_str(), "assistant") {
            let ghost before = points@;
            let ls = lines_exec(&content);
            let line = match first_meaningful_line(&ls) {
                Some(l) => l,
                None => chars_of("(回复)"),
            };
            assert(views(ls@) == lines(es@[i as int].content@));
            assert(line@ == match first_meaningful(lines(es@[i as int].content@)) {
                Some(l) => l,
                None => "(回复)"@,
            });
            push_str(&mut points, "  ");
            push_str(&mut points, "A: ");
            let pv = take_chars_exec(&line, 100);
            push_all(&mut points, &pv);
            points.push('\n');
            proof {
                let ps = batch_points(es@.take(i + 1));
                assert(ps.drop_last() =~= batch_points(es@.take(i as int)));
                assert(points@ =~= before + "  "@ + ps.last() + seq!['\n']);
            }
            n_points += 1;
            assert(batch_points(es@.take(i + 1)).len() == batch_points(es@.take(i as int)).len() + 1);
        } else {
            assert(batch_points(es@.take(i + 1)) == batch_points(es@.take(i as int)));
        }
        i += 1;
    }
    assert(es@.take(es@.len() as int) =~= es@);
    let mut out = chars_of("[会话历史摘要]\n");
    let ghost head = out@;
    if n_topics > 0 {
        push_str(&mut out, "话题:\n");
        push_all(&mut out, &topics);
    }
    let ghost mid = out@;
    if n_points > 0 {
        push_str(&mut out, "要点:\n");
        push_all(&mut out, &points);
    }
    assert(out@ =~= session_summary(es@));
    out
}

} // verus!

verus! {

/// Copies `es[from..to]`.
pub fn copy_range(es: &[ContextEntry], from: usize, to: usize) -> (r: Vec<ContextEntry>)
    requires
        from <= to <= es.len(),
    ensures
        r@ == es@.subrange(from as int, to as int),
{
    let mut r: Vec<ContextEntry> = Vec::new();
    let mut i = from;
    while i < to
        invariant
            from <= i <= to <= es.len(),
            r@ == es@.subrange(from as int, i as int),
        decreases to - i,
    {
        r.push(es[i].duplicate());
        assert(es@.subrange(from as int, i + 1) =~= es@.subrange(from as int, i as int).push(es@[i as int]));
        i += 1;
    }
    r
}

/// A system entry with the given text, priority and source.
pub fn summary_entry_exec(content: &Vec<char>, priority: ContextPriority, source: ContextSource) -> (r: ContextEntry)
    ensures
        summary_entry(r, content@, priority, source),
{
    let text = string_of(content);
    let mut e = ContextEntry::new("system", text.as_str());
    e.priority = priority;
    e.source = source;
    e
}

/// Level 2 (see `session_all`).
pub fn session_compact(cfg: &CompactConfig, es: &[ContextEntry]) -> (out: Vec<ContextEntry>)
    requires
        cfg.session_batch_size > 0 || es.len() <= cfg.session_keep_recent,
    ensures
        session_all(*cfg, es@, out@),
{
    let n = es.len();
    let keep = if cfg.session_keep_recent <= n {
        cfg.session_keep_recent
    } else {
        n
    };
    let split = n - keep;
    if split == 0 {
        let r = copy_entries(es);
        return r;
    }
    let b = cfg.session_batch_size;
    let ghost all = batches(es@.take(split as int), b as nat);
    let ghost mut done: Seq<Seq<ContextEntry>> = Seq::empty();
    let mut out: Vec<ContextEntry> = Vec::new();
    let mut start: usize = 0;
    assert(es@.subrange(0, split as int) =~= es@.take(split as int));
    while start < split
        invariant
            0 < b,
            start <= split <= n == es.len(),
            all == batches(es@.take(split as int), b as nat),
            all == done + batches(es@.subrange(start as int, split as int), b as nat),
            out.len() == done.len(),
            forall|k: int| 0 <= k < done.len() ==> summary_entry(#[trigger] out@[k], session_summary(done[k]), ContextPriority::Low, ContextSource::Memory),
        decreases split - start,
    {
        let end = if b >= split - start {
            split
        } else {
            start + b
        };
        let chunk = copy_range(es, start, end);
        let summary = create_session_summary(chunk.as_slice());
        let e = summary_entry_exec(&summary, ContextPriority::Low, ContextSource::Memory);
        proof {
            let rest = es@.subrange(start as int, split as int);
            if rest.len() > b {
                assert(rest.take(b as int) =~= es@.subrange(start as int, end as int));
                assert(rest.skip(b as int) =~= es@.subrange(end as int, split as int));
            } else {
                assert(rest =~= es@.subrange(start as int, end as int));
                assert(es@.subrange(end as int, split as int).len() == 0);
            }
            assert(batches(rest, b as nat) =~= seq![chunk@] + batches(es@.subrange(end as int, split as int), b as nat));
            done = done.push(chunk@);
            assert(all =~= done + batches(es@.subrange(end as int, split as int), b as nat));
        }
        out.push(e);
        start = end;
    }
    assert(es@.subrange(split as int, split as int).len() == 0);
    assert(done =~= all);
    let ghost head = out@;
    let recent = copy_range(es, split, n);
    let mut j: usize = 0;
    while j < recent.len()
        invariant
            j <= recent.len(),
            out@ == head + recent@.take(j as int),
        decreases recent.len() - j,
    {
        out.push(recent[j].duplicate());
        assert(recent@.take(j + 1) =~= recent@.take(j as int).push(recent@[j as int]));
        j += 1;
    }
    assert(recent@.take(recent@.len() as int) =~= recent@);
    assert(es@.subrange(split as int, n as int) =~= es@.skip(split as int));
    assert(out@.skip(all.len() as int) =~= es@.skip(split as int));
    out
}

} // verus!

verus! {

/// Some lower-cased keyword occurs in `text`.
pub open spec fn has_keyword(kws: Seq<Seq<char>>, text: Seq<char>) -> bool {
    exists|i: int| 0 <= i < kws.len() && contains_seq(text, #[trigger] lowercase(kws[i]))
}

/// Sentence ends used by level 3.
pub open spec fn memory_seps() -> Seq<char> {
    seq!['.', '。', '！', '!', '？', '?', '\n']
}

/// The memory-worthy sentences among `pieces`: trimmed, at least 10 characters long,
/// holding a keyword, and cut to 200 characters.
pub open spec fn memory_sentences(kws: Seq<Seq<char>>, pieces: Seq<Seq<char>>) -> Seq<Seq<char>>
    decreases pieces.len(),
{
    if pieces.len() == 0 {
        Seq::empty()
    } else {
        let prev = memory_sentences(kws, pieces.drop_last());
        let t = trim(pieces.last());
        if t.len() == 0 || t.len() < 10 {
            prev
        } else if has_keyword(kws, lowercase(t)) {
            prev.push(take_chars(t, 200))
        } else {
            prev
        }
    }
}

/// What level 3 extracts from one message: nothing unless a keyword occurs in it,
/// else its memory-worthy sentences.
pub open spec fn extract_memories(kws: Seq<Seq<char>>, content: Seq<char>) -> Seq<Seq<char>> {
    if has_keyword(kws, lowercase(content)) {
        memory_sentences(kws, split_any(content, memory_seps()))
    } else {
        Seq::empty()
    }
}

/// The memories of all entries, in order.
pub open spec fn all_memories(kws: Seq<Seq<char>>, es: Seq<ContextEntry>) -> Seq<Seq<char>>
    decreases es.len(),
{
    if es.len() == 0 {
        Seq::empty()
    } else {
        all_memories(kws, es.drop_last()) + extract_memories(kws, es.last().content@)
    }
}

/// `i. memory` for the `i`-th memory (counting from 1).
pub open spec fn numbered_item(ms: Seq<Seq<char>>, i: int) -> Seq<char> {
    decimal((i + 1) as nat) + ". "@ + ms[i]
}

/// The numbered memories, one per line.
pub open spec fn numbered(ms: Seq<Seq<char>>) -> Seq<char>
    decreases ms.len(),
{
    if ms.len() == 0 {
        Seq::empty()
    } else if ms.len() == 1 {
        numbered_item(ms, 0)
    } else {
        numbered(ms.drop_last()) + seq!['\n'] + numbered_item(ms, ms.len() - 1)
    }
}

/// The text of the memory block.
pub open spec fn memory_block(ms: Seq<Seq<char>>) -> Seq<char> {
    "[长期记忆 - "@ + decimal(ms.len()) + " 条关键信息]\n"@ + numbered(ms)
}

/// `out` is level 3 applied to `es` and `count` the number of memories: a
/// high-priority memory block (when there are memories) followed by the most
/// recent `keep` entries.
pub open spec fn memory_all(cfg: CompactConfig, es: Seq<ContextEntry>, out: Seq<ContextEntry>, count: nat) -> bool {
    let ms = all_memories(string_views(cfg.memory_keywords@), es);
    let recent = es.skip(es.len() - kept_count(cfg.session_keep_recent as nat, es.len()));
    &&& count == ms.len()
    &&& if ms.len() > 0 {
        &&& out.len() == 1 + recent.len()
        &&& summary_entry(out[0], memory_block(ms), ContextPriority::High, ContextSource::Memory)
        &&& out.skip(1) == recent
    } else {
        out == recent
    }
}

/// Whether a lower-cased keyword occurs in `text`.
pub fn has_keyword_exec(kws: &Vec<String>, text: &Vec<char>) -> (b: bool)
    ensures
        b == has_keyword(string_views(kws@), text@),
{
    let ghost kv = string_views(kws@);
    let mut i: usize = 0;
    while i < kws.len()
        invariant
            i <= kws.len(),
            kv == string_views(kws@),
            forall|j: int| 0 <= j < i ==> !contains_seq(text@, #[trigger] lowercase(kv[j])),
        decreases kws.len() - i,
    {
        let k = chars_of(kws[i].as_str());
        let low = lowercase_chars(&k);
        if contains_exec(text, &low) {
            assert(kv[i as int] == kws@[i as int]@);
            return true;
        }
        i += 1;
    }
    false
}

/// The memories of one message (see `extract_memories`).
pub fn extract_memory_content(kws: &Vec<String>, content: &Vec<char>) -> (r: Vec<Vec<char>>)
    ensures
        views(r@) == extract_memories(string_views(kws@), content@),
{
    let lower = lowercase_chars(content);
    let mut r: Vec<Vec<char>> = Vec::new();
    if !has_keyword_exec(kws, &lower) {
        assert(views(r@) =~= Seq::<Seq<char>>::empty());
        return r;
    }
    let mut seps: Vec<char> = Vec::new();
    seps.push('.');
    seps.push('。');
    seps.push('！');
    seps.push('!');
    seps.push('？');
    seps.push('?');
    seps.push('\n');
    assert(seps@ =~= memory_seps());
    let pieces = split_any_exec(content, &seps);
    let ghost pv = views(pieces@);
    let mut i: usize = 0;
    while i < pieces.len()
        invariant
            i <= pieces.len(),
            pv == views(pieces@),
            views(r@) == memory_sentences(string_views(kws@), pv.take(i as int)),
        decreases pieces.len() - i,
    {
        assert(pv.take(i + 1).drop_last() =~= pv.take(i as int));
        let t = trim_exec(&pieces[i]);
        if t.len() == 0 || t.len() < 10 {
        } else {
            let tl = lowercase_chars(&t);
            if has_keyword_exec(kws, &tl) {
                let m = take_chars_exec(&t, 200);
                let ghost before = views(r@);
                r.push(m);
                assert(views(r@) =~= before.push(m@));
            }
        }
        i += 1;
    }
    assert(pv.take(pv.len() as int) =~= pv);
    r
}

/// The text of the memory block (see `memory_block`).
pub fn memory_block_exec(ms: &Vec<Vec<char>>) -> (r: Vec<char>)
    ensures
        r@ == memory_block(views(ms@)),
{
    let ghost mv = views(ms@);
    let mut body: Vec<char> = Vec::new();
    let mut i: usize = 0;
    while i < ms.len()
        invariant
            i <= ms.len(),
            mv == views(ms@),
            body@ == numbered(mv.take(i as int)),
        decreases ms.len() - i,
    {
        let ghost before = body@;
        if i > 0 {
            body.push('\n');
        }
        let num = decimal_exec((i as u128) + 1);
        push_all(&mut body, &num);
        push_str(&mut body, ". ");
        push_all(&mut body, &ms[i]);
        proof {
            let t = mv.take(i + 1);
            assert(t.drop_last() =~= mv.take(i as int));
            assert(numbered_item(t, i as int) == numbered_item(mv, i as int));
            if i == 0 {
                assert(body@ =~= numbered_item(t, 0));
            } else {
                assert(body@ =~= before + seq!['\n'] + numbered_item(t, i as int));
            }
        }
        i += 1;
    }
    assert(mv.take(mv.len() as int) =~= mv);
    let mut out = chars_of("[长期记忆 - ");
    let n = decimal_exec(ms.len() as u128);
    push_all(&mut out, &n);
    push_str(&mut out, " 条关键信息]\n");
    push_all(&mut out, &body);
    out
}

/// Level 3 (see `memory_all`); also returns the number of memories.
pub fn memory_compact(cfg: &CompactConfig, es: &[ContextEntry]) -> (r: (Vec<ContextEntry>, usize))
    ensures
        memory_all(*cfg, es@, r.0@, r.1 as nat),
{
    let ghost kv = string_views(cfg.memory_keywords@);
    let mut ms: Vec<Vec<char>> = Vec::new();
    let mut i: usize = 0;
    while i < es.len()
        invariant
            i <= es.len(),
            kv == string_views(cfg.memory_keywords@),
            views(ms@) == all_memories(kv, es@.take(i as int)),
        decreases es.len() - i,
    {
        assert(es@.take(i + 1).drop_last() =~= es@.take(i as int));
        let content = chars_of(es[i].content.as_str());
        let found = extract_memory_content(&cfg.memory_keywords, &content);
        let ghost before = views(ms@);
        let mut j: usize = 0;
        while j < found.len()
            invariant
                j <= found.len(),
                views(ms@) == before + views(found@).take(j as int),
            decreases found.len() - j,
        {
            let m = prefix(&found[j], found[j].len());
            assert(found[j as int]@.take(found[j as int]@.len() as int) =~= found[j as int]@);
            let ghost prev = views(ms@);
            ms.push(m);
            assert(views(ms@) =~= prev.push(found[j as int]@));
            assert(views(found@).take(j + 1) =~= views(found@).take(j as int).push(found[j as int]@));
            assert(views(ms@) =~= before + views(found@).take(j + 1));
            j += 1;
        }
        assert(views(found@).take(found@.len() as int) =~= views(found@));
        i += 1;
    }
    assert(es@.take(es@.len() as int) =~= es@);
    let n = es.len();
    let keep = if cfg.session_keep_recent <= n {
        cfg.session_keep_recent
    } else {
        n
    };
    let recent = copy_range(es, n - keep, n);
    assert(es@.subrange(n - keep, n as int) =~= es@.skip(n - keep));
    let mut out: Vec<ContextEntry> = Vec::new();
    if ms.len() > 0 {
        let block = memory_block_exec(&ms);
        out.push(summary_entry_exec(&block, ContextPriority::High, ContextSource::Memory));
    }
    let ghost head = out@;
    let mut j: usize = 0;
    while j < recent.len()
        invariant
            j <= recent.len(),
            out@ == head + recent@.take(j as int),
        decreases recent.len() - j,
    {
        out.push(recent[j].duplicate());
        assert(recent@.take(j + 1) =~= recent@.take(j as int).push(recent@[j as int]));
        j += 1;
    }
    assert(recent@.take(recent@.len() as int) =~= recent@);
    if ms.len() > 0 {
        assert(out@.skip(1) =~= recent@);
    } else {
        assert(out@ =~= recent@);
    }
    let count = ms.len();
    (out, count)
}

} // verus!

verus! {

/// Summary of one compaction run.
#[derive(Debug, Clone, Copy)]
pub struct CompactResult {
    pub level_applied: CompactLevel,
    pub entries_before: usize,
    pub entries_after: usize,
    pub tokens_before: usize,
    /// Token total after compaction, capped at `usize::MAX`.
    pub tokens_after: usize,
    pub memories_extracted: usize,
}

/// Token count of one entry after level 1.
pub open spec fn micro_token(cfg: CompactConfig, e: ContextEntry) -> nat {
    let c = micro_content(cfg, e.role@, e.content@);
    if utf8_len(c) == utf8_len(e.content@) {
        e.token_count as nat
    } else {
        token_count_of(c)
    }
}

/// Token total after level 1.
pub open spec fn micro_tokens(cfg: CompactConfig, es: Seq<ContextEntry>) -> nat
    decreases es.len(),
{
    if es.len() == 0 {
        0
    } else {
        micro_tokens(cfg, es.drop_last()) + micro_token(cfg, es.last())
    }
}

pub proof fn lemma_micro_tokens(cfg: CompactConfig, es: Seq<ContextEntry>, out: Seq<ContextEntry>)
    requires
        micro_all(cfg, es, out),
    ensures
        token_total(out) == micro_tokens(cfg, es),
    decreases es.len(),
{
    if es.len() > 0 {
        let k = es.len() - 1;
        assert(micro_entry(cfg, es[k], out[k]));
        assert(micro_all(cfg, es.drop_last(), out.drop_last())) by {
            assert forall|i: int| 0 <= i < es.drop_last().len() implies micro_entry(cfg, es.drop_last()[i], #[trigger] out.drop_last()[i]) by {
                assert(micro_entry(cfg, es[i], out[i]));
            }
        }
        lemma_micro_tokens(cfg, es.drop_last(), out.drop_last());
    }
}

/// Token total after level 1, when level 1 is enabled.
pub open spec fn stage1_tokens(cfg: CompactConfig, es: Seq<ContextEntry>) -> nat {
    if cfg.enable_microcompact {
        micro_tokens(cfg, es)
    } else {
        token_total(es)
    }
}

/// The inputs on which compaction runs without fault: the token total fits in a
/// `usize`, and a zero batch size is never used to cut older messages into batches.
pub open spec fn compact_admissible(cfg: CompactConfig, es: Seq<ContextEntry>) -> bool {
    &&& token_total(es) <= usize::MAX
    &&& (cfg.enable_session_compact && stage1_tokens(cfg, es) > cfg.session_compact_threshold
        && es.len() > cfg.session_keep_recent) ==> cfg.session_batch_size > 0
}

/// The three levels, each run when enabled and (for levels 2 and 3) when the token
/// total of its input exceeds its threshold.
pub open spec fn compact_stages(
    cfg: CompactConfig,
    es: Seq<ContextEntry>,
    s1: Seq<ContextEntry>,
    s2: Seq<ContextEntry>,
    out: Seq<ContextEntry>,
    count: nat,
) -> bool {
    &&& if cfg.enable_microcompact {
        micro_all(cfg, es, s1)
    } else {
        s1 == es
    }
    &&& if cfg.enable_session_compact && token_total(s1) > cfg.session_compact_threshold {
        session_all(cfg, s1, s2)
    } else {
        s2 == s1
    }
    &&& if cfg.enable_memory_compact && token_total(s2) > cfg.memory_compact_threshold {
        memory_all(cfg, s2, out, count)
    } else {
        out == s2 && count == 0
    }
}

/// The level reported for a run.
pub open spec fn level_of(cfg: CompactConfig, s1: Seq<ContextEntry>, s2: Seq<ContextEntry>) -> CompactLevel {
    if cfg.enable_memory_compact && token_total(s2) > cfg.memory_compact_threshold {
        CompactLevel::Memory
    } else if cfg.enable_session_compact && token_total(s1) > cfg.session_compact_threshold {
        CompactLevel::Session
    } else if cfg.enable_microcompact {
        CompactLevel::Micro
    } else {
        CompactLevel::NotApplied
    }
}

/// `out` and `res` are what compaction makes of `es`.
pub open spec fn compacted(cfg: CompactConfig, es: Seq<ContextEntry>, out: Seq<ContextEntry>, res: CompactResult) -> bool {
    &&& exists|s1: Seq<ContextEntry>, s2: Seq<ContextEntry>|
        {
            &&& #[trigger] compact_stages(cfg, es, s1, s2, out, res.memories_extracted as nat)
            &&& res.level_applied == level_of(cfg, s1, s2)
        }
    &&& res.entries_before == es.len()
    &&& res.entries_after == out.len()
    &&& res.tokens_before == token_total(es)
    &&& res.tokens_after == crate::context::cap(token_total(out))
}

impl CompactService {
    /// The configuration in use.
    pub closed spec fn cfg(&self) -> CompactConfig {
        self.config
    }

    pub fn new(config: CompactConfig) -> (s: Self)
        ensures
            s.cfg() == config,
    {
        CompactService { config }
    }

    /// A service with the default configuration.
    pub fn with_defaults() -> (s: Self)
        ensures
            s.cfg().micro_max_assistant_chars == 2000,
            s.cfg().micro_max_code_block_chars == 800,
            s.cfg().session_keep_recent == 10,
            s.cfg().session_batch_size == 6,
            s.cfg().session_compact_threshold == 50_000,
            s.cfg().memory_compact_threshold == 80_000,
            s.cfg().enable_microcompact && s.cfg().enable_session_compact
                && s.cfg().enable_memory_compact,
            string_views(s.cfg().memory_keywords@) == seq![
                "important"@, "key"@, "remember"@, "注意"@, "重要"@, "记住"@, "关键"@, "决定"@,
                "结论"@, "TODO"@,
            ],
    {
        Self::new(CompactConfig::default())
    }

    /// The configuration in use.
    pub fn config(&self) -> (c: &CompactConfig)
        ensures
            *c == self.cfg(),
    {
        &self.config
    }

    /// Replaces the configuration.
    pub fn set_config(&mut self, config: CompactConfig)
        ensures
            final(self).cfg() == config,
    {
        self.config = config;
    }

    /// Runs the compaction pipeline (see `compacted`).
    pub fn compact(&self, entries: &[ContextEntry]) -> (r: (Vec<ContextEntry>, CompactResult))
        requires
            compact_admissible(self.cfg(), entries@),
        ensures
            compacted(self.cfg(), entries@, r.0@, r.1),
    {
        let cfg = &self.config;
        let tokens_before = token_total_exec(entries);
        let entries_before = entries.len();
        let mut level = CompactLevel::NotApplied;
        let current = if cfg.enable_microcompact {
            level = CompactLevel::Micro;
            let c = microcompact(cfg, entries);
            proof {
                lemma_micro_tokens(*cfg, entries@, c@);
            }
            c
        } else {
            copy_entries(entries)
        };
        let ghost s1 = current@;
        let t1 = token_total_exec(current.as_slice());
        let current = if cfg.enable_session_compact && t1 > cfg.session_compact_threshold as u128 {
            level = CompactLevel::Session;
            session_compact(cfg, current.as_slice())
        } else {
            current
        };
        let ghost s2 = current@;
        let t2 = token_total_exec(current.as_slice());
        let mut memories: usize = 0;
        let current = if cfg.enable_memory_compact && t2 > cfg.memory_compact_threshold as u128 {
            level = CompactLevel::Memory;
            let (c, n) = memory_compact(cfg, current.as_slice());
            memories = n;
            c
        } else {
            current
        };
        let t3 = token_total_exec(current.as_slice());
        let tokens_after = if t3 > usize::MAX as u128 {
            usize::MAX
        } else {
            t3 as usize
        };
        let res = CompactResult {
            level_applied: level,
            entries_before,
            entries_after: current.len(),
            tokens_before: tokens_before as usize,
            tokens_after,
            memories_extracted: memories,
        };
        assert(compact_stages(*cfg, entries@, s1, s2, current@, memories as nat));
        assert(res.level_applied == level_of(*cfg, s1, s2));
        assert(res.tokens_before == token_total(entries@));
        assert(res.tokens_after == crate::context::cap(token_total(current@)));
        assert(compact_stages(self.cfg(), entries@, s1, s2, current@, res.memories_extracted as nat));
        assert(compacted(self.cfg(), entries@, current@, res));
        (current, res)
    }
}

impl Default for CompactService {
    fn default() -> (s: Self)
        ensures
            s.cfg().micro_max_assistant_chars == 2000,
            s.cfg().micro_max_code_block_chars == 800,
            s.cfg().session_keep_recent == 10,
            s.cfg().session_batch_size == 6,
            s.cfg().session_compact_threshold == 50_000,
            s.cfg().memory_compact_threshold == 80_000,
            s.cfg().enable_microcompact && s.cfg().enable_session_compact
                && s.cfg().enable_memory_compact,
    {
        Self::with_defaults()
    }
}

} // verus!
