//! Character-level text operations over `Seq<char>` views.

use vstd::prelude::*;

verus! {

/// Appends one character to a `String`.
pub assume_specification[ String::push ](s: &mut String, ch: char)
    ensures
        final(s)@ == old(s)@.push(ch),
;

/// The characters of `s`, in order.
pub fn chars_of(s: &str) -> (v: Vec<char>)
    ensures
        v@ == s@,
{
    let mut v: Vec<char> = Vec::new();
    for c in it: s.chars()
        invariant
            it.seq() == s@,
            v@ == it.seq().take(it.index() as int),
    {
        v.push(c);
    }
    v
}

/// Whether `s` is empty.
pub fn is_empty_str(s: &str) -> (b: bool)
    ensures
        b == (s@.len() == 0),
{
    chars_of(s).len() == 0
}

/// A `String` holding exactly the characters of `cs`.
pub fn string_of(cs: &Vec<char>) -> (s: String)
    ensures
        s@ == cs@,
{
    let mut s = String::new();
    let mut i: usize = 0;
    while i < cs.len()
        invariant
            i <= cs.len(),
            s@ == cs@.take(i as int),
        decreases cs.len() - i,
    {
        s.push(cs[i]);
        assert(cs@.take(i + 1) == cs@.take(i as int).push(cs@[i as int]));
        i += 1;
    }
    assert(cs@.take(cs@.len() as int) == cs@);
    s
}

} // verus!

verus! {

/// `pat` occurs in `s` starting at position `i`.
pub open spec fn occurs_at(s: Seq<char>, pat: Seq<char>, i: int) -> bool {
    0 <= i && i + pat.len() <= s.len() && s.subrange(i, i + pat.len()) == pat
}

/// `pat` occurs somewhere in `s`.
pub open spec fn contains_seq(s: Seq<char>, pat: Seq<char>) -> bool {
    exists|i: int| occurs_at(s, pat, i)
}

/// `s` begins with `pat`.
pub open spec fn starts_with(s: Seq<char>, pat: Seq<char>) -> bool {
    occurs_at(s, pat, 0)
}

/// Left-to-right, non-overlapping replacement of every occurrence of `pat` by `rep`.
pub open spec fn replace_all(s: Seq<char>, pat: Seq<char>, rep: Seq<char>) -> Seq<char>
    decreases s.len(),
{
    if pat.len() == 0 || s.len() < pat.len() {
        s
    } else if s.take(pat.len() as int) == pat {
        rep + replace_all(s.skip(pat.len() as int), pat, rep)
    } else {
        seq![s[0]] + replace_all(s.skip(1), pat, rep)
    }
}

/// Whether `pat` occurs in `s` at position `i` (exec).
pub fn occurs_at_exec(s: &Vec<char>, pat: &Vec<char>, i: usize) -> (b: bool)
    ensures
        b == occurs_at(s@, pat@, i as int),
{
    if i > s.len() || pat.len() > s.len() - i {
        return false;
    }
    let mut k: usize = 0;
    while k < pat.len()
        invariant
            k <= pat.len(),
            i + pat.len() <= s.len(),
            forall|j: int| 0 <= j < k ==> s@[i + j] == pat@[j],
        decreases pat.len() - k,
    {
        if s[i + k] != pat[k] {
            assert(s@.subrange(i as int, i + pat@.len())[k as int] != pat@[k as int]);
            return false;
        }
        k += 1;
    }
    assert(s@.subrange(i as int, i + pat@.len()) =~= pat@);
    true
}

/// The first position at or after `from` where `pat` occurs.
pub fn find_from(s: &Vec<char>, pat: &Vec<char>, from: usize) -> (r: Option<usize>)
    ensures
        match r {
            Some(i) => from <= i && occurs_at(s@, pat@, i as int)
                && forall|j: int| from <= j < i ==> !occurs_at(s@, pat@, j),
            None => forall|j: int| from <= j ==> !occurs_at(s@, pat@, j),
        },
{
    if from > s.len() {
        return None;
    }
    let mut i = from;
    loop
        invariant
            from <= i <= s.len(),
            forall|j: int| from <= j < i ==> !occurs_at(s@, pat@, j),
        decreases s.len() - i,
    {
        if occurs_at_exec(s, pat, i) {
            return Some(i);
        }
        if i == s.len() {
            return None;
        }
        i += 1;
    }
}

/// Whether `pat` occurs anywhere in `s`.
pub fn contains_exec(s: &Vec<char>, pat: &Vec<char>) -> (b: bool)
    ensures
        b == contains_seq(s@, pat@),
{
    match find_from(s, pat, 0) {
        Some(i) => true,
        None => {
            assert forall|j: int| !occurs_at(s@, pat@, j) by {
                if j < 0 {
                }
            }
            false
        },
    }
}

proof fn lemma_replace_all_step(s: Seq<char>, pat: Seq<char>, rep: Seq<char>, i: int)
    requires
        pat.len() > 0,
        0 <= i <= s.len(),
    ensures
        s.len() - i < pat.len() ==> replace_all(s.skip(i), pat, rep) == s.skip(i),
        s.len() - i >= pat.len() && occurs_at(s, pat, i) ==> replace_all(s.skip(i), pat, rep)
            == rep + replace_all(s.skip(i + pat.len()), pat, rep),
        s.len() - i >= pat.len() && !occurs_at(s, pat, i) ==> replace_all(s.skip(i), pat, rep)
            == seq![s[i]] + replace_all(s.skip(i + 1), pat, rep),
{
    let t = s.skip(i);
    if t.len() >= pat.len() {
        assert(t.take(pat.len() as int) =~= s.subrange(i, i + pat.len()));
        assert(t.skip(pat.len() as int) =~= s.skip(i + pat.len()));
        assert(t.skip(1) =~= s.skip(i + 1));
    }
}

/// Replaces every occurrence of `pat` in `s` by `rep`, scanning left to right.
pub fn replace_all_exec(s: &Vec<char>, pat: &Vec<char>, rep: &Vec<char>) -> (r: Vec<char>)
    requires
        pat@.len() > 0,
    ensures
        r@ == replace_all(s@, pat@, rep@),
{
    let mut out: Vec<char> = Vec::new();
    let mut i: usize = 0;
    assert(s@.skip(0) =~= s@);
    while i < s.len()
        invariant
            pat@.len() > 0,
            i <= s.len(),
            out@ + replace_all(s@.skip(i as int), pat@, rep@) == replace_all(s@, pat@, rep@),
        decreases s.len() - i,
    {
        proof {
            lemma_replace_all_step(s@, pat@, rep@, i as int);
        }
        if s.len() - i < pat.len() {
            let ghost target = replace_all(s@, pat@, rep@);
            assert(out@ + s@.skip(i as int) == target);
            while i < s.len()
                invariant
                    i <= s.len(),
                    out@ + s@.skip(i as int) == target,
                decreases s.len() - i,
            {
                let ghost prev = out@;
                out.push(s[i]);
                assert(s@.skip(i as int) =~= seq![s@[i as int]] + s@.skip(i + 1));
                assert(out@ + s@.skip(i + 1) =~= prev + s@.skip(i as int));
                i += 1;
            }
            assert(s@.skip(i as int) =~= Seq::<char>::empty());
            assert(out@ =~= target);
            return out;
        } else if occurs_at_exec(s, pat, i) {
            let ghost prev = out@;
            let mut k: usize = 0;
            while k < rep.len()
                invariant
                    k <= rep.len(),
                    out@ == prev + rep@.take(k as int),
                decreases rep.len() - k,
            {
                out.push(rep[k]);
                assert(rep@.take(k + 1) =~= rep@.take(k as int).push(rep@[k as int]));
                k += 1;
            }
            assert(rep@.take(rep@.len() as int) =~= rep@);
            assert(out@ + replace_all(s@.skip(i + pat@.len()), pat@, rep@) =~= prev + (rep@
                + replace_all(s@.skip(i + pat@.len()), pat@, rep@)));
            i = i + pat.len();
        } else {
            let ghost prev = out@;
            out.push(s[i]);
            assert(out@ + replace_all(s@.skip(i + 1), pat@, rep@) =~= prev + (seq![s@[i as int]]
                + replace_all(s@.skip(i + 1), pat@, rep@)));
            i = i + 1;
        }
    }
    assert(s@.skip(i as int) =~= Seq::<char>::empty());
    assert(out@ =~= replace_all(s@, pat@, rep@));
    out
}

} // verus!

verus! {

/// Replacing with a shorter text never lengthens `s`, and shortens it when `pat` occurs.
pub proof fn lemma_replace_all_shrinks(s: Seq<char>, pat: Seq<char>, rep: Seq<char>)
    requires
        pat.len() > 0,
        rep.len() < pat.len(),
    ensures
        replace_all(s, pat, rep).len() <= s.len(),
        contains_seq(s, pat) ==> replace_all(s, pat, rep).len() < s.len(),
    decreases s.len(),
{
    if s.len() < pat.len() {
        if contains_seq(s, pat) {
            let i = choose|i: int| occurs_at(s, pat, i);
        }
    } else if s.take(pat.len() as int) == pat {
        lemma_replace_all_shrinks(s.skip(pat.len() as int), pat, rep);
    } else {
        let t = s.skip(1);
        lemma_replace_all_shrinks(t, pat, rep);
        if contains_seq(s, pat) {
            let i = choose|i: int| occurs_at(s, pat, i);
            if i == 0 {
                assert(s.subrange(0, pat.len() as int) =~= s.take(pat.len() as int));
            }
            assert(t.subrange(i - 1, i - 1 + pat.len()) =~= s.subrange(i, i + pat.len()));
            assert(occurs_at(t, pat, i - 1));
        }
    }
}

/// Replaces `pat` by the shorter `rep` again and again until `pat` no longer occurs.
pub open spec fn collapse(s: Seq<char>, pat: Seq<char>, rep: Seq<char>) -> Seq<char>
    decreases s.len(),
{
    if pat.len() > 0 && rep.len() < pat.len() && contains_seq(s, pat) {
        proof {
            lemma_replace_all_shrinks(s, pat, rep);
        }
        collapse(replace_all(s, pat, rep), pat, rep)
    } else {
        s
    }
}

/// After collapsing, `pat` does not occur any more.
pub proof fn lemma_collapse_removes(s: Seq<char>, pat: Seq<char>, rep: Seq<char>)
    requires
        pat.len() > 0,
        rep.len() < pat.len(),
    ensures
        !contains_seq(collapse(s, pat, rep), pat),
    decreases s.len(),
{
    if contains_seq(s, pat) {
        lemma_replace_all_shrinks(s, pat, rep);
        lemma_collapse_removes(replace_all(s, pat, rep), pat, rep);
    }
}

/// `while s.contains(pat) { s = s.replace(pat, rep) }`
pub fn collapse_exec(s: Vec<char>, pat: &Vec<char>, rep: &Vec<char>) -> (r: Vec<char>)
    requires
        pat@.len() > 0,
        rep@.len() < pat@.len(),
    ensures
        r@ == collapse(s@, pat@, rep@),
{
    let mut cur = s;
    while contains_exec(&cur, pat)
        invariant
            pat@.len() > 0,
            rep@.len() < pat@.len(),
            collapse(cur@, pat@, rep@) == collapse(s@, pat@, rep@),
        decreases cur@.len(),
    {
        proof {
            lemma_replace_all_shrinks(cur@, pat@, rep@);
        }
        cur = replace_all_exec(&cur, pat, rep);
    }
    cur
}

/// Number of bytes `c` takes in UTF-8.
pub open spec fn char_utf8_len(c: char) -> nat {
    if (c as u32) < 0x80 {
        1
    } else if (c as u32) < 0x800 {
        2
    } else if (c as u32) < 0x10000 {
        3
    } else {
        4
    }
}

/// Number of bytes `s` takes in UTF-8 (what `str::len` reports).
pub open spec fn utf8_len(s: Seq<char>) -> nat
    decreases s.len(),
{
    if s.len() == 0 {
        0
    } else {
        utf8_len(s.drop_last()) + char_utf8_len(s.last())
    }
}

pub fn char_utf8_len_exec(c: char) -> (n: usize)
    ensures
        n == char_utf8_len(c),
{
    let u = c as u32;
    if u < 0x80 {
        1
    } else if u < 0x800 {
        2
    } else if u < 0x10000 {
        3
    } else {
        4
    }
}

pub proof fn lemma_utf8_len_bounds(s: Seq<char>)
    ensures
        s.len() <= utf8_len(s) <= 4 * s.len(),
    decreases s.len(),
{
    if s.len() > 0 {
        lemma_utf8_len_bounds(s.drop_last());
    }
}

pub proof fn lemma_utf8_len_concat(a: Seq<char>, b: Seq<char>)
    ensures
        utf8_len(a + b) == utf8_len(a) + utf8_len(b),
    decreases b.len(),
{
    if b.len() == 0 {
        assert(a + b =~= a);
    } else {
        lemma_utf8_len_concat(a, b.drop_last());
        assert((a + b).drop_last() =~= a + b.drop_last());
    }
}

/// UTF-8 byte length of `s`.
pub fn utf8_len_exec(s: &Vec<char>) -> (n: u128)
    ensures
        n == utf8_len(s@),
{
    let mut n: u128 = 0;
    let mut i: usize = 0;
    while i < s.len()
        invariant
            i <= s.len(),
            n == utf8_len(s@.take(i as int)),
        decreases s.len() - i,
    {
        let c = char_utf8_len_exec(s[i]);
        assert(s@.take(i + 1).drop_last() =~= s@.take(i as int));
        proof {
            lemma_utf8_len_bounds(s@.take(i as int));
        }
        n = n + c as u128;
        i += 1;
    }
    assert(s@.take(s@.len() as int) =~= s@);
    n
}

/// Unicode `White_Space`, as `char::is_whitespace` decides it.
pub open spec fn is_ws(c: char) -> bool {
    let u = c as u32;
    (0x9 <= u <= 0xD) || u == 0x20 || u == 0x85 || u == 0xA0 || u == 0x1680 || (0x2000 <= u
        <= 0x200A) || u == 0x2028 || u == 0x2029 || u == 0x202F || u == 0x205F || u == 0x3000
}

pub fn is_ws_exec(c: char) -> (b: bool)
    ensures
        b == is_ws(c),
{
    let u = c as u32;
    (0x9 <= u && u <= 0xD) || u == 0x20 || u == 0x85 || u == 0xA0 || u == 0x1680 || (0x2000 <= u
        && u <= 0x200A) || u == 0x2028 || u == 0x2029 || u == 0x202F || u == 0x205F || u == 0x3000
}

/// `s` without its trailing whitespace (`str::trim_end`).
pub open spec fn trim_end(s: Seq<char>) -> Seq<char>
    decreases s.len(),
{
    if s.len() > 0 && is_ws(s.last()) {
        trim_end(s.drop_last())
    } else {
        s
    }
}

/// `s` without its leading whitespace (`str::trim_start`).
pub open spec fn trim_start(s: Seq<char>) -> Seq<char>
    decreases s.len(),
{
    if s.len() > 0 && is_ws(s[0]) {
        trim_start(s.drop_first())
    } else {
        s
    }
}

/// `s` without leading and trailing whitespace (`str::trim`).
pub open spec fn trim(s: Seq<char>) -> Seq<char> {
    trim_end(trim_start(s))
}

pub proof fn lemma_trim_end_prefix(s: Seq<char>)
    ensures
        trim_end(s).len() <= s.len(),
        trim_end(s) == s.take(trim_end(s).len() as int),
    decreases s.len(),
{
    if s.len() > 0 && is_ws(s.last()) {
        lemma_trim_end_prefix(s.drop_last());
        assert(s.drop_last().take(trim_end(s).len() as int) =~= s.take(trim_end(s).len() as int));
    } else {
        assert(s.take(s.len() as int) =~= s);
    }
}

pub proof fn lemma_trim_start_suffix(s: Seq<char>)
    ensures
        trim_start(s).len() <= s.len(),
        trim_start(s) == s.skip(s.len() - trim_start(s).len()),
    decreases s.len(),
{
    if s.len() > 0 && is_ws(s[0]) {
        lemma_trim_start_suffix(s.drop_first());
        assert(s.drop_first().skip(s.len() - 1 - trim_start(s).len()) =~= s.skip(s.len() - trim_start(s).len()));
    } else {
        assert(s.skip(0) =~= s);
    }
}

/// Length of `trim_end(s)`: the position where the trailing whitespace starts.
pub fn trim_end_len(s: &Vec<char>, upto: usize) -> (n: usize)
    requires
        upto <= s.len(),
    ensures
        n <= upto,
        s@.take(n as int) == trim_end(s@.take(upto as int)),
{
    let mut n = upto;
    while n > 0 && is_ws_exec(s[n - 1])
        invariant
            n <= upto <= s.len(),
            trim_end(s@.take(n as int)) == trim_end(s@.take(upto as int)),
        decreases n,
    {
        assert(s@.take(n as int).drop_last() =~= s@.take(n - 1));
        n -= 1;
    }
    n
}

/// Length of the leading whitespace of `s[from..upto]`.
pub fn trim_start_skip(s: &Vec<char>, from: usize, upto: usize) -> (k: usize)
    requires
        from <= upto <= s.len(),
    ensures
        from <= k <= upto,
        s@.subrange(k as int, upto as int) == trim_start(s@.subrange(from as int, upto as int)),
{
    let mut k = from;
    while k < upto && is_ws_exec(s[k])
        invariant
            from <= k <= upto <= s.len(),
            trim_start(s@.subrange(k as int, upto as int)) == trim_start(s@.subrange(from as int, upto as int)),
        decreases upto - k,
    {
        assert(s@.subrange(k as int, upto as int).drop_first() =~= s@.subrange(k + 1, upto as int));
        k += 1;
    }
    k
}

/// The trimmed characters of `s` (`str::trim`).
pub fn trim_exec(s: &Vec<char>) -> (r: Vec<char>)
    ensures
        r@ == trim(s@),
{
    let k = trim_start_skip(s, 0, s.len());
    assert(s@.subrange(0, s@.len() as int) =~= s@);
    let mut t: Vec<char> = Vec::new();
    let mut i = k;
    while i < s.len()
        invariant
            k <= i <= s.len(),
            t@ == s@.subrange(k as int, i as int),
        decreases s.len() - i,
    {
        t.push(s[i]);
        assert(s@.subrange(k as int, i + 1) =~= s@.subrange(k as int, i as int).push(s@[i as int]));
        i += 1;
    }
    let n = trim_end_len(&t, t.len());
    assert(t@.take(t@.len() as int) =~= t@);
    prefix(&t, n)
}

/// The first `n` characters of `s`.
pub fn prefix(s: &Vec<char>, n: usize) -> (r: Vec<char>)
    requires
        n <= s.len(),
    ensures
        r@ == s@.take(n as int),
{
    let mut r: Vec<char> = Vec::new();
    let mut i: usize = 0;
    while i < n
        invariant
            i <= n <= s.len(),
            r@ == s@.take(i as int),
        decreases n - i,
    {
        r.push(s[i]);
        assert(s@.take(i + 1) =~= s@.take(i as int).push(s@[i as int]));
        i += 1;
    }
    r
}

/// `s[from..to]`.
pub fn slice_chars(s: &Vec<char>, from: usize, to: usize) -> (r: Vec<char>)
    requires
        from <= to <= s.len(),
    ensures
        r@ == s@.subrange(from as int, to as int),
{
    let mut r: Vec<char> = Vec::new();
    let mut i: usize = from;
    while i < to
        invariant
            from <= i <= to <= s.len(),
            r@ == s@.subrange(from as int, i as int),
        decreases to - i,
    {
        r.push(s[i]);
        assert(s@.subrange(from as int, i + 1) =~= s@.subrange(from as int, i as int).push(s@[i as int]));
        i += 1;
    }
    r
}

/// The first `n` characters of `s`, or all of `s` if it is shorter (`chars().take(n)`).
pub open spec fn take_chars(s: Seq<char>, n: nat) -> Seq<char> {
    if n <= s.len() {
        s.take(n as int)
    } else {
        s
    }
}

pub fn take_chars_exec(s: &Vec<char>, n: usize) -> (r: Vec<char>)
    ensures
        r@ == take_chars(s@, n as nat),
{
    if n <= s.len() {
        prefix(s, n)
    } else {
        assert(s@.take(s@.len() as int) =~= s@);
        prefix(s, s.len())
    }
}

/// Appends all of `t` to `v`.
pub fn push_all(v: &mut Vec<char>, t: &Vec<char>)
    ensures
        final(v)@ == old(v)@ + t@,
{
    let mut i: usize = 0;
    let ghost start = v@;
    while i < t.len()
        invariant
            i <= t.len(),
            v@ == start + t@.take(i as int),
        decreases t.len() - i,
    {
        v.push(t[i]);
        assert(t@.take(i + 1) =~= t@.take(i as int).push(t@[i as int]));
        i += 1;
    }
    assert(t@.take(t@.len() as int) =~= t@);
}

/// Appends the characters of `t` to `v`.
pub fn push_str(v: &mut Vec<char>, t: &str)
    ensures
        final(v)@ == old(v)@ + t@,
{
    let cs = chars_of(t);
    push_all(v, &cs);
}

} // verus!

verus! {

/// The pieces of `s` between occurrences of `sep` (`str::split` on one character).
pub open spec fn split_on(s: Seq<char>, sep: char) -> Seq<Seq<char>>
    decreases s.len(),
{
    if s.len() == 0 {
        seq![Seq::<char>::empty()]
    } else {
        let p = split_on(s.drop_last(), sep);
        if s.last() == sep {
            p.push(Seq::<char>::empty())
        } else {
            p.update(p.len() - 1, p.last().push(s.last()))
        }
    }
}

pub proof fn lemma_split_on_nonempty(s: Seq<char>, sep: char)
    ensures
        split_on(s, sep).len() >= 1,
    decreases s.len(),
{
    if s.len() > 0 {
        lemma_split_on_nonempty(s.drop_last(), sep);
    }
}

/// A line without the `\r` of a `\r\n` ending.
pub open spec fn strip_cr(l: Seq<char>) -> Seq<char> {
    if l.len() > 0 && l.last() == '\r' {
        l.drop_last()
    } else {
        l
    }
}

/// The lines of `s`, as `str::lines` yields them.
pub open spec fn lines(s: Seq<char>) -> Seq<Seq<char>> {
    let p = split_on(s, '\n');
    p.take(p.len() - 1).map_values(|l: Seq<char>| strip_cr(l)) + if p.last().len() > 0 {
        seq![p.last()]
    } else {
        Seq::<Seq<char>>::empty()
    }
}

/// The views of a vector of character vectors.
pub open spec fn views(v: Seq<Vec<char>>) -> Seq<Seq<char>> {
    v.map_values(|x: Vec<char>| x@)
}

/// Splits `s` into lines (`str::lines`).
pub fn lines_exec(s: &Vec<char>) -> (r: Vec<Vec<char>>)
    ensures
        views(r@) == lines(s@),
{
    let mut done: Vec<Vec<char>> = Vec::new();
    let ghost mut raw: Seq<Seq<char>> = Seq::empty();
    let mut cur: Vec<char> = Vec::new();
    let mut i: usize = 0;
    while i < s.len()
        invariant
            i <= s.len(),
            split_on(s@.take(i as int), '\n') == raw.push(cur@),
            views(done@) == raw.map_values(|l: Seq<char>| strip_cr(l)),
        decreases s.len() - i,
    {
        let c = s[i];
        assert(s@.take(i + 1).drop_last() =~= s@.take(i as int));
        if c == '\n' {
            let ghost cv = cur@;
            let n = cur.len();
            let stripped = if n > 0 && cur[n - 1] == '\r' {
                prefix(&cur, n - 1)
            } else {
                prefix(&cur, n)
            };
            assert(cur@.take(n as int) =~= cur@);
            if n > 0 {
                assert(cur@.drop_last() =~= cur@.take(n - 1));
            }
            assert(stripped@ == strip_cr(cv));
            let ghost done_before = done@;
            done.push(stripped);
            assert(views(done@) =~= views(done_before).push(strip_cr(cv)));
            proof {
                raw = raw.push(cv);
            }
            cur = Vec::new();
            assert(views(done@) =~= raw.map_values(|l: Seq<char>| strip_cr(l)));
            assert(split_on(s@.take(i + 1), '\n') =~= raw.push(cur@));
        } else {
            cur.push(c);
            assert(split_on(s@.take(i + 1), '\n') =~= raw.push(cur@));
        }
        i += 1;
    }
    assert(s@.take(s@.len() as int) =~= s@);
    let ghost p = split_on(s@, '\n');
    assert(p.take(p.len() - 1) =~= raw);
    if cur.len() > 0 {
        done.push(cur);
    }
    assert(views(done@) =~= lines(s@));
    done
}

/// The decimal digit for `d < 10`.
pub open spec fn digit(d: nat) -> char {
    if d == 0 {
        '0'
    } else if d == 1 {
        '1'
    } else if d == 2 {
        '2'
    } else if d == 3 {
        '3'
    } else if d == 4 {
        '4'
    } else if d == 5 {
        '5'
    } else if d == 6 {
        '6'
    } else if d == 7 {
        '7'
    } else if d == 8 {
        '8'
    } else {
        '9'
    }
}

/// The decimal notation of `n`, as `format!("{}", n)` writes it.
pub open spec fn decimal(n: nat) -> Seq<char>
    decreases n,
{
    if n < 10 {
        seq![digit(n)]
    } else {
        decimal(n / 10).push(digit(n % 10))
    }
}

fn digit_exec(d: u128) -> (c: char)
    requires
        d < 10,
    ensures
        c == digit(d as nat),
{
    if d == 0 {
        '0'
    } else if d == 1 {
        '1'
    } else if d == 2 {
        '2'
    } else if d == 3 {
        '3'
    } else if d == 4 {
        '4'
    } else if d == 5 {
        '5'
    } else if d == 6 {
        '6'
    } else if d == 7 {
        '7'
    } else if d == 8 {
        '8'
    } else {
        '9'
    }
}

/// The decimal notation of `n`.
pub fn decimal_exec(n: u128) -> (r: Vec<char>)
    ensures
        r@ == decimal(n as nat),
    decreases n,
{
    if n < 10 {
        let mut v: Vec<char> = Vec::new();
        v.push(digit_exec(n));
        assert(v@ =~= seq![digit(n as nat)]);
        v
    } else {
        let mut v = decimal_exec(n / 10);
        v.push(digit_exec(n % 10));
        v
    }
}

/// What `str::to_lowercase` returns for a text (Unicode lower-case mapping).
pub uninterp spec fn lowercase(s: Seq<char>) -> Seq<char>;

/// Calls `str::to_lowercase`; the result is the Unicode lower-case mapping of the
/// text, named `lowercase` and not spelled out here.
#[verifier::external_body]
pub(crate) fn to_lowercase(s: &str) -> (r: String)
    ensures
        r@ == lowercase(s@),
{
    s.to_lowercase()
}

/// `to_lowercase` on a character vector.
pub fn lowercase_chars(s: &Vec<char>) -> (r: Vec<char>)
    ensures
        r@ == lowercase(s@),
{
    let st = string_of(s);
    let low = to_lowercase(st.as_str());
    chars_of(low.as_str())
}

} // verus!

verus! {

/// Whether two character vectors are equal.
pub fn chars_eq(a: &Vec<char>, b: &Vec<char>) -> (r: bool)
    ensures
        r == (a@ == b@),
{
    if a.len() != b.len() {
        return false;
    }
    let mut i: usize = 0;
    while i < a.len()
        invariant
            i <= a.len() == b.len(),
            forall|j: int| 0 <= j < i ==> a@[j] == b@[j],
        decreases a.len() - i,
    {
        if a[i] != b[i] {
            return false;
        }
        i += 1;
    }
    assert(a@ =~= b@);
    true
}

/// Whether two texts are equal.
pub fn str_eq(a: &str, b: &str) -> (r: bool)
    ensures
        r == (a@ == b@),
{
    let x = chars_of(a);
    let y = chars_of(b);
    chars_eq(&x, &y)
}

} // verus!

verus! {

/// The pieces of `s` between characters of `seps` (`str::split` with a set of characters).
pub open spec fn split_any(s: Seq<char>, seps: Seq<char>) -> Seq<Seq<char>>
    decreases s.len(),
{
    if s.len() == 0 {
        seq![Seq::<char>::empty()]
    } else {
        let p = split_any(s.drop_last(), seps);
        if seps.contains(s.last()) {
            p.push(Seq::<char>::empty())
        } else {
            p.update(p.len() - 1, p.last().push(s.last()))
        }
    }
}

pub proof fn lemma_split_any_nonempty(s: Seq<char>, seps: Seq<char>)
    ensures
        split_any(s, seps).len() >= 1,
    decreases s.len(),
{
    if s.len() > 0 {
        lemma_split_any_nonempty(s.drop_last(), seps);
    }
}

/// Whether `c` is one of `seps`.
pub fn is_one_of(c: char, seps: &Vec<char>) -> (b: bool)
    ensures
        b == seps@.contains(c),
{
    let mut i: usize = 0;
    while i < seps.len()
        invariant
            i <= seps.len(),
            forall|j: int| 0 <= j < i ==> seps@[j] != c,
        decreases seps.len() - i,
    {
        if seps[i] == c {
            assert(seps@[i as int] == c);
            return true;
        }
        i += 1;
    }
    false
}

/// Splits `s` at every character of `seps` (see `split_any`).
pub fn split_any_exec(s: &Vec<char>, seps: &Vec<char>) -> (r: Vec<Vec<char>>)
    ensures
        views(r@) == split_any(s@, seps@),
{
    let mut done: Vec<Vec<char>> = Vec::new();
    let mut cur: Vec<char> = Vec::new();
    let mut i: usize = 0;
    while i < s.len()
        invariant
            i <= s.len(),
            split_any(s@.take(i as int), seps@) == views(done@).push(cur@),
        decreases s.len() - i,
    {
        let c = s[i];
        assert(s@.take(i + 1).drop_last() =~= s@.take(i as int));
        if is_one_of(c, seps) {
            let piece = prefix(&cur, cur.len());
            assert(cur@.take(cur@.len() as int) =~= cur@);
            let ghost before = views(done@);
            done.push(piece);
            cur = Vec::new();
            assert(views(done@) =~= before.push(piece@));
            assert(split_any(s@.take(i + 1), seps@) =~= views(done@).push(cur@));
        } else {
            cur.push(c);
            assert(split_any(s@.take(i + 1), seps@) =~= views(done@).push(cur@));
        }
        i += 1;
    }
    assert(s@.take(s@.len() as int) =~= s@);
    let ghost before = views(done@);
    done.push(cur);
    assert(views(done@) =~= before.push(views(done@).last()));
    done
}

} // verus!

verus! {

/// `pat` occurs at `i` and nowhere before.
pub open spec fn first_occurrence(s: Seq<char>, pat: Seq<char>, i: int) -> bool {
    occurs_at(s, pat, i) && forall|j: int| 0 <= j < i ==> !occurs_at(s, pat, j)
}

/// The position of the first occurrence of `pat` in `s` (`str::find`).
pub open spec fn find_pat(s: Seq<char>, pat: Seq<char>) -> Option<int> {
    if exists|i: int| first_occurrence(s, pat, i) {
        Some(choose|i: int| first_occurrence(s, pat, i))
    } else {
        None
    }
}

proof fn lemma_first_occurrence_unique(s: Seq<char>, pat: Seq<char>, i: int, j: int)
    requires
        first_occurrence(s, pat, i),
        first_occurrence(s, pat, j),
    ensures
        i == j,
{
    if i < j {
        assert(!occurs_at(s, pat, i));
    } else if j < i {
        assert(!occurs_at(s, pat, j));
    }
}

/// The position of the first occurrence of `pat` in `s` (see `find_pat`).
pub fn find_first(s: &Vec<char>, pat: &Vec<char>) -> (r: Option<usize>)
    ensures
        match find_pat(s@, pat@) {
            Some(i) => r is Some && r->0 == i && occurs_at(s@, pat@, i),
            None => r is None,
        },
{
    match find_from(s, pat, 0) {
        Some(i) => {
            proof {
                assert(first_occurrence(s@, pat@, i as int));
                let c = choose|k: int| first_occurrence(s@, pat@, k);
                lemma_first_occurrence_unique(s@, pat@, i as int, c);
            }
            Some(i)
        },
        None => {
            assert(!exists|k: int| first_occurrence(s@, pat@, k));
            None
        },
    }
}

/// The pieces of `s` between the occurrences of `pat`, found left to right
/// without overlap (`str::split` with a text pattern).
pub open spec fn split_pat(s: Seq<char>, pat: Seq<char>) -> Seq<Seq<char>>
    decreases s.len(),
{
    if pat.len() == 0 || s.len() < pat.len() {
        seq![s]
    } else if s.take(pat.len() as int) == pat {
        seq![Seq::<char>::empty()] + split_pat(s.skip(pat.len() as int), pat)
    } else {
        let r = split_pat(s.skip(1), pat);
        r.update(0, seq![s[0]] + r[0])
    }
}

proof fn lemma_split_pat_nonempty(s: Seq<char>, pat: Seq<char>)
    ensures
        split_pat(s, pat).len() >= 1,
    decreases s.len(),
{
    if pat.len() == 0 || s.len() < pat.len() {
    } else if s.take(pat.len() as int) == pat {
    } else {
        lemma_split_pat_nonempty(s.skip(1), pat);
    }
}

proof fn lemma_split_pat_none(s: Seq<char>, pat: Seq<char>, i: int)
    requires
        pat.len() > 0,
        0 <= i <= s.len(),
        forall|j: int| i <= j ==> !occurs_at(s, pat, j),
    ensures
        split_pat(s.skip(i), pat) == seq![s.skip(i)],
    decreases s.len() - i,
{
    let t = s.skip(i);
    if t.len() < pat.len() {
    } else {
        assert(t.take(pat.len() as int) =~= s.subrange(i, i + pat.len()));
        assert(!occurs_at(s, pat, i));
        assert(t.skip(1) =~= s.skip(i + 1));
        lemma_split_pat_none(s, pat, i + 1);
        assert(seq![t[0]] + s.skip(i + 1) =~= t);
        assert(seq![t[0]] + s.skip(i + 1) == t);
        assert(split_pat(t, pat) =~= seq![t]);
    }
}

proof fn lemma_split_pat_first(s: Seq<char>, pat: Seq<char>, i: int, j: int)
    requires
        pat.len() > 0,
        0 <= i <= j,
        occurs_at(s, pat, j),
        forall|k: int| i <= k < j ==> !occurs_at(s, pat, k),
    ensures
        split_pat(s.skip(i), pat) == seq![s.subrange(i, j)] + split_pat(s.skip(j + pat.len()), pat),
    decreases j - i,
{
    let t = s.skip(i);
    assert(t.len() >= pat.len());
    if i == j {
        assert(t.take(pat.len() as int) =~= s.subrange(i, i + pat.len()));
        assert(t.skip(pat.len() as int) =~= s.skip(j + pat.len()));
        assert(s.subrange(i, j) =~= Seq::<char>::empty());
    } else {
        assert(t.take(pat.len() as int) =~= s.subrange(i, i + pat.len()));
        assert(!occurs_at(s, pat, i));
        assert(t.skip(1) =~= s.skip(i + 1));
        lemma_split_pat_first(s, pat, i + 1, j);
        let r = split_pat(s.skip(i + 1), pat);
        assert(r[0] == s.subrange(i + 1, j));
        assert(seq![t[0]] + s.subrange(i + 1, j) =~= s.subrange(i, j));
        assert(split_pat(t, pat) =~= seq![s.subrange(i, j)] + split_pat(s.skip(j + pat.len()), pat));
    }
}

/// The pieces of `s` between the occurrences of `pat` (see `split_pat`).
pub fn split_pat_exec(s: &Vec<char>, pat: &Vec<char>) -> (r: Vec<Vec<char>>)
    requires
        pat@.len() > 0,
    ensures
        views(r@) == split_pat(s@, pat@),
{
    let mut out: Vec<Vec<char>> = Vec::new();
    let mut i: usize = 0;
    assert(s@.skip(0) =~= s@);
    loop
        invariant
            i <= s.len(),
            pat@.len() > 0,
            views(out@) + split_pat(s@.skip(i as int), pat@) == split_pat(s@, pat@),
        decreases s.len() - i,
    {
        match find_from(s, pat, i) {
            Some(j) => {
                proof {
                    lemma_split_pat_first(s@, pat@, i as int, j as int);
                }
                let piece = slice_chars(s, i, j);
                let ghost before = views(out@);
                out.push(piece);
                assert(views(out@) =~= before.push(piece@));
                assert(views(out@) + split_pat(s@.skip(j + pat@.len()), pat@) =~= before + (seq![s@.subrange(i as int, j as int)] + split_pat(s@.skip(j + pat@.len()), pat@)));
                i = j + pat.len();
            },
            None => {
                proof {
                    lemma_split_pat_none(s@, pat@, i as int);
                }
                let piece = slice_chars(s, i, s.len());
                assert(piece@ =~= s@.skip(i as int));
                let ghost before = views(out@);
                out.push(piece);
                assert(views(out@) =~= before.push(piece@));
                assert(views(out@) =~= before + seq![s@.skip(i as int)]);
                return out;
            },
        }
    }
}

} // verus!
