//! Splitting a file name into tokens, taking off a known extension, and
//! deleting release-group noise.
use vstd::prelude::*;

use crate::vocab::{
    chars_of, dash_trash, eq_lit, dash_trash_table, extension_table, in_words, lower_of, lowercase,
    table_view, trash_sequences, trash_table, video_extensions, words_view,
};

verus! {

/// The view of an optional run of characters.
pub open spec fn opt_chars(o: Option<Vec<char>>) -> Option<Seq<char>> {
    match o {
        Some(v) => Some(v@),
        None => None,
    }
}

/// The views of a token list.
pub open spec fn toks_view(ts: Seq<Vec<char>>) -> Seq<Seq<char>> {
    ts.map_values(|t: Vec<char>| t@)
}

/// Characters that end a token and are dropped.
pub open spec fn is_separator(c: char) -> bool {
    c == ' ' || c == '.' || c == '_'
}

/// Characters that end a token and are tokens of their own.
pub open spec fn is_bracket(c: char) -> bool {
    c == '(' || c == ')' || c == '[' || c == ']'
}

/// `ts` with the run appended when the run is not empty.
pub open spec fn flush(ts: Seq<Seq<char>>, run: Seq<char>) -> Seq<Seq<char>> {
    if run.len() > 0 {
        ts.push(run)
    } else {
        ts
    }
}

/// The tokens completed after the first `n` characters of `s`, and the run
/// still being gathered.
pub open spec fn split_prefix(s: Seq<char>, n: nat) -> (Seq<Seq<char>>, Seq<char>)
    decreases n,
{
    if n == 0 || n > s.len() {
        (seq![], seq![])
    } else {
        let (ts, run) = split_prefix(s, (n - 1) as nat);
        let c = s[n - 1];
        if is_separator(c) {
            (flush(ts, run), seq![])
        } else if is_bracket(c) {
            (flush(ts, run).push(seq![c]), seq![])
        } else {
            (ts, run.push(c))
        }
    }
}

/// The tokens of `s`, in order.
pub open spec fn split_tokens(s: Seq<char>) -> Seq<Seq<char>> {
    let (ts, run) = split_prefix(s, s.len());
    flush(ts, run)
}

/// Splits a file name on separators and brackets; brackets are kept as
/// tokens of one character, empty runs are never emitted.
pub fn split_by_separators(file_name: &str) -> (r: Vec<Vec<char>>)
    ensures
        toks_view(r@) == split_tokens(file_name@),
{
    let cs = chars_of(file_name);
    let mut parts: Vec<Vec<char>> = Vec::new();
    let mut run: Vec<char> = Vec::new();
    let mut k: usize = 0;
    while k < cs.len()
        invariant
            k <= cs@.len(),
            cs@ == file_name@,
            (toks_view(parts@), run@) == split_prefix(cs@, k as nat),
        decreases cs@.len() - k,
    {
        let c = cs[k];
        let ghost before = toks_view(parts@);
        let ghost run0 = run@;
        if c == ' ' || c == '.' || c == '_' || c == '(' || c == ')' || c == '[' || c == ']' {
            if run.len() > 0 {
                parts.push(run);
                assert(toks_view(parts@) =~= before.push(run0));
            }
            run = Vec::new();
            if c == '(' || c == ')' || c == '[' || c == ']' {
                let mut b: Vec<char> = Vec::new();
                b.push(c);
                let ghost mid = toks_view(parts@);
                parts.push(b);
                assert(toks_view(parts@) =~= mid.push(seq![c]));
            }
        } else {
            run.push(c);
        }
        k += 1;
    }
    if run.len() > 0 {
        let ghost before = toks_view(parts@);
        let ghost run0 = run@;
        parts.push(run);
        assert(toks_view(parts@) =~= before.push(run0));
    }
    parts
}

/// The extension that a token list ends in, lower-cased, if it is a known one.
pub open spec fn extension_of(ts: Seq<Seq<char>>) -> Option<Seq<char>> {
    if ts.len() > 0 && video_extensions().contains(lower_of(ts.last())) {
        Some(lower_of(ts.last()))
    } else {
        None
    }
}

/// The token list without its extension.
pub open spec fn without_extension(ts: Seq<Seq<char>>) -> Seq<Seq<char>> {
    if extension_of(ts) is Some {
        ts.drop_last()
    } else {
        ts
    }
}

/// Takes a known video extension off the end of the tokens and returns it,
/// lower-cased.
pub fn strip_extension(parts: &mut Vec<Vec<char>>) -> (r: Option<Vec<char>>)
    ensures
        toks_view(final(parts)@) == without_extension(toks_view(old(parts)@)),
        opt_chars(r) == extension_of(toks_view(old(parts)@)),
{
    if parts.len() == 0 {
        return None;
    }
    let ext = lowercase(&parts[parts.len() - 1]);
    assert(toks_view(parts@).last() == parts@[parts@.len() - 1]@);
    if in_words(&ext, &extension_table()) {
        let ghost before = toks_view(parts@);
        parts.pop();
        assert(toks_view(parts@) =~= before.drop_last());
        Some(ext)
    } else {
        None
    }
}

/// Whether `t` is a dash-prefixed release-group suffix.
pub open spec fn is_dash_trash(t: Seq<char>) -> bool {
    t.len() > 0 && t[0] == '-' && dash_trash().contains(lower_of(t))
}

/// Whether the tokens from `i` on begin with the junk run `pat`, compared
/// lower-cased.
pub open spec fn run_matches_at(ts: Seq<Seq<char>>, i: int, pat: Seq<Seq<char>>) -> bool {
    &&& 0 <= i
    &&& i + pat.len() <= ts.len()
    &&& forall|j: int| 0 <= j < pat.len() ==> lower_of(#[trigger] ts[i + j]) == pat[j]
}

/// `ts` without the `n` tokens that start at `i`.
pub open spec fn cut(ts: Seq<Seq<char>>, i: int, n: int) -> Seq<Seq<char>> {
    ts.subrange(0, i) + ts.subrange(i + n, ts.len() as int)
}

/// Trash removal from index `i` on, where the junk runs before the `k`-th
/// have already been tried, without a match, against the token now at `i`.
/// After any deletion the token shifted into `i` is tried from the start:
/// the dash rule, then every junk run of the table.
pub open spec fn scrub(ts: Seq<Seq<char>>, i: nat, k: nat) -> Seq<Seq<char>>
    decreases ts.len() - i, trash_sequences().len() - k,
{
    if i >= ts.len() {
        ts
    } else if k == 0 && is_dash_trash(ts[i as int]) {
        scrub(ts.remove(i as int), i, 0)
    } else if k < trash_sequences().len() {
        let pat = trash_sequences()[k as int];
        if pat.len() > 0 && run_matches_at(ts, i as int, pat) {
            scrub(cut(ts, i as int, pat.len() as int), i, 0)
        } else {
            scrub(ts, i, k + 1)
        }
    } else {
        scrub(ts, i + 1, 0)
    }
}

/// The token list with all release-group noise deleted.
pub open spec fn trash_removed(ts: Seq<Seq<char>>) -> Seq<Seq<char>> {
    scrub(ts, 0, 0)
}

/// Whether the tokens from `i` on begin with `pat`, compared lower-cased.
fn run_matches(parts: &Vec<Vec<char>>, i: usize, pat: &Vec<&'static str>) -> (r: bool)
    requires
        i <= parts@.len(),
    ensures
        r == run_matches_at(toks_view(parts@), i as int, words_view(pat@)),
{
    if parts.len() - i < pat.len() {
        return false;
    }
    let total = parts.len();
    let mut j: usize = 0;
    while j < pat.len()
        invariant
            total == parts@.len(),
            i + pat@.len() <= parts@.len(),
            j <= pat@.len(),
            forall|m: int|
                0 <= m < j ==> lower_of(#[trigger] toks_view(parts@)[i + m]) == words_view(
                    pat@,
                )[m],
        decreases pat@.len() - j,
    {
        let low = lowercase(&parts[i + j]);
        assert(toks_view(parts@)[i + j] == parts@[i + j]@);
        if !eq_lit(&low, pat[j]) {
            return false;
        }
        j += 1;
    }
    true
}

/// Deletes release-group noise in place: dash-prefixed suffixes, and every
/// junk run of the table wherever it occurs, scanning left to right and
/// testing again, against both rules, the token that each deletion shifts
/// into the current position.
pub fn remove_trash(parts: &mut Vec<Vec<char>>)
    ensures
        toks_view(final(parts)@) == trash_removed(toks_view(old(parts)@)),
{
    let dash = dash_trash_table();
    let table = trash_table();
    let mut i: usize = 0;
    let mut k: usize = 0;
    while i < parts.len()
        invariant
            words_view(dash@) == dash_trash(),
            table_view(table@) == trash_sequences(),
            k <= table@.len(),
            scrub(toks_view(parts@), i as nat, k as nat) == trash_removed(
                toks_view(old(parts)@),
            ),
        decreases parts@.len() - i, table@.len() - k,
    {
        let ghost ts = toks_view(parts@);
        if k == 0 {
            let first = &parts[i];
            let dashed = first.len() > 0 && first[0] == '-';
            if dashed {
                let low = lowercase(first);
                if in_words(&low, &dash) {
                    assert(ts[i as int] == parts@[i as int]@);
                    parts.remove(i);
                    assert(toks_view(parts@) =~= ts.remove(i as int));
                    continue;
                }
            }
            assert(ts[i as int] == parts@[i as int]@);
            assert(!is_dash_trash(ts[i as int]));
        }
        if k < table.len() {
            let pat = &table[k];
            assert(words_view(pat@) == trash_sequences()[k as int]);
            if pat.len() > 0 && run_matches(parts, i, pat) {
                let n = pat.len();
                let mut m: usize = 0;
                while m < n
                    invariant
                        m <= n,
                        i + (n - m) <= parts@.len(),
                        toks_view(parts@) == cut(ts, i as int, m as int),
                        ts.len() == parts@.len() + m,
                    decreases n - m,
                {
                    let ghost before = toks_view(parts@);
                    parts.remove(i);
                    assert(toks_view(parts@) =~= before.remove(i as int));
                    assert(toks_view(parts@) =~= cut(ts, i as int, m + 1));
                    m += 1;
                }
                k = 0;
            } else {
                k += 1;
            }
        } else {
            i += 1;
            k = 0;
        }
    }
}

} // verus!
