//! Rebuilding the display title from the tokens before the boundary.
use vstd::prelude::*;

use crate::tokens::toks_view;

verus! {

/// `acc` with `p` appended, after a space when `acc` is not empty.
pub open spec fn join_part(acc: Seq<char>, p: Seq<char>) -> Seq<char> {
    if acc.len() > 0 {
        acc + seq![' '] + p
    } else {
        p
    }
}

/// The tokens joined by single spaces.
pub open spec fn joined(ts: Seq<Seq<char>>) -> Seq<char>
    decreases ts.len(),
{
    if ts.len() == 0 {
        seq![]
    } else {
        join_part(joined(ts.drop_last()), ts.last())
    }
}

/// Whether `t` is an opening bracket.
pub open spec fn is_open(t: Seq<char>) -> bool {
    t == seq!['('] || t == seq!['[']
}

/// The bracket that closes the opening bracket `t`.
pub open spec fn closing(t: Seq<char>) -> Seq<char> {
    if t == seq!['('] {
        seq![')']
    } else {
        seq![']']
    }
}

/// How many tokens from `from` on, before `end`, come before the first `close`.
pub open spec fn inner_count(ts: Seq<Seq<char>>, from: nat, end: nat, close: Seq<char>) -> nat
    decreases end - from,
{
    if from >= end || from >= ts.len() || ts[from as int] == close {
        0
    } else {
        1 + inner_count(ts, from + 1, end, close)
    }
}

/// The title built from the tokens at `i` and above, before `end`, onto `acc`.
pub open spec fn build_title(ts: Seq<Seq<char>>, end: nat, i: nat, acc: Seq<char>) -> Seq<char>
    decreases end - i,
{
    if i >= end || i >= ts.len() {
        acc
    } else if is_open(ts[i as int]) {
        let close = closing(ts[i as int]);
        let n = inner_count(ts, i + 1, end, close);
        let text = joined(ts.subrange((i + 1) as int, (i + 1 + n) as int));
        let next = if text.len() > 0 {
            join_part(acc, ts[i as int] + text + close)
        } else {
            acc
        };
        let after = if i + n + 2 > end {
            end
        } else {
            i + n + 2
        };
        build_title(ts, end, after, next)
    } else {
        build_title(ts, end, i + 1, join_part(acc, ts[i as int]))
    }
}

/// The title made of the tokens before `end`.
pub open spec fn title_of(ts: Seq<Seq<char>>, end: nat) -> Seq<char> {
    build_title(ts, end, 0, seq![])
}

/// Appends the characters of `p` to `acc`.
fn append_chars(acc: &mut Vec<char>, p: &Vec<char>)
    ensures
        final(acc)@ == old(acc)@ + p@,
{
    let mut j: usize = 0;
    while j < p.len()
        invariant
            j <= p@.len(),
            acc@ == old(acc)@ + p@.subrange(0, j as int),
        decreases p@.len() - j,
    {
        acc.push(p[j]);
        j += 1;
        assert(acc@ =~= old(acc)@ + p@.subrange(0, j as int));
    }
    assert(p@.subrange(0, j as int) =~= p@);
}

/// Appends `p` to `acc`, after a space when `acc` is not empty.
fn push_part(acc: &mut Vec<char>, p: &Vec<char>)
    ensures
        final(acc)@ == join_part(old(acc)@, p@),
{
    if acc.len() > 0 {
        acc.push(' ');
    }
    append_chars(acc, p);
    assert(acc@ =~= join_part(old(acc)@, p@));
}

/// Whether the token is the single character `c`.
fn is_char_token(t: &Vec<char>, c: char) -> (r: bool)
    ensures
        r == (t@ == seq![c]),
{
    if t.len() == 1 && t[0] == c {
        assert(t@ =~= seq![c]);
        true
    } else {
        false
    }
}

/// Builds the title from the tokens before `name_end`: plain tokens are
/// joined by spaces; an opening bracket takes the tokens up to its closing
/// bracket (never past `name_end`) and wraps their joined text in the pair,
/// and the build then goes on past the assumed closing bracket.
pub fn build_name(parts: &Vec<Vec<char>>, name_end: usize) -> (r: Vec<char>)
    requires
        name_end <= parts@.len(),
    ensures
        r@ == title_of(toks_view(parts@), name_end as nat),
{
    let ghost ts = toks_view(parts@);
    let mut title: Vec<char> = Vec::new();
    let mut i: usize = 0;
    while i < name_end
        invariant
            ts == toks_view(parts@),
            name_end <= parts@.len(),
            build_title(ts, name_end as nat, i as nat, title@) == title_of(ts, name_end as nat),
        decreases name_end - i,
    {
        let t = &parts[i];
        assert(ts[i as int] == t@);
        let opens_round = is_char_token(t, '(');
        if opens_round || is_char_token(t, '[') {
            let close = if opens_round {
                ')'
            } else {
                ']'
            };
            let ghost close_tok = closing(t@);
            assert(close_tok == seq![close]);
            let mut inner: Vec<char> = Vec::new();
            let mut j: usize = i + 1;
            while j < name_end && !is_char_token(&parts[j], close)
                invariant
                    ts == toks_view(parts@),
                    name_end <= parts@.len(),
                    i < j <= name_end,
                    close_tok == seq![close],
                    inner@ == joined(ts.subrange(i + 1, j as int)),
                    inner_count(ts, i as nat + 1, name_end as nat, close_tok) == (j - i - 1)
                        + inner_count(ts, j as nat, name_end as nat, close_tok),
                decreases name_end - j,
            {
                assert(ts[j as int] == parts@[j as int]@);
                assert(ts.subrange(i + 1, j + 1).drop_last() =~= ts.subrange(i + 1, j as int));
                push_part(&mut inner, &parts[j]);
                j += 1;
            }
            proof {
                if j < name_end {
                    assert(ts[j as int] == parts@[j as int]@);
                }
                assert(inner_count(ts, i as nat + 1, name_end as nat, close_tok) == j - i - 1);
            }
            let ghost before = title@;
            if inner.len() > 0 {
                let mut unit: Vec<char> = Vec::new();
                unit.push(t[0]);
                append_chars(&mut unit, &inner);
                unit.push(close);
                assert(unit@ =~= t@ + inner@ + close_tok);
                push_part(&mut title, &unit);
            }
            let after_inner = j;
            if after_inner >= name_end {
                i = name_end;
            } else {
                i = after_inner + 1;
            }
        } else {
            push_part(&mut title, t);
            i += 1;
        }
    }
    title
}

} // verus!
