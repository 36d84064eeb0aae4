//! Properties of the tag scan and the title builder, proved over their models.
use vstd::prelude::*;

use crate::scan::{
    classifies, four_digit_value, is_year_token, normal_form, scan_from, scan_step, tag_scan,
    year_hit, ScanModel,
};
use crate::vocab::{
    audio_encodings, first_lang, known_languages, qualities, resolutions, video_encodings,
};
use crate::parse::scan_tokens;
use crate::title::{build_title, closing, inner_count, is_open, join_part, joined};
use crate::tokens::{
    cut, flush, is_dash_trash, run_matches_at, scrub, split_prefix, split_tokens,
    without_extension,
};
use crate::vocab::trash_sequences;

verus! {

/// Classification of a token that is not taken as a year depends on its
/// lower-cased, comma-trimmed form alone: two such tokens with the same form
/// are classified alike and leave the same state.
pub proof fn classification_by_normal_form(
    st: ScanModel,
    t1: Seq<char>,
    t2: Seq<char>,
    i: nat,
    current_year: u16,
)
    requires
        normal_form(t1) == normal_form(t2),
        !year_hit(st, t1, current_year),
        !year_hit(st, t2, current_year),
    ensures
        scan_step(st, t1, i, current_year) == scan_step(st, t2, i, current_year),
        classifies(st, t1, current_year) == classifies(st, t2, current_year),
{
}

/// One step sets the boundary to the visited index exactly when it
/// classifies the token, and otherwise leaves the state as it was.
proof fn step_boundary(st: ScanModel, t: Seq<char>, i: nat, current_year: u16)
    ensures
        classifies(st, t, current_year) ==> scan_step(st, t, i, current_year).name_end == i,
        !classifies(st, t, current_year) ==> scan_step(st, t, i, current_year) == st,
{
}

/// While the scan runs, the boundary lies between the lowest index visited
/// and the number of tokens.
proof fn boundary_bounds(ts: Seq<Seq<char>>, current_year: u16, i: nat)
    requires
        i <= ts.len(),
    ensures
        i <= scan_from(ts, current_year, i).name_end <= ts.len(),
    decreases ts.len() - i,
{
    if i < ts.len() {
        boundary_bounds(ts, current_year, i + 1);
        step_boundary(scan_from(ts, current_year, i + 1), ts[i as int], i, current_year);
    }
}

/// The boundary never moves right as the scan goes left.
pub proof fn boundary_non_increasing(ts: Seq<Seq<char>>, current_year: u16, i: nat)
    requires
        i < ts.len(),
    ensures
        scan_from(ts, current_year, i).name_end <= scan_from(ts, current_year, i + 1).name_end,
{
    boundary_bounds(ts, current_year, i + 1);
    step_boundary(scan_from(ts, current_year, i + 1), ts[i as int], i, current_year);
}

/// Whether the scan classifies the token at index `k`.
pub open spec fn classified_at(ts: Seq<Seq<char>>, current_year: u16, k: nat) -> bool {
    k < ts.len() && classifies(scan_from(ts, current_year, k + 1), ts[k as int], current_year)
}

/// After visiting the indices from `i` up, the boundary is the least index
/// classified among them, or the number of tokens if none was.
pub proof fn boundary_is_leftmost_classified(ts: Seq<Seq<char>>, current_year: u16, i: nat)
    requires
        i <= ts.len(),
    ensures
        forall|k: nat|
            i <= k < ts.len() && classified_at(ts, current_year, k) ==> scan_from(
                ts,
                current_year,
                i,
            ).name_end <= k,
        scan_from(ts, current_year, i).name_end == ts.len() || (i <= scan_from(
            ts,
            current_year,
            i,
        ).name_end && classified_at(ts, current_year, scan_from(ts, current_year, i).name_end)),
    decreases ts.len() - i,
{
    if i < ts.len() {
        boundary_is_leftmost_classified(ts, current_year, i + 1);
        boundary_bounds(ts, current_year, i + 1);
        step_boundary(scan_from(ts, current_year, i + 1), ts[i as int], i, current_year);
    }
}

/// The boundary of a whole scan is the least index classified, or the number
/// of tokens if none was.
pub proof fn scan_boundary(ts: Seq<Seq<char>>, current_year: u16)
    requires
        1 <= ts.len(),
    ensures
        forall|k: nat|
            1 <= k < ts.len() && classified_at(ts, current_year, k) ==> tag_scan(
                ts,
                current_year,
            ).name_end <= k,
        tag_scan(ts, current_year).name_end == ts.len() || classified_at(
            ts,
            current_year,
            tag_scan(ts, current_year).name_end,
        ),
{
    boundary_is_leftmost_classified(ts, current_year, 1);
}

/// A field other than the languages, once set, keeps its value for the rest
/// of the scan, and the languages only grow at their end.
pub proof fn fields_set_once(ts: Seq<Seq<char>>, current_year: u16, i: nat, j: nat)
    requires
        i <= j,
    ensures
        ({
            let later = scan_from(ts, current_year, i);
            let earlier = scan_from(ts, current_year, j);
            &&& earlier.year is Some ==> later.year == earlier.year
            &&& earlier.video_encoding is Some ==> later.video_encoding == earlier.video_encoding
            &&& earlier.audio_encoding is Some ==> later.audio_encoding == earlier.audio_encoding
            &&& earlier.resolution is Some ==> later.resolution == earlier.resolution
            &&& earlier.quality is Some ==> later.quality == earlier.quality
            &&& earlier.languages.len() <= later.languages.len()
            &&& later.languages.subrange(0, earlier.languages.len() as int) == earlier.languages
        }),
    decreases j - i,
{
    let later = scan_from(ts, current_year, i);
    let earlier = scan_from(ts, current_year, j);
    if i < j {
        fields_set_once(ts, current_year, i + 1, j);
        if i < ts.len() {
            let mid = scan_from(ts, current_year, i + 1);
            assert(later.languages.subrange(0, mid.languages.len() as int) =~= mid.languages);
            assert(later.languages.subrange(0, earlier.languages.len() as int)
                =~= mid.languages.subrange(0, earlier.languages.len() as int));
        } else {
            assert(j >= ts.len());
        }
    } else {
        assert(later.languages.subrange(0, earlier.languages.len() as int) =~= later.languages);
    }
}

/// Counting from inside a bracket group, the tokens before its closing
/// bracket.
proof fn inner_count_to_close(
    ts: Seq<Seq<char>>,
    from: nat,
    j: nat,
    end: nat,
    close: Seq<char>,
)
    requires
        from <= j < end <= ts.len(),
        ts[j as int] == close,
        forall|k: int| from <= k < j ==> ts[k] != close,
    ensures
        inner_count(ts, from, end, close) == j - from,
    decreases j - from,
{
    if from < j {
        inner_count_to_close(ts, from + 1, j, end, close);
    }
}

/// A group that an opening bracket at `i` and its closing bracket at `j`
/// enclose before the boundary is rebuilt as one unit: the same brackets
/// around the inner tokens in their order, joined by single spaces; the
/// build then goes on after the closing bracket.
pub proof fn bracket_group_kept(ts: Seq<Seq<char>>, end: nat, i: nat, j: nat, acc: Seq<char>)
    requires
        i < j < end <= ts.len(),
        is_open(ts[i as int]),
        ts[j as int] == closing(ts[i as int]),
        forall|k: int| i < k < j ==> ts[k] != closing(ts[i as int]),
        joined(ts.subrange((i + 1) as int, j as int)).len() > 0,
    ensures
        build_title(ts, end, i, acc) == build_title(
            ts,
            end,
            j + 1,
            join_part(
                acc,
                ts[i as int] + joined(ts.subrange((i + 1) as int, j as int)) + closing(ts[i as int]),
            ),
        ),
{
    inner_count_to_close(ts, i + 1, j, end, closing(ts[i as int]));
}

/// The fields of the scan that hold a vocabulary word.
pub enum TagField {
    VideoEncoding,
    AudioEncoding,
    Resolution,
    Quality,
}

/// The value of field `f` in state `st`.
pub open spec fn field_value(st: ScanModel, f: TagField) -> Option<Seq<char>> {
    match f {
        TagField::VideoEncoding => st.video_encoding,
        TagField::AudioEncoding => st.audio_encoding,
        TagField::Resolution => st.resolution,
        TagField::Quality => st.quality,
    }
}

/// The vocabulary of field `f`.
pub open spec fn field_vocabulary(f: TagField) -> Seq<Seq<char>> {
    match f {
        TagField::VideoEncoding => video_encodings(),
        TagField::AudioEncoding => audio_encodings(),
        TagField::Resolution => resolutions(),
        TagField::Quality => qualities(),
    }
}

/// Whether the rules tried before field `f` all pass over token `t` in state
/// `st`: no year, no language, and no earlier field that takes it.
pub open spec fn earlier_rules_pass(st: ScanModel, t: Seq<char>, current_year: u16, f: TagField) -> bool {
    let n = normal_form(t);
    let video = st.video_encoding is None && video_encodings().contains(n);
    let audio = st.audio_encoding is None && audio_encodings().contains(n);
    let res = st.resolution is None && resolutions().contains(n);
    &&& !year_hit(st, t, current_year)
    &&& first_lang(n, known_languages()) is None
    &&& match f {
        TagField::VideoEncoding => true,
        TagField::AudioEncoding => !video,
        TagField::Resolution => !video && !audio,
        TagField::Quality => !video && !audio && !res,
    }
}

/// Whether the token at index `k` matches field `f` when the scan reaches it,
/// whether or not the field is already set.
pub open spec fn matches_field(ts: Seq<Seq<char>>, current_year: u16, k: nat, f: TagField) -> bool {
    &&& 1 <= k < ts.len()
    &&& earlier_rules_pass(scan_from(ts, current_year, k + 1), ts[k as int], current_year, f)
    &&& field_vocabulary(f).contains(normal_form(ts[k as int]))
}

/// After visiting the indices from `i` up, field `f` is unset exactly when
/// no token there matches it, and otherwise holds the normalised form of the
/// rightmost token that matches it.
pub proof fn field_holds_rightmost_match(ts: Seq<Seq<char>>, current_year: u16, i: nat, f: TagField)
    requires
        1 <= i <= ts.len(),
    ensures
        (field_value(scan_from(ts, current_year, i), f) is None) <==> (forall|k: nat|
            i <= k < ts.len() ==> !matches_field(ts, current_year, k, f)),
        field_value(scan_from(ts, current_year, i), f) is Some ==> exists|k: nat|
            i <= k < ts.len() && matches_field(ts, current_year, k, f) && field_value(
                scan_from(ts, current_year, i),
                f,
            ) == Some(normal_form(ts[k as int])) && forall|m: nat|
                k < m < ts.len() ==> !matches_field(ts, current_year, m, f),
    decreases ts.len() - i,
{
    if i < ts.len() {
        field_holds_rightmost_match(ts, current_year, i + 1, f);
        let st = scan_from(ts, current_year, i + 1);
        let cur = scan_from(ts, current_year, i);
        assert(cur == scan_step(st, ts[i as int], i, current_year));
        if field_value(st, f) is Some {
            assert(field_value(cur, f) == field_value(st, f));
            let k = choose|k: nat|
                i + 1 <= k < ts.len() && matches_field(ts, current_year, k, f) && field_value(
                    st,
                    f,
                ) == Some(normal_form(ts[k as int])) && forall|m: nat|
                    k < m < ts.len() ==> !matches_field(ts, current_year, m, f);
            assert(matches_field(ts, current_year, k, f));
        } else if matches_field(ts, current_year, i, f) {
            assert(field_value(cur, f) == Some(normal_form(ts[i as int])));
        } else {
            assert(field_value(cur, f) is None);
            assert forall|k: nat| i <= k < ts.len() implies !matches_field(ts, current_year, k, f) by {
                if k > i {
                }
            }
        }
    }
}

/// After visiting the indices from `i` up, the year is unset exactly when no
/// token there names a year in range, and otherwise is the year that the
/// rightmost such token names.
pub proof fn year_is_rightmost_match(ts: Seq<Seq<char>>, current_year: u16, i: nat)
    requires
        1 <= i <= ts.len(),
    ensures
        (scan_from(ts, current_year, i).year is None) <==> (forall|k: nat|
            i <= k < ts.len() ==> !is_year_token(ts[k as int], current_year)),
        scan_from(ts, current_year, i).year is Some ==> exists|k: nat|
            i <= k < ts.len() && is_year_token(ts[k as int], current_year) && scan_from(
                ts,
                current_year,
                i,
            ).year->0 == four_digit_value(ts[k as int]) && forall|m: nat|
                k < m < ts.len() ==> !is_year_token(ts[m as int], current_year),
    decreases ts.len() - i,
{
    if i < ts.len() {
        year_is_rightmost_match(ts, current_year, i + 1);
        let st = scan_from(ts, current_year, i + 1);
        let cur = scan_from(ts, current_year, i);
        if st.year is Some {
            let k = choose|k: nat|
                i + 1 <= k < ts.len() && is_year_token(ts[k as int], current_year) && st.year->0
                    == four_digit_value(ts[k as int]) && forall|m: nat|
                    k < m < ts.len() ==> !is_year_token(ts[m as int], current_year);
            assert(is_year_token(ts[k as int], current_year));
        } else if is_year_token(ts[i as int], current_year) {
            assert(cur.year == Some(four_digit_value(ts[i as int]) as u16));
        } else {
            assert forall|k: nat| i <= k < ts.len() implies !is_year_token(
                ts[k as int],
                current_year,
            ) by {
                if k > i {
                }
            }
        }
    }
}

/// Whether no token of `ts` is empty.
pub open spec fn all_nonempty(ts: Seq<Seq<char>>) -> bool {
    forall|k: int| 0 <= k < ts.len() ==> (#[trigger] ts[k]).len() > 0
}

proof fn split_prefix_nonempty(s: Seq<char>, n: nat)
    ensures
        all_nonempty(split_prefix(s, n).0),
    decreases n,
{
    if n > 0 && n <= s.len() {
        split_prefix_nonempty(s, (n - 1) as nat);
        let (ts, run) = split_prefix(s, (n - 1) as nat);
        assert(all_nonempty(flush(ts, run)));
        assert(all_nonempty(flush(ts, run).push(seq![s[n - 1]])));
    }
}

/// Every token of a split is non-empty.
pub proof fn split_tokens_nonempty(s: Seq<char>)
    ensures
        all_nonempty(split_tokens(s)),
{
    split_prefix_nonempty(s, s.len());
}

proof fn scrub_keeps_nonempty(ts: Seq<Seq<char>>, i: nat, k: nat)
    requires
        all_nonempty(ts),
    ensures
        all_nonempty(scrub(ts, i, k)),
    decreases ts.len() - i, trash_sequences().len() - k,
{
    if i >= ts.len() {
    } else if k == 0 && is_dash_trash(ts[i as int]) {
        let next = ts.remove(i as int);
        assert(all_nonempty(next)) by {
            assert forall|q: int| 0 <= q < next.len() implies (#[trigger] next[q]).len() > 0 by {
                if q < i {
                    assert(next[q] == ts[q]);
                } else {
                    assert(next[q] == ts[q + 1]);
                }
            }
        }
        scrub_keeps_nonempty(next, i, 0);
    } else if k < trash_sequences().len() {
        let pat = trash_sequences()[k as int];
        if pat.len() > 0 && run_matches_at(ts, i as int, pat) {
            let next = cut(ts, i as int, pat.len() as int);
            assert(all_nonempty(next)) by {
                assert forall|q: int| 0 <= q < next.len() implies (#[trigger] next[q]).len()
                    > 0 by {
                    if q < i {
                        assert(next[q] == ts[q]);
                    } else {
                        assert(next[q] == ts[q + pat.len()]);
                    }
                }
            }
            scrub_keeps_nonempty(next, i, 0);
        } else {
            scrub_keeps_nonempty(ts, i, k + 1);
        }
    } else {
        scrub_keeps_nonempty(ts, i + 1, 0);
    }
}

/// Every token that the tag scan and the title builder see is non-empty.
pub proof fn scan_tokens_nonempty(s: Seq<char>)
    ensures
        all_nonempty(scan_tokens(s)),
{
    split_tokens_nonempty(s);
    let ts = without_extension(split_tokens(s));
    assert(all_nonempty(ts));
    scrub_keeps_nonempty(ts, 0, 0);
}

/// In the tokens of a file name, a bracket group that an opening bracket at
/// `i` and the first matching closing bracket at `j` enclose, with at least
/// one token inside and before the boundary, is rebuilt as one unit: the same
/// brackets around the inner tokens in their order, joined by single spaces;
/// the build then goes on after the closing bracket.
pub proof fn bracket_group_kept_in_name(
    s: Seq<char>,
    end: nat,
    i: nat,
    j: nat,
    acc: Seq<char>,
)
    requires
        i + 1 < j < end <= scan_tokens(s).len(),
        is_open(scan_tokens(s)[i as int]),
        scan_tokens(s)[j as int] == closing(scan_tokens(s)[i as int]),
        forall|k: int| i < k < j ==> scan_tokens(s)[k] != closing(scan_tokens(s)[i as int]),
    ensures
        ({
            let ts = scan_tokens(s);
            build_title(ts, end, i, acc) == build_title(
                ts,
                end,
                j + 1,
                join_part(
                    acc,
                    ts[i as int] + joined(ts.subrange((i + 1) as int, j as int)) + closing(
                        ts[i as int],
                    ),
                ),
            )
        }),
{
    let ts = scan_tokens(s);
    scan_tokens_nonempty(s);
    let inner = ts.subrange((i + 1) as int, j as int);
    assert(inner.last() == ts[j - 1]);
    assert(joined(inner).len() > 0);
    bracket_group_kept(ts, end, i, j, acc);
}

} // verus!
