//! The right-to-left tag scan: classifies trailing tokens into typed fields
//! and finds where the title ends.
use vstd::prelude::*;

use crate::tokens::{opt_chars, toks_view};
use crate::vocab::{
    audio_encoding_table, audio_encodings, find_lang, first_lang, in_words, known_languages,
    language_table, langs_view, lower_of, lowercase, qualities, quality_table, resolution_table,
    resolutions, video_encoding_table, video_encodings, words_view, Lang,
};

verus! {

/// The lowest year accepted.
pub const MIN_YEAR: u16 = 1920;

/// What the scan has gathered so far.
#[verifier::ext_equal]
pub struct ScanModel {
    pub year: Option<u16>,
    pub languages: Seq<(Seq<char>, Seq<char>)>,
    pub video_encoding: Option<Seq<char>>,
    pub audio_encoding: Option<Seq<char>>,
    pub resolution: Option<Seq<char>>,
    pub quality: Option<Seq<char>>,
    pub name_end: nat,
}

/// The state before any token is visited, for a list of `len` tokens.
pub open spec fn scan_start(len: nat) -> ScanModel {
    ScanModel {
        year: None,
        languages: seq![],
        video_encoding: None,
        audio_encoding: None,
        resolution: None,
        quality: None,
        name_end: len,
    }
}

/// Whether `c` is an ASCII decimal digit.
pub open spec fn is_digit(c: char) -> bool {
    48 <= c as u32 <= 57
}

/// The value of the decimal digit `c`.
pub open spec fn digit_value(c: char) -> int {
    c as u32 - 48
}

/// The number written by four decimal digits.
pub open spec fn four_digit_value(t: Seq<char>) -> int {
    digit_value(t[0]) * 1000 + digit_value(t[1]) * 100 + digit_value(t[2]) * 10 + digit_value(
        t[3],
    )
}

/// Whether `t` is four decimal digits naming a year in `[1920, current_year]`.
pub open spec fn is_year_token(t: Seq<char>, current_year: u16) -> bool {
    &&& t.len() == 4
    &&& forall|j: int| 0 <= j < 4 ==> is_digit(#[trigger] t[j])
    &&& MIN_YEAR <= four_digit_value(t) <= current_year
}

/// `t` without one trailing comma.
pub open spec fn trim_comma(t: Seq<char>) -> Seq<char> {
    if t.len() > 0 && t.last() == ',' {
        t.drop_last()
    } else {
        t
    }
}

/// The form in which a token is looked up in the vocabularies.
pub open spec fn normal_form(t: Seq<char>) -> Seq<char> {
    lower_of(trim_comma(t))
}

/// Whether the vocabulary classification (everything but the year) takes the
/// normalised token `n` in state `st`.
pub open spec fn vocab_hit(st: ScanModel, n: Seq<char>) -> bool {
    ||| first_lang(n, known_languages()) is Some
    ||| (st.video_encoding is None && video_encodings().contains(n))
    ||| (st.audio_encoding is None && audio_encodings().contains(n))
    ||| (st.resolution is None && resolutions().contains(n))
    ||| (st.quality is None && qualities().contains(n))
}

/// Whether the year classification takes `t` in state `st`.
pub open spec fn year_hit(st: ScanModel, t: Seq<char>, current_year: u16) -> bool {
    st.year is None && is_year_token(t, current_year)
}

/// Whether visiting token `t` in state `st` classifies it.
pub open spec fn classifies(st: ScanModel, t: Seq<char>, current_year: u16) -> bool {
    year_hit(st, t, current_year) || vocab_hit(st, normal_form(t))
}

/// The state after trying the vocabularies on the normalised token `n` at index `i`.
pub open spec fn vocab_step(st: ScanModel, n: Seq<char>, i: nat) -> ScanModel {
    if first_lang(n, known_languages()) is Some {
        ScanModel {
            languages: st.languages.push(first_lang(n, known_languages())->0),
            name_end: i,
            ..st
        }
    } else if st.video_encoding is None && video_encodings().contains(n) {
        ScanModel { video_encoding: Some(n), name_end: i, ..st }
    } else if st.audio_encoding is None && audio_encodings().contains(n) {
        ScanModel { audio_encoding: Some(n), name_end: i, ..st }
    } else if st.resolution is None && resolutions().contains(n) {
        ScanModel { resolution: Some(n), name_end: i, ..st }
    } else if st.quality is None && qualities().contains(n) {
        ScanModel { quality: Some(n), name_end: i, ..st }
    } else {
        st
    }
}

/// The state after visiting token `t` at index `i`.
pub open spec fn scan_step(st: ScanModel, t: Seq<char>, i: nat, current_year: u16) -> ScanModel {
    if year_hit(st, t, current_year) {
        ScanModel { year: Some(four_digit_value(t) as u16), name_end: i, ..st }
    } else {
        vocab_step(st, normal_form(t), i)
    }
}

/// The state after visiting, right to left, the tokens at index `i` and above.
pub open spec fn scan_from(ts: Seq<Seq<char>>, current_year: u16, i: nat) -> ScanModel
    decreases ts.len() - i,
{
    if i >= ts.len() {
        scan_start(ts.len())
    } else {
        scan_step(scan_from(ts, current_year, i + 1), ts[i as int], i, current_year)
    }
}

/// The outcome of the scan: every token but the first is visited.
pub open spec fn tag_scan(ts: Seq<Seq<char>>, current_year: u16) -> ScanModel {
    scan_from(ts, current_year, 1)
}

/// The fields found by the tag scan, and the index where the title ends.
pub struct TagScan {
    pub year: Option<u16>,
    pub languages: Vec<Lang>,
    pub video_encoding: Option<Vec<char>>,
    pub audio_encoding: Option<Vec<char>>,
    pub resolution: Option<Vec<char>>,
    pub quality: Option<Vec<char>>,
    pub name_end: usize,
}

impl View for TagScan {
    type V = ScanModel;

    open spec fn view(&self) -> ScanModel {
        ScanModel {
            year: self.year,
            languages: langs_view(self.languages@),
            video_encoding: opt_chars(self.video_encoding),
            audio_encoding: opt_chars(self.audio_encoding),
            resolution: opt_chars(self.resolution),
            quality: opt_chars(self.quality),
            name_end: self.name_end as nat,
        }
    }
}

/// The year that `t` names, if it is four digits in `[1920, current_year]`.
pub fn year_of_token(t: &Vec<char>, current_year: u16) -> (r: Option<u16>)
    ensures
        r is Some <==> is_year_token(t@, current_year),
        r is Some ==> r->0 == four_digit_value(t@),
{
    if t.len() != 4 {
        return None;
    }
    let mut value: u16 = 0;
    let mut j: usize = 0;
    while j < 4
        invariant
            t@.len() == 4,
            j <= 4,
            forall|m: int| 0 <= m < j ==> is_digit(#[trigger] t@[m]),
            j == 0 ==> value == 0,
            j == 1 ==> value == digit_value(t@[0]),
            j == 2 ==> value == digit_value(t@[0]) * 10 + digit_value(t@[1]),
            j == 3 ==> value == digit_value(t@[0]) * 100 + digit_value(t@[1]) * 10
                + digit_value(t@[2]),
            j == 4 ==> value == four_digit_value(t@),
        decreases 4 - j,
    {
        let c = t[j];
        let code = c as u32;
        if code < 48 || code > 57 {
            return None;
        }
        value = value * 10 + (code - 48) as u16;
        j += 1;
    }
    if MIN_YEAR <= value && value <= current_year {
        Some(value)
    } else {
        None
    }
}

/// `t` without one trailing comma, lower-cased.
pub fn normalize(t: &Vec<char>) -> (r: Vec<char>)
    ensures
        r@ == normal_form(t@),
{
    if t.len() > 0 && t[t.len() - 1] == ',' {
        let mut trimmed: Vec<char> = Vec::new();
        let mut j: usize = 0;
        while j < t.len() - 1
            invariant
                t@.len() > 0,
                j + 1 <= t@.len(),
                trimmed@ == t@.subrange(0, j as int),
            decreases t@.len() - j,
        {
            trimmed.push(t[j]);
            j += 1;
            assert(trimmed@ =~= t@.subrange(0, j as int));
        }
        assert(trimmed@ =~= t@.drop_last());
        lowercase(&trimmed)
    } else {
        lowercase(t)
    }
}

/// Visits the tokens right to left, leaving out the first, and classifies
/// each into at most one field: a year first, then a language, a video
/// encoding, an audio encoding, a resolution and a quality. A field other
/// than the languages is set once; the title ends at the leftmost token
/// classified.
pub fn scan_tags(parts: &Vec<Vec<char>>, current_year: u16) -> (r: TagScan)
    ensures
        r@ == tag_scan(toks_view(parts@), current_year),
        r.name_end <= parts@.len(),
{
    let ghost ts = toks_view(parts@);
    let langs = language_table();
    let venc = video_encoding_table();
    let aenc = audio_encoding_table();
    let vres = resolution_table();
    let vqual = quality_table();
    let mut st = TagScan {
        year: None,
        languages: Vec::new(),
        video_encoding: None,
        audio_encoding: None,
        resolution: None,
        quality: None,
        name_end: parts.len(),
    };
    assert(langs_view(st.languages@) =~= seq![]);
    assert(st@ =~= scan_start(ts.len()));
    let mut i: usize = parts.len();
    while i > 1
        invariant
            ts == toks_view(parts@),
            i <= parts@.len(),
            i >= 1 || ts.len() == 0,
            st.name_end <= parts@.len(),
            langs_view(langs@) == known_languages(),
            words_view(venc@) == video_encodings(),
            words_view(aenc@) == audio_encodings(),
            words_view(vres@) == resolutions(),
            words_view(vqual@) == qualities(),
            st@ == scan_from(ts, current_year, i as nat),
        decreases i,
    {
        i -= 1;
        let t = &parts[i];
        assert(ts[i as int] == t@);
        let ghost prev = st@;
        if st.year.is_none() {
            if let Some(y) = year_of_token(t, current_year) {
                st.year = Some(y);
                st.name_end = i;
                assert(st@ =~= scan_step(prev, t@, i as nat, current_year));
                continue;
            }
        }
        let n = normalize(t);
        if let Some(l) = find_lang(&n, &langs) {
            st.languages.push(l);
            st.name_end = i;
            assert(langs_view(st.languages@) =~= prev.languages.push(l@));
        } else if st.video_encoding.is_none() && in_words(&n, &venc) {
            st.video_encoding = Some(n);
            st.name_end = i;
        } else if st.audio_encoding.is_none() && in_words(&n, &aenc) {
            st.audio_encoding = Some(n);
            st.name_end = i;
        } else if st.resolution.is_none() && in_words(&n, &vres) {
            st.resolution = Some(n);
            st.name_end = i;
        } else if st.quality.is_none() && in_words(&n, &vqual) {
            st.quality = Some(n);
            st.name_end = i;
        }
        assert(st@ =~= scan_step(prev, t@, i as nat, current_year));
    }
    assert(st@ == tag_scan(ts, current_year)) by {
        if i == 0 {
            assert(ts.len() == 0);
        }
    }
    st
}

} // verus!
