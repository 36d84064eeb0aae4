//! Records of the tab-separated title dataset: one line per alternative
//! title of a work.
use vstd::prelude::*;

use crate::vocab::{chars_of, string_of};

verus! {

/// The classes of ASCII characters that a field may be made of.
#[derive(Clone, Copy, PartialEq, Eq, Debug)]
pub enum CharClass {
    Digit,
    Upper,
    Lower,
    AlphaNum,
}

/// Whether `c` belongs to the class `k`.
pub open spec fn in_class(c: char, k: CharClass) -> bool {
    let u = c as u32;
    match k {
        CharClass::Digit => 48 <= u <= 57,
        CharClass::Upper => 65 <= u <= 90,
        CharClass::Lower => 97 <= u <= 122,
        CharClass::AlphaNum => (48 <= u <= 57) || (65 <= u <= 90) || (97 <= u <= 122),
    }
}

/// How many characters of class `k` follow from `from` on, counting at most `max`.
pub open spec fn run_len(s: Seq<char>, from: nat, max: nat, k: CharClass) -> nat
    decreases max,
{
    if max == 0 || from >= s.len() || !in_class(s[from as int], k) {
        0
    } else {
        1 + run_len(s, from + 1, (max - 1) as nat, k)
    }
}

/// The end of a run of at least `m` and at most `n` characters of class `k`
/// from `from` on, taken as long as it goes.
pub open spec fn take_run(s: Seq<char>, from: nat, m: nat, n: nat, k: CharClass) -> Option<nat> {
    let l = run_len(s, from, n, k);
    if l >= m {
        Some(from + l)
    } else {
        None
    }
}

/// The index of the first tab at or after `from`.
pub open spec fn tab_from(s: Seq<char>, from: nat) -> Option<nat>
    decreases s.len() - from,
{
    if from >= s.len() {
        None
    } else if s[from as int] == '\t' {
        Some(from)
    } else {
        tab_from(s, from + 1)
    }
}

/// Whether the marker of an absent value, a backslash and `N`, stands at `from`.
pub open spec fn absent_at(s: Seq<char>, from: nat) -> bool {
    from + 1 < s.len() && s[from as int] == '\\' && s[from + 1 as int] == 'N'
}

/// Where the next field starts, when the field that ends at `p` is followed by a tab.
pub open spec fn after_tab(s: Seq<char>, p: Option<nat>) -> Option<nat> {
    match p {
        Some(e) => if e < s.len() && s[e as int] == '\t' {
            Some(e + 1)
        } else {
            None
        },
        None => None,
    }
}

/// The end of an optional field that starts at `p`: the absent marker, or a run.
pub open spec fn optional_end(s: Seq<char>, p: Option<nat>, m: nat, n: nat, k: CharClass) -> Option<
    nat,
> {
    match p {
        Some(a) => if absent_at(s, a) {
            Some(a + 2)
        } else {
            take_run(s, a, m, n, k)
        },
        None => None,
    }
}

/// The value of an optional field from `a` to `e`.
pub open spec fn optional_value(s: Seq<char>, a: nat, e: nat) -> Option<Seq<char>> {
    if absent_at(s, a) {
        None
    } else {
        Some(s.subrange(a as int, e as int))
    }
}

/// The end of the title identifier: `tt` and seven or eight digits.
pub open spec fn id_end(s: Seq<char>) -> Option<nat> {
    if s.len() >= 2 && s[0] == 't' && s[1] == 't' {
        take_run(s, 2, 7, 8, CharClass::Digit)
    } else {
        None
    }
}

/// Where the ordering field starts.
pub open spec fn ordering_start(s: Seq<char>) -> Option<nat> {
    after_tab(s, id_end(s))
}

/// Where the ordering field ends.
pub open spec fn ordering_end(s: Seq<char>) -> Option<nat> {
    match ordering_start(s) {
        Some(a) => take_run(s, a, 1, 2, CharClass::Digit),
        None => None,
    }
}

/// Where the name field starts.
pub open spec fn name_start(s: Seq<char>) -> Option<nat> {
    after_tab(s, ordering_end(s))
}

/// Where the name field ends: at the next tab.
pub open spec fn name_end(s: Seq<char>) -> Option<nat> {
    match name_start(s) {
        Some(a) => tab_from(s, a),
        None => None,
    }
}

/// Where the region field starts.
pub open spec fn region_start(s: Seq<char>) -> Option<nat> {
    after_tab(s, name_end(s))
}

/// Where the region field ends: up to four capitals, or the absent marker.
pub open spec fn region_end(s: Seq<char>) -> Option<nat> {
    optional_end(s, region_start(s), 1, 4, CharClass::Upper)
}

/// Where the language field starts.
pub open spec fn language_start(s: Seq<char>) -> Option<nat> {
    after_tab(s, region_end(s))
}

/// Where the language field ends: up to three small letters, or the absent marker.
pub open spec fn language_end(s: Seq<char>) -> Option<nat> {
    optional_end(s, language_start(s), 1, 3, CharClass::Lower)
}

/// Where the types field starts.
pub open spec fn types_start(s: Seq<char>) -> Option<nat> {
    after_tab(s, language_end(s))
}

/// Where the types field ends: up to a hundred letters and digits, or the absent marker.
pub open spec fn types_end(s: Seq<char>) -> Option<nat> {
    optional_end(s, types_start(s), 1, 100, CharClass::AlphaNum)
}

/// Where the attributes field starts.
pub open spec fn attributes_start(s: Seq<char>) -> Option<nat> {
    after_tab(s, types_end(s))
}

/// Where the attributes field ends: at the next tab, or after the absent marker.
pub open spec fn attributes_end(s: Seq<char>) -> Option<nat> {
    match attributes_start(s) {
        Some(a) => if absent_at(s, a) {
            Some(a + 2)
        } else {
            tab_from(s, a)
        },
        None => None,
    }
}

/// Where the original-title flag stands.
pub open spec fn flag_start(s: Seq<char>) -> Option<nat> {
    after_tab(s, attributes_end(s))
}

/// Whether `s` begins with a whole title record.
pub open spec fn is_title_line(s: Seq<char>) -> bool {
    match flag_start(s) {
        Some(g) => g < s.len() && (s[g as int] == '0' || s[g as int] == '1'),
        None => false,
    }
}

/// The number written by one or two decimal digits.
pub open spec fn small_number(d: Seq<char>) -> nat {
    if d.len() == 1 {
        (d[0] as u32 - 48) as nat
    } else {
        ((d[0] as u32 - 48) * 10 + (d[1] as u32 - 48)) as nat
    }
}

/// What a title record holds.
#[verifier::ext_equal]
pub struct TitleModel {
    pub title_id: Seq<char>,
    pub ordering: nat,
    pub name: Seq<char>,
    pub region: Option<Seq<char>>,
    pub language: Option<Seq<char>>,
    pub types: Option<Seq<char>>,
    pub attributes: Option<Seq<char>>,
    pub is_original_title: bool,
}

/// The record that `s` begins with; meaningful where `is_title_line(s)`.
pub open spec fn title_record(s: Seq<char>) -> TitleModel {
    let ord_a = ordering_start(s)->0;
    let name_a = name_start(s)->0;
    let region_a = region_start(s)->0;
    let language_a = language_start(s)->0;
    let types_a = types_start(s)->0;
    let attributes_a = attributes_start(s)->0;
    TitleModel {
        title_id: s.subrange(2, id_end(s)->0 as int),
        ordering: small_number(s.subrange(ord_a as int, ordering_end(s)->0 as int)),
        name: s.subrange(name_a as int, name_end(s)->0 as int),
        region: optional_value(s, region_a, region_end(s)->0),
        language: optional_value(s, language_a, language_end(s)->0),
        types: optional_value(s, types_a, types_end(s)->0),
        attributes: optional_value(s, attributes_a, attributes_end(s)->0),
        is_original_title: s[flag_start(s)->0 as int] == '1',
    }
}

/// One alternative title of a work.
pub struct Title {
    pub title_id: String,
    pub ordering: u8,
    pub name: String,
    pub region: Option<String>,
    pub language: Option<String>,
    pub types: Option<String>,
    pub attributes: Option<String>,
    pub is_original_title: bool,
}

/// The view of an optional string.
pub open spec fn opt_text(o: Option<String>) -> Option<Seq<char>> {
    match o {
        Some(s) => Some(s@),
        None => None,
    }
}

impl View for Title {
    type V = TitleModel;

    open spec fn view(&self) -> TitleModel {
        TitleModel {
            title_id: self.title_id@,
            ordering: self.ordering as nat,
            name: self.name@,
            region: opt_text(self.region),
            language: opt_text(self.language),
            types: opt_text(self.types),
            attributes: opt_text(self.attributes),
            is_original_title: self.is_original_title,
        }
    }
}

fn class_member(c: char, k: CharClass) -> (r: bool)
    ensures
        r == in_class(c, k),
{
    let u = c as u32;
    match k {
        CharClass::Digit => 48 <= u && u <= 57,
        CharClass::Upper => 65 <= u && u <= 90,
        CharClass::Lower => 97 <= u && u <= 122,
        CharClass::AlphaNum => (48 <= u && u <= 57) || (65 <= u && u <= 90) || (97 <= u && u
            <= 122),
    }
}

fn take_run_at(s: &Vec<char>, from: usize, m: usize, n: usize, k: CharClass) -> (r: Option<
    usize,
>)
    requires
        from <= s@.len(),
    ensures
        r matches Some(e) ==> from <= e <= s@.len() && forall|q: int|
            from <= q < e ==> in_class(#[trigger] s@[q], k),
        (match r {
            Some(e) => Some(e as nat),
            None => None,
        }) == take_run(s@, from as nat, m as nat, n as nat, k),
{
    let mut j: usize = from;
    let mut left: usize = n;
    while left > 0 && j < s.len() && class_member(s[j], k)
        invariant
            from <= j <= s@.len(),
            left <= n,
            j - from == n - left,
            forall|q: int| from <= q < j ==> in_class(#[trigger] s@[q], k),
            run_len(s@, from as nat, n as nat, k) == (j - from) + run_len(
                s@,
                j as nat,
                left as nat,
                k,
            ),
        decreases left,
    {
        j += 1;
        left -= 1;
    }
    if j - from >= m {
        Some(j)
    } else {
        None
    }
}

fn tab_at_or_after(s: &Vec<char>, from: usize) -> (r: Option<usize>)
    ensures
        r matches Some(e) ==> from <= e < s@.len(),
        (match r {
            Some(e) => Some(e as nat),
            None => None,
        }) == tab_from(s@, from as nat),
{
    let mut j: usize = from;
    while j < s.len()
        invariant
            from <= j,
            tab_from(s@, from as nat) == tab_from(s@, j as nat),
        decreases s@.len() - j,
    {
        if s[j] == '\t' {
            return Some(j);
        }
        j += 1;
    }
    None
}

fn skip_tab(s: &Vec<char>, e: usize) -> (r: Option<usize>)
    ensures
        (match r {
            Some(a) => Some(a as nat),
            None => None,
        }) == after_tab(s@, Some(e as nat)),
        r matches Some(a) ==> a <= s@.len(),
{
    if e < s.len() && s[e] == '\t' {
        Some(e + 1)
    } else {
        None
    }
}

fn is_absent(s: &Vec<char>, a: usize) -> (r: bool)
    ensures
        r == absent_at(s@, a as nat),
        r ==> a + 1 < s@.len(),
{
    a < s.len() && a + 1 < s.len() && s[a] == '\\' && s[a + 1] == 'N'
}

/// The characters of `s` from `a` to `e`, as a string.
fn slice_text(s: &Vec<char>, a: usize, e: usize) -> (r: String)
    requires
        a <= e <= s@.len(),
    ensures
        r@ == s@.subrange(a as int, e as int),
{
    let mut v: Vec<char> = Vec::new();
    let mut j: usize = a;
    while j < e
        invariant
            a <= j <= e <= s@.len(),
            v@ == s@.subrange(a as int, j as int),
        decreases e - j,
    {
        v.push(s[j]);
        j += 1;
        assert(v@ =~= s@.subrange(a as int, j as int));
    }
    string_of(&v)
}

fn optional_field(s: &Vec<char>, a: usize, m: usize, n: usize, k: CharClass) -> (r: Option<
    (Option<String>, usize),
>)
    requires
        a <= s@.len(),
    ensures
        (match r {
            Some((_, e)) => Some(e as nat),
            None => None,
        }) == optional_end(s@, Some(a as nat), m as nat, n as nat, k),
        r matches Some((v, e)) ==> e <= s@.len() && opt_text(v) == optional_value(
            s@,
            a as nat,
            e as nat,
        ),
{
    let total = s.len();
    if is_absent(s, a) {
        assert(a + 2 <= total);
        return Some((None, a + 2));
    }
    match take_run_at(s, a, m, n, k) {
        Some(e) => Some((Some(slice_text(s, a, e)), e)),
        None => None,
    }
}

/// Why a record could not be read.
#[derive(Clone, Copy, PartialEq, Eq, Debug)]
pub enum ErrorKind {
    /// An expected literal is missing.
    Tag,
    /// A run of characters is shorter than its least length.
    TakeWhileMN,
}

/// Where and why a record could not be read: `input` is the text from the
/// point of failure on.
#[derive(PartialEq, Eq, Debug)]
pub struct ParseError {
    pub input: String,
    pub code: ErrorKind,
}

/// Reads the identifier at the start of a record: `tt` and seven or eight
/// digits, as many as there are. Returns what follows and the digits.
pub fn title_id(input: &str) -> (r: Result<(String, String), ParseError>)
    ensures
        r is Ok <==> id_end(input@) is Some,
        r matches Ok((rest, id)) ==> id@ == input@.subrange(2, id_end(input@)->0 as int)
            && rest@ == input@.subrange(id_end(input@)->0 as int, input@.len() as int),
        r matches Err(e) ==> (if input@.len() >= 2 && input@[0] == 't' && input@[1] == 't' {
            e.code == ErrorKind::TakeWhileMN && e.input@ == input@.subrange(
                2,
                input@.len() as int,
            )
        } else {
            e.code == ErrorKind::Tag && e.input@ == input@
        }),
{
    let s = chars_of(input);
    if !(s.len() >= 2 && s[0] == 't' && s[1] == 't') {
        return Err(ParseError { input: slice_text(&s, 0, s.len()), code: ErrorKind::Tag });
    }
    match take_run_at(&s, 2, 7, 8, CharClass::Digit) {
        Some(e) => Ok((slice_text(&s, e, s.len()), slice_text(&s, 2, e))),
        None => Err(ParseError { input: slice_text(&s, 2, s.len()), code: ErrorKind::TakeWhileMN }),
    }
}

/// Reads one record: identifier, ordering, name, region, language, types,
/// attributes and the original-title flag, separated by tabs; an optional
/// field may hold the absent marker instead.
pub fn title(line: &str) -> (r: Option<Title>)
    ensures
        r is Some <==> is_title_line(line@),
        r matches Some(t) ==> t@ == title_record(line@),
{
    let s = chars_of(line);
    if !(s.len() >= 2 && s[0] == 't' && s[1] == 't') {
        return None;
    }
    let id_e = match take_run_at(&s, 2, 7, 8, CharClass::Digit) {
        Some(e) => e,
        None => return None,
    };
    let ord_a = match skip_tab(&s, id_e) {
        Some(a) => a,
        None => return None,
    };
    let ord_e = match take_run_at(&s, ord_a, 1, 2, CharClass::Digit) {
        Some(e) => e,
        None => return None,
    };
    let name_a = match skip_tab(&s, ord_e) {
        Some(a) => a,
        None => return None,
    };
    let name_e = match tab_at_or_after(&s, name_a) {
        Some(e) => e,
        None => return None,
    };
    let region_a = match skip_tab(&s, name_e) {
        Some(a) => a,
        None => return None,
    };
    let (region, region_e) = match optional_field(&s, region_a, 1, 4, CharClass::Upper) {
        Some(f) => f,
        None => return None,
    };
    let language_a = match skip_tab(&s, region_e) {
        Some(a) => a,
        None => return None,
    };
    let (language, language_e) = match optional_field(&s, language_a, 1, 3, CharClass::Lower) {
        Some(f) => f,
        None => return None,
    };
    let types_a = match skip_tab(&s, language_e) {
        Some(a) => a,
        None => return None,
    };
    let (types, types_e) = match optional_field(&s, types_a, 1, 100, CharClass::AlphaNum) {
        Some(f) => f,
        None => return None,
    };
    let attributes_a = match skip_tab(&s, types_e) {
        Some(a) => a,
        None => return None,
    };
    let total = s.len();
    let (attributes, attributes_e) = if is_absent(&s, attributes_a) {
        assert(attributes_a + 2 <= total);
        (None, attributes_a + 2)
    } else {
        match tab_at_or_after(&s, attributes_a) {
            Some(e) => (Some(slice_text(&s, attributes_a, e)), e),
            None => return None,
        }
    };
    let flag_a = match skip_tab(&s, attributes_e) {
        Some(a) => a,
        None => return None,
    };
    if !(flag_a < s.len() && (s[flag_a] == '0' || s[flag_a] == '1')) {
        return None;
    }
    assert(in_class(s@[ord_a as int], CharClass::Digit));
    assert(ord_e - ord_a == 2 ==> in_class(s@[ord_a + 1], CharClass::Digit));
    let d0 = s[ord_a] as u32 - 48;
    let ordering: u8 = if ord_e - ord_a == 1 {
        d0 as u8
    } else {
        (d0 * 10 + (s[ord_a + 1] as u32 - 48)) as u8
    };
    assert(ordering as nat == small_number(s@.subrange(ord_a as int, ord_e as int)));
    let t = Title {
        title_id: slice_text(&s, 2, id_e),
        ordering,
        name: slice_text(&s, name_a, name_e),
        region,
        language,
        types,
        attributes: attributes,
        is_original_title: s[flag_a] == '1',
    };
    assert(t@ =~= title_record(s@));
    Some(t)
}

} // verus!
