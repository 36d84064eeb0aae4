//! The whole parse of a file name: tokens, extension, noise, tags and title.
use vstd::prelude::*;

use crate::scan::{scan_tags, tag_scan};
use crate::title::{build_name, title_of};
use crate::tokens::{
    extension_of, remove_trash, split_by_separators, split_tokens, strip_extension, toks_view,
    trash_removed, without_extension,
};
use crate::vocab::{langs_view, string_of, Lang};

verus! {

/// What a parse finds in a file name.
#[verifier::ext_equal]
pub struct NameModel {
    pub title: Seq<char>,
    pub year: Option<u16>,
    pub languages: Seq<(Seq<char>, Seq<char>)>,
    pub extension: Option<Seq<char>>,
    pub video_encoding: Option<Seq<char>>,
    pub audio_encoding: Option<Seq<char>>,
    pub resolution: Option<Seq<char>>,
    pub quality: Option<Seq<char>>,
}

/// The tokens that the tag scan and the title builder work on.
pub open spec fn scan_tokens(s: Seq<char>) -> Seq<Seq<char>> {
    trash_removed(without_extension(split_tokens(s)))
}

/// What a parse of the file name `s` finds, in the year `current_year`.
pub open spec fn parse_model(s: Seq<char>, current_year: u16) -> NameModel {
    let ts = scan_tokens(s);
    let sc = tag_scan(ts, current_year);
    NameModel {
        title: title_of(ts, sc.name_end),
        year: sc.year,
        languages: sc.languages,
        extension: extension_of(split_tokens(s)),
        video_encoding: sc.video_encoding,
        audio_encoding: sc.audio_encoding,
        resolution: sc.resolution,
        quality: sc.quality,
    }
}

/// The view of an optional string.
pub open spec fn opt_string(o: Option<String>) -> Option<Seq<char>> {
    match o {
        Some(s) => Some(s@),
        None => None,
    }
}

/// The languages held, as a sequence; none held is the empty sequence.
pub open spec fn opt_langs(o: Option<Vec<Lang>>) -> Seq<(Seq<char>, Seq<char>)> {
    match o {
        Some(v) => langs_view(v@),
        None => seq![],
    }
}

/// Metadata found in a media file name.
pub struct ParsedName {
    pub title: String,
    pub year: Option<u16>,
    pub languages: Option<Vec<Lang>>,
    pub extension: Option<String>,
    pub video_encoding: Option<String>,
    pub audio_encoding: Option<String>,
    pub resolution: Option<String>,
    pub quality: Option<String>,
}

impl View for ParsedName {
    type V = NameModel;

    open spec fn view(&self) -> NameModel {
        NameModel {
            title: self.title@,
            year: self.year,
            languages: opt_langs(self.languages),
            extension: opt_string(self.extension),
            video_encoding: opt_string(self.video_encoding),
            audio_encoding: opt_string(self.audio_encoding),
            resolution: opt_string(self.resolution),
            quality: opt_string(self.quality),
        }
    }
}

/// The optional run of characters as an optional string.
fn to_string_opt(o: Option<Vec<char>>) -> (r: Option<String>)
    ensures
        opt_string(r) == crate::tokens::opt_chars(o),
{
    match o {
        Some(v) => Some(string_of(&v)),
        None => None,
    }
}

/// Parses a file's base name, taking `current_year` as the latest year that
/// a year tag may name.
pub fn parse_file_name_in(file_name: &str, current_year: u16) -> (r: ParsedName)
    ensures
        r@ == parse_model(file_name@, current_year),
        r.languages is Some <==> r@.languages.len() > 0,
{
    let mut parts = split_by_separators(file_name);
    let ext = strip_extension(&mut parts);
    remove_trash(&mut parts);
    let sc = scan_tags(&parts, current_year);
    let title = build_name(&parts, sc.name_end);
    let languages = if sc.languages.len() > 0 {
        Some(sc.languages)
    } else {
        None
    };
    let r = ParsedName {
        title: string_of(&title),
        year: sc.year,
        languages,
        extension: to_string_opt(ext),
        video_encoding: to_string_opt(sc.video_encoding),
        audio_encoding: to_string_opt(sc.audio_encoding),
        resolution: to_string_opt(sc.resolution),
        quality: to_string_opt(sc.quality),
    };
    assert(r@ =~= parse_model(file_name@, current_year));
    r
}

/// Relies on `chrono::Local::now` and `Datelike::year`: the calendar year of
/// the local clock, which may be anything.
#[verifier::external_body]
fn local_year() -> (r: i32) {
    chrono::Datelike::year(&chrono::Local::now())
}

/// Parses a file's base name; year tags may name years up to the current
/// calendar year of the local clock.
pub fn parse_file_name(file_name: &str) -> (r: ParsedName)
    ensures
        exists|y: u16| r@ == parse_model(file_name@, y),
        r.languages is Some <==> r@.languages.len() > 0,
{
    let year = local_year() as u16;
    parse_file_name_in(file_name, year)
}

} // verus!
