//! Reference tables: languages, tag vocabularies, known extensions and
//! release-group junk, each stated once as a spec value and once as the
//! executable table that is proved equal to it.
use vstd::prelude::*;

verus! {

/// What `str::to_lowercase` makes of a run of characters.
pub uninterp spec fn lower_of(s: Seq<char>) -> Seq<char>;

/// Relies on `str::to_lowercase`: the result depends on the characters alone.
#[verifier::external_body]
pub(crate) fn lowercase(t: &Vec<char>) -> (r: Vec<char>)
    ensures
        r@ == lower_of(t@),
{
    t.iter().collect::<String>().to_lowercase().chars().collect()
}

/// Relies on `FromIterator<char>` for `String`: the characters in order.
#[verifier::external_body]
pub(crate) fn string_of(t: &Vec<char>) -> (r: String)
    ensures
        r@ == t@,
{
    t.iter().collect::<String>()
}

/// The characters of the text in order.
pub fn chars_of(s: &str) -> (r: Vec<char>)
    ensures
        r@ == s@,
{
    let n = s.unicode_len();
    let mut r: Vec<char> = Vec::new();
    let mut j: usize = 0;
    while j < n
        invariant
            n == s@.len(),
            j <= n,
            r@ == s@.subrange(0, j as int),
        decreases n - j,
    {
        r.push(s.get_char(j));
        j += 1;
        assert(r@ =~= s@.subrange(0, j as int));
    }
    assert(r@ =~= s@);
    r
}

/// Whether the characters of `t` spell `lit`.
pub fn eq_lit(t: &Vec<char>, lit: &str) -> (r: bool)
    ensures
        r == (t@ == lit@),
{
    let s = string_of(t);
    let o = lit.to_owned();
    s == o
}

/// The views of a list of string literals.
pub open spec fn words_view(ws: Seq<&'static str>) -> Seq<Seq<char>> {
    ws.map_values(|w: &'static str| w@)
}

/// Whether `t` is one of the words of `ws`.
pub fn in_words(t: &Vec<char>, ws: &Vec<&'static str>) -> (r: bool)
    ensures
        r == words_view(ws@).contains(t@),
{
    let mut k: usize = 0;
    while k < ws.len()
        invariant
            k <= ws@.len(),
            forall|m: int| 0 <= m < k ==> ws@[m]@ != t@,
        decreases ws@.len() - k,
    {
        if eq_lit(t, ws[k]) {
            assert(words_view(ws@)[k as int] == t@);
            return true;
        }
        k += 1;
    }
    proof {
        if words_view(ws@).contains(t@) {
            let m = choose|m: int| 0 <= m < words_view(ws@).len() && words_view(ws@)[m] == t@;
            assert(ws@[m]@ == t@);
        }
    }
    false
}

/// Video encodings recognised in names.
pub open spec fn video_encodings() -> Seq<Seq<char>> {
    seq!["xvid"@, "divx"@, "avc"@, "x264"@, "x265"@, "h264"@, "h265"@, "hevc"@]
}

/// Audio encodings recognised in names.
pub open spec fn audio_encodings() -> Seq<Seq<char>> {
    seq!["ac3"@, "dts"@, "aac"@, "mp3"@, "flac"@, "opus"@]
}

/// Resolutions recognised in names.
pub open spec fn resolutions() -> Seq<Seq<char>> {
    seq!["2160p"@, "1080p"@, "1080"@, "720p"@, "480p"@, "360p"@, "240p"@, "144p"@]
}

/// Quality tiers recognised in names.
pub open spec fn qualities() -> Seq<Seq<char>> {
    seq![
        "dvdrip"@,
        "bdrip"@,
        "hdrip"@,
        "hdtvrip"@,
        "hdts-rip"@,
        "tvrip"@,
        "web-dlrip"@,
        "webrip"@,
        "web-dl"@,
        "remux"@,
    ]
}

/// Extensions of video files.
pub open spec fn video_extensions() -> Seq<Seq<char>> {
    seq!["avi"@, "mkv"@, "mp4"@, "m4v"@, "mov"@]
}

/// Release-group suffixes that start with a dash.
pub open spec fn dash_trash() -> Seq<Seq<char>> {
    seq!["-vaippp"@, "-hqclub"@, "-hq-video"@, "-mediaclub"@, "-kyle"@]
}

/// Runs of tokens that are release-group noise.
pub open spec fn trash_sequences() -> Seq<Seq<Seq<char>>> {
    seq![
        seq!["hdclub"@],
        seq!["hqclub"@],
        seq!["elektri4ka"@],
        seq!["interfilm"@],
        seq!["releaseavcgroup"@],
        seq!["torrents"@, "ru"@],
        seq!["rutracker"@, "org"@],
        seq!["scarabey"@, "org"@],
        seq!["nolimits-team"@],
        seq!["uniongang"@, "ru"@],
        seq!["www"@, "kinokopilka"@, "ru"@],
        seq!["by"@, "anvic"@, "www"@, "fenixclub"@, "com"@],
        seq!["by"@, "scarabey"@],
        seq!["by"@, "dalemake"@],
        seq!["freerutor"@],
        seq!["kinozal"@, "tv"@],
        seq!["hellywood"@],
        seq!["truavc"@],
        seq!["serbin"@],
        seq!["eniahd"@],
        seq!["tfile"@, "ru"@],
        seq!["goblin"@],
    ]
}

/// The video encodings, as a table.
pub fn video_encoding_table() -> (r: Vec<&'static str>)
    ensures
        words_view(r@) == video_encodings(),
{
    let r = vec!["xvid", "divx", "avc", "x264", "x265", "h264", "h265", "hevc"];
    assert(words_view(r@) =~= video_encodings());
    r
}

/// The audio encodings, as a table.
pub fn audio_encoding_table() -> (r: Vec<&'static str>)
    ensures
        words_view(r@) == audio_encodings(),
{
    let r = vec!["ac3", "dts", "aac", "mp3", "flac", "opus"];
    assert(words_view(r@) =~= audio_encodings());
    r
}

/// The resolutions, as a table.
pub fn resolution_table() -> (r: Vec<&'static str>)
    ensures
        words_view(r@) == resolutions(),
{
    let r = vec!["2160p", "1080p", "1080", "720p", "480p", "360p", "240p", "144p"];
    assert(words_view(r@) =~= resolutions());
    r
}

/// The quality tiers, as a table.
pub fn quality_table() -> (r: Vec<&'static str>)
    ensures
        words_view(r@) == qualities(),
{
    let r = vec![
        "dvdrip",
        "bdrip",
        "hdrip",
        "hdtvrip",
        "hdts-rip",
        "tvrip",
        "web-dlrip",
        "webrip",
        "web-dl",
        "remux",
    ];
    assert(words_view(r@) =~= qualities());
    r
}

/// The video extensions, as a table.
pub fn extension_table() -> (r: Vec<&'static str>)
    ensures
        words_view(r@) == video_extensions(),
{
    let r = vec!["avi", "mkv", "mp4", "m4v", "mov"];
    assert(words_view(r@) =~= video_extensions());
    r
}

/// The dash-prefixed suffixes, as a table.
pub fn dash_trash_table() -> (r: Vec<&'static str>)
    ensures
        words_view(r@) == dash_trash(),
{
    let r = vec!["-vaippp", "-hqclub", "-hq-video", "-mediaclub", "-kyle"];
    assert(words_view(r@) =~= dash_trash());
    r
}

/// The views of a table of junk runs.
pub open spec fn table_view(t: Seq<Vec<&'static str>>) -> Seq<Seq<Seq<char>>> {
    t.map_values(|e: Vec<&'static str>| words_view(e@))
}

/// The junk runs, as a table.
pub fn trash_table() -> (r: Vec<Vec<&'static str>>)
    ensures
        table_view(r@) == trash_sequences(),
{
    let r = vec![
        vec!["hdclub"],
        vec!["hqclub"],
        vec!["elektri4ka"],
        vec!["interfilm"],
        vec!["releaseavcgroup"],
        vec!["torrents", "ru"],
        vec!["rutracker", "org"],
        vec!["scarabey", "org"],
        vec!["nolimits-team"],
        vec!["uniongang", "ru"],
        vec!["www", "kinokopilka", "ru"],
        vec!["by", "anvic", "www", "fenixclub", "com"],
        vec!["by", "scarabey"],
        vec!["by", "dalemake"],
        vec!["freerutor"],
        vec!["kinozal", "tv"],
        vec!["hellywood"],
        vec!["truavc"],
        vec!["serbin"],
        vec!["eniahd"],
        vec!["tfile", "ru"],
        vec!["goblin"],
    ];
    assert forall|k: int| 0 <= k < r@.len() implies #[trigger] words_view(r@[k]@)
        == trash_sequences()[k] by {
        assert(words_view(r@[k]@) =~= trash_sequences()[k]);
    }
    assert(table_view(r@) =~= trash_sequences());
    r
}

/// A known language: its three-letter name and its two-letter code.
#[derive(Clone, Copy, Debug, PartialEq, Eq)]
pub struct Lang {
    pub name: &'static str,
    pub code: &'static str,
}

impl View for Lang {
    type V = (Seq<char>, Seq<char>);

    open spec fn view(&self) -> (Seq<char>, Seq<char>) {
        (self.name@, self.code@)
    }
}

impl Lang {
    /// The three-letter name.
    pub fn name(&self) -> (r: &'static str)
        ensures
            r@ == self@.0,
    {
        self.name
    }

    /// The two-letter code.
    pub fn code(&self) -> (r: &'static str)
        ensures
            r@ == self@.1,
    {
        self.code
    }
}

/// The views of a list of languages.
pub open spec fn langs_view(ls: Seq<Lang>) -> Seq<(Seq<char>, Seq<char>)> {
    ls.map_values(|l: Lang| l@)
}

/// The view of an optional language.
pub open spec fn opt_lang_view(o: Option<Lang>) -> Option<(Seq<char>, Seq<char>)> {
    match o {
        Some(l) => Some(l@),
        None => None,
    }
}

/// The registry of known languages.
pub open spec fn known_languages() -> Seq<(Seq<char>, Seq<char>)> {
    seq![("eng"@, "en"@), ("rus"@, "ru"@), ("ukr"@, "ua"@), ("fra"@, "fr"@)]
}

/// The known languages, as a table.
pub fn language_table() -> (r: Vec<Lang>)
    ensures
        langs_view(r@) == known_languages(),
{
    let r = vec![
        Lang { name: "eng", code: "en" },
        Lang { name: "rus", code: "ru" },
        Lang { name: "ukr", code: "ua" },
        Lang { name: "fra", code: "fr" },
    ];
    assert(langs_view(r@) =~= known_languages());
    r
}

/// The first language of `ls` whose name or code is `t`.
pub open spec fn first_lang(t: Seq<char>, ls: Seq<(Seq<char>, Seq<char>)>) -> Option<
    (Seq<char>, Seq<char>),
>
    decreases ls.len(),
{
    if ls.len() == 0 {
        None
    } else if t == ls[0].0 || t == ls[0].1 {
        Some(ls[0])
    } else {
        first_lang(t, ls.drop_first())
    }
}

/// Looks `t` (already lower-cased) up among `langs` by name or code; the first
/// match wins.
pub fn find_lang(t: &Vec<char>, langs: &Vec<Lang>) -> (r: Option<Lang>)
    ensures
        opt_lang_view(r) == first_lang(t@, langs_view(langs@)),
{
    let mut k: usize = 0;
    assert(langs_view(langs@).subrange(0, langs@.len() as int) =~= langs_view(langs@));
    while k < langs.len()
        invariant
            k <= langs@.len(),
            first_lang(t@, langs_view(langs@)) == first_lang(
                t@,
                langs_view(langs@).subrange(k as int, langs@.len() as int),
            ),
        decreases langs@.len() - k,
    {
        let l = langs[k];
        let ghost rest = langs_view(langs@).subrange(k as int, langs@.len() as int);
        assert(rest[0] == l@);
        assert(rest.drop_first() =~= langs_view(langs@).subrange(k + 1, langs@.len() as int));
        if eq_lit(t, l.name) || eq_lit(t, l.code) {
            return Some(l);
        }
        k += 1;
    }
    assert(langs_view(langs@).subrange(k as int, langs@.len() as int).len() == 0);
    None
}

/// Looks `s`, lower-cased, up among `langs` by name or code; the first match
/// wins.
pub fn check_lang(s: &str, langs: &Vec<Lang>) -> (r: Option<Lang>)
    ensures
        opt_lang_view(r) == first_lang(lower_of(s@), langs_view(langs@)),
{
    let low = lowercase(&chars_of(s));
    find_lang(&low, langs)
}

} // verus!
