use media_order::parse::{parse_file_name, parse_file_name_in, ParsedName};
use media_order::scan::{normalize, scan_tags, year_of_token};
use media_order::title::build_name;
use media_order::tokens::{remove_trash, split_by_separators, strip_extension};
use media_order::vocab::{check_lang, language_table, Lang};

const YEAR: u16 = 2024;

fn toks(words: &[&str]) -> Vec<Vec<char>> {
    words.iter().map(|w| w.chars().collect()).collect()
}

fn text(t: &[char]) -> String {
    t.iter().collect()
}

fn texts(ts: &[Vec<char>]) -> Vec<String> {
    ts.iter().map(|t| text(t)).collect()
}

fn lang_names(p: &ParsedName) -> Vec<&'static str> {
    match &p.languages {
        Some(ls) => ls.iter().map(|l| l.name()).collect(),
        None => vec![],
    }
}

#[test]
fn inception_scene_name() {
    let p = parse_file_name_in("Inception.2010.1080p.BluRay.x264-GROUP.mkv", YEAR);
    assert_eq!(p.extension.as_deref(), Some("mkv"));
    assert_eq!(p.title, "Inception");
    assert_eq!(p.year, Some(2010));
    assert_eq!(p.resolution.as_deref(), Some("1080p"));
    // "x264-GROUP" is one token (a dash does not separate), and its
    // lower-cased form is no video encoding of the vocabulary.
    assert_eq!(p.video_encoding, None);
    assert_eq!(p.quality, None);
    assert!(p.languages.is_none());
}

#[test]
fn inception_with_separated_encoding() {
    let p = parse_file_name_in("Inception.2010.1080p.BluRay.x264.mkv", YEAR);
    assert_eq!(p.video_encoding.as_deref(), Some("x264"));
    assert_eq!(p.title, "Inception");
}

#[test]
fn amelie_bracketed_year() {
    let p = parse_file_name_in("Amelie.(2001).FRA.DVDRip.avi", YEAR);
    assert_eq!(p.extension.as_deref(), Some("avi"));
    assert_eq!(p.year, Some(2001));
    assert_eq!(lang_names(&p), vec!["fra"]);
    assert_eq!(p.languages.as_ref().unwrap()[0].code(), "fr");
    assert_eq!(p.quality.as_deref(), Some("dvdrip"));
    assert_eq!(p.title, "Amelie");
}

#[test]
fn year_below_floor_stays_in_title() {
    let p = parse_file_name_in("Old.Movie.1850.avi", YEAR);
    assert_eq!(p.year, None);
    assert_eq!(p.title, "Old Movie 1850");
}

#[test]
fn year_bounds_are_inclusive() {
    assert_eq!(year_of_token(&"1920".chars().collect(), YEAR), Some(1920));
    assert_eq!(year_of_token(&"1919".chars().collect(), YEAR), None);
    assert_eq!(year_of_token(&"2024".chars().collect(), YEAR), Some(2024));
    assert_eq!(year_of_token(&"2025".chars().collect(), YEAR), None);
    assert_eq!(year_of_token(&"20a4".chars().collect(), YEAR), None);
    assert_eq!(year_of_token(&"02010".chars().collect(), YEAR), None);
}

#[test]
fn year_after_current_stays_in_title() {
    let p = parse_file_name_in("Future.2030.mkv", 2024);
    assert_eq!(p.year, None);
    assert_eq!(p.title, "Future 2030");
}

#[test]
fn trash_sequence_removed_before_scan() {
    let p = parse_file_name_in("Movie.Name.by.Scarabey.2019.720p.mkv", YEAR);
    assert_eq!(p.year, Some(2019));
    assert_eq!(p.resolution.as_deref(), Some("720p"));
    assert_eq!(p.title, "Movie Name");
}

#[test]
fn bracket_group_before_boundary() {
    let p = parse_file_name_in("Show [Multi Sub] 2015.mkv", YEAR);
    assert_eq!(p.year, Some(2015));
    assert_eq!(p.title, "Show [Multi Sub]");
}

#[test]
fn bracket_group_cut_at_boundary() {
    let p = parse_file_name_in("Show [Sub 2015 rus].mkv", YEAR);
    assert_eq!(p.year, Some(2015));
    assert_eq!(lang_names(&p), vec!["rus"]);
    assert_eq!(p.title, "Show [Sub]");
}

#[test]
fn languages_in_scan_order() {
    let p = parse_file_name_in("Film.2012.rus.ENG.mkv", YEAR);
    assert_eq!(lang_names(&p), vec!["eng", "rus"]);
    assert_eq!(p.title, "Film");
}

#[test]
fn first_token_never_classified() {
    let p = parse_file_name_in("2012.mkv", YEAR);
    assert_eq!(p.year, None);
    assert_eq!(p.title, "2012");
}

#[test]
fn empty_name_parses_to_nothing() {
    let p = parse_file_name_in("", YEAR);
    assert_eq!(p.title, "");
    assert_eq!(p.extension, None);
    assert_eq!(p.year, None);
}

#[test]
fn unknown_extension_kept() {
    let p = parse_file_name_in("Notes.txt", YEAR);
    assert_eq!(p.extension, None);
    assert_eq!(p.title, "Notes txt");
}

#[test]
fn parse_with_clock_year() {
    let p = parse_file_name("Heat.1995.DTS.mkv");
    assert_eq!(p.year, Some(1995));
    assert_eq!(p.audio_encoding.as_deref(), Some("dts"));
    assert_eq!(p.title, "Heat");
}

#[test]
fn split_keeps_brackets_drops_separators() {
    let ts = split_by_separators("A..B_(C) [D]");
    assert_eq!(texts(&ts), vec!["A", "B", "(", "C", ")", "[", "D", "]"]);
    assert!(split_by_separators("").is_empty());
    assert!(split_by_separators(" ._").is_empty());
}

#[test]
fn extension_lower_cased_and_popped() {
    let mut ts = toks(&["Movie", "MKV"]);
    let ext = strip_extension(&mut ts);
    assert_eq!(ext.map(|e| text(&e)), Some("mkv".to_string()));
    assert_eq!(texts(&ts), vec!["Movie"]);
    let mut none = toks(&["Movie", "srt"]);
    assert_eq!(strip_extension(&mut none), None);
    assert_eq!(none.len(), 2);
    let mut empty: Vec<Vec<char>> = vec![];
    assert_eq!(strip_extension(&mut empty), None);
}

#[test]
fn dash_trash_removed_and_index_retested() {
    let mut ts = toks(&["Film", "-KYLE", "-vaippp", "x"]);
    remove_trash(&mut ts);
    assert_eq!(texts(&ts), vec!["Film", "x"]);
}

#[test]
fn dash_needed_for_dash_trash() {
    let mut ts = toks(&["Film", "kyle"]);
    remove_trash(&mut ts);
    assert_eq!(texts(&ts), vec!["Film", "kyle"]);
}

#[test]
fn trash_sequences_removed() {
    let mut ts = toks(&["Film", "HDCLUB", "Rutracker", "ORG", "by", "dalemake", "end"]);
    remove_trash(&mut ts);
    assert_eq!(texts(&ts), vec!["Film", "end"]);
}

#[test]
fn shifted_token_retested_after_removal() {
    let mut ts = toks(&["Film", "Rutracker", "ORG", "HDCLUB", "end"]);
    remove_trash(&mut ts);
    assert_eq!(texts(&ts), vec!["Film", "end"]);
}

#[test]
fn repeated_junk_run_removed() {
    let mut ts = toks(&["hdclub", "hdclub"]);
    remove_trash(&mut ts);
    assert!(ts.is_empty());
}

#[test]
fn dash_rule_retried_after_run_removed() {
    let mut ts = toks(&["hdclub", "-kyle"]);
    remove_trash(&mut ts);
    assert!(ts.is_empty());
}

#[test]
fn lower_case_goblin_entry() {
    let mut ts = toks(&["Film", "GOBLIN", "2001"]);
    remove_trash(&mut ts);
    assert_eq!(texts(&ts), vec!["Film", "2001"]);
}

#[test]
fn partial_trash_sequence_kept() {
    let mut ts = toks(&["Film", "torrents"]);
    remove_trash(&mut ts);
    assert_eq!(texts(&ts), vec!["Film", "torrents"]);
}

#[test]
fn whole_list_of_trash() {
    let mut ts = toks(&["hdclub", "kinozal", "tv"]);
    remove_trash(&mut ts);
    assert!(ts.is_empty());
}

#[test]
fn lang_lookup_by_name_or_code() {
    let langs = language_table();
    let by_code = check_lang("UA", &langs).unwrap();
    assert_eq!((by_code.name(), by_code.code()), ("ukr", "ua"));
    let by_name = check_lang("Eng", &langs).unwrap();
    assert_eq!(by_name, Lang { name: "eng", code: "en" });
    assert_eq!(check_lang("de", &langs), None);
}

#[test]
fn normal_form_trims_one_comma() {
    assert_eq!(text(&normalize(&"Rus,".chars().collect())), "rus");
    assert_eq!(text(&normalize(&"AAC".chars().collect())), "aac");
    assert_eq!(text(&normalize(&"a,,".chars().collect())), "a,");
}

#[test]
fn same_normal_form_same_classification() {
    let a = parse_file_name_in("X.Y.RUS,.mkv", YEAR);
    let b = parse_file_name_in("X.Y.rus.mkv", YEAR);
    assert_eq!(lang_names(&a), lang_names(&b));
    assert_eq!(a.title, b.title);
    let again = parse_file_name_in("X.Y.rus.mkv", YEAR);
    assert_eq!(again.title, b.title);
}

#[test]
fn boundary_is_leftmost_classified_index() {
    let ts = toks(&["Title", "Part", "720p", "Word", "2001", "aac"]);
    let sc = scan_tags(&ts, YEAR);
    assert_eq!(sc.name_end, 2);
    let none = toks(&["Title", "Part", "Word"]);
    assert_eq!(scan_tags(&none, YEAR).name_end, 3);
    assert_eq!(scan_tags(&vec![], YEAR).name_end, 0);
}

#[test]
fn fields_set_once_rightmost_wins() {
    let ts = toks(&["T", "x265", "2001", "1080p", "x264", "2002", "720p"]);
    let sc = scan_tags(&ts, YEAR);
    assert_eq!(sc.year, Some(2002));
    assert_eq!(sc.video_encoding.map(|v| text(&v)), Some("x264".to_string()));
    assert_eq!(sc.resolution.map(|v| text(&v)), Some("720p".to_string()));
    // the earlier year and resolution are not overwriting: they are left
    // unclassified, so the boundary stays at the leftmost classified token
    assert_eq!(sc.name_end, 4);
}

#[test]
fn bracket_pair_rebuilt_whole() {
    let ts = toks(&["Name", "(", "Part", "Two", ")", "End"]);
    assert_eq!(text(&build_name(&ts, 6)), "Name (Part Two) End");
    let sq = toks(&["[", "A", "]", "B"]);
    assert_eq!(text(&build_name(&sq, 4)), "[A] B");
}

#[test]
fn empty_bracket_pair_dropped() {
    let ts = toks(&["Name", "(", ")", "End"]);
    assert_eq!(text(&build_name(&ts, 4)), "Name End");
}

#[test]
fn unclosed_bracket_skips_one_more() {
    let ts = toks(&["Name", "(", "A", "B", "C"]);
    assert_eq!(text(&build_name(&ts, 3)), "Name (A)");
    let ts2 = toks(&["(", "A", "B", "C", "D"]);
    assert_eq!(text(&build_name(&ts2, 5)), "(A B C D)");
}
