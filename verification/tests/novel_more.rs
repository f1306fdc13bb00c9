use genko_ls::novel::is_line_break;
use genko_ls::{novel_metrics, NovelMetrics};
use unicode_segmentation::UnicodeSegmentation;

fn count(source: &str) -> usize {
    novel_metrics(source).body_character_count()
}

fn literal(source: &str) -> usize {
    source
        .split(is_line_break)
        .map(|line| line.graphemes(true).count())
        .sum()
}

#[test]
fn empty_document_counts_nothing() {
    assert_eq!(count(""), 0);
    assert_eq!(NovelMetrics::default().body_character_count(), 0);
    assert_eq!(NovelMetrics::default(), novel_metrics(""));
}

#[test]
fn only_line_breaks_count_nothing() {
    assert_eq!(count("\n\r\n\r\u{2028}\u{2029}\u{0085}"), 0);
}

#[test]
fn recognises_every_line_break_char() {
    for c in ['\n', '\r', '\u{0085}', '\u{2028}', '\u{2029}'] {
        assert!(is_line_break(c));
    }
    for c in [' ', '\t', 'a', '\u{000B}', '\u{000C}', 'あ'] {
        assert!(!is_line_break(c));
    }
}

#[test]
fn clusters_do_not_join_across_a_line_break() {
    // A combining accent at the start of a line is its own cluster.
    assert_eq!(count("e\n\u{301}"), 2);
    // CR LF is one cluster for the segmenter, but it is a line break here.
    assert_eq!(count("a\r\nb"), 2);
}

#[test]
fn clusters_join_across_skipped_markup() {
    // The annotation is not body text, so the accent joins the e before it.
    assert_eq!(count("e［＃注記］\u{301}"), 1);
    assert_eq!(count("e<!-- x -->\u{301}"), 1);
}

#[test]
fn a_multiline_comment_ends_the_line() {
    assert_eq!(count("e<!--\n-->\u{301}"), 2);
}

#[test]
fn counts_the_segmenter_result_not_the_chars() {
    // The wrapper around the segmenter must not hand back the char count.
    let source = "e\u{301}👨‍👩‍👧‍👦";
    assert_eq!(source.chars().count(), 9);
    assert_eq!(count(source), 2);
}

#[test]
fn ruby_base_is_scanned_for_markup() {
    assert_eq!(count("｜漢［＃注］字《かんじ》"), 2);
    assert_eq!(count("｜漢<!--x-->字《かんじ》"), 2);
}

#[test]
fn ruby_reading_may_hold_an_open_bracket() {
    assert_eq!(count("｜本《ほ《ん》"), 1);
}

#[test]
fn unterminated_ruby_after_line_break_is_literal() {
    assert_eq!(count("｜漢字《かん\nじ》"), literal("｜漢字《かん\nじ》"));
}

#[test]
fn annotation_must_close_on_its_line() {
    assert_eq!(count("［＃注\n記］"), literal("［＃注\n記］"));
}

#[test]
fn comment_runs_to_the_first_close() {
    assert_eq!(count("<!-- a --> b -->"), 6);
}

#[test]
fn emphasis_marks_count_literally() {
    assert_eq!(count("《《傍点》》"), 6);
}

#[test]
fn lines_count_independently() {
    let a = "｜猫《ねこ》と犬";
    let b = "［＃注記］空";
    assert_eq!(count(&format!("{a}\n{b}")), count(a) + count(b));
    assert_eq!(count(&format!("{a}\r\n{b}")), count(a) + count(b));
}

#[test]
fn lines_do_not_count_independently_across_an_open_comment() {
    // The comment that opens in the first line closes in the second.
    assert_eq!(count("<!--\n-->"), 0);
    assert_eq!(count("<!--") + count("-->"), 7);
}

#[test]
fn ruby_counts_as_its_base() {
    assert_eq!(count("｜e\u{301}x《reading》"), count("e\u{301}x"));
}

#[test]
fn leading_annotation_and_comment_count_nothing() {
    assert_eq!(count("［＃注記］本文"), count("本文"));
    assert_eq!(count("<!-- memo\nline -->本文"), count("本文"));
}

#[test]
fn metrics_compare_by_count() {
    assert_eq!(novel_metrics("あい"), novel_metrics("ab"));
    assert_ne!(novel_metrics("あい"), novel_metrics("a"));
}

#[test]
fn body_lines_interpret_markup() {
    assert_eq!(
        genko_ls::novel::body_lines("前｜漢字《かんじ》後\n［＃注］次<!--x\ny-->末"),
        vec!["前漢字後".to_string(), "次".to_string(), "末".to_string()]
    );
}

#[test]
fn body_lines_of_plain_text_are_its_lines() {
    assert_eq!(genko_ls::novel::body_lines(""), vec![String::new()]);
    assert_eq!(
        genko_ls::novel::body_lines("a\r\nb\rc\u{2028}"),
        vec!["a".to_string(), "b".to_string(), "c".to_string(), String::new()]
    );
    assert_eq!(
        genko_ls::novel::body_lines("漢字《かんじ》"),
        vec!["漢字《かんじ》".to_string()]
    );
}
