use genko_ls::novel::is_line_break;
use genko_ls::novel_metrics;
use unicode_segmentation::UnicodeSegmentation;

fn literal_count_without_line_breaks(source: &str) -> usize {
    source
        .split(is_line_break)
        .map(|line| line.graphemes(true).count())
        .sum()
}

#[test]
fn counts_extended_grapheme_clusters_and_whitespace() {
    let source = "A e\u{301} 👨‍👩‍👧‍👦\tあ";

    assert_eq!(novel_metrics(source).body_character_count(), 7);
}

#[test]
fn excludes_common_and_unicode_line_breaks() {
    let source = "一\r\n二\n三\r四\u{0085}五\u{2028}六\u{2029}七";

    assert_eq!(novel_metrics(source).body_character_count(), 7);
}

#[test]
fn counts_explicit_ruby_base_and_excludes_markup_and_reading() {
    let source = "前｜漢字《かんじ》後 ｜e\u{301}《accent》";

    assert_eq!(novel_metrics(source).body_character_count(), 6);
}

#[test]
fn does_not_interpret_implicit_ruby() {
    let source = "漢字《かんじ》";

    assert_eq!(
        novel_metrics(source).body_character_count(),
        literal_count_without_line_breaks(source)
    );
}

#[test]
fn counts_incomplete_or_malformed_ruby_literally() {
    for source in [
        "｜漢字《かんじ",
        "｜漢字《》",
        "｜《かんじ》",
        "｜漢字\n《かんじ》",
    ] {
        assert_eq!(
            novel_metrics(source).body_character_count(),
            literal_count_without_line_breaks(source),
            "source: {source}"
        );
    }
}

#[test]
fn excludes_complete_aozora_annotations() {
    let source = "前［＃ここは注記］後";

    assert_eq!(novel_metrics(source).body_character_count(), 2);
}

#[test]
fn counts_incomplete_or_malformed_annotations_literally() {
    for source in ["前［＃未完", "前［＃］後", "前［＃未完\n本文］後"] {
        assert_eq!(
            novel_metrics(source).body_character_count(),
            literal_count_without_line_breaks(source),
            "source: {source}"
        );
    }
}

#[test]
fn excludes_complete_single_and_multiline_html_comments() {
    assert_eq!(
        novel_metrics("前<!-- hidden -->後").body_character_count(),
        2
    );
    assert_eq!(
        novel_metrics("前<!-- hidden\nstill hidden -->後").body_character_count(),
        2
    );
    assert_eq!(novel_metrics("前<!---->後").body_character_count(), 2);
}

#[test]
fn counts_incomplete_html_comments_literally() {
    let source = "前<!-- 未完\n後";

    assert_eq!(
        novel_metrics(source).body_character_count(),
        literal_count_without_line_breaks(source)
    );
}

#[test]
fn handles_adjacent_markup_without_counting_delimiters() {
    let source = "｜猫《ねこ》［＃注記］<!-- memo --> 犬";

    assert_eq!(novel_metrics(source).body_character_count(), 3);
}
