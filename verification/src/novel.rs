//! Body character counting for Genko Novel manuscripts.

use crate::markup;
use crate::segmentation::count_extended_graphemes;
use crate::text::{collect_chars, push_char};
use vstd::prelude::*;

verus! {

/// `Option<usize>` as an `Option<int>`.
pub open spec fn as_int(o: Option<usize>) -> Option<int> {
    match o {
        Some(n) => Some(n as int),
        None => None,
    }
}

/// Whether `character` is a line break: LF, CR, NEL, LINE SEPARATOR or
/// PARAGRAPH SEPARATOR.
pub fn is_line_break(character: char) -> (res: bool)
    ensures
        res == markup::is_line_break_char(character),
{
    character == '\n' || character == '\r' || character == '\u{85}' || character == '\u{2028}'
        || character == '\u{2029}'
}

/// Whether `text[at..end]` begins with `pattern`.
fn starts_with_at(text: &[char], at: usize, end: usize, pattern: &[char]) -> (res: bool)
    requires
        at <= end <= text@.len(),
    ensures
        res == markup::starts_with(text@.subrange(at as int, end as int), pattern@),
{
    let ghost s = text@.subrange(at as int, end as int);
    if end - at < pattern.len() {
        return false;
    }
    let mut i: usize = 0;
    while i < pattern.len()
        invariant
            at <= end <= text@.len(),
            s == text@.subrange(at as int, end as int),
            pattern@.len() <= end - at,
            i <= pattern@.len(),
            forall|j: int| 0 <= j < i ==> text@[at + j] == pattern@[j],
        decreases pattern@.len() - i,
    {
        if text[at + i] != pattern[i] {
            assert(s.subrange(0, pattern@.len() as int)[i as int] == text@[at + i]);
            return false;
        }
        i += 1;
    }
    assert(s.subrange(0, pattern@.len() as int) =~= pattern@);
    true
}

/// The offset in `text[from..end]` of the first occurrence of `pattern`.
fn find_in(text: &[char], from: usize, end: usize, pattern: &[char]) -> (res: Option<usize>)
    requires
        from <= end <= text@.len(),
    ensures
        as_int(res) == markup::find(text@.subrange(from as int, end as int), pattern@),
{
    let ghost s = text@.subrange(from as int, end as int);
    let mut i: usize = 0;
    loop
        invariant
            from <= end <= text@.len(),
            s == text@.subrange(from as int, end as int),
            i <= end - from,
            forall|j: int| 0 <= j < i ==> !markup::matches_at(s, j, pattern@),
        decreases end - from - i,
    {
        let found = starts_with_at(text, from + i, end, pattern);
        proof {
            assert(text@.subrange(from + i, end as int) =~= s.skip(i as int));
            markup::lemma_starts_with_skip(s, i as int, pattern@);
        }
        if found {
            proof {
                markup::lemma_find_first_match(s, pattern@, i as int);
            }
            return Some(i);
        }
        if i == end - from {
            proof {
                markup::lemma_find_none(s, pattern@);
            }
            return None;
        }
        i += 1;
    }
}

/// The offset in `text[from..end]` of its first line break.
fn first_line_break_in(text: &[char], from: usize, end: usize) -> (res: Option<usize>)
    requires
        from <= end <= text@.len(),
    ensures
        as_int(res) == markup::first_line_break(text@.subrange(from as int, end as int)),
{
    let ghost s = text@.subrange(from as int, end as int);
    let mut i: usize = 0;
    while i < end - from
        invariant
            from <= end <= text@.len(),
            s == text@.subrange(from as int, end as int),
            i <= end - from,
            forall|j: int| 0 <= j < i ==> !markup::is_line_break_char(#[trigger] s[j]),
        decreases end - from - i,
    {
        if is_line_break(text[from + i]) {
            proof {
                markup::lemma_first_line_break_at(s, i as int);
            }
            return Some(i);
        }
        i += 1;
    }
    proof {
        markup::lemma_first_line_break(s);
    }
    None
}

/// Whether `text[from..to]` holds a line break.
fn contains_line_break(text: &[char], from: usize, to: usize) -> (res: bool)
    requires
        from <= to <= text@.len(),
    ensures
        res == markup::contains_line_break(text@.subrange(from as int, to as int)),
{
    proof {
        markup::lemma_first_line_break(text@.subrange(from as int, to as int));
    }
    first_line_break_in(text, from, to).is_some()
}

/// The offset in `text[from..end]` of the first `delimiter`, unless a line
/// break comes before it.
fn find_before_line_break(text: &[char], from: usize, end: usize, delimiter: char) -> (res:
    Option<usize>)
    requires
        from <= end <= text@.len(),
    ensures
        as_int(res) == markup::find_before_line_break(
            text@.subrange(from as int, end as int),
            delimiter,
        ),
{
    let pattern = [delimiter];
    assert(pattern@ =~= seq![delimiter]);
    let delimiter_offset = match find_in(text, from, end, pattern.as_slice()) {
        Some(offset) => offset,
        None => return None,
    };
    match first_line_break_in(text, from, end) {
        Some(offset) => if offset < delimiter_offset {
            None
        } else {
            Some(delimiter_offset)
        },
        None => Some(delimiter_offset),
    }
}


/// The length of the line break that `text[at..end]` begins with; CR LF is
/// one line break of length 2.
fn line_break_length(text: &[char], at: usize, end: usize) -> (res: Option<usize>)
    requires
        at <= end <= text@.len(),
    ensures
        as_int(res) == markup::line_break_length(text@.subrange(at as int, end as int)),
{
    let ghost s = text@.subrange(at as int, end as int);
    let crlf = ['\r', '\n'];
    assert(crlf@ =~= markup::crlf());
    if starts_with_at(text, at, end, crlf.as_slice()) {
        return Some(2);
    }
    if at < end && is_line_break(text[at]) {
        assert(s[0] == text@[at as int]);
        Some(1)
    } else {
        None
    }
}

/// The length of the complete HTML comment that `text[at..end]` begins with.
fn complete_html_comment_length(text: &[char], at: usize, end: usize) -> (res: Option<usize>)
    requires
        at <= end <= text@.len(),
    ensures
        as_int(res) == markup::html_comment_length(text@.subrange(at as int, end as int)),
{
    let ghost s = text@.subrange(at as int, end as int);
    let open = ['<', '!', '-', '-'];
    let close = ['-', '-', '>'];
    assert(open@ =~= markup::comment_open());
    assert(close@ =~= markup::comment_close());
    if !starts_with_at(text, at, end, open.as_slice()) {
        return None;
    }
    assert(text@.subrange(at + 4, end as int) =~= s.skip(4));
    let close_offset = match find_in(text, at + 4, end, close.as_slice()) {
        Some(offset) => offset,
        None => return None,
    };
    proof {
        markup::lemma_markup_bounds(s);
    }
    Some(4 + close_offset + 3)
}

/// The length of the complete Aozora annotation that `text[at..end]`
/// begins with.
fn complete_annotation_length(text: &[char], at: usize, end: usize) -> (res: Option<usize>)
    requires
        at <= end <= text@.len(),
    ensures
        as_int(res) == markup::annotation_length(text@.subrange(at as int, end as int)),
{
    let ghost s = text@.subrange(at as int, end as int);
    let open = ['［', '＃'];
    assert(open@ =~= markup::annotation_open());
    if !starts_with_at(text, at, end, open.as_slice()) {
        return None;
    }
    assert(text@.subrange(at + 2, end as int) =~= s.skip(2));
    let close_offset = match find_before_line_break(text, at + 2, end, '］') {
        Some(offset) => offset,
        None => return None,
    };
    if close_offset == 0 {
        return None;
    }
    proof {
        markup::lemma_markup_bounds(s);
    }
    Some(2 + close_offset + 1)
}

/// A complete explicit ruby: its base text is `base_length` chars long and
/// starts one char after the ruby, which is `full_length` chars long.
struct ExplicitRuby {
    base_length: usize,
    full_length: usize,
}

/// The complete explicit ruby that `text[at..end]` begins with.
fn complete_explicit_ruby(text: &[char], at: usize, end: usize) -> (res: Option<ExplicitRuby>)
    requires
        at <= end <= text@.len(),
    ensures
        match res {
            Some(ruby) => markup::explicit_ruby(text@.subrange(at as int, end as int)) == Some(
                (ruby.base_length as int, ruby.full_length as int),
            ),
            None => markup::explicit_ruby(text@.subrange(at as int, end as int)) is None,
        },
{
    let ghost s = text@.subrange(at as int, end as int);
    if !(at < end && text[at] == '｜') {
        return None;
    }
    assert(s[0] == text@[at as int]);
    let after_marker = at + 1;
    assert(text@.subrange(after_marker as int, end as int) =~= s.skip(1));
    let reading_open_offset = match find_before_line_break(text, after_marker, end, '《') {
        Some(offset) => offset,
        None => return None,
    };
    if reading_open_offset == 0 {
        return None;
    }
    proof {
        markup::lemma_find_before_line_break_bounds(s.skip(1), markup::reading_open());
    }
    let after_reading_open = after_marker + reading_open_offset + 1;
    assert(text@.subrange(after_reading_open as int, end as int) =~= s.skip(1).skip(
        reading_open_offset + 1,
    ));
    let reading_close_offset = match find_before_line_break(text, after_reading_open, end, '》') {
        Some(offset) => offset,
        None => return None,
    };
    if reading_close_offset == 0 {
        return None;
    }
    proof {
        markup::lemma_markup_bounds(s);
    }
    Some(
        ExplicitRuby {
            base_length: reading_open_offset,
            full_length: 1 + reading_open_offset + 1 + reading_close_offset + 1,
        },
    )
}


/// The views of some strings.
pub open spec fn string_views(strings: Seq<String>) -> Seq<Seq<char>> {
    strings.map_values(|s: String| s@)
}

/// Collects the body text line by line: the chars of the line in progress
/// are held until the line ends.
struct LineCollector {
    lines: Vec<String>,
    current_line: String,
}

impl LineCollector {
    spec fn tally(&self) -> markup::Tally {
        (string_views(self.lines@), self.current_line@)
    }

    /// The chars collected so far.
    spec fn weight(&self) -> int {
        markup::total_length(string_views(self.lines@)) + self.current_line@.len() as int
    }

    fn new() -> (collector: Self)
        ensures
            collector.tally() == markup::empty_tally(),
            collector.weight() == 0,
    {
        let collector = LineCollector { lines: Vec::new(), current_line: String::new() };
        assert(string_views(collector.lines@) =~= Seq::<Seq<char>>::empty());
        collector
    }

    fn push(&mut self, character: char)
        ensures
            final(self).tally() == markup::push_body_char(old(self).tally(), character),
            final(self).weight() == old(self).weight() + 1,
    {
        push_char(&mut self.current_line, character);
    }

    fn end_line(&mut self)
        ensures
            final(self).tally() == markup::end_line(old(self).tally()),
            final(self).weight() == old(self).weight(),
    {
        let mut line = String::new();
        std::mem::swap(&mut line, &mut self.current_line);
        let ghost old_views = string_views(self.lines@);
        self.lines.push(line);
        assert(string_views(self.lines@) =~= old_views.push(line@));
        assert(string_views(self.lines@).drop_last() =~= old_views);
    }

    fn finish(self) -> (lines: Vec<String>)
        ensures
            string_views(lines@) == markup::end_line(self.tally()).0,
            markup::total_length(string_views(lines@)) == self.weight(),
    {
        let mut collector = self;
        collector.end_line();
        collector.lines
    }
}

/// Feeds the body text of `text[start..end]` to `collector`.
fn scan_body(text: &[char], start: usize, end: usize, collector: &mut LineCollector)
    requires
        start <= end <= text@.len(),
    ensures
        final(collector).tally() == markup::scan(
            text@.subrange(start as int, end as int),
            old(collector).tally(),
        ),
        final(collector).weight() <= old(collector).weight() + (end - start),
    decreases end - start,
{
    let ghost initial = old(collector).tally();
    let ghost initial_weight = old(collector).weight();
    let mut cursor = start;
    while cursor < end
        invariant
            start <= cursor <= end <= text@.len(),
            markup::scan(text@.subrange(start as int, end as int), initial) == markup::scan(
                text@.subrange(cursor as int, end as int),
                collector.tally(),
            ),
            collector.weight() <= initial_weight + (cursor - start),
        decreases end - cursor,
    {
        let ghost rest = text@.subrange(cursor as int, end as int);
        let ghost before = collector.tally();
        proof {
            markup::lemma_markup_bounds(rest);
        }
        if let Some(length) = line_break_length(text, cursor, end) {
            collector.end_line();
            assert(rest.skip(length as int) =~= text@.subrange(cursor + length, end as int));
            cursor += length;
            continue;
        }
        if let Some(length) = complete_html_comment_length(text, cursor, end) {
            let spans_lines = contains_line_break(text, cursor, cursor + length);
            assert(rest.take(length as int) =~= text@.subrange(cursor as int, cursor + length));
            if spans_lines {
                collector.end_line();
            }
            assert(rest.skip(length as int) =~= text@.subrange(cursor + length, end as int));
            cursor += length;
            continue;
        }
        if let Some(length) = complete_annotation_length(text, cursor, end) {
            assert(rest.skip(length as int) =~= text@.subrange(cursor + length, end as int));
            cursor += length;
            continue;
        }
        if let Some(ruby) = complete_explicit_ruby(text, cursor, end) {
            scan_body(text, cursor + 1, cursor + 1 + ruby.base_length, collector);
            assert(rest.subrange(1, 1 + ruby.base_length) =~= text@.subrange(
                cursor + 1,
                cursor + 1 + ruby.base_length,
            ));
            assert(rest.skip(ruby.full_length as int) =~= text@.subrange(
                cursor + ruby.full_length,
                end as int,
            ));
            cursor += ruby.full_length;
            continue;
        }
        let character = text[cursor];
        collector.push(character);
        assert(rest[0] == character);
        assert(rest.drop_first() =~= text@.subrange(cursor + 1, end as int));
        cursor += 1;
    }
}

/// The observable metrics for one Genko Novel document.
#[derive(Clone, Copy, Debug, PartialEq, Eq, Structural)]
pub struct NovelMetrics {
    body_character_count: usize,
}

impl View for NovelMetrics {
    type V = nat;

    /// The body character count.
    closed spec fn view(&self) -> nat {
        self.body_character_count as nat
    }
}

impl Default for NovelMetrics {
    /// The metrics of an empty document.
    fn default() -> (metrics: Self)
        ensures
            metrics@ == 0,
    {
        NovelMetrics { body_character_count: 0 }
    }
}

impl NovelMetrics {
    /// Returns the number of extended grapheme clusters in the document body.
    #[must_use]
    pub fn body_character_count(self) -> (count: usize)
        ensures
            count == self@,
    {
        self.body_character_count
    }
}

/// The body text of `text`, line by line.
fn lines_of(text: &[char]) -> (lines: Vec<String>)
    ensures
        string_views(lines@) == markup::body_lines(text@),
        markup::total_length(string_views(lines@)) <= text@.len(),
{
    let mut collector = LineCollector::new();
    scan_body(text, 0, text.len(), &mut collector);
    assert(text@.subrange(0, text@.len() as int) =~= text@);
    collector.finish()
}

/// The body text of a Genko Novel document, line by line: line breaks end
/// lines, complete HTML comments and Aozora annotations are left out (a
/// comment spanning lines ends the line), a complete explicit ruby leaves
/// its base text, and everything else is body text as it stands.
pub fn body_lines(source: &str) -> (lines: Vec<String>)
    ensures
        string_views(lines@) == markup::body_lines(source@),
{
    let text = collect_chars(source);
    lines_of(text.as_slice())
}

/// Calculates metrics for a Genko Novel document.
///
/// Body characters are extended grapheme clusters. Line breaks are not counted.
/// Complete explicit ruby, Aozora annotations, and HTML comments are interpreted;
/// malformed or incomplete markup remains literal text.
#[must_use]
pub fn novel_metrics(source: &str) -> (metrics: NovelMetrics)
    ensures
        metrics@ == markup::body_character_count(source@),
{
    let text = collect_chars(source);
    let lines = lines_of(text.as_slice());
    let ghost views = string_views(lines@);
    let mut count: usize = 0;
    let mut i: usize = 0;
    while i < lines.len()
        invariant
            i <= lines@.len(),
            views == string_views(lines@),
            markup::total_length(views) <= text@.len() <= usize::MAX,
            count == markup::sum_line_clusters(views.take(i as int)),
            count <= markup::total_length(views.take(i as int)),
        decreases lines@.len() - i,
    {
        proof {
            assert(views.take(i + 1).drop_last() =~= views.take(i as int));
            assert(views.take(i + 1).last() == lines@[i as int]@);
            lemma_total_length_prefix(views, i + 1);
        }
        let line = lines[i].as_str();
        if !line.is_empty() {
            count = count + count_extended_graphemes(line);
        }
        i += 1;
    }
    assert(views.take(lines@.len() as int) =~= views);
    NovelMetrics { body_character_count: count }
}

/// A prefix of the lines holds no more chars than all of them.
proof fn lemma_total_length_prefix(lines: Seq<Seq<char>>, n: int)
    requires
        0 <= n <= lines.len(),
    ensures
        markup::total_length(lines.take(n)) <= markup::total_length(lines),
    decreases lines.len(),
{
    if n < lines.len() {
        assert(lines.drop_last().take(n) =~= lines.take(n));
        lemma_total_length_prefix(lines.drop_last(), n);
    } else {
        assert(lines.take(n) =~= lines);
    }
}

} // verus!
