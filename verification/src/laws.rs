//! What holds of the body character count as a whole.

use crate::markup::{
    annotation_close, annotation_length, annotation_open, comment_close, comment_open,
    contains_line_break, empty_tally, end_line, explicit_ruby, find, find_before_line_break,
    first_line_break, html_comment_length, is_line_break_char, lemma_find,
    lemma_find_before_line_break_bounds, lemma_find_first_match, lemma_first_line_break,
    lemma_first_line_break_at,
    lemma_markup_bounds, line_break_length, line_clusters, matches_at, push_body_char,
    body_character_count, body_lines, crlf, sum_line_clusters,
    reading_close, reading_open, ruby_marker, scan, starts_with, Tally,
};
use vstd::prelude::*;

verus! {

/// A first occurrence inside `x` stays the first occurrence when more text
/// follows.
proof fn lemma_find_extend(x: Seq<char>, z: Seq<char>, p: Seq<char>)
    requires
        find(x, p) is Some,
    ensures
        find(x + z, p) == find(x, p),
{
    lemma_find(x, p);
    let k = find(x, p)->0;
    assert((x + z).subrange(k, k + p.len()) =~= x.subrange(k, k + p.len()));
    assert forall|j: int| 0 <= j < k implies !matches_at(x + z, j, p) by {
        assert((x + z).subrange(j, j + p.len()) =~= x.subrange(j, j + p.len()));
        assert(!matches_at(x, j, p));
    }
    lemma_find_first_match(x + z, p, k);
}

/// The first line break of `x + z`, where `z` begins with a line break.
proof fn lemma_first_line_break_extend(x: Seq<char>, z: Seq<char>)
    requires
        z.len() > 0,
        is_line_break_char(z[0]),
    ensures
        first_line_break(x + z) == match first_line_break(x) {
            Some(l) => Some(l),
            None => Some(x.len() as int),
        },
{
    lemma_first_line_break(x);
    match first_line_break(x) {
        Some(l) => {
            assert((x + z)[l] == x[l]);
            assert forall|j: int| 0 <= j < l implies !is_line_break_char(#[trigger] (x + z)[j]) by {
                assert((x + z)[j] == x[j]);
            }
            lemma_first_line_break_at(x + z, l);
        },
        None => {
            assert forall|j: int| 0 <= j < x.len() implies !is_line_break_char(
                #[trigger] (x + z)[j],
            ) by {
                assert((x + z)[j] == x[j]);
                if is_line_break_char(x[j]) {
                    assert(contains_line_break(x));
                }
            }
            assert((x + z)[x.len() as int] == z[0]);
            lemma_first_line_break_at(x + z, x.len() as int);
        },
    }
}

/// Delimited markup ends on its own line: what comes after a line break
/// does not change where it ends.
proof fn lemma_find_before_line_break_extend(x: Seq<char>, z: Seq<char>, d: char)
    requires
        z.len() > 0,
        is_line_break_char(z[0]),
        !is_line_break_char(d),
    ensures
        find_before_line_break(x + z, d) == find_before_line_break(x, d),
{
    lemma_first_line_break_extend(x, z);
    lemma_first_line_break(x);
    lemma_find(x, seq![d]);
    if find(x, seq![d]) is Some {
        lemma_find_extend(x, z, seq![d]);
    } else {
        lemma_find(x + z, seq![d]);
        if let Some(k) = find(x + z, seq![d]) {
            assert((x + z).subrange(k, k + 1)[0] == (x + z)[k]);
            if k < x.len() {
                assert((x + z)[k] == x[k]);
                assert(x.subrange(k, k + 1) =~= seq![d]);
                assert(matches_at(x, k, seq![d]));
            } else if k == x.len() {
                assert((x + z)[k] == z[0]);
            }
        }
    }
}

/// A delimiter at `k` with neither it nor a line break before is found.
proof fn lemma_find_before_line_break_at(s: Seq<char>, d: char, k: int)
    requires
        0 <= k < s.len(),
        s[k] == d,
        !is_line_break_char(d),
        forall|j: int| 0 <= j < k ==> s[j] != d && !is_line_break_char(#[trigger] s[j]),
    ensures
        find_before_line_break(s, d) == Some(k),
{
    assert(s.subrange(k, k + 1) =~= seq![d]);
    assert forall|j: int| 0 <= j < k implies !matches_at(s, j, seq![d]) by {
        if matches_at(s, j, seq![d]) {
            assert(s.subrange(j, j + 1)[0] == s[j]);
        }
    }
    lemma_find_first_match(s, seq![d], k);
    lemma_first_line_break(s);
}

/// Finished lines stay as they are: a scan that starts with some lines
/// already finished only adds lines after them.
proof fn lemma_scan_append_lines(s: Seq<char>, lines: Seq<Seq<char>>, line: Seq<char>)
    ensures
        scan(s, (lines, line)).0 == lines + scan(s, (Seq::empty(), line)).0,
        scan(s, (lines, line)).1 == scan(s, (Seq::empty(), line)).1,
    decreases s.len(),
{
    let none: Seq<Seq<char>> = Seq::empty();
    if s.len() == 0 {
        assert(lines + none =~= lines);
    } else {
        lemma_markup_bounds(s);
        if let Some(n) = line_break_length(s) {
            lemma_scan_append_lines(s.skip(n), lines.push(line), Seq::empty());
            lemma_scan_append_lines(s.skip(n), none.push(line), Seq::empty());
            let rest = scan(s.skip(n), (none, Seq::empty())).0;
            assert(lines.push(line) + rest =~= lines + (none.push(line) + rest));
        } else if let Some(n) = html_comment_length(s) {
            if contains_line_break(s.take(n)) {
                lemma_scan_append_lines(s.skip(n), lines.push(line), Seq::empty());
                lemma_scan_append_lines(s.skip(n), none.push(line), Seq::empty());
                let rest = scan(s.skip(n), (none, Seq::empty())).0;
                assert(lines.push(line) + rest =~= lines + (none.push(line) + rest));
            } else {
                lemma_scan_append_lines(s.skip(n), lines, line);
            }
        } else if let Some(n) = annotation_length(s) {
            lemma_scan_append_lines(s.skip(n), lines, line);
        } else if let Some((r, n)) = explicit_ruby(s) {
            let base = s.subrange(1, 1 + r);
            lemma_scan_append_lines(base, lines, line);
            let inner = scan(base, (none, line));
            lemma_scan_append_lines(s.skip(n), lines + inner.0, inner.1);
            lemma_scan_append_lines(s.skip(n), inner.0, inner.1);
            let rest = scan(s.skip(n), (none, inner.1)).0;
            assert(lines + inner.0 + rest =~= lines + (inner.0 + rest));
        } else {
            lemma_scan_append_lines(s.drop_first(), lines, line.push(s[0]));
        }
    }
}

/// The clusters of two runs of lines add up.
proof fn lemma_sum_line_clusters_append(a: Seq<Seq<char>>, b: Seq<Seq<char>>)
    ensures
        sum_line_clusters(a + b) == sum_line_clusters(a) + sum_line_clusters(b),
    decreases b.len(),
{
    if b.len() == 0 {
        assert(a + b =~= a);
    } else {
        assert((a + b).drop_last() =~= a + b.drop_last());
        assert((a + b).last() == b.last());
        lemma_sum_line_clusters_append(a, b.drop_last());
    }
}

/// Lines after a scan from finished lines are those lines and the lines of
/// the rest.
proof fn lemma_end_line_after(s: Seq<char>, lines: Seq<Seq<char>>)
    ensures
        end_line(scan(s, (lines, Seq::empty()))).0 == lines + body_lines(s),
{
    lemma_scan_append_lines(s, lines, Seq::empty());
    let inner = scan(s, (Seq::empty(), Seq::empty()));
    assert((lines + inner.0).push(inner.1) =~= lines + inner.0.push(inner.1));
}

proof fn lemma_starts_with_first(s: Seq<char>, p: Seq<char>)
    requires
        starts_with(s, p),
        p.len() > 0,
    ensures
        s[0] == p[0],
{
    assert(s.subrange(0, p.len() as int)[0] == s[0]);
}

/// A complete Aozora annotation `［＃note］` is not body text: reading it
/// leaves the tally as it was, wherever in a line it stands, so a manuscript
/// that begins with one counts as the rest does.
pub proof fn law_annotation_is_not_counted(note: Seq<char>, rest: Seq<char>, t: Tally)
    requires
        note.len() > 0,
        !note.contains(annotation_close()),
        !contains_line_break(note),
    ensures
        scan(annotation_open() + note + seq![annotation_close()] + rest, t) == scan(rest, t),
        body_character_count(annotation_open() + note + seq![annotation_close()] + rest)
            == body_character_count(rest),
{
    let s = annotation_open() + note + seq![annotation_close()] + rest;
    let after_open = note + seq![annotation_close()] + rest;
    assert(s[0] == '［');
    assert(s.subrange(0, 2) =~= annotation_open());
    assert(s.skip(2) =~= after_open);
    if starts_with(s, comment_open()) {
        lemma_starts_with_first(s, comment_open());
    }
    if starts_with(s, seq!['\r', '\n']) {
        lemma_starts_with_first(s, seq!['\r', '\n']);
    }
    assert forall|j: int| 0 <= j < note.len() implies after_open[j] != annotation_close()
        && !is_line_break_char(#[trigger] after_open[j]) by {
        assert(after_open[j] == note[j]);
        if after_open[j] == annotation_close() {
            assert(note.contains(annotation_close()));
        }
        if is_line_break_char(note[j]) {
            assert(contains_line_break(note));
        }
    }
    assert(after_open[note.len() as int] == annotation_close());
    lemma_find_before_line_break_at(after_open, annotation_close(), note.len() as int);
    assert(s.skip(2 + note.len() as int + 1) =~= rest);
    assert(s.len() > 0);
}

/// A complete HTML comment `<!--note-->` is not body text: reading it leaves
/// the line in progress as it was, except that a comment spanning lines
/// ends the line. A manuscript that begins with one counts as the rest does.
pub proof fn law_html_comment_is_not_counted(note: Seq<char>, rest: Seq<char>, t: Tally)
    requires
        forall|j: int| !matches_at(note, j, comment_close()),
    ensures
        scan(comment_open() + note + comment_close() + rest, t) == scan(
            rest,
            if contains_line_break(note) {
                end_line(t)
            } else {
                t
            },
        ),
        body_character_count(comment_open() + note + comment_close() + rest)
            == body_character_count(rest),
{
    let s = comment_open() + note + comment_close() + rest;
    let after_open = note + comment_close() + rest;
    let n = 4 + note.len() as int + 3;
    assert(s[0] == '<');
    assert(s.subrange(0, 4) =~= comment_open());
    assert(s.skip(4) =~= after_open);
    if starts_with(s, seq!['\r', '\n']) {
        lemma_starts_with_first(s, seq!['\r', '\n']);
    }
    assert(after_open.subrange(note.len() as int, note.len() as int + 3) =~= comment_close());
    assert forall|j: int| 0 <= j < note.len() implies !matches_at(after_open, j, comment_close()) by {
        if j + 3 <= note.len() {
            assert(after_open.subrange(j, j + 3) =~= note.subrange(j, j + 3));
            assert(!matches_at(note, j, comment_close()));
        } else {
            let k = j + 2 - note.len();
            assert(0 <= k < 2);
            assert(after_open[j + 2] == comment_close()[k]);
            assert(after_open.subrange(j, j + 3)[2] == after_open[j + 2]);
            assert(comment_close()[2] == '>');
        }
    }
    lemma_find_first_match(after_open, comment_close(), note.len() as int);
    assert(s.take(n) =~= comment_open() + note + comment_close());
    assert(contains_line_break(s.take(n)) == contains_line_break(note)) by {
        if contains_line_break(note) {
            let j = choose|j: int| 0 <= j < note.len() && is_line_break_char(#[trigger] note[j]);
            assert(s.take(n)[4 + j] == note[j]);
        }
        if contains_line_break(s.take(n)) {
            let j = choose|j: int| 0 <= j < n && is_line_break_char(#[trigger] s.take(n)[j]);
            assert(4 <= j < 4 + note.len());
            assert(s.take(n)[j] == note[j - 4]);
        }
    }
    assert(s.skip(n) =~= rest);
    assert(s.len() > 0);
    if contains_line_break(note) {
        let empty_line: Seq<char> = Seq::empty();
        let none: Seq<Seq<char>> = Seq::empty();
        assert(end_line(empty_tally()) == (none.push(empty_line), empty_line));
        lemma_end_line_after(rest, none.push(empty_line));
        lemma_sum_line_clusters_append(none.push(empty_line), body_lines(rest));
        assert(none.push(empty_line).drop_last() =~= none);
        assert(none.push(empty_line).last() == empty_line);
        assert(line_clusters(empty_line) == 0);
        assert(sum_line_clusters(none) == 0);
        assert(sum_line_clusters(none.push(empty_line)) == 0);
        assert(scan(s, empty_tally()) == scan(rest, end_line(empty_tally())));
        assert(body_lines(s) == none.push(empty_line) + body_lines(rest));
    } else {
        assert(scan(s, empty_tally()) == scan(rest, empty_tally()));
    }
}

/// Only the base text of a complete explicit ruby `｜base《reading》` is
/// body text: reading the ruby has the effect of reading its base, wherever
/// in a line it stands, so a ruby alone counts as its base does.
pub proof fn law_explicit_ruby_counts_its_base(
    base: Seq<char>,
    reading: Seq<char>,
    rest: Seq<char>,
    t: Tally,
)
    requires
        base.len() > 0,
        reading.len() > 0,
        !base.contains(reading_open()),
        !contains_line_break(base),
        !reading.contains(reading_close()),
        !contains_line_break(reading),
    ensures
        scan(
            seq![ruby_marker()] + base + seq![reading_open()] + reading + seq![reading_close()]
                + rest,
            t,
        ) == scan(rest, scan(base, t)),
        body_character_count(
            seq![ruby_marker()] + base + seq![reading_open()] + reading + seq![reading_close()],
        ) == body_character_count(base),
{
    lemma_ruby_step(base, reading, rest, t);
    let ruby = seq![ruby_marker()] + base + seq![reading_open()] + reading + seq![
        reading_close(),
    ];
    lemma_ruby_step(base, reading, Seq::empty(), empty_tally());
    assert(ruby + Seq::<char>::empty() =~= ruby);
}

proof fn lemma_ruby_step(base: Seq<char>, reading: Seq<char>, rest: Seq<char>, t: Tally)
    requires
        base.len() > 0,
        reading.len() > 0,
        !base.contains(reading_open()),
        !contains_line_break(base),
        !reading.contains(reading_close()),
        !contains_line_break(reading),
    ensures
        scan(
            seq![ruby_marker()] + base + seq![reading_open()] + reading + seq![reading_close()]
                + rest,
            t,
        ) == scan(rest, scan(base, t)),
{
    let s = seq![ruby_marker()] + base + seq![reading_open()] + reading + seq![reading_close()]
        + rest;
    let after_marker = base + seq![reading_open()] + reading + seq![reading_close()] + rest;
    let after_open = reading + seq![reading_close()] + rest;
    assert(s[0] == ruby_marker());
    assert(s.skip(1) =~= after_marker);
    if starts_with(s, seq!['\r', '\n']) {
        lemma_starts_with_first(s, seq!['\r', '\n']);
    }
    if starts_with(s, comment_open()) {
        lemma_starts_with_first(s, comment_open());
    }
    if starts_with(s, annotation_open()) {
        lemma_starts_with_first(s, annotation_open());
    }
    assert forall|j: int| 0 <= j < base.len() implies after_marker[j] != reading_open()
        && !is_line_break_char(#[trigger] after_marker[j]) by {
        assert(after_marker[j] == base[j]);
        if base[j] == reading_open() {
            assert(base.contains(reading_open()));
        }
        if is_line_break_char(base[j]) {
            assert(contains_line_break(base));
        }
    }
    assert(after_marker[base.len() as int] == reading_open());
    lemma_find_before_line_break_at(after_marker, reading_open(), base.len() as int);
    assert(after_marker.skip(base.len() as int + 1) =~= after_open);
    assert forall|j: int| 0 <= j < reading.len() implies after_open[j] != reading_close()
        && !is_line_break_char(#[trigger] after_open[j]) by {
        assert(after_open[j] == reading[j]);
        if reading[j] == reading_close() {
            assert(reading.contains(reading_close()));
        }
        if is_line_break_char(reading[j]) {
            assert(contains_line_break(reading));
        }
    }
    assert(after_open[reading.len() as int] == reading_close());
    lemma_find_before_line_break_at(after_open, reading_close(), reading.len() as int);
    let n = 1 + base.len() as int + 1 + reading.len() as int + 1;
    assert(s.skip(n) =~= rest);
    assert(s.subrange(1, 1 + base.len() as int) =~= base);
    assert(s.len() > 0);
}


/// The lines of `s`: the pieces between line breaks, a CR LF being one
/// line break.
pub open spec fn text_lines(s: Seq<char>) -> Seq<Seq<char>>
    decreases s.len(),
{
    match first_line_break(s) {
        None => seq![s],
        Some(i) => {
            proof {
                lemma_first_line_break(s);
                lemma_markup_bounds(s.skip(i));
            }
            let n: int = if starts_with(s.skip(i), crlf()) {
                2
            } else {
                1
            };
            seq![s.take(i)] + text_lines(s.skip(i + n))
        },
    }
}

/// No HTML comment, Aozora annotation or explicit ruby is complete
/// anywhere in `s`.
pub open spec fn no_complete_markup(s: Seq<char>) -> bool {
    forall|i: int|
        0 <= i < s.len() ==> {
            &&& html_comment_length(#[trigger] s.skip(i)) is None
            &&& annotation_length(s.skip(i)) is None
            &&& explicit_ruby(s.skip(i)) is None
        }
}

proof fn lemma_no_complete_markup_skip(s: Seq<char>, j: int)
    requires
        no_complete_markup(s),
        0 <= j <= s.len(),
    ensures
        no_complete_markup(s.skip(j)),
{
    assert forall|i: int| 0 <= i < s.skip(j).len() implies {
        &&& html_comment_length(#[trigger] s.skip(j).skip(i)) is None
        &&& annotation_length(s.skip(j).skip(i)) is None
        &&& explicit_ruby(s.skip(j).skip(i)) is None
    } by {
        assert(s.skip(j).skip(i) =~= s.skip(j + i));
    }
}

/// Where no markup is complete, text before the first line break is body
/// text as it stands.
proof fn lemma_scan_plain_prefix(s: Seq<char>, j: int, t: Tally)
    requires
        no_complete_markup(s),
        0 <= j <= s.len(),
        forall|i: int| 0 <= i < j ==> !is_line_break_char(#[trigger] s[i]),
    ensures
        scan(s, t) == scan(s.skip(j), (t.0, t.1 + s.take(j))),
    decreases j,
{
    if j == 0 {
        assert(s.skip(0) =~= s);
        assert(t.1 + s.take(0) =~= t.1);
    } else {
        assert(s.skip(0) =~= s);
        assert(!is_line_break_char(s[0]));
        if starts_with(s, seq!['\r', '\n']) {
            lemma_starts_with_first(s, seq!['\r', '\n']);
        }
        let d = s.drop_first();
        lemma_no_complete_markup_skip(s, 1);
        assert(s.skip(1) =~= d);
        assert forall|i: int| 0 <= i < j - 1 implies !is_line_break_char(#[trigger] d[i]) by {
            assert(d[i] == s[i + 1]);
        }
        lemma_scan_plain_prefix(d, j - 1, push_body_char(t, s[0]));
        assert(d.skip(j - 1) =~= s.skip(j));
        assert(t.1.push(s[0]) + d.take(j - 1) =~= t.1 + s.take(j));
    }
}

proof fn lemma_literal_lines_from(s: Seq<char>, lines: Seq<Seq<char>>)
    requires
        no_complete_markup(s),
    ensures
        end_line(scan(s, (lines, Seq::empty()))).0 == lines + text_lines(s),
    decreases s.len(),
{
    lemma_first_line_break(s);
    match first_line_break(s) {
        None => {
            assert forall|i: int| 0 <= i < s.len() implies !is_line_break_char(#[trigger] s[i]) by {
                if is_line_break_char(s[i]) {
                    assert(contains_line_break(s));
                }
            }
            lemma_scan_plain_prefix(s, s.len() as int, (lines, Seq::empty()));
            assert(s.skip(s.len() as int).len() == 0);
            assert(Seq::<char>::empty() + s.take(s.len() as int) =~= s);
            assert(lines.push(s) =~= lines + seq![s]);
        },
        Some(i) => {
            lemma_scan_plain_prefix(s, i, (lines, Seq::empty()));
            assert(Seq::<char>::empty() + s.take(i) =~= s.take(i));
            let u = s.skip(i);
            assert(u[0] == s[i]);
            lemma_markup_bounds(u);
            let n: int = if starts_with(u, crlf()) {
                2
            } else {
                1
            };
            assert(line_break_length(u) == Some(n));
            assert(u.skip(n) =~= s.skip(i + n));
            lemma_no_complete_markup_skip(s, i + n);
            lemma_literal_lines_from(s.skip(i + n), lines.push(s.take(i)));
            assert(lines.push(s.take(i)) + text_lines(s.skip(i + n)) =~= lines + (seq![s.take(i)]
                + text_lines(s.skip(i + n))));
        },
    }
}

/// Text in which no markup is complete is body text as it stands: its body
/// lines are its lines, so every grapheme cluster of every line counts,
/// spaces, tabs, implicit ruby, emphasis marks and incomplete or malformed
/// markup included, and line breaks do not.
pub proof fn law_text_without_complete_markup_counts_literally(s: Seq<char>)
    requires
        no_complete_markup(s),
    ensures
        body_lines(s) == text_lines(s),
        body_character_count(s) == sum_line_clusters(text_lines(s)),
{
    lemma_literal_lines_from(s, Seq::empty());
    assert(Seq::<Seq<char>>::empty() + text_lines(s) =~= text_lines(s));
}

/// A line of body text counts as the extended grapheme clusters of the
/// whole line: no char of it is left out.
pub proof fn law_line_counts_all_its_clusters(line: Seq<char>)
    requires
        line.len() > 0,
    ensures
        line_clusters(line) == crate::segmentation::extended_grapheme_count(line),
{
}

/// A single line in which no markup is complete counts as the extended
/// grapheme clusters of the whole line, spaces of every kind included.
pub proof fn law_plain_line_counts_its_clusters(line: Seq<char>)
    requires
        line.len() > 0,
        !contains_line_break(line),
        no_complete_markup(line),
    ensures
        body_character_count(line) == crate::segmentation::extended_grapheme_count(line),
{
    law_text_without_complete_markup_counts_literally(line);
    lemma_first_line_break(line);
    assert(text_lines(line) == seq![line]);
    let lines = seq![line];
    assert(lines.drop_last() =~= Seq::<Seq<char>>::empty());
    assert(sum_line_clusters(Seq::<Seq<char>>::empty()) == 0);
}

/// An empty manuscript has no body characters.
pub proof fn law_empty_document_counts_nothing()
    ensures
        body_character_count(Seq::empty()) == 0,
{
    let none: Seq<char> = Seq::empty();
    assert(scan(none, empty_tally()) == empty_tally());
    let lines = body_lines(none);
    assert(lines == Seq::<Seq<char>>::empty().push(none));
    assert(lines.drop_last() =~= Seq::<Seq<char>>::empty());
    assert(lines.last() == none);
    assert(line_clusters(none) == 0);
    assert(sum_line_clusters(Seq::<Seq<char>>::empty()) == 0);
    assert(sum_line_clusters(lines) == sum_line_clusters(lines.drop_last()) + line_clusters(
        lines.last(),
    ));
    assert(body_character_count(none) == sum_line_clusters(lines));
}

/// Every HTML comment that opens in `s` also closes in `s`.
pub open spec fn comments_close_within(s: Seq<char>) -> bool {
    forall|i: int|
        0 <= i <= s.len() && starts_with(#[trigger] s.skip(i), comment_open()) ==> find(
            s.skip(i + 4),
            comment_close(),
        ) is Some
}

proof fn lemma_comments_close_within_skip(s: Seq<char>, j: int)
    requires
        comments_close_within(s),
        0 <= j <= s.len(),
    ensures
        comments_close_within(s.skip(j)),
{
    assert forall|i: int|
        0 <= i <= s.skip(j).len() && starts_with(#[trigger] s.skip(j).skip(i), comment_open())
            implies find(s.skip(j).skip(i + 4), comment_close()) is Some by {
        assert(s.skip(j).skip(i) =~= s.skip(j + i));
        assert(s.skip(j).skip(i + 4) =~= s.skip(j + i + 4));
    }
}

/// Followed by a line break, `a` reads as it does alone: the markup that
/// begins it is the same.
proof fn lemma_markup_before_line_break(a: Seq<char>, y: Seq<char>)
    requires
        a.len() > 0,
        comments_close_within(a),
        !(a.len() == 1 && a[0] == '\r'),
        y.len() > 0,
        y[0] == '\n',
    ensures
        line_break_length(a + y) == line_break_length(a),
        html_comment_length(a + y) == html_comment_length(a),
        annotation_length(a + y) == annotation_length(a),
        explicit_ruby(a + y) == explicit_ruby(a),
{
    let w = a + y;
    assert(w[0] == a[0]);
    assert(w[a.len() as int] == '\n');
    assert(is_line_break_char(y[0]));
    // line breaks
    if a.len() >= 2 {
        assert(w.subrange(0, 2) =~= a.subrange(0, 2));
    } else if starts_with(w, seq!['\r', '\n']) {
        lemma_starts_with_first(w, seq!['\r', '\n']);
    }
    // comments
    if a.len() >= 4 {
        assert(w.subrange(0, 4) =~= a.subrange(0, 4));
    } else if starts_with(w, comment_open()) {
        assert(w.subrange(0, 4)[a.len() as int] == w[a.len() as int]);
        assert(comment_open()[a.len() as int] != '\n');
    }
    if starts_with(a, comment_open()) {
        assert(a.skip(0) =~= a);
        assert(w.skip(4) =~= a.skip(4) + y);
        lemma_find_extend(a.skip(4), y, comment_close());
    }
    // annotations
    if a.len() >= 2 {
        assert(w.subrange(0, 2) =~= a.subrange(0, 2));
    } else if starts_with(w, annotation_open()) {
        assert(w.subrange(0, 2)[1] == w[1]);
    }
    if starts_with(a, annotation_open()) {
        assert(w.skip(2) =~= a.skip(2) + y);
        lemma_find_before_line_break_extend(a.skip(2), y, annotation_close());
    }
    // explicit ruby
    if a[0] == ruby_marker() {
        let after = a.skip(1);
        assert(w.skip(1) =~= after + y);
        lemma_find_before_line_break_extend(after, y, reading_open());
        lemma_find_before_line_break_bounds(after, reading_open());
        if let Some(r) = find_before_line_break(after, reading_open()) {
            assert((after + y).skip(r + 1) =~= after.skip(r + 1) + y);
            lemma_find_before_line_break_extend(after.skip(r + 1), y, reading_close());
        }
    }
}

proof fn lemma_lines_compose(a: Seq<char>, b: Seq<char>, t: Tally)
    requires
        comments_close_within(a),
    ensures
        sum_line_clusters(end_line(scan(a + (seq!['\n'] + b), t)).0) == sum_line_clusters(
            end_line(scan(a, t)).0,
        ) + body_character_count(b),
    decreases a.len(),
{
    let y = seq!['\n'] + b;
    let w = a + y;
    lemma_end_line_after(b, t.0.push(t.1));
    lemma_sum_line_clusters_append(t.0.push(t.1), body_lines(b));
    if a.len() == 0 {
        assert(w =~= y);
        assert(y[0] == '\n');
        if starts_with(y, seq!['\r', '\n']) {
            lemma_starts_with_first(y, seq!['\r', '\n']);
        }
        assert(y.skip(1) =~= b);
        assert(line_break_length(y) == Some(1int));
        assert(scan(y, t) == scan(b, end_line(t)));
        assert(scan(a, t) == t);
    } else if a.len() == 1 && a[0] == '\r' {
        assert(w.subrange(0, 2) =~= seq!['\r', '\n']);
        assert(w.skip(2) =~= b);
        assert(line_break_length(w) == Some(2int));
        assert(scan(w, t) == scan(b, end_line(t)));
        assert(line_break_length(a) == Some(1int));
        assert(a.skip(1).len() == 0);
        assert(scan(a, t) == scan(a.skip(1), end_line(t)));
        assert(scan(a, t) == end_line(t));
        assert(end_line(end_line(t)).0.drop_last() =~= end_line(t).0);
    } else {
        assert(y[0] == '\n');
        lemma_markup_before_line_break(a, y);
        lemma_markup_bounds(a);
        if let Some(n) = line_break_length(a) {
            assert(w.skip(n) =~= a.skip(n) + y);
            lemma_comments_close_within_skip(a, n);
            lemma_lines_compose(a.skip(n), b, end_line(t));
        } else if let Some(n) = html_comment_length(a) {
            assert(w.skip(n) =~= a.skip(n) + y);
            assert(w.take(n) =~= a.take(n));
            lemma_comments_close_within_skip(a, n);
            let t2 = if contains_line_break(a.take(n)) {
                end_line(t)
            } else {
                t
            };
            lemma_lines_compose(a.skip(n), b, t2);
        } else if let Some(n) = annotation_length(a) {
            assert(w.skip(n) =~= a.skip(n) + y);
            lemma_comments_close_within_skip(a, n);
            lemma_lines_compose(a.skip(n), b, t);
        } else if let Some((r, n)) = explicit_ruby(a) {
            assert(w.skip(n) =~= a.skip(n) + y);
            assert(w.subrange(1, 1 + r) =~= a.subrange(1, 1 + r));
            lemma_comments_close_within_skip(a, n);
            lemma_lines_compose(a.skip(n), b, scan(a.subrange(1, 1 + r), t));
        } else {
            assert(w[0] == a[0]);
            assert(w.drop_first() =~= a.drop_first() + y);
            lemma_comments_close_within_skip(a, 1);
            assert(a.skip(1) =~= a.drop_first());
            lemma_lines_compose(a.drop_first(), b, push_body_char(t, a[0]));
        }
    }
}

/// Lines count independently: the count of `a`, a line break and `b` is the
/// count of `a` plus the count of `b`, provided no HTML comment left open
/// in `a` could close in `b`.
pub proof fn law_lines_count_independently(a: Seq<char>, b: Seq<char>)
    requires
        comments_close_within(a),
    ensures
        body_character_count(a + seq!['\n'] + b) == body_character_count(a)
            + body_character_count(b),
{
    assert(a + seq!['\n'] + b =~= a + (seq!['\n'] + b));
    lemma_lines_compose(a, b, empty_tally());
}

} // verus!
