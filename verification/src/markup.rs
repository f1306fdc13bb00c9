//! The mathematical model of Genko Novel markup: which delimiters exist,
//! where a complete piece of markup ends, and what the body text of a
//! manuscript is.

use crate::segmentation::extended_grapheme_count;
use vstd::prelude::*;

verus! {

/// A line break: LF, CR, NEL, LINE SEPARATOR or PARAGRAPH SEPARATOR.
pub open spec fn is_line_break_char(c: char) -> bool {
    c == '\n' || c == '\r' || c == '\u{85}' || c == '\u{2028}' || c == '\u{2029}'
}

/// `p` occurs in `s` at index `i`.
pub open spec fn matches_at(s: Seq<char>, i: int, p: Seq<char>) -> bool {
    &&& 0 <= i
    &&& i + p.len() <= s.len()
    &&& s.subrange(i, i + p.len()) == p
}

/// `s` begins with `p`.
pub open spec fn starts_with(s: Seq<char>, p: Seq<char>) -> bool {
    matches_at(s, 0, p)
}

/// The index of the first occurrence of `p` in `s`.
pub open spec fn find(s: Seq<char>, p: Seq<char>) -> Option<int>
    decreases s.len(),
{
    if s.len() < p.len() {
        None
    } else if s.subrange(0, p.len() as int) == p {
        Some(0)
    } else if s.len() == 0 {
        None
    } else {
        match find(s.drop_first(), p) {
            Some(i) => Some(i + 1),
            None => None,
        }
    }
}

/// `i` is the first index at which `p` occurs in `s`.
pub open spec fn is_first_match(s: Seq<char>, p: Seq<char>, i: int) -> bool {
    &&& matches_at(s, i, p)
    &&& forall|j: int| 0 <= j < i ==> !matches_at(s, j, p)
}

proof fn lemma_matches_drop_first(s: Seq<char>, p: Seq<char>, j: int)
    requires
        s.len() > 0,
        0 <= j,
    ensures
        matches_at(s, j + 1, p) == matches_at(s.drop_first(), j, p),
{
    if j + 1 + p.len() <= s.len() {
        assert(s.subrange(j + 1, j + 1 + p.len()) =~= s.drop_first().subrange(j, j + p.len()));
    }
}

/// What `find` returns is the first occurrence, and `None` means there is none.
pub proof fn lemma_find(s: Seq<char>, p: Seq<char>)
    ensures
        match find(s, p) {
            Some(i) => is_first_match(s, p, i),
            None => forall|j: int| !matches_at(s, j, p),
        },
    decreases s.len(),
{
    if s.len() < p.len() {
    } else if s.subrange(0, p.len() as int) == p {
    } else if s.len() == 0 {
        assert(s.subrange(0, p.len() as int) =~= p);
    } else {
        lemma_find(s.drop_first(), p);
        assert forall|j: int| 0 <= j implies matches_at(s, j + 1, p) == matches_at(
            s.drop_first(),
            j,
            p,
        ) by {
            lemma_matches_drop_first(s, p, j);
        }
        match find(s.drop_first(), p) {
            Some(i) => {
                assert forall|j: int| 0 <= j < i + 1 implies !matches_at(s, j, p) by {
                    if j > 0 {
                        assert(matches_at(s, (j - 1) + 1, p) == matches_at(s.drop_first(), j - 1, p));
                    }
                }
            },
            None => {
                assert forall|j: int| !matches_at(s, j, p) by {
                    if j > 0 {
                        assert(matches_at(s, (j - 1) + 1, p) == matches_at(s.drop_first(), j - 1, p));
                    }
                }
            },
        }
    }
}

/// A first occurrence is unique, so it is what `find` returns.
pub proof fn lemma_find_first_match(s: Seq<char>, p: Seq<char>, i: int)
    requires
        is_first_match(s, p, i),
    ensures
        find(s, p) == Some(i),
{
    lemma_find(s, p);
    match find(s, p) {
        Some(k) => {
            if k < i {
            } else if k > i {
            }
        },
        None => {},
    }
}

/// When no occurrence of `p` lies in `s`, `find` gives `None`.
pub proof fn lemma_find_none(s: Seq<char>, p: Seq<char>)
    requires
        forall|j: int| 0 <= j && j + p.len() <= s.len() ==> !matches_at(s, j, p),
    ensures
        find(s, p) is None,
{
    lemma_find(s, p);
    match find(s, p) {
        Some(k) => {
            assert(matches_at(s, k, p));
        },
        None => {},
    }
}


/// Looking at `s` from index `i` on is looking at `s.skip(i)`.
pub proof fn lemma_starts_with_skip(s: Seq<char>, i: int, p: Seq<char>)
    requires
        0 <= i <= s.len(),
    ensures
        starts_with(s.skip(i), p) == matches_at(s, i, p),
{
    if i + p.len() <= s.len() {
        assert(s.skip(i).subrange(0, p.len() as int) =~= s.subrange(i, i + p.len()));
    }
}

/// The index of the first line break in `s`.
pub open spec fn first_line_break(s: Seq<char>) -> Option<int>
    decreases s.len(),
{
    if s.len() == 0 {
        None
    } else if is_line_break_char(s[0]) {
        Some(0)
    } else {
        match first_line_break(s.drop_first()) {
            Some(i) => Some(i + 1),
            None => None,
        }
    }
}

/// `s` holds a line break somewhere.
pub open spec fn contains_line_break(s: Seq<char>) -> bool {
    exists|i: int| 0 <= i < s.len() && is_line_break_char(#[trigger] s[i])
}

/// What `first_line_break` returns is the first line break, and `None`
/// means that there is none.
pub proof fn lemma_first_line_break(s: Seq<char>)
    ensures
        match first_line_break(s) {
            Some(i) => {
                &&& 0 <= i < s.len()
                &&& is_line_break_char(s[i])
                &&& forall|j: int| 0 <= j < i ==> !is_line_break_char(#[trigger] s[j])
            },
            None => !contains_line_break(s),
        },
    decreases s.len(),
{
    if s.len() > 0 && !is_line_break_char(s[0]) {
        let t = s.drop_first();
        lemma_first_line_break(t);
        assert forall|j: int| 0 < j < s.len() implies s[j] == #[trigger] t[j - 1] by {}
        match first_line_break(t) {
            Some(i) => {
                assert forall|j: int| 0 <= j < i + 1 implies !is_line_break_char(#[trigger] s[j]) by {
                    if j > 0 {
                        assert(s[j] == t[j - 1]);
                    }
                }
            },
            None => {
                assert forall|j: int| 0 <= j < s.len() implies !is_line_break_char(#[trigger] s[j]) by {
                    if j > 0 {
                        assert(s[j] == t[j - 1]);
                    }
                }
            },
        }
    }
}

/// A first line break is unique, so it is what `first_line_break` returns.
pub proof fn lemma_first_line_break_at(s: Seq<char>, i: int)
    requires
        0 <= i < s.len(),
        is_line_break_char(s[i]),
        forall|j: int| 0 <= j < i ==> !is_line_break_char(#[trigger] s[j]),
    ensures
        first_line_break(s) == Some(i),
{
    lemma_first_line_break(s);
    match first_line_break(s) {
        Some(k) => {
            if k < i {
            } else if k > i {
            }
        },
        None => {},
    }
}

/// The offset of the first `delimiter` in `s`, provided no line break comes
/// before it: delimited markup never spans lines.
pub open spec fn find_before_line_break(s: Seq<char>, delimiter: char) -> Option<int> {
    match find(s, seq![delimiter]) {
        None => None,
        Some(k) => match first_line_break(s) {
            Some(l) => if l < k {
                None
            } else {
                Some(k)
            },
            None => Some(k),
        },
    }
}

/// A found delimiter lies inside `s`.
pub proof fn lemma_find_before_line_break_bounds(s: Seq<char>, delimiter: char)
    ensures
        find_before_line_break(s, delimiter) matches Some(k) ==> 0 <= k < s.len() && s[k]
            == delimiter,
{
    lemma_find(s, seq![delimiter]);
    if let Some(k) = find(s, seq![delimiter]) {
        assert(s.subrange(k, k + 1)[0] == s[k]);
    }
}

pub open spec fn crlf() -> Seq<char> {
    seq!['\r', '\n']
}

pub open spec fn comment_open() -> Seq<char> {
    seq!['<', '!', '-', '-']
}

pub open spec fn comment_close() -> Seq<char> {
    seq!['-', '-', '>']
}

pub open spec fn annotation_open() -> Seq<char> {
    seq!['［', '＃']
}

pub open spec fn annotation_close() -> char {
    '］'
}

pub open spec fn ruby_marker() -> char {
    '｜'
}

pub open spec fn reading_open() -> char {
    '《'
}

pub open spec fn reading_close() -> char {
    '》'
}

/// The length of the line break that `s` begins with: CR LF counts as one.
pub open spec fn line_break_length(s: Seq<char>) -> Option<int> {
    if starts_with(s, crlf()) {
        Some(2)
    } else if s.len() > 0 && is_line_break_char(s[0]) {
        Some(1)
    } else {
        None
    }
}

/// The length of the complete HTML comment that `s` begins with: `<!--`,
/// anything up to the first `-->`, and that `-->`.
pub open spec fn html_comment_length(s: Seq<char>) -> Option<int> {
    if starts_with(s, comment_open()) {
        match find(s.skip(4), comment_close()) {
            Some(k) => Some(4 + k + 3),
            None => None,
        }
    } else {
        None
    }
}

/// The length of the complete Aozora annotation that `s` begins with:
/// `［＃`, a non-empty note on the same line, and `］`.
pub open spec fn annotation_length(s: Seq<char>) -> Option<int> {
    if starts_with(s, annotation_open()) {
        match find_before_line_break(s.skip(2), annotation_close()) {
            Some(k) => if k == 0 {
                None
            } else {
                Some(2 + k + 1)
            },
            None => None,
        }
    } else {
        None
    }
}

/// The complete explicit ruby that `s` begins with, as the length of its
/// base text and its whole length: `｜`, a non-empty base, `《`, a non-empty
/// reading and `》`, all on one line. The base starts at index 1.
pub open spec fn explicit_ruby(s: Seq<char>) -> Option<(int, int)> {
    if s.len() > 0 && s[0] == ruby_marker() {
        let after_marker = s.skip(1);
        match find_before_line_break(after_marker, reading_open()) {
            Some(r) => if r == 0 {
                None
            } else {
                match find_before_line_break(after_marker.skip(r + 1), reading_close()) {
                    Some(c) => if c == 0 {
                        None
                    } else {
                        Some((r, 1 + r + 1 + c + 1))
                    },
                    None => None,
                }
            },
            None => None,
        }
    } else {
        None
    }
}

/// Each piece of markup that `s` begins with lies inside `s` and is not empty.
pub proof fn lemma_markup_bounds(s: Seq<char>)
    ensures
        line_break_length(s) matches Some(n) ==> 1 <= n <= s.len(),
        html_comment_length(s) matches Some(n) ==> 7 <= n <= s.len(),
        annotation_length(s) matches Some(n) ==> 4 <= n <= s.len(),
        explicit_ruby(s) matches Some((r, n)) ==> 1 <= r && 1 + r < n <= s.len(),
{
    if starts_with(s, comment_open()) {
        lemma_find(s.skip(4), comment_close());
    }
    if starts_with(s, annotation_open()) {
        lemma_find_before_line_break_bounds(s.skip(2), annotation_close());
    }
    if s.len() > 0 && s[0] == ruby_marker() {
        lemma_find_before_line_break_bounds(s.skip(1), reading_open());
        if let Some(r) = find_before_line_break(s.skip(1), reading_open()) {
            lemma_find_before_line_break_bounds(s.skip(1).skip(r + 1), reading_close());
        }
    }
}


/// The clusters of one line of body text; an empty line has none.
pub open spec fn line_clusters(line: Seq<char>) -> nat {
    if line.len() == 0 {
        0
    } else {
        extended_grapheme_count(line)
    }
}

/// The clusters of all `lines` together.
pub open spec fn sum_line_clusters(lines: Seq<Seq<char>>) -> nat
    decreases lines.len(),
{
    if lines.len() == 0 {
        0
    } else {
        sum_line_clusters(lines.drop_last()) + line_clusters(lines.last())
    }
}

/// The chars of all `lines` together.
pub open spec fn total_length(lines: Seq<Seq<char>>) -> nat
    decreases lines.len(),
{
    if lines.len() == 0 {
        0
    } else {
        total_length(lines.drop_last()) + lines.last().len()
    }
}

/// A scan's running tally: the finished lines of body text, and the body
/// text of the line in progress.
pub type Tally = (Seq<Seq<char>>, Seq<char>);

pub open spec fn empty_tally() -> Tally {
    (Seq::empty(), Seq::empty())
}

/// Finishes the line in progress.
pub open spec fn end_line(t: Tally) -> Tally {
    (t.0.push(t.1), Seq::empty())
}

/// Adds a char of body text to the line in progress.
pub open spec fn push_body_char(t: Tally, c: char) -> Tally {
    (t.0, t.1.push(c))
}

/// Reads `s` from left to right, starting from tally `t`. At each point the
/// first that applies of: a line break ends the line; a complete HTML
/// comment is skipped, and ends the line if it spans lines; a complete Aozora
/// annotation is skipped; a complete explicit ruby contributes the body of
/// its base text; any other char is body text.
pub open spec fn scan(s: Seq<char>, t: Tally) -> Tally
    decreases s.len(),
{
    if s.len() == 0 {
        t
    } else {
        proof {
            lemma_markup_bounds(s);
        }
        if let Some(n) = line_break_length(s) {
            scan(s.skip(n), end_line(t))
        } else if let Some(n) = html_comment_length(s) {
            scan(
                s.skip(n),
                if contains_line_break(s.take(n)) {
                    end_line(t)
                } else {
                    t
                },
            )
        } else if let Some(n) = annotation_length(s) {
            scan(s.skip(n), t)
        } else if let Some((r, n)) = explicit_ruby(s) {
            scan(s.skip(n), scan(s.subrange(1, 1 + r), t))
        } else {
            scan(s.drop_first(), push_body_char(t, s[0]))
        }
    }
}

/// The body text of a manuscript, line by line.
pub open spec fn body_lines(s: Seq<char>) -> Seq<Seq<char>> {
    end_line(scan(s, empty_tally())).0
}

/// The body character count of a manuscript: the extended grapheme
/// clusters of its body text, counted line by line.
pub open spec fn body_character_count(s: Seq<char>) -> nat {
    sum_line_clusters(body_lines(s))
}

} // verus!
