//! Character sequences: the mathematical vocabulary in which every contract
//! of this crate speaks about text, and the executable routines that compute it.
//!
//! A piece of text is modelled as a `Seq<char>`, the view of a `str`. Searching
//! and splitting are defined once here, as spec functions, and the executable
//! functions below are proved to compute exactly those.

use vstd::prelude::*;

verus! {

/// `pattern` stands in `text` at position `at`.
pub open spec fn occurs_at(text: Seq<char>, pattern: Seq<char>, at: int) -> bool {
    &&& 0 <= at
    &&& at + pattern.len() <= text.len()
    &&& text.subrange(at, at + pattern.len()) == pattern
}

/// `pattern` stands somewhere in `text`.
pub open spec fn has_occurrence(text: Seq<char>, pattern: Seq<char>) -> bool {
    exists|at: int| occurs_at(text, pattern, at)
}

/// `pattern` stands in `text` at `at`, and nowhere before.
pub open spec fn is_first_occurrence(text: Seq<char>, pattern: Seq<char>, at: int) -> bool {
    &&& occurs_at(text, pattern, at)
    &&& forall|earlier: int| 0 <= earlier < at ==> !occurs_at(text, pattern, earlier)
}

/// The least position at which `pattern` stands in `text`, if there is one.
pub open spec fn first_occurrence(text: Seq<char>, pattern: Seq<char>) -> Option<int> {
    if exists|at: int| is_first_occurrence(text, pattern, at) {
        Some(choose|at: int| is_first_occurrence(text, pattern, at))
    } else {
        None
    }
}

/// The pieces of `text` between the occurrences of `separator`, taken from
/// left to right and without overlap. A text without the separator is one
/// piece; a separator at either end leaves an empty piece there.
pub open spec fn split(text: Seq<char>, separator: Seq<char>) -> Seq<Seq<char>>
    decreases text.len(),
{
    match first_occurrence(text, separator) {
        Some(at) if separator.len() > 0 => seq![text.take(at)] + split(
            text.skip(at + separator.len()),
            separator,
        ),
        _ => seq![text],
    }
}

/// A carriage return followed by a line feed: what ends a protocol line.
pub open spec fn line_break() -> Seq<char> {
    seq!['\r', '\n']
}

/// The piece holds at least one character.
pub open spec fn is_nonempty(piece: Seq<char>) -> bool {
    piece.len() > 0
}

/// The pieces that hold at least one character, in their order.
pub open spec fn nonempty_pieces(pieces: Seq<Seq<char>>) -> Seq<Seq<char>> {
    pieces.filter(nonempty_test())
}

/// [`is_nonempty`] as a predicate value.
pub open spec fn nonempty_test() -> spec_fn(Seq<char>) -> bool {
    |piece: Seq<char>| is_nonempty(piece)
}

/// The protocol lines of a frame: its pieces between line breaks, the empty
/// ones left out.
pub open spec fn frame_lines(frame: Seq<char>) -> Seq<Seq<char>> {
    nonempty_pieces(split(frame, line_break()))
}

/// The pieces put together again, with `separator` between each two.
pub open spec fn join(pieces: Seq<Seq<char>>, separator: Seq<char>) -> Seq<char>
    decreases pieces.len(),
{
    if pieces.len() == 0 {
        Seq::empty()
    } else if pieces.len() == 1 {
        pieces[0]
    } else {
        pieces[0] + separator + join(pieces.drop_first(), separator)
    }
}

/// A protocol line: at least one character, and no line break within.
pub open spec fn is_line(text: Seq<char>) -> bool {
    is_nonempty(text) && !has_occurrence(text, line_break())
}

/// Whether `c` is white space, that is, one of the characters with the
/// Unicode property `White_Space`: the space, the controls from the tab to
/// the carriage return, the next line control, and the spaces and line
/// separators beyond ASCII.
pub open spec fn white_space(c: char) -> bool {
    ||| c == ' '
    ||| '\t' <= c <= '\r'
    ||| c == '\u{85}'
    ||| c == '\u{a0}'
    ||| c == '\u{1680}'
    ||| '\u{2000}' <= c <= '\u{200a}'
    ||| c == '\u{2028}'
    ||| c == '\u{2029}'
    ||| c == '\u{202f}'
    ||| c == '\u{205f}'
    ||| c == '\u{3000}'
}

/// `text` without the white space at its end.
pub open spec fn trimmed_end(text: Seq<char>) -> Seq<char>
    decreases text.len(),
{
    if text.len() > 0 && white_space(text.last()) {
        trimmed_end(text.drop_last())
    } else {
        text
    }
}

/// `text` without the white space at its start.
pub open spec fn trimmed_start(text: Seq<char>) -> Seq<char>
    decreases text.len(),
{
    if text.len() > 0 && white_space(text.first()) {
        trimmed_start(text.drop_first())
    } else {
        text
    }
}

/// `text` without the white space at its start and at its end.
pub open spec fn trimmed(text: Seq<char>) -> Seq<char> {
    trimmed_end(trimmed_start(text))
}

/// A position is the first occurrence as soon as it is an occurrence with
/// none before it: there is only one such position.
pub proof fn lemma_first_occurrence(text: Seq<char>, pattern: Seq<char>, at: int)
    requires
        is_first_occurrence(text, pattern, at),
    ensures
        first_occurrence(text, pattern) == Some(at),
        has_occurrence(text, pattern),
{
    let chosen = choose|at: int| is_first_occurrence(text, pattern, at);
    assert(is_first_occurrence(text, pattern, chosen));
    if chosen < at {
        assert(!occurs_at(text, pattern, chosen));
    } else if at < chosen {
        assert(!occurs_at(text, pattern, at));
    }
}

/// Where a pattern stands nowhere, it has no first occurrence.
pub proof fn lemma_no_occurrence(text: Seq<char>, pattern: Seq<char>)
    requires
        forall|at: int| !occurs_at(text, pattern, at),
    ensures
        first_occurrence(text, pattern) is None,
        !has_occurrence(text, pattern),
{
}

/// Dropping the first `start` characters moves every occurrence `start`
/// places to the left.
pub proof fn lemma_occurs_after_skip(text: Seq<char>, pattern: Seq<char>, start: int, at: int)
    requires
        0 <= start <= text.len(),
        0 <= at,
    ensures
        occurs_at(text.skip(start), pattern, at) <==> occurs_at(text, pattern, start + at),
{
    if at + pattern.len() <= text.len() - start {
        assert(text.skip(start).subrange(at, at + pattern.len()) =~= text.subrange(
            start + at,
            start + at + pattern.len(),
        ));
    }
}

/// Leaving out the empty pieces of a sequence that ends with `piece` keeps
/// `piece` exactly when it is not empty.
pub proof fn lemma_nonempty_pieces_push(pieces: Seq<Seq<char>>, piece: Seq<char>)
    ensures
        nonempty_pieces(pieces.push(piece)) == if is_nonempty(piece) {
            nonempty_pieces(pieces).push(piece)
        } else {
            nonempty_pieces(pieces)
        },
{
    reveal(Seq::filter);
    assert(pieces.push(piece).drop_last() =~= pieces);
}

/// Splitting at the line breaks undoes joining with line breaks: pieces
/// that hold no line break themselves come out again as they went in, the
/// empty ones too.
pub proof fn lemma_split_undoes_join(pieces: Seq<Seq<char>>)
    requires
        pieces.len() >= 1,
        forall|i: int| 0 <= i < pieces.len() ==> !has_occurrence(#[trigger] pieces[i], line_break()),
    ensures
        split(join(pieces, line_break()), line_break()) == pieces,
    decreases pieces.len(),
{
    let mark = line_break();
    let text = join(pieces, mark);
    let first = pieces[0];
    if pieces.len() == 1 {
        assert(!has_occurrence(first, mark));
        lemma_no_occurrence(first, mark);
        assert(split(text, mark) =~= pieces);
    } else {
        let rest = pieces.drop_first();
        let tail = join(rest, mark);
        let at = first.len() as int;
        assert(text.subrange(at, at + 2) =~= mark);
        assert forall|earlier: int| 0 <= earlier < at implies !occurs_at(text, mark, earlier) by {
            if occurs_at(text, mark, earlier) {
                let found = text.subrange(earlier, earlier + 2);
                assert(found[0] == text[earlier] && found[1] == text[earlier + 1]);
                if earlier + 2 <= at {
                    assert(first.subrange(earlier, earlier + 2) =~= mark);
                    assert(occurs_at(first, mark, earlier));
                } else {
                    assert(text[earlier + 1] == mark[0]);
                }
            }
        }
        lemma_first_occurrence(text, mark, at);
        assert(text.take(at) =~= first);
        assert(text.skip(at + 2) =~= tail);
        assert forall|i: int| 0 <= i < rest.len() implies !has_occurrence(
            #[trigger] rest[i],
            mark,
        ) by {
            assert(rest[i] == pieces[i + 1]);
        }
        lemma_split_undoes_join(rest);
        assert(split(text, mark) =~= pieces);
    }
}

/// Where every piece holds a character, leaving out the empty pieces leaves
/// out nothing.
pub proof fn lemma_nonempty_pieces_keeps_lines(pieces: Seq<Seq<char>>)
    requires
        forall|i: int| 0 <= i < pieces.len() ==> is_nonempty(#[trigger] pieces[i]),
    ensures
        nonempty_pieces(pieces) == pieces,
    decreases pieces.len(),
{
    reveal(Seq::filter);
    if pieces.len() > 0 {
        lemma_nonempty_pieces_keeps_lines(pieces.drop_last());
        assert(pieces.drop_last().push(pieces.last()) =~= pieces);
    }
}

/// Joining one more piece to at least one other puts a separator and the
/// piece at the end.
pub proof fn lemma_join_push(pieces: Seq<Seq<char>>, piece: Seq<char>, separator: Seq<char>)
    requires
        pieces.len() >= 1,
    ensures
        join(pieces.push(piece), separator) == join(pieces, separator) + separator + piece,
    decreases pieces.len(),
{
    let longer = pieces.push(piece);
    assert(longer.drop_first() =~= pieces.drop_first().push(piece));
    if pieces.len() == 1 {
        assert(longer.drop_first() =~= seq![piece]);
        assert(join(longer, separator) =~= pieces[0] + separator + piece) by {
            reveal_with_fuel(join, 3);
        }
    } else {
        lemma_join_push(pieces.drop_first(), piece, separator);
        assert(join(longer, separator) =~= join(pieces, separator) + separator + piece);
    }
}

/// A frame made of protocol lines with a line break between each two, and
/// with or without one behind the last, has exactly these lines, in their
/// order.
pub proof fn lemma_frame_lines_of_joined(lines: Seq<Seq<char>>)
    requires
        forall|i: int| 0 <= i < lines.len() ==> is_line(#[trigger] lines[i]),
    ensures
        frame_lines(join(lines, line_break())) == lines,
        frame_lines(join(lines, line_break()) + line_break()) == lines,
{
    let mark = line_break();
    let nothing = Seq::<char>::empty();
    let closed = lines.push(nothing);
    lemma_nonempty_pieces_keeps_lines(lines);
    lemma_nonempty_pieces_push(lines, nothing);
    if lines.len() == 0 {
        let two = seq![nothing, nothing];
        assert(join(two, mark) =~= mark) by {
            reveal_with_fuel(join, 3);
        }
        assert(join(lines, mark) + mark =~= mark);
        lemma_no_occurrence(nothing, mark);
        lemma_split_undoes_join(two);
        lemma_nonempty_pieces_push(seq![nothing], nothing);
        assert(lines.push(nothing) =~= seq![nothing]);
        assert(seq![nothing].push(nothing) =~= two);
    } else {
        assert forall|i: int| 0 <= i < closed.len() implies !has_occurrence(
            #[trigger] closed[i],
            mark,
        ) by {
            if i < lines.len() {
                assert(is_line(lines[i]));
            }
        }
        lemma_split_undoes_join(closed);
        lemma_join_push(lines, nothing, mark);
        assert forall|i: int| 0 <= i < lines.len() implies !has_occurrence(
            #[trigger] lines[i],
            mark,
        ) by {
            assert(is_line(lines[i]));
        }
        lemma_split_undoes_join(lines);
        assert(join(closed, mark) =~= join(lines, mark) + mark);
    }
}

/// The characters of `s`, in order.
pub fn to_chars(s: &str) -> (chars: Vec<char>)
    ensures
        chars@ == s@,
{
    broadcast use vstd::string::axiom_spec_iter;

    let mut chars: Vec<char> = Vec::new();
    for c in it: s.chars()
        invariant
            it.seq() == s@,
            chars@ == s@.take(it.index()),
    {
        chars.push(c);
    }
    chars
}

/// Whether `pattern` stands in `text` at `at`.
pub fn matches_at(text: &Vec<char>, pattern: &Vec<char>, at: usize) -> (found: bool)
    ensures
        found == occurs_at(text@, pattern@, at as int),
{
    if pattern.len() > text.len() || at > text.len() - pattern.len() {
        return false;
    }
    let mut k: usize = 0;
    while k < pattern.len()
        invariant
            at + pattern.len() <= text.len(),
            k <= pattern.len(),
            forall|j: int| 0 <= j < k ==> text@[at + j] == pattern@[j],
        decreases pattern.len() - k,
    {
        if text[at + k] != pattern[k] {
            assert(text@.subrange(at as int, at + pattern.len())[k as int] == text@[at + k]);
            return false;
        }
        k += 1;
    }
    assert(text@.subrange(at as int, at + pattern.len()) =~= pattern@);
    true
}

/// Whether `text` begins with `prefix`.
pub fn begins_with(text: &Vec<char>, prefix: &Vec<char>) -> (found: bool)
    ensures
        found == prefix@.is_prefix_of(text@),
{
    let found = matches_at(text, prefix, 0);
    proof {
        if prefix@.len() <= text@.len() {
            assert(text@.subrange(0, prefix@.len() as int) =~= text@.take(prefix@.len() as int));
            if prefix@.is_prefix_of(text@) {
                assert(text@.take(prefix@.len() as int) =~= prefix@);
            }
        }
    }
    found
}

/// The first position from `from` on at which `pattern` stands in `text`.
pub fn find_from(text: &Vec<char>, pattern: &Vec<char>, from: usize) -> (found: Option<usize>)
    ensures
        match found {
            Some(at) => {
                &&& from <= at
                &&& occurs_at(text@, pattern@, at as int)
                &&& forall|j: int| from <= j < at ==> !occurs_at(text@, pattern@, j)
            },
            None => forall|j: int| from <= j ==> !occurs_at(text@, pattern@, j),
        },
{
    if pattern.len() > text.len() {
        return None;
    }
    let last: usize = text.len() - pattern.len();
    let mut at: usize = from;
    while at <= last
        invariant
            from <= at,
            last + pattern.len() == text.len(),
            forall|j: int| from <= j < at ==> !occurs_at(text@, pattern@, j),
        decreases last + 1 - at,
    {
        if matches_at(text, pattern, at) {
            return Some(at);
        }
        if at == last {
            return None;
        }
        at += 1;
    }
    None
}

/// The first position at which `pattern` stands in `text`.
pub fn find(text: &Vec<char>, pattern: &Vec<char>) -> (found: Option<usize>)
    ensures
        match found {
            Some(at) => first_occurrence(text@, pattern@) == Some(at as int),
            None => first_occurrence(text@, pattern@) is None,
        },
        found is Some <==> has_occurrence(text@, pattern@),
{
    let found = find_from(text, pattern, 0);
    proof {
        match found {
            Some(at) => lemma_first_occurrence(text@, pattern@, at as int),
            None => lemma_no_occurrence(text@, pattern@),
        }
    }
    found
}

/// Whether `pattern` stands somewhere in `text`.
pub fn contains(text: &str, pattern: &str) -> (found: bool)
    ensures
        found == has_occurrence(text@, pattern@),
{
    find(&to_chars(text), &to_chars(pattern)).is_some()
}

/// Whether two texts hold the same characters.
pub fn same_text(left: &str, right: &str) -> (same: bool)
    ensures
        same == (left@ == right@),
{
    let l = to_chars(left);
    let r = to_chars(right);
    let same = l.len() == r.len() && matches_at(&l, &r, 0);
    proof {
        if l@.len() == r@.len() {
            assert(l@.subrange(0, r@.len() as int) =~= l@);
        }
    }
    same
}

/// The characters of `text` from position `from` up to, not including, `to`.
pub fn piece_of(text: &str, from: usize, to: usize) -> (piece: String)
    requires
        from <= to <= text@.len(),
    ensures
        piece@ == text@.subrange(from as int, to as int),
{
    text.substring_char(from, to).to_owned()
}

/// The pieces of `text` between the occurrences of `separator`.
pub fn split_text(text: &str, separator: &str) -> (pieces: Vec<String>)
    ensures
        pieces.deep_view() == split(text@, separator@),
{
    let chars = to_chars(text);
    let mark = to_chars(separator);
    let mut pieces: Vec<String> = Vec::new();
    let mut start: usize = 0;
    if mark.len() == 0 {
        pieces.push(text.to_owned());
        assert(pieces.deep_view() =~= seq![text@]);
        return pieces;
    }
    assert(text@.skip(0) =~= text@);
    assert(pieces.deep_view() + split(text@, separator@) =~= split(text@, separator@));
    loop
        invariant
            chars@ == text@,
            mark@ == separator@,
            mark.len() > 0,
            start <= chars.len(),
            split(text@, separator@) == pieces.deep_view() + split(
                text@.skip(start as int),
                separator@,
            ),
        decreases chars.len() - start,
    {
        let ghost rest = text@.skip(start as int);
        let ghost before = pieces.deep_view();
        match find_from(&chars, &mark, start) {
            Some(at) => {
                proof {
                    assert forall|earlier: int| 0 <= earlier < at - start implies !occurs_at(
                        rest,
                        separator@,
                        earlier,
                    ) by {
                        lemma_occurs_after_skip(text@, separator@, start as int, earlier);
                    }
                    lemma_occurs_after_skip(text@, separator@, start as int, at - start);
                    lemma_first_occurrence(rest, separator@, at - start);
                    assert(rest.take(at - start) =~= text@.subrange(start as int, at as int));
                    assert(rest.skip(at - start + mark.len()) =~= text@.skip(at + mark.len()));
                }
                pieces.push(piece_of(text, start, at));
                start = at + mark.len();
                assert(split(text@, separator@) =~= pieces.deep_view() + split(
                    text@.skip(start as int),
                    separator@,
                ));
            },
            None => {
                proof {
                    assert forall|at: int| !occurs_at(rest, separator@, at) by {
                        if 0 <= at {
                            lemma_occurs_after_skip(text@, separator@, start as int, at);
                        }
                    }
                    lemma_no_occurrence(rest, separator@);
                    assert(rest =~= text@.subrange(start as int, text@.len() as int));
                }
                pieces.push(piece_of(text, start, chars.len()));
                assert(split(text@, separator@) =~= pieces.deep_view());
                return pieces;
            },
        }
    }
}

/// The protocol lines of `frame`, in order.
pub fn split_lines(frame: &str) -> (lines: Vec<String>)
    ensures
        lines.deep_view() == frame_lines(frame@),
{
    proof {
        reveal_strlit("\r\n");
        assert("\r\n"@ =~= line_break());
    }
    let pieces = split_text(frame, "\r\n");
    let mut lines: Vec<String> = Vec::new();
    let mut at: usize = 0;
    assert(pieces.deep_view().take(0) =~= Seq::<Seq<char>>::empty());
    assert(lines.deep_view() =~= nonempty_pieces(pieces.deep_view().take(0)));
    while at < pieces.len()
        invariant
            at <= pieces.len(),
            lines.deep_view() == nonempty_pieces(pieces.deep_view().take(at as int)),
        decreases pieces.len() - at,
    {
        let ghost before = lines.deep_view();
        proof {
            lemma_nonempty_pieces_push(pieces.deep_view().take(at as int), pieces[at as int]@);
            assert(pieces.deep_view().take(at as int).push(pieces[at as int]@)
                =~= pieces.deep_view().take(at + 1));
        }
        if !pieces[at].as_str().is_empty() {
            lines.push(pieces[at].clone());
            assert(lines.deep_view() =~= before.push(pieces[at as int]@));
        }
        at += 1;
    }
    assert(pieces.deep_view().take(at as int) =~= pieces.deep_view());
    lines
}

/// Tells with `char::is_whitespace` whether `c` is white space, that is,
/// whether it has the Unicode property `White_Space`: the characters that
/// [`white_space`] lists.
#[verifier::external_body]
fn is_whitespace(c: char) -> (white: bool)
    ensures
        white == white_space(c),
{
    c.is_whitespace()
}

/// `text` without the white space at its end.
pub fn trim_end(text: &str) -> (kept: String)
    ensures
        kept@ == trimmed_end(text@),
{
    let chars = to_chars(text);
    let mut end: usize = chars.len();
    assert(text@.take(end as int) =~= text@);
    while end > 0 && is_whitespace(chars[end - 1])
        invariant
            chars@ == text@,
            end <= chars.len(),
            trimmed_end(text@) == trimmed_end(text@.take(end as int)),
        decreases end,
    {
        assert(text@.take(end as int).drop_last() =~= text@.take(end - 1));
        end -= 1;
    }
    assert(text@.take(end as int) =~= text@.subrange(0, end as int));
    piece_of(text, 0, end)
}

/// `text` without the white space at its start and at its end.
pub fn trim(text: &str) -> (kept: String)
    ensures
        kept@ == trimmed(text@),
{
    let chars = to_chars(text);
    let mut start: usize = 0;
    assert(text@.skip(0) =~= text@);
    while start < chars.len() && is_whitespace(chars[start])
        invariant
            chars@ == text@,
            start <= chars.len(),
            trimmed_start(text@) == trimmed_start(text@.skip(start as int)),
        decreases chars.len() - start,
    {
        assert(text@.skip(start as int).drop_first() =~= text@.skip(start + 1));
        start += 1;
    }
    let mut end: usize = chars.len();
    assert(text@.skip(start as int) =~= text@.subrange(start as int, end as int));
    while end > start && is_whitespace(chars[end - 1])
        invariant
            chars@ == text@,
            start <= end <= chars.len(),
            trimmed(text@) == trimmed_end(text@.subrange(start as int, end as int)),
        decreases end,
    {
        assert(text@.subrange(start as int, end as int).drop_last() =~= text@.subrange(
            start as int,
            end - 1,
        ));
        end -= 1;
    }
    piece_of(text, start, end)
}

} // verus!
