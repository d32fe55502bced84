//! Removing escape sequences and tidying screen text. Everything except raw
//! output goes through [`clean`].

use vstd::prelude::*;

use crate::text::{
    chars_of, free_of, join, join_pieces, lemma_join_free, lemma_split_chars, lemma_split_join,
    lemma_split_nonempty, lemma_split_pieces, lemma_split_uncut, lemma_trim_end, piece, pieces,
    split, split_at, string_of, trim_end, trimmed_end, Delimiter,
};

verus! {

/// The character that starts an escape sequence.
pub const ESC: char = '\u{1b}';

/// The character that, besides the string terminator, ends a string sequence.
pub const BEL: char = '\u{07}';

// ---------------------------------------------------------------------------
// Escape sequences
// ---------------------------------------------------------------------------

/// Whether `c` ends a control sequence.
pub open spec fn is_final(c: char) -> bool {
    0x40 <= c as u32 <= 0x7e
}

/// Whether `c`, after an escape character, starts a sequence that runs up to a
/// terminator.
pub open spec fn opens_string(c: char) -> bool {
    c == ']' || c == 'P' || c == '_' || c == '^' || c == 'X'
}

/// What follows the control sequence whose parameters `s` begins with: what
/// stands behind the first final character.
pub open spec fn after_control(s: Seq<char>) -> Seq<char>
    decreases s.len(),
{
    if s.len() == 0 {
        s
    } else if is_final(s[0]) {
        s.drop_first()
    } else {
        after_control(s.drop_first())
    }
}

/// What follows the string sequence whose content `s` begins with: what stands
/// behind the first bell or string terminator (an escape character and a
/// backslash).
pub open spec fn after_string(s: Seq<char>) -> Seq<char>
    decreases s.len(),
{
    if s.len() == 0 {
        s
    } else if s[0] == BEL {
        s.drop_first()
    } else if s[0] == ESC && s.len() > 1 && s[1] == '\\' {
        s.skip(2)
    } else {
        after_string(s.drop_first())
    }
}

/// Whether `c`, after an escape character, stands before the final character
/// of a longer sequence, such as the selection of a character set.
pub open spec fn is_intermediate(c: char) -> bool {
    0x20 <= c as u32 <= 0x2f
}

/// Whether `c` ends a sequence with intermediate characters.
pub open spec fn is_closing(c: char) -> bool {
    0x30 <= c as u32 <= 0x7e
}

/// How many intermediate characters `s` begins with.
pub open spec fn intermediates(s: Seq<char>) -> nat
    decreases s.len(),
{
    if s.len() > 0 && is_intermediate(s[0]) {
        1 + intermediates(s.drop_first())
    } else {
        0
    }
}

/// What follows the sequence whose intermediate characters `s` begins with: what
/// stands behind the final character. A sequence that is cut off at the end of
/// the text leaves nothing. Without a final character this is no such sequence,
/// and only the first character belongs to the escape.
pub open spec fn after_selection(s: Seq<char>) -> Seq<char> {
    let n = intermediates(s) as int;
    if n >= s.len() {
        Seq::empty()
    } else if is_closing(s[n]) {
        s.skip(n + 1)
    } else {
        s.skip(1)
    }
}

/// `s` without its escape sequences. They are all ASCII: in front of any other
/// character an escape character stands alone.
pub open spec fn stripped(s: Seq<char>) -> Seq<char>
    decreases s.len(),
    via stripped_terminates
{
    if s.len() == 0 {
        s
    } else if s[0] != ESC {
        seq![s[0]] + stripped(s.drop_first())
    } else if s.len() == 1 {
        Seq::<char>::empty()
    } else if s[1] == '[' {
        stripped(after_control(s.skip(2)))
    } else if opens_string(s[1]) {
        stripped(after_string(s.skip(2)))
    } else if is_intermediate(s[1]) {
        stripped(after_selection(s.drop_first()))
    } else if s[1] as u32 >= 0x80 {
        stripped(s.drop_first())
    } else {
        stripped(s.skip(2))
    }
}

#[via_fn]
proof fn stripped_terminates(s: Seq<char>) {
    if s.len() > 1 {
        lemma_after_shrinks(s.skip(2));
        lemma_intermediates(s.drop_first());
    }
}

/// What follows a sequence is no longer than the text it was found in.
proof fn lemma_after_shrinks(s: Seq<char>)
    ensures
        after_control(s).len() <= s.len(),
        after_string(s).len() <= s.len(),
    decreases s.len(),
{
    if s.len() > 0 {
        lemma_after_shrinks(s.drop_first());
    }
}

/// There are no more intermediate characters than characters.
proof fn lemma_intermediates(s: Seq<char>)
    ensures
        intermediates(s) <= s.len(),
        after_selection(s).len() <= s.len(),
    decreases s.len(),
{
    if s.len() > 0 {
        lemma_intermediates(s.drop_first());
    }
}

/// The end of the control sequence whose parameters begin at `from`.
fn skip_control(cs: &[char], from: usize) -> (r: usize)
    requires
        from <= cs@.len(),
    ensures
        from <= r <= cs@.len(),
        after_control(cs@.skip(from as int)) == cs@.skip(r as int),
{
    let mut i: usize = from;
    while i < cs.len()
        invariant
            from <= i <= cs@.len(),
            after_control(cs@.skip(from as int)) == after_control(cs@.skip(i as int)),
        decreases cs@.len() - i,
    {
        let u: u32 = cs[i] as u32;
        assert(cs@.skip(i as int).drop_first() == cs@.skip(i + 1));
        i = i + 1;
        if 0x40 <= u && u <= 0x7e {
            return i;
        }
    }
    i
}

/// The end of the string sequence whose content begins at `from`.
fn skip_string(cs: &[char], from: usize) -> (r: usize)
    requires
        from <= cs@.len(),
    ensures
        from <= r <= cs@.len(),
        after_string(cs@.skip(from as int)) == cs@.skip(r as int),
{
    let mut i: usize = from;
    while i < cs.len()
        invariant
            from <= i <= cs@.len(),
            after_string(cs@.skip(from as int)) == after_string(cs@.skip(i as int)),
        decreases cs@.len() - i,
    {
        assert(cs@.skip(i as int).drop_first() == cs@.skip(i + 1));
        if cs[i] == BEL {
            return i + 1;
        }
        if cs[i] == ESC && i + 1 < cs.len() && cs[i + 1] == '\\' {
            assert(cs@.skip(i as int).skip(2) == cs@.skip(i + 2));
            return i + 2;
        }
        i = i + 1;
    }
    i
}

/// The end of the sequence whose intermediate characters begin at `from`.
fn skip_selection(cs: &[char], from: usize) -> (r: usize)
    requires
        from < cs@.len(),
    ensures
        from <= r <= cs@.len(),
        after_selection(cs@.skip(from as int)) == cs@.skip(r as int),
{
    let ghost s = cs@.skip(from as int);
    let mut i: usize = from;
    while i < cs.len() && 0x20 <= cs[i] as u32 && cs[i] as u32 <= 0x2f
        invariant
            from <= i <= cs@.len(),
            s == cs@.skip(from as int),
            intermediates(s) == (i - from) + intermediates(cs@.skip(i as int)),
        decreases cs@.len() - i,
    {
        assert(cs@.skip(i as int).drop_first() == cs@.skip(i + 1));
        i = i + 1;
    }
    assert(intermediates(s) == i - from);
    if i >= cs.len() {
        assert(cs@.skip(i as int) == Seq::<char>::empty());
        return i;
    }
    let u: u32 = cs[i] as u32;
    if 0x30 <= u && u <= 0x7e {
        assert(s.skip(i - from + 1) == cs@.skip(i + 1));
        i + 1
    } else {
        assert(s.skip(1) == cs@.skip(from + 1));
        from + 1
    }
}

/// Removes the escape sequences, leaving the printable text.
pub fn strip(input: &str) -> (r: String)
    ensures
        r@ == stripped(input@),
{
    let b = chars_of(input);
    let mut out: Vec<char> = Vec::new();
    let mut i: usize = 0;
    assert(b@.skip(0) == b@);
    assert(out@ + stripped(b@.skip(0)) == stripped(b@));
    while i < b.len()
        invariant
            i <= b@.len(),
            b@ == input@,
            out@ + stripped(b@.skip(i as int)) == stripped(b@),
        decreases b@.len() - i,
    {
        let ghost rest = b@.skip(i as int);
        let ghost out0 = out@;
        let c = b[i];
        if c != ESC {
            out.push(c);
            assert(rest.drop_first() == b@.skip(i + 1));
            assert(out0 + (seq![c] + stripped(rest.drop_first())) == out@ + stripped(
                rest.drop_first(),
            ));
            i = i + 1;
        } else if i + 1 >= b.len() {
            // A lone escape character at the end.
            assert(out0 + Seq::<char>::empty() == out0);
            return string_of(out.as_slice());
        } else {
            let kind = b[i + 1];
            assert(rest.skip(2) == b@.skip(i + 2));
            if kind == '[' {
                i = skip_control(b.as_slice(), i + 2);
            } else if kind == ']' || kind == 'P' || kind == '_' || kind == '^' || kind == 'X' {
                i = skip_string(b.as_slice(), i + 2);
            } else if 0x20 <= kind as u32 && kind as u32 <= 0x2f {
                assert(rest.drop_first() == b@.skip(i + 1));
                i = skip_selection(b.as_slice(), i + 1);
            } else if kind as u32 >= 0x80 {
                assert(rest.drop_first() == b@.skip(i + 1));
                i = i + 1;
            } else {
                i = i + 2;
            }
        }
    }
    assert(out@ + b@.skip(b@.len() as int) == out@);
    string_of(out.as_slice())
}

// ---------------------------------------------------------------------------
// Screen text
// ---------------------------------------------------------------------------

/// What a line shows once its carriage returns have taken effect: what was
/// written after the last of them. The carriage return of a line ending is
/// dropped first, so that it cannot blank the line.
pub open spec fn shown(line: Seq<char>) -> Seq<char> {
    split(crate::text::chop_cr(line), Delimiter::Char('\r')).last()
}

/// A progress bar writes `10%\r50%\r100%` but the terminal shows only `100%`.
pub fn resolve_cr(line: &[char]) -> (r: Vec<char>)
    ensures
        r@ == shown(line@),
{
    let n: usize = line.len();
    let keep: usize = if n > 0 && line[n - 1] == '\r' {
        n - 1
    } else {
        n
    };
    let l = piece(line, 0, keep);
    assert(l@ == crate::text::chop_cr(line@));
    let mut parts = split_at(l.as_slice(), Delimiter::Char('\r'));
    let ghost all = pieces(parts@);
    match parts.pop() {
        Some(last) => {
            assert(all.last() == last@);
            last
        },
        None => Vec::new(),
    }
}

/// The parts from the first that is not empty on.
pub open spec fn without_leading(parts: Seq<Seq<char>>) -> Seq<Seq<char>>
    decreases parts.len(),
{
    if parts.len() > 0 && parts.first().len() == 0 {
        without_leading(parts.drop_first())
    } else {
        parts
    }
}

/// The parts up to the last that is not empty.
pub open spec fn without_trailing(parts: Seq<Seq<char>>) -> Seq<Seq<char>>
    decreases parts.len(),
{
    if parts.len() > 0 && parts.last().len() == 0 {
        without_trailing(parts.drop_last())
    } else {
        parts
    }
}

/// A line as it is shown, without the padding at its end.
pub open spec fn tidy_line(line: Seq<char>) -> Seq<char> {
    trim_end(shown(line))
}

/// The lines of `s` as they are shown, without padding, without blank lines at
/// either end.
pub open spec fn tidy_lines(s: Seq<char>) -> Seq<Seq<char>> {
    without_trailing(
        without_leading(
            split(s, Delimiter::Char('\n')).map_values(|l: Seq<char>| tidy_line(l)),
        ),
    )
}

/// `s` without escape sequences, with its carriage returns resolved, without
/// padding at the ends of lines and without blank lines at either end.
pub open spec fn cleaned(s: Seq<char>) -> Seq<char> {
    join(tidy_lines(stripped(s)), "\n"@)
}

/// The lines as they are shown, without the padding at their ends.
fn tidied(parts: &[Vec<char>]) -> (r: Vec<Vec<char>>)
    ensures
        pieces(r@) == pieces(parts@).map_values(|l: Seq<char>| tidy_line(l)),
{
    let ghost raw = pieces(parts@);
    let ghost tidy = raw.map_values(|l: Seq<char>| tidy_line(l));
    let mut rows: Vec<Vec<char>> = Vec::new();
    let mut i: usize = 0;
    while i < parts.len()
        invariant
            i <= parts@.len(),
            raw == pieces(parts@),
            tidy == raw.map_values(|l: Seq<char>| tidy_line(l)),
            pieces(rows@) == tidy.take(i as int),
        decreases parts@.len() - i,
    {
        let visible = resolve_cr(parts[i].as_slice());
        let row = trimmed_end(visible.as_slice());
        let ghost rows0 = rows@;
        rows.push(row);
        assert(pieces(rows@) == pieces(rows0).push(row@));
        assert(tidy[i as int] == row@);
        assert(tidy.take(i + 1) == tidy.take(i as int).push(row@));
        i = i + 1;
    }
    assert(tidy.take(tidy.len() as int) == tidy);
    rows
}

/// How many empty rows there are at the start.
fn leading_empty(rows: &[Vec<char>]) -> (r: usize)
    ensures
        r <= rows@.len(),
        without_leading(pieces(rows@)) == pieces(rows@).skip(r as int),
{
    let ghost all = pieces(rows@);
    let mut first: usize = 0;
    assert(all.skip(0) == all);
    while first < rows.len() && rows[first].len() == 0
        invariant
            first <= rows@.len(),
            all == pieces(rows@),
            without_leading(all) == without_leading(all.skip(first as int)),
        decreases rows@.len() - first,
    {
        assert(all.skip(first as int).first() == rows@[first as int]@);
        assert(all.skip(first as int).drop_first() == all.skip(first + 1));
        first = first + 1;
    }
    assert(first < rows@.len() ==> all.skip(first as int).first() == rows@[first as int]@);
    first
}

/// Where the last row that is not empty ends.
fn filled_end(rows: &[Vec<char>]) -> (r: usize)
    ensures
        r <= rows@.len(),
        without_trailing(pieces(rows@)) == pieces(rows@).take(r as int),
{
    let ghost all = pieces(rows@);
    let mut end: usize = rows.len();
    assert(all.take(end as int) == all);
    while end > 0 && rows[end - 1].len() == 0
        invariant
            end <= rows@.len(),
            all == pieces(rows@),
            without_trailing(all) == without_trailing(all.take(end as int)),
        decreases end,
    {
        assert(all.take(end as int).last() == rows@[end - 1]@);
        assert(all.take(end as int).drop_last() == all.take(end - 1));
        end = end - 1;
    }
    assert(end > 0 ==> all.take(end as int).last() == rows@[end - 1]@);
    end
}

/// Strips escapes, resolves carriage returns, trims trailing padding, and
/// drops blank edges. Screen dumps pad every row to the width of the screen,
/// hence the trailing-space trim.
pub fn clean(input: &str) -> (r: String)
    ensures
        r@ == cleaned(input@),
{
    let plain = strip(input);
    let cs = chars_of(plain.as_str());
    let parts = split_at(cs.as_slice(), Delimiter::Char('\n'));
    let rows = tidied(parts.as_slice());
    let first: usize = leading_empty(rows.as_slice());
    let led = vstd::slice::slice_subrange(rows.as_slice(), first, rows.len());
    assert(pieces(led@) == pieces(rows@).skip(first as int));
    let end: usize = filled_end(led);
    let kept = vstd::slice::slice_subrange(led, 0, end);
    assert(pieces(kept@) == pieces(led@).take(end as int));
    join_pieces(kept, "\n")
}

// ---------------------------------------------------------------------------
// Laws
// ---------------------------------------------------------------------------

/// No escape character survives stripping.
pub proof fn law_strip_leaves_no_escape(s: Seq<char>)
    ensures
        free_of(stripped(s), ESC),
    decreases s.len(),
{
    if s.len() > 0 {
        if s[0] != ESC {
            law_strip_leaves_no_escape(s.drop_first());
        } else if s.len() > 1 {
            lemma_after_shrinks(s.skip(2));
            law_strip_leaves_no_escape(after_control(s.skip(2)));
            law_strip_leaves_no_escape(after_string(s.skip(2)));
            lemma_intermediates(s.drop_first());
            law_strip_leaves_no_escape(after_selection(s.drop_first()));
            law_strip_leaves_no_escape(s.drop_first());
            law_strip_leaves_no_escape(s.skip(2));
        }
    }
}

/// Text up to the first escape character is kept as it is.
pub proof fn law_strip_keeps_text_before_an_escape(plain: Seq<char>, rest: Seq<char>)
    requires
        free_of(plain, ESC),
    ensures
        stripped(plain + rest) == plain + stripped(rest),
    decreases plain.len(),
{
    if plain.len() == 0 {
        assert(plain + rest == rest);
        assert(plain + stripped(rest) == stripped(rest));
    } else {
        assert((plain + rest).drop_first() == plain.drop_first() + rest);
        law_strip_keeps_text_before_an_escape(plain.drop_first(), rest);
        assert(seq![plain[0]] + (plain.drop_first() + stripped(rest)) == plain + stripped(rest));
    }
}

/// Text without escape characters is kept as it is.
pub proof fn law_strip_keeps_plain_text(s: Seq<char>)
    requires
        free_of(s, ESC),
    ensures
        stripped(s) == s,
{
    law_strip_keeps_text_before_an_escape(s, Seq::<char>::empty());
    assert(s + Seq::<char>::empty() == s);
}

/// Stripping a stripped text changes nothing.
pub proof fn law_strip_is_idempotent(s: Seq<char>)
    ensures
        stripped(stripped(s)) == stripped(s),
{
    law_strip_leaves_no_escape(s);
    law_strip_keeps_plain_text(stripped(s));
}

/// What a row of cleaned text looks like.
pub open spec fn is_tidy(row: Seq<char>) -> bool {
    &&& free_of(row, ESC)
    &&& free_of(row, '\r')
    &&& free_of(row, '\n')
    &&& trim_end(row) == row
}

proof fn lemma_leading(parts: Seq<Seq<char>>)
    ensures
        without_leading(parts).len() > 0 ==> without_leading(parts).first().len() > 0,
        forall|i: int|
            0 <= i < without_leading(parts).len() ==> parts.contains(
                #[trigger] without_leading(parts)[i],
            ),
    decreases parts.len(),
{
    if parts.len() > 0 && parts.first().len() == 0 {
        lemma_leading(parts.drop_first());
        assert forall|i: int| 0 <= i < without_leading(parts).len() implies parts.contains(
            #[trigger] without_leading(parts)[i],
        ) by {
            let x = without_leading(parts)[i];
            assert(parts.drop_first().contains(x));
            let j = choose|j: int| 0 <= j < parts.drop_first().len() && parts.drop_first()[j] == x;
            assert(parts[j + 1] == x);
        }
    }
}

proof fn lemma_trailing(parts: Seq<Seq<char>>)
    ensures
        without_trailing(parts).len() > 0 ==> without_trailing(parts).last().len() > 0
            && without_trailing(parts).first() == parts.first(),
        without_trailing(parts).len() <= parts.len(),
        forall|i: int|
            0 <= i < without_trailing(parts).len() ==> #[trigger] without_trailing(parts)[i]
                == parts[i],
    decreases parts.len(),
{
    if parts.len() > 0 && parts.last().len() == 0 {
        lemma_trailing(parts.drop_last());
    }
}

proof fn lemma_tidy_line(line: Seq<char>)
    requires
        free_of(line, ESC),
        free_of(line, '\n'),
    ensures
        is_tidy(tidy_line(line)),
{
    let l = crate::text::chop_cr(line);
    lemma_split_nonempty(l, Delimiter::Char('\r'));
    lemma_split_pieces(l, Delimiter::Char('\r'));
    let ps = split(l, Delimiter::Char('\r'));
    let last = ps.last();
    assert(ps[ps.len() - 1] == last);
    lemma_split_chars(l, Delimiter::Char('\r'), ESC);
    lemma_split_chars(l, Delimiter::Char('\r'), '\n');
    lemma_trim_end(last);
    let row = trim_end(last);
    assert forall|i: int| 0 <= i < row.len() implies #[trigger] row[i] != ESC && row[i] != '\r'
        && row[i] != '\n' by {
        assert(row[i] == last[i]);
        assert(!Delimiter::Char('\r').cuts(last[i]));
    }
}

/// What `tidy_lines` makes of text without escape characters.
proof fn lemma_tidy_lines(s: Seq<char>)
    requires
        free_of(s, ESC),
    ensures
        forall|i: int| 0 <= i < tidy_lines(s).len() ==> is_tidy(#[trigger] tidy_lines(s)[i]),
        tidy_lines(s).len() > 0 ==> tidy_lines(s).first().len() > 0 && tidy_lines(s).last().len()
            > 0,
{
    let d = Delimiter::Char('\n');
    let raw = split(s, d);
    let tidy = raw.map_values(|l: Seq<char>| tidy_line(l));
    let led = without_leading(tidy);
    let rows = without_trailing(led);
    lemma_leading(tidy);
    lemma_trailing(led);
    lemma_split_pieces(s, d);
    lemma_split_chars(s, d, ESC);
    assert forall|i: int| 0 <= i < rows.len() implies is_tidy(#[trigger] rows[i]) by {
        assert(rows[i] == led[i]);
        assert(tidy.contains(led[i]));
        let j = choose|j: int| 0 <= j < tidy.len() && tidy[j] == led[i];
        let line = raw[j];
        assert forall|k: int| 0 <= k < line.len() implies #[trigger] line[k] != '\n' by {
            assert(!d.cuts(raw[j][k]));
        }
        lemma_tidy_line(line);
        assert(tidy[j] == tidy_line(line));
    }
}

/// A tidy row is shown as it is.
proof fn lemma_tidy_line_is_fixed(row: Seq<char>)
    requires
        is_tidy(row),
    ensures
        tidy_line(row) == row,
{
    if row.len() > 0 {
        assert(row.last() == row[row.len() - 1]);
    }
    assert(crate::text::chop_cr(row) == row);
    lemma_split_uncut(row, Delimiter::Char('\r'));
}

/// Cleaned text is made of tidy rows, the first and the last of which are not
/// blank: it holds no escape character and no carriage return, and no row ends
/// in white space.
pub proof fn law_cleaned_text_is_tidy(s: Seq<char>)
    ensures
        cleaned(s).len() > 0 ==> {
            let rows = split(cleaned(s), Delimiter::Char('\n'));
            &&& forall|i: int| 0 <= i < rows.len() ==> is_tidy(#[trigger] rows[i])
            &&& rows.first().len() > 0
            &&& rows.last().len() > 0
        },
{
    let rows = tidy_lines(stripped(s));
    law_strip_leaves_no_escape(s);
    lemma_tidy_lines(stripped(s));
    reveal_strlit("\n");
    assert("\n"@ == seq!['\n']);
    if rows.len() > 0 {
        lemma_split_join(rows, '\n');
    }
}

/// Cleaning a cleaned text changes nothing.
pub proof fn law_clean_is_idempotent(s: Seq<char>)
    ensures
        cleaned(cleaned(s)) == cleaned(s),
{
    let d = Delimiter::Char('\n');
    let rows = tidy_lines(stripped(s));
    let t = cleaned(s);
    law_strip_leaves_no_escape(s);
    lemma_tidy_lines(stripped(s));
    reveal_strlit("\n");
    assert("\n"@ == seq!['\n']);
    if rows.len() == 0 {
        let empty = Seq::<char>::empty();
        assert(t == empty);
        assert(stripped(empty) == empty);
        let one = split(empty, d).map_values(|l: Seq<char>| tidy_line(l));
        lemma_tidy_line_is_fixed(empty);
        assert(one == seq![empty]);
        assert(one.drop_first() == Seq::<Seq<char>>::empty());
        assert(without_leading(one) == without_leading(one.drop_first()));
        assert(tidy_lines(empty) == Seq::<Seq<char>>::empty());
    } else {
        lemma_split_join(rows, '\n');
        lemma_join_free(rows, '\n', ESC);
        law_strip_keeps_plain_text(t);
        let again = split(t, d).map_values(|l: Seq<char>| tidy_line(l));
        assert forall|i: int| 0 <= i < rows.len() implies again[i] == #[trigger] rows[i] by {
            lemma_tidy_line_is_fixed(rows[i]);
        }
        assert(again == rows);
        assert(without_leading(rows) == rows);
        assert(without_trailing(rows) == rows);
    }
}

/// A control sequence disappears, parameters and all, and the text around it
/// stays.
pub proof fn law_a_control_sequence_disappears(
    plain: Seq<char>,
    params: Seq<char>,
    last: char,
    rest: Seq<char>,
)
    requires
        free_of(plain, ESC),
        forall|i: int| 0 <= i < params.len() ==> !is_final(#[trigger] params[i]),
        is_final(last),
    ensures
        stripped(plain + (seq![ESC, '['] + (params.push(last) + rest))) == plain + stripped(rest),
{
    let tail = params.push(last) + rest;
    let s = seq![ESC, '['] + tail;
    law_strip_keeps_text_before_an_escape(plain, s);
    assert(s.skip(2) == tail);
    lemma_after_control(params, last, rest);
}

proof fn lemma_after_control(params: Seq<char>, last: char, rest: Seq<char>)
    requires
        forall|i: int| 0 <= i < params.len() ==> !is_final(#[trigger] params[i]),
        is_final(last),
    ensures
        after_control(params.push(last) + rest) == rest,
    decreases params.len(),
{
    let s = params.push(last) + rest;
    if params.len() == 0 {
        assert(s[0] == last);
        assert(s.drop_first() == rest);
    } else {
        assert(s[0] == params[0]);
        assert(s.drop_first() == params.drop_first().push(last) + rest);
        lemma_after_control(params.drop_first(), last, rest);
    }
}

/// Whether a string sequence with this content goes on to its end: there is no
/// terminator in it.
pub open spec fn is_unterminated(content: Seq<char>) -> bool {
    &&& free_of(content, BEL)
    &&& forall|i: int|
        0 <= i < content.len() - 1 && #[trigger] content[i] == ESC ==> content[i + 1] != '\\'
}

/// A string sequence, such as a title or a link, disappears up to its
/// terminator, which is a bell or an escape character with a backslash.
pub proof fn law_a_string_sequence_disappears(
    plain: Seq<char>,
    opener: char,
    content: Seq<char>,
    rest: Seq<char>,
)
    requires
        free_of(plain, ESC),
        opens_string(opener),
        is_unterminated(content),
    ensures
        stripped(plain + (seq![ESC, opener] + (content + (seq![BEL] + rest)))) == plain + stripped(
            rest,
        ),
        stripped(plain + (seq![ESC, opener] + (content + (seq![ESC, '\\'] + rest)))) == plain
            + stripped(rest),
{
    let a = content + (seq![BEL] + rest);
    let b = content + (seq![ESC, '\\'] + rest);
    law_strip_keeps_text_before_an_escape(plain, seq![ESC, opener] + a);
    law_strip_keeps_text_before_an_escape(plain, seq![ESC, opener] + b);
    assert((seq![ESC, opener] + a).skip(2) == a);
    assert((seq![ESC, opener] + b).skip(2) == b);
    lemma_after_string(content, seq![BEL] + rest);
    lemma_after_string(content, seq![ESC, '\\'] + rest);
    assert((seq![BEL] + rest).drop_first() == rest);
    assert((seq![ESC, '\\'] + rest).skip(2) == rest);
}

proof fn lemma_after_string(content: Seq<char>, end: Seq<char>)
    requires
        is_unterminated(content),
        end.len() > 0,
        end[0] != '\\',
    ensures
        after_string(content + end) == after_string(end),
    decreases content.len(),
{
    let s = content + end;
    if content.len() == 0 {
        assert(s == end);
    } else {
        let rest = content.drop_first();
        assert(s.drop_first() == rest + end);
        assert(s[0] == content[0]);
        assert(s[1] == if rest.len() > 0 {
            content[1]
        } else {
            end[0]
        });
        assert forall|i: int| 0 <= i < rest.len() - 1 && #[trigger] rest[i] == ESC implies rest[i
            + 1] != '\\' by {
            assert(content[i + 1] == ESC);
        }
        lemma_after_string(rest, end);
    }
}

/// The selection of a character set, and every other sequence with
/// intermediate characters, disappears, and the text around it stays.
pub proof fn law_a_selection_disappears(
    plain: Seq<char>,
    inter: Seq<char>,
    f: char,
    rest: Seq<char>,
)
    requires
        free_of(plain, ESC),
        inter.len() > 0,
        forall|i: int| 0 <= i < inter.len() ==> is_intermediate(#[trigger] inter[i]),
        is_closing(f),
    ensures
        stripped(plain + (seq![ESC] + (inter.push(f) + rest))) == plain + stripped(rest),
{
    let tail = inter.push(f) + rest;
    let s = seq![ESC] + tail;
    law_strip_keeps_text_before_an_escape(plain, s);
    assert(s.drop_first() == tail);
    assert(s[1] == inter[0]);
    lemma_selection(inter, f, rest);
    assert(tail[inter.len() as int] == f);
    assert(tail.skip(inter.len() as int + 1) == rest);
}

proof fn lemma_selection(inter: Seq<char>, f: char, rest: Seq<char>)
    requires
        forall|i: int| 0 <= i < inter.len() ==> is_intermediate(#[trigger] inter[i]),
        is_closing(f),
    ensures
        intermediates(inter.push(f) + rest) == inter.len(),
    decreases inter.len(),
{
    let tail = inter.push(f) + rest;
    if inter.len() == 0 {
        assert(tail[0] == f);
    } else {
        assert(tail[0] == inter[0]);
        assert(tail.drop_first() == inter.drop_first().push(f) + rest);
        lemma_selection(inter.drop_first(), f, rest);
    }
}

/// Escape sequences are all ASCII: any other character behind an escape
/// character is text, and stays whole.
pub proof fn law_other_characters_are_never_swallowed(
    plain: Seq<char>,
    c: char,
    rest: Seq<char>,
)
    requires
        free_of(plain, ESC),
        c as u32 >= 0x80,
    ensures
        stripped(plain + (seq![ESC, c] + rest)) == plain + (seq![c] + stripped(rest)),
{
    let s = seq![ESC, c] + rest;
    law_strip_keeps_text_before_an_escape(plain, s);
    assert(s[1] == c);
    assert(s.drop_first() == seq![c] + rest);
    let text = seq![c] + rest;
    assert(stripped(s) == stripped(text));
    assert(text.drop_first() == rest);
    assert(stripped(text) == seq![c] + stripped(rest));
}

/// What was written over is not shown: of a line with carriage returns, what
/// follows the last of them is.
pub proof fn law_only_the_last_overwrite_is_shown(over: Seq<char>, last: Seq<char>)
    requires
        last.len() > 0,
        free_of(last, '\r'),
    ensures
        shown(over.push('\r') + last) == last,
        shown((over.push('\r') + last).push('\r')) == last,
{
    let d = Delimiter::Char('\r');
    let line = over.push('\r') + last;
    assert(line.last() == last[last.len() - 1]);
    crate::text::lemma_split_concat(over, '\r', last, d);
    lemma_split_uncut(last, d);
    assert((split(over, d) + seq![last]).last() == last);
    assert(line.push('\r').drop_last() == line);
}

/// What escape sequences are made of: the characters that end a control
/// sequence, that start a sequence with a terminator, and that stand inside and
/// at the end of a selection.
pub proof fn law_what_sequences_are_made_of(c: char)
    ensures
        ESC as u32 == 0x1b,
        BEL as u32 == 0x07,
        is_final(c) == (0x40 <= c as u32 <= 0x7e),
        opens_string(c) == (c == ']' || c == 'P' || c == '_' || c == '^' || c == 'X'),
        is_intermediate(c) == (0x20 <= c as u32 <= 0x2f),
        is_closing(c) == (0x30 <= c as u32 <= 0x7e),
{
}

/// Any other ASCII character makes an escape of two characters, which
/// disappears, and the text around it stays.
pub proof fn law_a_short_escape_disappears(plain: Seq<char>, c: char, rest: Seq<char>)
    requires
        free_of(plain, ESC),
        (c as u32) < 0x80,
        c != '[' && c != ']' && c != 'P' && c != '_' && c != '^' && c != 'X',
        !(0x20 <= c as u32 <= 0x2f),
    ensures
        stripped(plain + (seq![ESC, c] + rest)) == plain + stripped(rest),
{
    let s = seq![ESC, c] + rest;
    law_strip_keeps_text_before_an_escape(plain, s);
    assert(s[1] == c);
    assert(s.skip(2) == rest);
}

/// A sequence that is cut off at the end of the text disappears up to that end:
/// a lone escape character, a control sequence without its final character, a
/// string sequence without its terminator, a selection without its final
/// character.
pub proof fn law_a_cut_off_sequence_disappears(
    plain: Seq<char>,
    params: Seq<char>,
    opener: char,
    content: Seq<char>,
    inter: Seq<char>,
)
    requires
        free_of(plain, ESC),
        forall|i: int| 0 <= i < params.len() ==> !is_final(#[trigger] params[i]),
        opens_string(opener),
        is_unterminated(content),
        forall|i: int| 0 <= i < inter.len() ==> is_intermediate(#[trigger] inter[i]),
    ensures
        stripped(plain + seq![ESC]) == plain,
        stripped(plain + (seq![ESC, '['] + params)) == plain,
        stripped(plain + (seq![ESC, opener] + content)) == plain,
        stripped(plain + (seq![ESC] + inter)) == plain,
{
    let empty = Seq::<char>::empty();
    law_strip_keeps_text_before_an_escape(plain, seq![ESC]);
    law_strip_keeps_text_before_an_escape(plain, seq![ESC, '['] + params);
    law_strip_keeps_text_before_an_escape(plain, seq![ESC, opener] + content);
    law_strip_keeps_text_before_an_escape(plain, seq![ESC] + inter);
    assert(plain + empty == plain);
    assert(stripped(empty) == empty);
    assert(stripped(seq![ESC]) == empty);
    assert((seq![ESC, '['] + params).skip(2) == params);
    lemma_no_final(params);
    assert((seq![ESC, opener] + content).skip(2) == content);
    lemma_no_terminator(content);
    let s = seq![ESC] + inter;
    if inter.len() > 0 {
        assert(s[1] == inter[0]);
        assert(s.drop_first() == inter);
        lemma_all_intermediate(inter);
    }
}

proof fn lemma_no_final(params: Seq<char>)
    requires
        forall|i: int| 0 <= i < params.len() ==> !is_final(#[trigger] params[i]),
    ensures
        after_control(params) == Seq::<char>::empty(),
    decreases params.len(),
{
    if params.len() > 0 {
        lemma_no_final(params.drop_first());
    }
}

proof fn lemma_no_terminator(content: Seq<char>)
    requires
        is_unterminated(content),
    ensures
        after_string(content) == Seq::<char>::empty(),
    decreases content.len(),
{
    if content.len() > 0 {
        let rest = content.drop_first();
        assert forall|i: int| 0 <= i < rest.len() - 1 && #[trigger] rest[i] == ESC implies rest[i
            + 1] != '\\' by {
            assert(content[i + 1] == ESC);
        }
        assert(content[0] != BEL);
        assert(content[0] == ESC && content.len() > 1 ==> content[1] != '\\');
        lemma_no_terminator(rest);
    }
}

proof fn lemma_all_intermediate(inter: Seq<char>)
    requires
        forall|i: int| 0 <= i < inter.len() ==> is_intermediate(#[trigger] inter[i]),
    ensures
        intermediates(inter) == inter.len(),
    decreases inter.len(),
{
    if inter.len() > 0 {
        lemma_all_intermediate(inter.drop_first());
    }
}

/// Where neither the end of the text nor a final character follows, there is no
/// selection: the escape takes one character with it, and the rest stays.
pub proof fn law_an_unfinished_selection_is_a_short_escape(
    plain: Seq<char>,
    inter: Seq<char>,
    c: char,
    rest: Seq<char>,
)
    requires
        free_of(plain, ESC),
        inter.len() > 0,
        forall|i: int| 0 <= i < inter.len() ==> is_intermediate(#[trigger] inter[i]),
        !is_intermediate(c),
        !is_closing(c),
    ensures
        stripped(plain + (seq![ESC] + (inter.push(c) + rest))) == plain + stripped(
            inter.skip(1).push(c) + rest,
        ),
{
    let tail = inter.push(c) + rest;
    let s = seq![ESC] + tail;
    law_strip_keeps_text_before_an_escape(plain, s);
    assert(s.drop_first() == tail);
    assert(s[1] == inter[0]);
    lemma_counted(inter, c, rest);
    assert(tail[inter.len() as int] == c);
    assert(tail.skip(1) == inter.skip(1).push(c) + rest);
}

proof fn lemma_counted(inter: Seq<char>, c: char, rest: Seq<char>)
    requires
        forall|i: int| 0 <= i < inter.len() ==> is_intermediate(#[trigger] inter[i]),
        !is_intermediate(c),
    ensures
        intermediates(inter.push(c) + rest) == inter.len(),
    decreases inter.len(),
{
    let tail = inter.push(c) + rest;
    if inter.len() == 0 {
        assert(tail[0] == c);
    } else {
        assert(tail[0] == inter[0]);
        assert(tail.drop_first() == inter.drop_first().push(c) + rest);
        lemma_counted(inter.drop_first(), c, rest);
    }
}

/// A line without carriage returns is shown as it is, whether its line end
/// brought one along or not; of two at the end, the first blanks the line.
pub proof fn law_a_line_without_overwrites_is_shown(line: Seq<char>, over: Seq<char>)
    requires
        free_of(line, '\r'),
    ensures
        shown(line) == line,
        shown(line.push('\r')) == line,
        shown(over.push('\r').push('\r')) == Seq::<char>::empty(),
{
    let d = Delimiter::Char('\r');
    let empty = Seq::<char>::empty();
    if line.len() > 0 {
        assert(line.last() == line[line.len() - 1]);
    }
    assert(crate::text::chop_cr(line) == line);
    assert(line.push('\r').drop_last() == line);
    lemma_split_uncut(line, d);
    assert(over.push('\r').push('\r').drop_last() == over.push('\r'));
    crate::text::lemma_split_concat(over, '\r', empty, d);
    assert(over.push('\r') + empty == over.push('\r'));
    assert(split(empty, d) == seq![empty]);
    assert((split(over, d) + seq![empty]).last() == empty);
}

proof fn lemma_leading_run(parts: Seq<Seq<char>>) -> (a: int)
    ensures
        0 <= a <= parts.len(),
        without_leading(parts) == parts.skip(a),
        forall|i: int| 0 <= i < a ==> (#[trigger] parts[i]).len() == 0,
        a < parts.len() ==> parts[a].len() > 0,
    decreases parts.len(),
{
    if parts.len() > 0 && parts.first().len() == 0 {
        let rest = parts.drop_first();
        let a = lemma_leading_run(rest);
        assert(rest.skip(a) == parts.skip(a + 1));
        assert forall|i: int| 0 <= i < a + 1 implies (#[trigger] parts[i]).len() == 0 by {
            if i > 0 {
                assert(rest[i - 1] == parts[i]);
            }
        }
        a + 1
    } else {
        assert(parts.skip(0) == parts);
        0
    }
}

proof fn lemma_trailing_run(parts: Seq<Seq<char>>) -> (b: int)
    ensures
        0 <= b <= parts.len(),
        without_trailing(parts) == parts.take(b),
        forall|i: int| b <= i < parts.len() ==> (#[trigger] parts[i]).len() == 0,
        b > 0 ==> parts[b - 1].len() > 0,
    decreases parts.len(),
{
    if parts.len() > 0 && parts.last().len() == 0 {
        let front = parts.drop_last();
        let b = lemma_trailing_run(front);
        assert(front.take(b) == parts.take(b));
        assert forall|i: int| b <= i < parts.len() implies (#[trigger] parts[i]).len() == 0 by {
            if i < front.len() {
                assert(front[i] == parts[i]);
            }
        }
        b
    } else {
        assert(parts.take(parts.len() as int) == parts);
        parts.len() as int
    }
}

/// Cleaning keeps every row: the rows of the cleaned text are the run of rows
/// from the first that shows something to the last that does, each as it is
/// shown and without the white space at its end. The rows that go, at either
/// edge, show nothing.
pub proof fn law_cleaning_keeps_every_row(s: Seq<char>)
    ensures
        ({
            let raw = split(stripped(s), Delimiter::Char('\n'));
            exists|a: int, b: int|
                #![trigger raw.subrange(a, b)]
                {
                    &&& 0 <= a <= b <= raw.len()
                    &&& forall|i: int|
                        0 <= i < a || b <= i < raw.len() ==> trim_end(
                            shown(#[trigger] raw[i]),
                        ).len() == 0
                    &&& a < b ==> trim_end(shown(raw[a])).len() > 0 && trim_end(
                        shown(raw[b - 1]),
                    ).len() > 0
                    &&& a == b ==> cleaned(s).len() == 0
                    &&& a < b ==> {
                        let rows = split(cleaned(s), Delimiter::Char('\n'));
                        &&& rows.len() == b - a
                        &&& forall|i: int|
                            0 <= i < b - a ==> #[trigger] rows[i] == trim_end(shown(raw[a + i]))
                    }
                }
        }),
{
    let d = Delimiter::Char('\n');
    let raw = split(stripped(s), d);
    let tidy = raw.map_values(|l: Seq<char>| tidy_line(l));
    let a = lemma_leading_run(tidy);
    let led = tidy.skip(a);
    let n = lemma_trailing_run(led);
    let b = a + n;
    let rows = tidy_lines(stripped(s));
    assert(rows == led.take(n));
    assert forall|i: int| 0 <= i < a || b <= i < raw.len() implies trim_end(
        shown(#[trigger] raw[i]),
    ).len() == 0 by {
        assert(tidy[i] == trim_end(shown(raw[i])));
        if i >= b {
            assert(led[i - a] == tidy[i]);
        }
    }
    law_strip_leaves_no_escape(s);
    lemma_tidy_lines(stripped(s));
    reveal_strlit("\n");
    assert("\n"@ == seq!['\n']);
    if n > 0 {
        lemma_split_join(rows, '\n');
        assert(led[0] == tidy[a]);
        assert(led[n - 1] == tidy[b - 1]);
        assert forall|i: int| 0 <= i < b - a implies #[trigger] rows[i] == trim_end(
            shown(raw[a + i]),
        ) by {
            assert(rows[i] == tidy[a + i]);
        }
    }
    assert(raw.subrange(a, b).len() == b - a);
}

/// A text of any number of rows that holds no escape character and no carriage
/// return, whose rows do not end in white space, and whose first and last rows
/// are not empty, is returned as it is.
pub proof fn law_tidy_text_is_left_alone(s: Seq<char>)
    requires
        free_of(s, '\u{1b}'),
        free_of(s, '\r'),
        ({
            let rows = split(s, Delimiter::Char('\n'));
            &&& forall|i: int|
                0 <= i < rows.len() && (#[trigger] rows[i]).len() > 0 ==> !crate::text::is_space(
                    rows[i].last(),
                )
            &&& rows.first().len() > 0
            &&& rows.last().len() > 0
        }),
    ensures
        cleaned(s) == s,
{
    let d = Delimiter::Char('\n');
    let rows = split(s, d);
    law_strip_keeps_plain_text(s);
    lemma_split_nonempty(s, d);
    lemma_split_pieces(s, d);
    lemma_split_chars(s, d, ESC);
    lemma_split_chars(s, d, '\r');
    let again = rows.map_values(|l: Seq<char>| tidy_line(l));
    assert forall|i: int| 0 <= i < rows.len() implies again[i] == #[trigger] rows[i] by {
        assert forall|k: int| 0 <= k < rows[i].len() implies #[trigger] rows[i][k] != '\n' by {
            assert(!d.cuts(rows[i][k]));
        }
        lemma_tidy_line_is_fixed(rows[i]);
    }
    assert(again == rows);
    assert(without_leading(rows) == rows);
    assert(without_trailing(rows) == rows);
    crate::text::lemma_join_split(s, '\n');
    reveal_strlit("\n");
    assert("\n"@ == seq!['\n']);
}

} // verus!
