//! Text as a sequence of characters.
//!
//! Every contract of the crate speaks of text as a `Seq<char>`; the functions
//! here are the vocabulary that those contracts share: cutting a text into
//! pieces, joining pieces, trimming, searching, numbers in decimal.

use vstd::prelude::*;

verus! {

/// `String::push` adds one character at the end.
pub assume_specification[ String::push ](s: &mut String, c: char)
    ensures
        final(s)@ == old(s)@.push(c),
;

// ---------------------------------------------------------------------------
// Characters
// ---------------------------------------------------------------------------

/// The characters that have the Unicode property `White_Space`.
pub open spec fn is_space(c: char) -> bool {
    let u = c as u32;
    ||| 0x09 <= u <= 0x0d
    ||| u == 0x20
    ||| u == 0x85
    ||| u == 0xa0
    ||| u == 0x1680
    ||| 0x2000 <= u <= 0x200a
    ||| u == 0x2028
    ||| u == 0x2029
    ||| u == 0x202f
    ||| u == 0x205f
    ||| u == 0x3000
}

/// Whether `c` is white space.
pub fn space(c: char) -> (r: bool)
    ensures
        r == is_space(c),
{
    let u: u32 = c as u32;
    (0x09 <= u && u <= 0x0d) || u == 0x20 || u == 0x85 || u == 0xa0 || u == 0x1680 || (0x2000 <= u
        && u <= 0x200a) || u == 0x2028 || u == 0x2029 || u == 0x202f || u == 0x205f || u == 0x3000
}

/// What separates the pieces of a text.
#[derive(Clone, Copy, PartialEq, Eq, Debug)]
pub enum Delimiter {
    /// One given character.
    Char(char),
    /// White space.
    Space,
    /// The characters that separate the commands of a shell line.
    ShellOperator,
}

impl Delimiter {
    /// Whether `c` separates pieces.
    pub open spec fn cuts(self, c: char) -> bool {
        match self {
            Delimiter::Char(d) => c == d,
            Delimiter::Space => is_space(c),
            Delimiter::ShellOperator => c == '|' || c == ';' || c == '&',
        }
    }

    /// Whether `c` is a delimiter.
    pub fn is_cut(self, c: char) -> (r: bool)
        ensures
            r == self.cuts(c),
    {
        match self {
            Delimiter::Char(d) => c == d,
            Delimiter::Space => space(c),
            Delimiter::ShellOperator => c == '|' || c == ';' || c == '&',
        }
    }
}

// ---------------------------------------------------------------------------
// Conversions
// ---------------------------------------------------------------------------

/// The characters of `s`.
pub fn chars_of(s: &str) -> (r: Vec<char>)
    ensures
        r@ == s@,
{
    let mut v: Vec<char> = Vec::new();
    for c in it: s.chars()
        invariant
            v@ == it.seq().take(it.index()),
            it.seq() == s@,
    {
        v.push(c);
    }
    assert(s@.take(s@.len() as int) == s@);
    v
}

/// The text made of `cs`.
pub fn string_of(cs: &[char]) -> (r: String)
    ensures
        r@ == cs@,
{
    let mut s = String::new();
    let mut i: usize = 0;
    while i < cs.len()
        invariant
            i <= cs@.len(),
            s@ == cs@.take(i as int),
        decreases cs@.len() - i,
    {
        s.push(cs[i]);
        i = i + 1;
        assert(cs@.take(i as int) == cs@.take(i - 1).push(cs@[i - 1]));
    }
    assert(cs@.take(cs@.len() as int) == cs@);
    s
}

/// The characters of `cs` from `from` up to, not including, `to`.
pub fn piece(cs: &[char], from: usize, to: usize) -> (r: Vec<char>)
    requires
        from <= to <= cs@.len(),
    ensures
        r@ == cs@.subrange(from as int, to as int),
{
    let mut v: Vec<char> = Vec::new();
    let mut i: usize = from;
    while i < to
        invariant
            from <= i <= to <= cs@.len(),
            v@ == cs@.subrange(from as int, i as int),
        decreases to - i,
    {
        v.push(cs[i]);
        i = i + 1;
        assert(cs@.subrange(from as int, i as int) == cs@.subrange(from as int, i - 1).push(
            cs@[i - 1],
        ));
    }
    v
}

/// A copy of `s` that is known to hold the same text.
pub fn copy_of(s: &str) -> (r: String)
    ensures
        r@ == s@,
{
    s.to_string()
}

/// The texts of a list of strings.
pub open spec fn texts(v: Seq<String>) -> Seq<Seq<char>> {
    v.map_values(|s: String| s@)
}

/// The texts of a list of character vectors.
pub open spec fn pieces(v: Seq<Vec<char>>) -> Seq<Seq<char>> {
    v.map_values(|s: Vec<char>| s@)
}

/// The text of an optional string.
pub open spec fn opt_text(o: Option<String>) -> Option<Seq<char>> {
    match o {
        Some(s) => Some(s@),
        None => None,
    }
}

/// The text of an optional string slice.
pub open spec fn opt_str(o: Option<&str>) -> Option<Seq<char>> {
    match o {
        Some(s) => Some(s@),
        None => None,
    }
}

/// A copy of an optional text.
pub fn copy_opt(o: &Option<String>) -> (r: Option<String>)
    ensures
        opt_text(r) == opt_text(*o),
{
    match o {
        Some(s) => Some(copy_of(s.as_str())),
        None => None,
    }
}

// ---------------------------------------------------------------------------
// Splitting and joining
// ---------------------------------------------------------------------------

/// The pieces of `s` between its delimiters: one more than there are
/// delimiters, in order, possibly empty.
pub open spec fn split(s: Seq<char>, d: Delimiter) -> Seq<Seq<char>>
    decreases s.len(),
{
    if s.len() == 0 {
        seq![Seq::<char>::empty()]
    } else {
        let before = split(s.drop_last(), d);
        if d.cuts(s.last()) {
            before.push(Seq::<char>::empty())
        } else {
            before.drop_last().push(before.last().push(s.last()))
        }
    }
}

/// The parts, in order, with `sep` between neighbours.
pub open spec fn join(parts: Seq<Seq<char>>, sep: Seq<char>) -> Seq<char>
    decreases parts.len(),
{
    if parts.len() == 0 {
        Seq::<char>::empty()
    } else if parts.len() == 1 {
        parts[0]
    } else {
        join(parts.drop_last(), sep) + sep + parts.last()
    }
}

/// Every split has at least one piece.
pub proof fn lemma_split_nonempty(s: Seq<char>, d: Delimiter)
    ensures
        split(s, d).len() >= 1,
    decreases s.len(),
{
    if s.len() > 0 {
        lemma_split_nonempty(s.drop_last(), d);
    }
}

/// Whether `c` does not occur in `s`.
pub open spec fn free_of(s: Seq<char>, c: char) -> bool {
    forall|i: int| 0 <= i < s.len() ==> #[trigger] s[i] != c
}

/// Whether no character of `s` is a delimiter.
pub open spec fn is_uncut(s: Seq<char>, d: Delimiter) -> bool {
    forall|i: int| 0 <= i < s.len() ==> !d.cuts(#[trigger] s[i])
}

/// No piece holds a delimiter.
pub proof fn lemma_split_pieces(s: Seq<char>, d: Delimiter)
    ensures
        forall|i: int| 0 <= i < split(s, d).len() ==> is_uncut(#[trigger] split(s, d)[i], d),
    decreases s.len(),
{
    if s.len() > 0 {
        let before = split(s.drop_last(), d);
        lemma_split_nonempty(s.drop_last(), d);
        lemma_split_pieces(s.drop_last(), d);
        assert(is_uncut(before[before.len() - 1], d));
        assert forall|i: int| 0 <= i < split(s, d).len() implies is_uncut(
            #[trigger] split(s, d)[i],
            d,
        ) by {
            if i < before.len() - 1 || d.cuts(s.last()) && i < before.len() {
                assert(split(s, d)[i] == before[i]);
            }
        }
    }
}

/// A piece holds no character that the whole does not hold.
pub proof fn lemma_split_chars(s: Seq<char>, d: Delimiter, c: char)
    requires
        free_of(s, c),
    ensures
        forall|i: int| 0 <= i < split(s, d).len() ==> free_of(#[trigger] split(s, d)[i], c),
    decreases s.len(),
{
    if s.len() > 0 {
        let before = split(s.drop_last(), d);
        lemma_split_nonempty(s.drop_last(), d);
        lemma_split_chars(s.drop_last(), d, c);
        assert(free_of(before[before.len() - 1], c));
        assert forall|i: int| 0 <= i < split(s, d).len() implies free_of(
            #[trigger] split(s, d)[i],
            c,
        ) by {
            if i < before.len() - 1 || d.cuts(s.last()) && i < before.len() {
                assert(split(s, d)[i] == before[i]);
            }
        }
    }
}

/// Text without delimiters at the end belongs to the last piece.
pub proof fn lemma_split_tail(a: Seq<char>, b: Seq<char>, d: Delimiter)
    requires
        is_uncut(b, d),
    ensures
        split(a + b, d) == split(a, d).drop_last().push(split(a, d).last() + b),
    decreases b.len(),
{
    let before = split(a, d);
    lemma_split_nonempty(a, d);
    if b.len() == 0 {
        assert(a + b == a);
        assert(before.last() + b == before.last());
        assert(before.drop_last().push(before.last()) == before);
    } else {
        assert((a + b).drop_last() == a + b.drop_last());
        assert((a + b).last() == b.last());
        lemma_split_tail(a, b.drop_last(), d);
        assert((before.last() + b.drop_last()).push(b.last()) == before.last() + b);
        assert(before.drop_last().push(before.last() + b.drop_last()).drop_last()
            == before.drop_last());
        assert(!d.cuts(b[b.len() - 1]));
    }
}

/// Text without delimiters is its own only piece.
pub proof fn lemma_split_uncut(s: Seq<char>, d: Delimiter)
    requires
        is_uncut(s, d),
    ensures
        split(s, d) == seq![s],
{
    let empty = Seq::<char>::empty();
    lemma_split_tail(empty, s, d);
    assert(empty + s == s);
    assert(split(empty, d) == seq![empty]);
}

/// Splitting at a delimiter splits both sides.
pub proof fn lemma_split_concat(a: Seq<char>, c: char, b: Seq<char>, d: Delimiter)
    requires
        d.cuts(c),
    ensures
        split(a.push(c) + b, d) == split(a, d) + split(b, d),
    decreases b.len(),
{
    let s = a.push(c) + b;
    if b.len() == 0 {
        assert(s == a.push(c));
        assert(s.drop_last() == a);
        assert(split(a, d) + split(b, d) == split(a, d).push(Seq::<char>::empty()));
    } else {
        assert(s.drop_last() == a.push(c) + b.drop_last());
        assert(s.last() == b.last());
        lemma_split_concat(a, c, b.drop_last(), d);
        lemma_split_nonempty(b.drop_last(), d);
        let sa = split(a, d);
        let sb = split(b.drop_last(), d);
        if d.cuts(b.last()) {
            assert((sa + sb).push(Seq::<char>::empty()) == sa + sb.push(Seq::<char>::empty()));
        } else {
            assert((sa + sb).last() == sb.last());
            assert((sa + sb).drop_last() == sa + sb.drop_last());
            assert((sa + sb.drop_last()).push(sb.last().push(b.last())) == sa
                + sb.drop_last().push(sb.last().push(b.last())));
        }
    }
}

/// Joining the pieces with the delimiter gives the text back.
pub proof fn lemma_join_split(s: Seq<char>, c: char)
    ensures
        join(split(s, Delimiter::Char(c)), seq![c]) == s,
    decreases s.len(),
{
    let d = Delimiter::Char(c);
    if s.len() > 0 {
        let before = split(s.drop_last(), d);
        lemma_split_nonempty(s.drop_last(), d);
        lemma_join_split(s.drop_last(), c);
        if s.last() == c {
            let parts = before.push(Seq::<char>::empty());
            assert(parts.drop_last() == before);
            assert(join(parts, seq![c]) == s.drop_last() + seq![c] + Seq::<char>::empty());
            assert(s.drop_last() + seq![c] + Seq::<char>::empty() == s);
        } else {
            let parts = before.drop_last().push(before.last().push(s.last()));
            assert(parts.drop_last() == before.drop_last());
            if before.len() == 1 {
                assert(before[0] == before.last());
                assert(parts[0] == before[0].push(s.last()));
                assert(s.drop_last().push(s.last()) == s);
            } else {
                let head = join(before.drop_last(), seq![c]) + seq![c];
                assert(head + before.last() == s.drop_last());
                assert(head + before.last().push(s.last()) == (head + before.last()).push(
                    s.last(),
                ));
                assert(s.drop_last().push(s.last()) == s);
            }
        }
    }
}

/// Parts that do not hold the delimiter are the pieces of what they join to.
pub proof fn lemma_split_join(parts: Seq<Seq<char>>, c: char)
    requires
        parts.len() > 0,
        forall|i: int| 0 <= i < parts.len() ==> free_of(#[trigger] parts[i], c),
    ensures
        split(join(parts, seq![c]), Delimiter::Char(c)) == parts,
    decreases parts.len(),
{
    let d = Delimiter::Char(c);
    assert(free_of(parts[parts.len() - 1], c));
    lemma_split_uncut(parts.last(), d);
    if parts.len() == 1 {
        assert(parts == seq![parts[0]]);
    } else {
        let front = parts.drop_last();
        assert forall|i: int| 0 <= i < front.len() implies free_of(#[trigger] front[i], c) by {
            assert(front[i] == parts[i]);
        }
        lemma_split_join(front, c);
        let a = join(front, seq![c]);
        lemma_split_concat(a, c, parts.last(), d);
        assert(a + seq![c] + parts.last() == a.push(c) + parts.last());
        assert(front + seq![parts.last()] == parts);
    }
}

/// A joined text holds no character that neither the parts nor the separator
/// hold.
pub proof fn lemma_join_free(parts: Seq<Seq<char>>, sep: char, c: char)
    requires
        sep != c,
        forall|i: int| 0 <= i < parts.len() ==> free_of(#[trigger] parts[i], c),
    ensures
        free_of(join(parts, seq![sep]), c),
    decreases parts.len(),
{
    if parts.len() == 1 {
        assert(free_of(parts[0], c));
    } else if parts.len() > 1 {
        let front = parts.drop_last();
        assert forall|i: int| 0 <= i < front.len() implies free_of(#[trigger] front[i], c) by {
            assert(front[i] == parts[i]);
        }
        lemma_join_free(front, sep, c);
        assert(free_of(parts[parts.len() - 1], c));
    }
}

/// Cuts `cs` at its delimiters.
pub fn split_at(cs: &[char], d: Delimiter) -> (r: Vec<Vec<char>>)
    ensures
        pieces(r@) == split(cs@, d),
        r@.len() >= 1,
{
    let mut done: Vec<Vec<char>> = Vec::new();
    let mut cur: Vec<char> = Vec::new();
    let mut i: usize = 0;
    assert(cs@.take(0) == Seq::<char>::empty());
    assert(pieces(done@).push(cur@) == split(cs@.take(0), d));
    while i < cs.len()
        invariant
            i <= cs@.len(),
            pieces(done@).push(cur@) == split(cs@.take(i as int), d),
        decreases cs@.len() - i,
    {
        let c = cs[i];
        let ghost before = pieces(done@).push(cur@);
        assert(cs@.take(i + 1).drop_last() == cs@.take(i as int));
        assert(cs@.take(i + 1).last() == c);
        assert(before.drop_last() == pieces(done@));
        if d.is_cut(c) {
            let ghost done0 = done@;
            let ghost cur0 = cur@;
            let mut full: Vec<char> = Vec::new();
            std::mem::swap(&mut full, &mut cur);
            done.push(full);
            assert(pieces(done@) == pieces(done0).push(cur0));
        } else {
            cur.push(c);
        }
        i = i + 1;
    }
    assert(cs@.take(cs@.len() as int) == cs@);
    let ghost done0 = done@;
    let ghost cur0 = cur@;
    done.push(cur);
    assert(pieces(done@) == pieces(done0).push(cur0));
    done
}

/// Joins `parts` with `sep` between neighbours.
pub fn join_pieces(parts: &[Vec<char>], sep: &str) -> (r: String)
    ensures
        r@ == join(pieces(parts@), sep@),
{
    let mut s = String::new();
    let mut i: usize = 0;
    let ghost all = pieces(parts@);
    while i < parts.len()
        invariant
            i <= parts@.len(),
            all == pieces(parts@),
            s@ == join(all.take(i as int), sep@),
        decreases parts@.len() - i,
    {
        let ghost so_far = all.take(i as int);
        assert(all.take(i + 1).drop_last() == so_far);
        assert(all.take(i + 1).last() == parts@[i as int]@);
        if i > 0 {
            s.append(sep);
        }
        let next = string_of(parts[i].as_slice());
        let ghost s1 = s@;
        s.append(next.as_str());
        assert(Seq::<char>::empty() + next@ == next@);
        i = i + 1;
    }
    assert(all.take(all.len() as int) == all);
    s
}

/// Joins `parts` with `sep` between neighbours.
pub fn join_strings(parts: &[String], sep: &str) -> (r: String)
    ensures
        r@ == join(texts(parts@), sep@),
{
    let mut s = String::new();
    let mut i: usize = 0;
    let ghost all = texts(parts@);
    while i < parts.len()
        invariant
            i <= parts@.len(),
            all == texts(parts@),
            s@ == join(all.take(i as int), sep@),
        decreases parts@.len() - i,
    {
        assert(all.take(i + 1).drop_last() == all.take(i as int));
        assert(all.take(i + 1).last() == parts@[i as int]@);
        if i > 0 {
            s.append(sep);
        }
        s.append(parts[i].as_str());
        assert(Seq::<char>::empty() + parts@[i as int]@ == parts@[i as int]@);
        i = i + 1;
    }
    assert(all.take(all.len() as int) == all);
    s
}

// ---------------------------------------------------------------------------
// Trimming and searching
// ---------------------------------------------------------------------------

/// `s` without the white space at its end.
pub open spec fn trim_end(s: Seq<char>) -> Seq<char>
    decreases s.len(),
{
    if s.len() > 0 && is_space(s.last()) {
        trim_end(s.drop_last())
    } else {
        s
    }
}

/// `s` without the white space at its start.
pub open spec fn trim_start(s: Seq<char>) -> Seq<char>
    decreases s.len(),
{
    if s.len() > 0 && is_space(s.first()) {
        trim_start(s.drop_first())
    } else {
        s
    }
}

/// `s` without the white space at either end.
pub open spec fn trim(s: Seq<char>) -> Seq<char> {
    trim_start(trim_end(s))
}

/// Whether `s` holds white space only.
pub open spec fn is_blank(s: Seq<char>) -> bool {
    forall|i: int| 0 <= i < s.len() ==> is_space(#[trigger] s[i])
}

/// Trimming leaves nothing exactly of a blank text.
pub proof fn lemma_trim_blank(s: Seq<char>)
    ensures
        (trim_end(s).len() == 0) == is_blank(s),
        (trim_start(s).len() == 0) == is_blank(s),
        (trim(s).len() == 0) == is_blank(s),
    decreases s.len(),
{
    if s.len() > 0 {
        lemma_trim_blank(s.drop_last());
        lemma_trim_blank(s.drop_first());
        if is_space(s.last()) {
            if is_blank(s.drop_last()) {
                assert forall|i: int| 0 <= i < s.len() implies is_space(#[trigger] s[i]) by {
                    if i < s.len() - 1 {
                        assert(s.drop_last()[i] == s[i]);
                    }
                }
            }
            if is_blank(s) {
                assert forall|i: int| 0 <= i < s.drop_last().len() implies is_space(
                    #[trigger] s.drop_last()[i],
                ) by {
                    assert(s.drop_last()[i] == s[i]);
                }
            }
        }
        if is_space(s.first()) {
            if is_blank(s.drop_first()) {
                assert forall|i: int| 0 <= i < s.len() implies is_space(#[trigger] s[i]) by {
                    if i > 0 {
                        assert(s.drop_first()[i - 1] == s[i]);
                    }
                }
            }
            if is_blank(s) {
                assert forall|i: int| 0 <= i < s.drop_first().len() implies is_space(
                    #[trigger] s.drop_first()[i],
                ) by {
                    assert(s.drop_first()[i] == s[i + 1]);
                }
            }
        }
        if !is_space(s.last()) {
            assert(trim_end(s) == s);
            assert(!is_blank(s));
        } else {
            assert(trim(s) == trim(s.drop_last()));
        }
        if !is_space(s.first()) {
            assert(trim_start(s) == s);
            assert(!is_blank(s));
        }
        if !is_space(s.last()) {
            assert(trim(s) == trim_start(s));
        }
    }
}

/// Trimming the end keeps a beginning of the text that does not end in white
/// space, and keeps such a text as it is.
pub proof fn lemma_trim_end(s: Seq<char>)
    ensures
        trim_end(s).len() <= s.len(),
        trim_end(s) == s.take(trim_end(s).len() as int),
        trim_end(s).len() > 0 ==> !is_space(trim_end(s).last()),
        trim_end(trim_end(s)) == trim_end(s),
    decreases s.len(),
{
    if s.len() > 0 && is_space(s.last()) {
        lemma_trim_end(s.drop_last());
        let n = trim_end(s).len() as int;
        assert(s.drop_last().take(n) == s.take(n));
    } else {
        assert(s.take(s.len() as int) == s);
    }
}

/// Where the white space at the end of `cs` begins.
pub fn end_of(cs: &[char]) -> (r: usize)
    ensures
        r <= cs@.len(),
        trim_end(cs@) == cs@.take(r as int),
{
    let mut n: usize = cs.len();
    assert(cs@.take(n as int) == cs@);
    while n > 0 && space(cs[n - 1])
        invariant
            n <= cs@.len(),
            trim_end(cs@) == trim_end(cs@.take(n as int)),
        decreases n,
    {
        assert(cs@.take(n as int).drop_last() == cs@.take(n - 1));
        n = n - 1;
    }
    n
}

/// Where the white space at the start of `cs` ends.
pub fn start_of(cs: &[char]) -> (r: usize)
    ensures
        r <= cs@.len(),
        trim_start(cs@) == cs@.skip(r as int),
{
    let mut n: usize = 0;
    assert(cs@.skip(0) == cs@);
    while n < cs.len() && space(cs[n])
        invariant
            n <= cs@.len(),
            trim_start(cs@) == trim_start(cs@.skip(n as int)),
        decreases cs@.len() - n,
    {
        assert(cs@.skip(n as int).drop_first() == cs@.skip(n + 1));
        n = n + 1;
    }
    n
}

/// `cs` without the white space at its end.
pub fn trimmed_end(cs: &[char]) -> (r: Vec<char>)
    ensures
        r@ == trim_end(cs@),
{
    let n: usize = end_of(cs);
    assert(cs@.subrange(0, n as int) == cs@.take(n as int));
    piece(cs, 0, n)
}

/// `cs` without the white space at either end.
pub fn trimmed(cs: &[char]) -> (r: Vec<char>)
    ensures
        r@ == trim(cs@),
{
    let v = trimmed_end(cs);
    let n: usize = start_of(v.as_slice());
    assert(v@.subrange(n as int, v@.len() as int) == v@.skip(n as int));
    piece(v.as_slice(), n, v.len())
}

/// `s` without the white space at either end.
pub fn trim_text(s: &str) -> (r: String)
    ensures
        r@ == trim(s@),
{
    let cs = chars_of(s);
    string_of(trimmed(cs.as_slice()).as_slice())
}

/// Whether `s` holds white space only.
pub fn blank(cs: &[char]) -> (r: bool)
    ensures
        r == is_blank(cs@),
{
    let mut i: usize = 0;
    while i < cs.len()
        invariant
            i <= cs@.len(),
            forall|j: int| 0 <= j < i ==> is_space(#[trigger] cs@[j]),
        decreases cs@.len() - i,
    {
        if !space(cs[i]) {
            return false;
        }
        i = i + 1;
    }
    true
}

/// Whether `needle` stands in `s` at position `i`.
pub open spec fn occurs_at(s: Seq<char>, needle: Seq<char>, i: int) -> bool {
    &&& 0 <= i
    &&& i + needle.len() <= s.len()
    &&& s.subrange(i, i + needle.len()) == needle
}

/// Whether `needle` stands somewhere in `s`.
pub open spec fn contains(s: Seq<char>, needle: Seq<char>) -> bool {
    exists|i: int| occurs_at(s, needle, i)
}

/// Whether `s` begins with `p`.
pub open spec fn begins_with(s: Seq<char>, p: Seq<char>) -> bool {
    occurs_at(s, p, 0)
}

/// Whether `needle` stands in `cs` at position `from`.
pub fn found_at(cs: &[char], needle: &[char], from: usize) -> (r: bool)
    ensures
        r == occurs_at(cs@, needle@, from as int),
{
    if needle.len() > cs.len() || from > cs.len() - needle.len() {
        return false;
    }
    let len: usize = cs.len();
    let mut j: usize = 0;
    while j < needle.len()
        invariant
            j <= needle@.len(),
            len == cs@.len(),
            from + needle@.len() <= len,
            forall|k: int| 0 <= k < j ==> cs@[from + k] == #[trigger] needle@[k],
        decreases needle@.len() - j,
    {
        if cs[from + j] != needle[j] {
            assert(cs@.subrange(from as int, from + needle@.len())[j as int] != needle@[j as int]);
            return false;
        }
        j = j + 1;
    }
    assert(cs@.subrange(from as int, from + needle@.len()) == needle@);
    true
}

/// Whether `needle` stands somewhere in `cs`.
pub fn found(cs: &[char], needle: &[char]) -> (r: bool)
    ensures
        r == contains(cs@, needle@),
{
    let mut i: usize = 0;
    while i < cs.len()
        invariant
            i <= cs@.len(),
            forall|j: int| 0 <= j < i ==> !occurs_at(cs@, needle@, j),
        decreases cs@.len() - i,
    {
        if found_at(cs, needle, i) {
            return true;
        }
        i = i + 1;
    }
    found_at(cs, needle, i)
}

/// Whether `needle` stands somewhere in `cs`.
pub fn mentions(cs: &[char], needle: &str) -> (r: bool)
    ensures
        r == contains(cs@, needle@),
{
    let n = chars_of(needle);
    found(cs, n.as_slice())
}

/// Whether `cs` is the text `s`.
pub fn same(cs: &[char], s: &str) -> (r: bool)
    ensures
        r == (cs@ == s@),
{
    let other = chars_of(s);
    if cs.len() != other.len() {
        return false;
    }
    let r = found_at(cs, other.as_slice(), 0);
    assert(cs@.subrange(0, cs@.len() as int) == cs@);
    r
}

/// Whether `a` and `b` are the same text.
pub fn same_text(a: &str, b: &str) -> (r: bool)
    ensures
        r == (a@ == b@),
{
    let cs = chars_of(a);
    same(cs.as_slice(), b)
}

/// Whether `c` is one of `cs`.
pub fn has_char(cs: &[char], c: char) -> (r: bool)
    ensures
        r == cs@.contains(c),
{
    let mut i: usize = 0;
    while i < cs.len()
        invariant
            i <= cs@.len(),
            forall|j: int| 0 <= j < i ==> cs@[j] != c,
        decreases cs@.len() - i,
    {
        if cs[i] == c {
            return true;
        }
        i = i + 1;
    }
    false
}

// ---------------------------------------------------------------------------
// Lines and words
// ---------------------------------------------------------------------------

/// The pieces that are not empty.
pub open spec fn nonempty(parts: Seq<Seq<char>>) -> Seq<Seq<char>>
    decreases parts.len(),
{
    if parts.len() == 0 {
        parts
    } else if parts.last().len() > 0 {
        nonempty(parts.drop_last()).push(parts.last())
    } else {
        nonempty(parts.drop_last())
    }
}

/// The words of `s`: its longest runs without white space.
pub open spec fn words(s: Seq<char>) -> Seq<Seq<char>> {
    nonempty(split(s, Delimiter::Space))
}

/// The words of `cs`.
pub fn words_of(cs: &[char]) -> (r: Vec<Vec<char>>)
    ensures
        pieces(r@) == words(cs@),
{
    let parts = split_at(cs, Delimiter::Space);
    let mut out: Vec<Vec<char>> = Vec::new();
    let ghost all = pieces(parts@);
    let mut i: usize = 0;
    assert(pieces(out@) == nonempty(all.take(0)));
    while i < parts.len()
        invariant
            i <= parts@.len(),
            all == pieces(parts@),
            pieces(out@) == nonempty(all.take(i as int)),
        decreases parts@.len() - i,
    {
        assert(all.take(i + 1).drop_last() == all.take(i as int));
        assert(all.take(i + 1).last() == parts@[i as int]@);
        if parts[i].len() > 0 {
            let ghost out0 = out@;
            let w = piece(parts[i].as_slice(), 0, parts[i].len());
            assert(w@ == parts@[i as int]@);
            out.push(w);
            assert(pieces(out@) == pieces(out0).push(w@));
        }
        i = i + 1;
    }
    assert(all.take(all.len() as int) == all);
    out
}

/// `line` without one carriage return at its end.
pub open spec fn chop_cr(line: Seq<char>) -> Seq<char> {
    if line.len() > 0 && line.last() == '\r' {
        line.drop_last()
    } else {
        line
    }
}

/// The lines of `s`. A line ends at a newline, which with one carriage return
/// before it does not belong to the line; what follows the last newline is a
/// line if it is not empty.
pub open spec fn lines(s: Seq<char>) -> Seq<Seq<char>> {
    let parts = split(s, Delimiter::Char('\n'));
    let ended = parts.drop_last().map_values(|l: Seq<char>| chop_cr(l));
    if parts.last().len() > 0 {
        ended.push(parts.last())
    } else {
        ended
    }
}

/// The lines of `s`.
pub fn lines_of(s: &str) -> (r: Vec<Vec<char>>)
    ensures
        pieces(r@) == lines(s@),
{
    let cs = chars_of(s);
    let parts = split_at(cs.as_slice(), Delimiter::Char('\n'));
    let ghost all = pieces(parts@);
    let ghost ended = all.drop_last().map_values(|l: Seq<char>| chop_cr(l));
    let mut out: Vec<Vec<char>> = Vec::new();
    let mut i: usize = 0;
    while i < parts.len() - 1
        invariant
            i <= parts@.len() - 1,
            all == pieces(parts@),
            ended == all.drop_last().map_values(|l: Seq<char>| chop_cr(l)),
            pieces(out@) == ended.take(i as int),
        decreases parts@.len() - i,
    {
        let p = &parts[i];
        let n: usize = p.len();
        let keep: usize = if n > 0 && p[n - 1] == '\r' {
            n - 1
        } else {
            n
        };
        let l = piece(p.as_slice(), 0, keep);
        assert(l@ == chop_cr(p@));
        let ghost out0 = out@;
        out.push(l);
        assert(pieces(out@) == pieces(out0).push(l@));
        assert(ended[i as int] == l@);
        assert(ended.take(i + 1) == ended.take(i as int).push(l@));
        i = i + 1;
    }
    assert(ended.take(i as int) == ended);
    let last = &parts[parts.len() - 1];
    assert(all.last() == last@);
    if last.len() > 0 {
        let l = piece(last.as_slice(), 0, last.len());
        assert(l@ == last@);
        let ghost out0 = out@;
        out.push(l);
        assert(pieces(out@) == pieces(out0).push(l@));
    }
    out
}

// ---------------------------------------------------------------------------
// Numbers
// ---------------------------------------------------------------------------

/// The character of a digit.
pub open spec fn digit(d: nat) -> char {
    (48 + d) as char
}

/// `n` in decimal.
pub open spec fn decimal(n: nat) -> Seq<char>
    decreases n,
{
    if n < 10 {
        seq![digit(n)]
    } else {
        decimal(n / 10).push(digit(n % 10))
    }
}

/// `i` in decimal, with a sign if it is negative.
pub open spec fn signed_decimal(i: int) -> Seq<char> {
    if i < 0 {
        seq!['-'] + decimal((-i) as nat)
    } else {
        decimal(i as nat)
    }
}

/// Adds `n` in decimal to the end of `out`.
fn push_decimal(out: &mut String, n: u64)
    ensures
        final(out)@ == old(out)@ + decimal(n as nat),
    decreases n,
{
    if n >= 10 {
        push_decimal(out, n / 10);
    }
    let d: u8 = (n % 10) as u8;
    let ghost before = out@;
    out.push((48 + d) as char);
    assert(out@ == before.push(digit((n % 10) as nat)));
    assert(out@ == old(out)@ + decimal(n as nat));
}

/// `n` in decimal.
pub fn decimal_of(n: u64) -> (r: String)
    ensures
        r@ == decimal(n as nat),
{
    let mut s = String::new();
    push_decimal(&mut s, n);
    assert(Seq::<char>::empty() + decimal(n as nat) == decimal(n as nat));
    s
}

/// `i` in decimal, with a sign if it is negative.
pub fn signed_decimal_of(i: i64) -> (r: String)
    ensures
        r@ == signed_decimal(i as int),
{
    let mut s = String::new();
    if i < 0 {
        s.push('-');
        let m: u64 = (-(i + 1)) as u64 + 1;
        assert(s@ == seq!['-']);
        push_decimal(&mut s, m);
    } else {
        push_decimal(&mut s, i as u64);
        assert(s@ == decimal(i as nat));
    }
    s
}

/// Whether `c` is one of the ten digits.
pub open spec fn is_digit(c: char) -> bool {
    '0' <= c && c <= '9'
}

/// The value of a digit.
pub open spec fn digit_value(c: char) -> nat {
    (c as u32 - 48) as nat
}

/// Whether `s` holds digits only.
pub open spec fn all_digits(s: Seq<char>) -> bool {
    forall|i: int| 0 <= i < s.len() ==> is_digit(#[trigger] s[i])
}

/// The value of a row of digits.
pub open spec fn value(s: Seq<char>) -> nat
    decreases s.len(),
{
    if s.len() == 0 {
        0
    } else {
        value(s.drop_last()) * 10 + digit_value(s.last())
    }
}

/// The number that one or more digits write.
pub open spec fn number(s: Seq<char>) -> Option<nat> {
    if s.len() > 0 && all_digits(s) {
        Some(value(s))
    } else {
        None
    }
}

/// `s` without one `sign` at its start.
pub open spec fn unsigned_part(s: Seq<char>, sign: char) -> Seq<char> {
    if s.len() > 0 && s[0] == sign {
        s.skip(1)
    } else {
        s
    }
}

/// The unsigned 64-bit number that `s` writes: digits, after a `+` or not.
pub open spec fn parsed_u64(s: Seq<char>) -> Option<u64> {
    match number(unsigned_part(s, '+')) {
        Some(n) if n <= u64::MAX => Some(n as u64),
        _ => None,
    }
}

/// The signed 64-bit number that `s` writes: digits, after one sign or not.
pub open spec fn parsed_i64(s: Seq<char>) -> Option<i64> {
    if s.len() > 0 && s[0] == '-' {
        match number(s.skip(1)) {
            Some(n) if n <= -(i64::MIN as int) => Some((-n) as i64),
            _ => None,
        }
    } else {
        match number(unsigned_part(s, '+')) {
            Some(n) if n <= i64::MAX => Some(n as i64),
            _ => None,
        }
    }
}

/// More digits never make a number smaller.
proof fn lemma_value_grows(s: Seq<char>, k: int)
    requires
        0 <= k <= s.len(),
    ensures
        value(s) >= value(s.take(k)),
    decreases s.len() - k,
{
    if k < s.len() {
        assert(s.take(k + 1).drop_last() == s.take(k));
        lemma_value_grows(s, k + 1);
    } else {
        assert(s.take(k) == s);
    }
}

/// The number that `cs` writes from `from` on, if it is at most `max`.
fn number_from(cs: &[char], from: usize, max: u64) -> (r: Option<u64>)
    requires
        from <= cs@.len(),
    ensures
        match number(cs@.skip(from as int)) {
            Some(n) if n <= max => r == Some(n as u64),
            _ => r is None,
        },
{
    let ghost s = cs@.skip(from as int);
    if from >= cs.len() {
        return None;
    }
    let mut acc: u64 = 0;
    let mut i: usize = from;
    assert(s.take(0) == Seq::<char>::empty());
    while i < cs.len()
        invariant
            from <= i <= cs@.len(),
            s == cs@.skip(from as int),
            acc == value(s.take(i - from)),
            acc <= max,
            forall|j: int| 0 <= j < i - from ==> is_digit(#[trigger] s[j]),
        decreases cs@.len() - i,
    {
        let c = cs[i];
        assert(s[i - from] == c);
        if !('0' <= c && c <= '9') {
            return None;
        }
        let d: u64 = (c as u32 - 48) as u64;
        assert(s.take(i - from + 1).drop_last() == s.take(i - from));
        assert(value(s.take(i - from + 1)) == acc * 10 + d);
        if d > max || acc > (max - d) / 10 {
            proof {
                lemma_value_grows(s, i - from + 1);
            }
            return None;
        }
        acc = acc * 10 + d;
        i = i + 1;
    }
    assert(s.take(s.len() as int) == s);
    Some(acc)
}

/// The unsigned number that `cs` writes.
pub fn parse_u64(cs: &[char]) -> (r: Option<u64>)
    ensures
        r == parsed_u64(cs@),
{
    assert(cs@.skip(0) == cs@);
    if cs.len() > 0 && cs[0] == '+' {
        number_from(cs, 1, u64::MAX)
    } else {
        number_from(cs, 0, u64::MAX)
    }
}

/// The signed number that `cs` writes.
pub fn parse_i64(cs: &[char]) -> (r: Option<i64>)
    ensures
        r == parsed_i64(cs@),
{
    assert(cs@.skip(0) == cs@);
    if cs.len() > 0 && cs[0] == '-' {
        match number_from(cs, 1, 0x8000_0000_0000_0000) {
            Some(n) => {
                if n == 0x8000_0000_0000_0000 {
                    Some(i64::MIN)
                } else {
                    Some(-(n as i64))
                }
            },
            None => None,
        }
    } else {
        let n = if cs.len() > 0 && cs[0] == '+' {
            number_from(cs, 1, 0x7fff_ffff_ffff_ffff)
        } else {
            number_from(cs, 0, 0x7fff_ffff_ffff_ffff)
        };
        match n {
            Some(n) => Some(n as i64),
            None => None,
        }
    }
}

/// `s` filled up with spaces to `width` characters.
pub open spec fn padded(s: Seq<char>, width: nat) -> Seq<char>
    decreases width - s.len(),
{
    if s.len() < width {
        padded(s.push(' '), width)
    } else {
        s
    }
}

/// `s` filled up with spaces to `width` characters.
pub fn pad_to(s: &str, width: usize) -> (r: String)
    ensures
        r@ == padded(s@, width as nat),
{
    let mut n: usize = chars_of(s).len();
    let mut out = copy_of(s);
    while n < width
        invariant
            n == out@.len(),
            padded(s@, width as nat) == padded(out@, width as nat),
        decreases width - n,
    {
        out.push(' ');
        n = n + 1;
    }
    out
}

// ---------------------------------------------------------------------------
// Bytes
// ---------------------------------------------------------------------------

/// The number of bytes of `s` in UTF-8.
pub open spec fn byte_len(s: Seq<char>) -> nat {
    vstd::utf8::encode_utf8(s).len()
}

/// The number of bytes of `s` in UTF-8.
pub fn byte_len_of(s: &str) -> (r: usize)
    ensures
        r == byte_len(s@),
{
    s.as_bytes().len()
}

/// The bytes of two texts put together are those of both.
pub proof fn lemma_byte_len_concat(a: Seq<char>, b: Seq<char>)
    ensures
        byte_len(a + b) == byte_len(a) + byte_len(b),
    decreases a.len(),
{
    if a.len() == 0 {
        assert(a + b == b);
    } else {
        assert((a + b).drop_first() == a.drop_first() + b);
        lemma_byte_len_concat(a.drop_first(), b);
    }
}

/// Every character of an ASCII text takes one byte.
pub proof fn lemma_byte_len_ascii(s: Seq<char>)
    requires
        is_ascii(s),
    ensures
        byte_len(s) == s.len(),
    decreases s.len(),
{
    if s.len() > 0 {
        assert((s[0] as u32) < 128);
        let rest = s.drop_first();
        assert forall|i: int| 0 <= i < rest.len() implies (#[trigger] rest[i] as u32) < 128 by {
            assert(rest[i] == s[i + 1]);
        }
        lemma_byte_len_ascii(rest);
    }
}

/// Ten to the power of `k`.
pub open spec fn ten_to(k: nat) -> nat
    decreases k,
{
    if k == 0 {
        1
    } else {
        10 * ten_to((k - 1) as nat)
    }
}

/// A decimal is made of digits, at most `k` of them below ten to the power of
/// `k`.
pub proof fn lemma_decimal(n: nat, k: nat)
    ensures
        decimal(n).len() > 0,
        all_digits(decimal(n)),
        value(decimal(n)) == n,
        k > 0 && n < ten_to(k) ==> decimal(n).len() <= k,
    decreases n,
{
    reveal_with_fuel(ten_to, 2);
    if n < 10 {
        assert(decimal(n) == seq![digit(n)]);
        assert(decimal(n).drop_last() == Seq::<char>::empty());
        assert(value(Seq::<char>::empty()) == 0);
    } else {
        let front = decimal(n / 10);
        if k > 0 {
            lemma_decimal(n / 10, (k - 1) as nat);
        } else {
            lemma_decimal(n / 10, 0);
        }
        assert(decimal(n).drop_last() == front);
        assert forall|i: int| 0 <= i < decimal(n).len() implies is_digit(
            #[trigger] decimal(n)[i],
        ) by {
            if i < front.len() {
                assert(decimal(n)[i] == front[i]);
            }
        }
    }
}

/// A decimal is ASCII.
pub proof fn lemma_decimal_ascii(n: nat)
    ensures
        is_ascii(decimal(n)),
{
    lemma_decimal(n, 0);
    assert forall|i: int| 0 <= i < decimal(n).len() implies (#[trigger] decimal(n)[i] as u32)
        < 128 by {
        assert(is_digit(decimal(n)[i]));
    }
}

/// White space at the end is all that trimming the end takes away.
pub proof fn lemma_trim_end_rest(s: Seq<char>)
    ensures
        trim_end(s).len() <= s.len(),
        forall|i: int| trim_end(s).len() <= i < s.len() ==> is_space(#[trigger] s[i]),
    decreases s.len(),
{
    if s.len() > 0 && is_space(s.last()) {
        let front = s.drop_last();
        lemma_trim_end_rest(front);
        assert forall|i: int| trim_end(s).len() <= i < s.len() implies is_space(
            #[trigger] s[i],
        ) by {
            if i < front.len() {
                assert(front[i] == s[i]);
            }
        }
    }
}

/// Trimming the end keeps what does not end in white space.
pub proof fn lemma_trim_end_keeps(s: Seq<char>, needle: Seq<char>, i: int)
    requires
        occurs_at(s, needle, i),
        needle.len() > 0,
        !is_space(needle.last()),
    ensures
        occurs_at(trim_end(s), needle, i),
{
    let end = i + needle.len();
    lemma_trim_end(s);
    lemma_trim_end_rest(s);
    assert(s.subrange(i, end)[needle.len() - 1] == s[end - 1]);
    assert(trim_end(s).len() >= end);
    assert(trim_end(s).subrange(i, end) == s.subrange(i, end));
}

/// What occurs in a text occurs in every text with that in it.
pub proof fn lemma_occurs_within(
    before: Seq<char>,
    s: Seq<char>,
    after: Seq<char>,
    needle: Seq<char>,
    i: int,
)
    requires
        occurs_at(s, needle, i),
    ensures
        occurs_at(before + s + after, needle, before.len() + i),
{
    let all = before + s + after;
    let at = before.len() + i;
    assert(all.subrange(at, at + needle.len()) == s.subrange(i, i + needle.len()));
}

/// The first part stands at the start of what the parts join to.
pub proof fn lemma_join_first(parts: Seq<Seq<char>>, sep: Seq<char>)
    requires
        parts.len() > 0,
    ensures
        occurs_at(join(parts, sep), parts[0], 0),
    decreases parts.len(),
{
    if parts.len() == 1 {
        assert(parts[0].subrange(0, parts[0].len() as int) == parts[0]);
    } else {
        let front = parts.drop_last();
        lemma_join_first(front, sep);
        let all = join(parts, sep);
        assert(all.subrange(0, parts[0].len() as int) == join(front, sep).subrange(
            0,
            parts[0].len() as int,
        ));
    }
}

// ---------------------------------------------------------------------------
// Case
// ---------------------------------------------------------------------------

/// The lower-case letter of an ASCII capital, and any other character itself.
pub open spec fn lower_char(c: char) -> char {
    if 'A' <= c && c <= 'Z' {
        (c as u32 + 32) as char
    } else {
        c
    }
}

/// `s` with its ASCII capitals in lower case.
pub open spec fn ascii_lower(s: Seq<char>) -> Seq<char> {
    s.map_values(|c: char| lower_char(c))
}

/// Whether every character is an ASCII character.
pub open spec fn is_ascii(s: Seq<char>) -> bool {
    forall|i: int| 0 <= i < s.len() ==> (#[trigger] s[i] as u32) < 128
}

/// What `str::to_lowercase` makes of a text.
pub uninterp spec fn lowercase(s: Seq<char>) -> Seq<char>;

/// Calls `str::to_lowercase`, whose result depends on the text alone. Of a text
/// in ASCII it only turns the capitals into their small letters; what it makes
/// of other scripts is left to Unicode.
#[verifier::external_body]
pub(crate) fn to_lower(s: &str) -> (r: String)
    ensures
        r@ == lowercase(s@),
        is_ascii(s@) ==> r@ == ascii_lower(s@),
{
    s.to_lowercase()
}

// ---------------------------------------------------------------------------
// Laws
// ---------------------------------------------------------------------------

/// A list of texts is seen text by text: none is left out or added.
pub proof fn law_lists_are_seen_whole(v: Seq<String>, w: Seq<Vec<char>>)
    ensures
        texts(v).len() == v.len(),
        forall|i: int| 0 <= i < v.len() ==> #[trigger] texts(v)[i] == v[i]@,
        pieces(w).len() == w.len(),
        forall|i: int| 0 <= i < w.len() ==> #[trigger] pieces(w)[i] == w[i]@,
{
}

/// What cuts a text: the given character, the characters `|`, `;` and `&` of
/// the shell, or white space, which no printable ASCII character but the blank
/// is.
pub proof fn law_what_cuts_a_text(c: char, d: char)
    ensures
        Delimiter::Char(d).cuts(c) == (c == d),
        Delimiter::ShellOperator.cuts(c) == (c == '|' || c == ';' || c == '&'),
        Delimiter::Space.cuts(c) == is_space(c),
        (c as u32) < 0x80 ==> is_space(c) == (0x09 <= c as u32 <= 0x0d || c == ' '),
{
}

/// Cutting a text at a character and joining the pieces with it gives the text
/// back, and no piece holds the character: so there is a cut at each occurrence,
/// and nowhere else.
pub proof fn law_cutting_loses_nothing(s: Seq<char>, c: char)
    ensures
        ({
            let parts = split(s, Delimiter::Char(c));
            &&& parts.len() >= 1
            &&& forall|i: int| 0 <= i < parts.len() ==> free_of(#[trigger] parts[i], c)
            &&& join(parts, seq![c]) == s
        }),
{
    let d = Delimiter::Char(c);
    lemma_split_nonempty(s, d);
    lemma_split_pieces(s, d);
    lemma_join_split(s, c);
    let parts = split(s, d);
    assert forall|i: int| 0 <= i < parts.len() implies free_of(#[trigger] parts[i], c) by {
        assert(is_uncut(parts[i], d));
        assert forall|k: int| 0 <= k < parts[i].len() implies #[trigger] parts[i][k] != c by {
            assert(!d.cuts(parts[i][k]));
        }
    }
}

/// Parts are joined one after the other, with the separator between neighbours.
pub proof fn law_joining_goes_part_by_part(parts: Seq<Seq<char>>, p: Seq<char>, sep: Seq<char>)
    ensures
        join(Seq::<Seq<char>>::empty(), sep) == Seq::<char>::empty(),
        join(seq![p], sep) == p,
        parts.len() > 0 ==> join(parts.push(p), sep) == join(parts, sep) + sep + p,
{
    assert(parts.push(p).drop_last() == parts);
}

/// Trimming takes away white space and nothing else, and leaves none at the
/// ends that it trims.
pub proof fn law_trimming_takes_only_white_space(s: Seq<char>)
    ensures
        exists|a: int, b: int|
            #![trigger s.subrange(a, b)]
            0 <= a <= b <= s.len() && trim(s) == s.subrange(a, b) && is_blank(s.subrange(0, a))
                && is_blank(s.subrange(b, s.len() as int)) && (a < b ==> !is_space(s[a])
                && !is_space(s[b - 1])),
        exists|b: int|
            #![trigger s.take(b)]
            0 <= b <= s.len() && trim_end(s) == s.take(b) && is_blank(s.skip(b)) && (b > 0
                ==> !is_space(s[b - 1])),
{
    let e = trim_end(s);
    let b = e.len() as int;
    lemma_trim_end(s);
    lemma_trim_end_rest(s);
    assert(e == s.take(b));
    assert(is_blank(s.skip(b)));
    assert(b > 0 ==> e.last() == s[b - 1]);
    lemma_trim_start(e);
    let a = e.len() - trim_start(e).len();
    assert(trim(s) == s.subrange(a, b));
    assert(s.subrange(b, s.len() as int) == s.skip(b));
    assert forall|i: int| 0 <= i < a implies is_space(#[trigger] s.subrange(0, a)[i]) by {
        assert(is_space(e[i]));
    }
    if a < b {
        assert(trim_start(e)[0] == e[a]);
    }
}

proof fn lemma_trim_start(s: Seq<char>)
    ensures
        trim_start(s).len() <= s.len(),
        trim_start(s) == s.skip(s.len() - trim_start(s).len()),
        forall|i: int| 0 <= i < s.len() - trim_start(s).len() ==> is_space(#[trigger] s[i]),
        trim_start(s).len() > 0 ==> !is_space(trim_start(s)[0]),
    decreases s.len(),
{
    if s.len() > 0 && is_space(s.first()) {
        let rest = s.drop_first();
        lemma_trim_start(rest);
        let n = trim_start(s).len();
        assert(s.skip(s.len() - n) == rest.skip(rest.len() - n));
        assert forall|i: int| 0 <= i < s.len() - n implies is_space(#[trigger] s[i]) by {
            if i > 0 {
                assert(rest[i - 1] == s[i]);
            }
        }
    } else {
        assert(s.skip(0) == s);
    }
}

/// A text occurs in another exactly where a part of it is that text.
pub proof fn law_what_it_means_to_occur(s: Seq<char>, needle: Seq<char>)
    ensures
        contains(s, needle) == exists|i: int|
            0 <= i && i + needle.len() <= s.len() && #[trigger] s.subrange(i, i + needle.len())
                == needle,
        begins_with(s, needle) == (needle.len() <= s.len() && s.take(needle.len() as int)
            == needle),
{
    if contains(s, needle) {
        let i = choose|i: int| occurs_at(s, needle, i);
        assert(s.subrange(i, i + needle.len()) == needle);
    }
    if exists|i: int|
        0 <= i && i + needle.len() <= s.len() && #[trigger] s.subrange(i, i + needle.len())
            == needle {
        let i = choose|i: int|
            0 <= i && i + needle.len() <= s.len() && #[trigger] s.subrange(i, i + needle.len())
                == needle;
        assert(occurs_at(s, needle, i));
    }
    if needle.len() <= s.len() {
        assert(s.subrange(0, needle.len() as int) == s.take(needle.len() as int));
    }
}

proof fn lemma_nonempty_concat(a: Seq<Seq<char>>, b: Seq<Seq<char>>)
    ensures
        nonempty(a + b) == nonempty(a) + nonempty(b),
    decreases b.len(),
{
    if b.len() == 0 {
        assert(a + b == a);
        assert(nonempty(a) + b == nonempty(a));
    } else {
        assert((a + b).drop_last() == a + b.drop_last());
        lemma_nonempty_concat(a, b.drop_last());
        assert((nonempty(a) + nonempty(b.drop_last())).push(b.last()) == nonempty(a) + nonempty(
            b.drop_last(),
        ).push(b.last()));
    }
}

/// White space separates words and is no part of them: the words of two texts
/// with white space between them are those of both, and a text without any is
/// one word.
pub proof fn law_words_are_what_white_space_separates(a: Seq<char>, c: char, b: Seq<char>)
    requires
        is_space(c),
    ensures
        words(a.push(c) + b) == words(a) + words(b),
        is_uncut(a, Delimiter::Space) && a.len() > 0 ==> words(a) == seq![a],
        words(Seq::<char>::empty()) == Seq::<Seq<char>>::empty(),
{
    let d = Delimiter::Space;
    lemma_split_concat(a, c, b, d);
    lemma_nonempty_concat(split(a, d), split(b, d));
    reveal_with_fuel(nonempty, 2);
    if is_uncut(a, d) {
        lemma_split_uncut(a, d);
        assert(seq![a].drop_last() == Seq::<Seq<char>>::empty());
        assert(Seq::<Seq<char>>::empty().push(a) == seq![a]);
    }
    let empty = Seq::<char>::empty();
    assert(split(empty, d) == seq![empty]);
    assert(seq![empty].drop_last() == Seq::<Seq<char>>::empty());
}

/// Lines end at newlines: the first line is what stands before the first
/// newline, without one carriage return at its end, and what follows the last
/// newline is a line if it is anything.
pub proof fn law_lines_end_at_newlines(line: Seq<char>, rest: Seq<char>)
    requires
        free_of(line, '\n'),
    ensures
        lines(line.push('\n') + rest) == seq![chop_cr(line)] + lines(rest),
        lines(line) == if line.len() > 0 {
            seq![line]
        } else {
            Seq::empty()
        },
        chop_cr(line.push('\r')) == line,
        (line.len() > 0 ==> line.last() != '\r') ==> chop_cr(line) == line,
{
    let d = Delimiter::Char('\n');
    lemma_split_uncut(line, d);
    lemma_split_concat(line, '\n', rest, d);
    lemma_split_nonempty(rest, d);
    let tail = split(rest, d);
    let chop = |l: Seq<char>| chop_cr(l);
    assert((seq![line] + tail).drop_last() == seq![line] + tail.drop_last());
    assert((seq![line] + tail).last() == tail.last());
    assert((seq![line] + tail.drop_last()).map_values(chop) == seq![chop_cr(line)]
        + tail.drop_last().map_values(chop));
    assert((seq![chop_cr(line)] + tail.drop_last().map_values(chop)).push(tail.last()) == seq![
        chop_cr(line),
    ] + tail.drop_last().map_values(chop).push(tail.last()));
    assert(seq![line].drop_last() == Seq::<Seq<char>>::empty());
    assert(seq![line].drop_last().map_values(chop) == Seq::<Seq<char>>::empty());
    assert(Seq::<Seq<char>>::empty().push(line) == seq![line]);
    assert(line.push('\r').drop_last() == line);
}

/// Decimals are written digit by digit, without leading zeros, and with a minus
/// sign in front where the number is negative.
pub proof fn law_decimals_are_written_digit_by_digit(n: nat, d: nat)
    requires
        d < 10,
    ensures
        decimal(d).len() == 1,
        decimal(d)[0] as u32 == '0' as u32 + d,
        n > 0 ==> decimal(10 * n + d) == decimal(n) + decimal(d),
        signed_decimal(n as int) == decimal(n),
        n > 0 ==> signed_decimal(-(n as int)) == seq!['-'] + decimal(n),
{
    assert(((10 * n + d) / 10) as nat == n);
    assert((10 * n + d) % 10 == d);
    assert(decimal(n).push(digit(d)) == decimal(n) + seq![digit(d)]);
}

/// Every number is read back from its decimal, and digits are all that is read
/// as an unsigned number, after one plus sign or not.
pub proof fn law_numbers_are_read_back(u: u64, i: i64, s: Seq<char>)
    ensures
        parsed_u64(decimal(u as nat)) == Some(u),
        parsed_i64(signed_decimal(i as int)) == Some(i),
        parsed_u64(s) is Some ==> s.len() > 0 && all_digits(s.skip(1)) && (s[0] == '+' || is_digit(
            s[0],
        )),
{
    lemma_decimal(u as nat, 0);
    assert(is_digit(decimal(u as nat)[0]));
    assert(unsigned_part(decimal(u as nat), '+') == decimal(u as nat));
    let m = if i < 0 {
        -(i as int)
    } else {
        i as int
    };
    lemma_decimal(m as nat, 0);
    assert(is_digit(decimal(m as nat)[0]));
    if i < 0 {
        assert(signed_decimal(i as int).skip(1) == decimal(m as nat));
    } else {
        assert(unsigned_part(decimal(m as nat), '+') == decimal(m as nat));
    }
    if parsed_u64(s) is Some && s[0] != '+' {
        assert(unsigned_part(s, '+') == s);
        assert forall|k: int| 0 <= k < s.skip(1).len() implies is_digit(
            #[trigger] s.skip(1)[k],
        ) by {
            assert(is_digit(s[k + 1]));
        }
    }
}

/// Padding adds blanks at the end, as many as are missing, and nothing else.
pub proof fn law_padding_adds_blanks(s: Seq<char>, width: nat)
    ensures
        padded(s, width).len() == if s.len() < width {
            width
        } else {
            s.len()
        },
        padded(s, width).take(s.len() as int) == s,
        forall|i: int| s.len() <= i < padded(s, width).len() ==> #[trigger] padded(s, width)[i] == ' ',
    decreases width - s.len(),
{
    if s.len() < width {
        law_padding_adds_blanks(s.push(' '), width);
        let p = padded(s, width);
        let n = s.len() as int;
        assert(p.take(n + 1) == s.push(' '));
        assert(p.take(n) == p.take(n + 1).take(n));
        assert(s.push(' ').take(n) == s);
        assert(p[n] == p.take(n + 1)[n]);
    } else {
        assert(s.take(s.len() as int) == s);
    }
}

/// The bytes of a text are those of its UTF-8.
pub proof fn law_bytes_are_those_of_utf8(s: Seq<char>)
    ensures
        byte_len(s) == vstd::utf8::encode_utf8(s).len(),
{
}

/// ASCII is what lies below 128; its capitals have their small letters 32 places
/// further, and every other character is left as it is.
pub proof fn law_small_letters_of_ascii(s: Seq<char>)
    ensures
        is_ascii(s) <==> forall|i: int| 0 <= i < s.len() ==> (#[trigger] s[i] as u32) < 128,
        ascii_lower(s).len() == s.len(),
        forall|i: int|
            0 <= i < s.len() ==> {
                let u = s[i] as int;
                #[trigger] ascii_lower(s)[i] as int == if 0x41 <= u <= 0x5a {
                    u + 32
                } else {
                    u
                }
            },
{
}

/// A row of digits is worth ten times what it is without its last digit, and
/// that digit.
pub proof fn law_what_digits_are_worth(s: Seq<char>, c: char)
    requires
        0x30 <= c as u32 <= 0x39,
    ensures
        value(Seq::empty()) == 0,
        value(s.push(c)) == 10 * value(s) + (c as u32 - 0x30),
        is_digit(c),
{
    assert(s.push(c).drop_last() == s);
}

/// What is read as a number, and what it is: one or more digits, leading zeros
/// or not, after a plus sign or not, or after a minus sign where the number may be
/// negative. Nothing else is one, nor what is out of range.
pub proof fn law_what_is_read_as_a_number(s: Seq<char>)
    requires
        s.len() > 0,
        forall|i: int| 0 <= i < s.len() ==> 0x30 <= (#[trigger] s[i]) as int <= 0x39,
    ensures
        ({
            let v = value(s);
            let unsigned = if v <= 0xffff_ffff_ffff_ffff {
                Some(v as u64)
            } else {
                None
            };
            let signed = if v <= 0x7fff_ffff_ffff_ffff {
                Some(v as i64)
            } else {
                None
            };
            let negative = if v <= 0x8000_0000_0000_0000 {
                Some((-v) as i64)
            } else {
                None
            };
            &&& parsed_u64(s) == unsigned && parsed_u64(seq!['+'] + s) == unsigned
            &&& parsed_i64(s) == signed && parsed_i64(seq!['+'] + s) == signed
            &&& parsed_i64(seq!['-'] + s) == negative
            &&& parsed_u64(seq!['-'] + s) is None
        }),
{
    assert(all_digits(s));
    assert((seq!['+'] + s).skip(1) == s);
    assert((seq!['-'] + s).skip(1) == s);
    assert(unsigned_part(s, '+') == s);
    assert(unsigned_part(seq!['-'] + s, '+') == seq!['-'] + s);
    assert(!is_digit((seq!['-'] + s)[0]));
}

/// A text that holds anything but digits behind its first character, or begins
/// with anything but a digit or a sign, or has no digit, is no number.
pub proof fn law_what_is_no_number(s: Seq<char>, i: int)
    requires
        s.len() == 0 || (0 <= i < s.len() && !(0x30 <= s[i] as int <= 0x39) && (i > 0 || (s[0]
            != '+' && s[0] != '-') || s.len() == 1)),
    ensures
        parsed_u64(s) is None,
        parsed_i64(s) is None,
{
    if s.len() > 0 {
        assert(!is_digit(s[i]));
        if i > 0 {
            assert(s.skip(1)[i - 1] == s[i]);
        }
    }
}

} // verus!
