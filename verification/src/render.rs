//! Turning captures into the text that gets piped to an LLM.

use vstd::arithmetic::power2::pow2;
use vstd::prelude::*;

use crate::ansi;
use crate::ansi::cleaned;
use crate::capture::{captures, Capture, CaptureView};
use crate::cli::{at_least_one, one_or_more, Mode, Select};
use crate::json;
use crate::json::{
    array_value, entries, flag_value, no_entries, object_value, pretty_text, signed_value,
    text_value, unsigned_value,
};
use crate::text::{
    begins_with, byte_len, byte_len_of, chars_of, contains, copy_of, decimal, decimal_of,
    found_at, is_space, join, join_pieces, join_strings, occurs_at, opt_str, piece, pieces,
    signed_decimal, signed_decimal_of, split, split_at, string_of, texts, trim_end, trimmed_end,
    Delimiter,
};

verus! {

// ---------------------------------------------------------------------------
// The line axis
// ---------------------------------------------------------------------------

/// The lines of a text, as the line flags count them.
pub open spec fn rows(s: Seq<char>) -> Seq<Seq<char>> {
    split(s, Delimiter::Char('\n'))
}

/// The lines that a selection keeps: the `n`th from the end, or the last `n`,
/// or all.
pub open spec fn kept_rows(all: Seq<Seq<char>>, select: Select) -> Seq<Seq<char>> {
    match (select.line_index, select.last_lines) {
        (Some(n), _) => if at_least_one(n) <= all.len() {
            seq![all[all.len() - at_least_one(n)]]
        } else {
            Seq::empty()
        },
        (None, Some(n)) => if at_least_one(n) <= all.len() {
            all.skip(all.len() - at_least_one(n))
        } else {
            all
        },
        (None, None) => all,
    }
}

/// The text of the lines that a selection keeps.
pub open spec fn selected(s: Seq<char>, select: Select) -> Seq<char> {
    join(kept_rows(rows(s), select), "\n"@)
}

/// Applies the line axis to a block of text.
///
/// `-L n` keeps the last `n` lines; `-l n` keeps only the `n`th line from the
/// end. Both count from the end, so they are stable as output grows.
pub fn apply_line_selection(text: &str, select: &Select) -> (r: String)
    ensures
        r@ == selected(text@, *select),
{
    proof {
        reveal_strlit("\n");
        assert("\n"@ == seq!['\n']);
        crate::text::lemma_join_split(text@, '\n');
    }
    let cs = chars_of(text);
    if let Some(n) = select.line_index {
        let lines = split_at(cs.as_slice(), Delimiter::Char('\n'));
        let n: usize = one_or_more(n);
        if n <= lines.len() {
            let at: usize = lines.len() - n;
            assert(pieces(lines@)[at as int] == lines@[at as int]@);
            return string_of(lines[at].as_slice());
        }
        return String::new();
    }
    if let Some(n) = select.last_lines {
        let lines = split_at(cs.as_slice(), Delimiter::Char('\n'));
        let n: usize = one_or_more(n);
        let start: usize = if n <= lines.len() {
            lines.len() - n
        } else {
            0
        };
        let kept = vstd::slice::slice_subrange(lines.as_slice(), start, lines.len());
        assert(pieces(kept@) == kept_rows(rows(text@), *select));
        return join_pieces(kept, "\n");
    }
    copy_of(text)
}

// ---------------------------------------------------------------------------
// The byte budget
// ---------------------------------------------------------------------------

/// The bytes that lines take, each with its line end.
pub open spec fn cost(lines: Seq<Seq<char>>) -> nat
    decreases lines.len(),
{
    if lines.len() == 0 {
        0
    } else {
        cost(lines.drop_last()) + byte_len(lines.last()) + 1
    }
}

/// How many lines from the start on fit into `room` bytes.
pub open spec fn leading(lines: Seq<Seq<char>>, room: nat) -> nat
    decreases lines.len(),
{
    if lines.len() == 0 || cost(lines) <= room {
        lines.len()
    } else {
        leading(lines.drop_last(), room)
    }
}

/// How many lines up to the end fit into `room` bytes.
pub open spec fn trailing(lines: Seq<Seq<char>>, room: nat) -> nat
    decreases lines.len(),
{
    if lines.len() == 0 || cost(lines) <= room {
        lines.len()
    } else {
        trailing(lines.drop_first(), room)
    }
}

/// The bytes for lines in a budget of `max_bytes`: some are kept back for the
/// mark.
pub open spec fn line_budget(max_bytes: nat) -> nat {
    if max_bytes >= 64 {
        (max_bytes - 64) as nat
    } else {
        0
    }
}

/// The lines that stay at the start: half the budget.
pub open spec fn head_rows(lines: Seq<Seq<char>>, max_bytes: nat) -> Seq<Seq<char>> {
    lines.take(leading(lines, line_budget(max_bytes) / 2) as int)
}

/// The lines that stay at the end: what the start leaves of the budget.
pub open spec fn tail_rows(lines: Seq<Seq<char>>, max_bytes: nat) -> Seq<Seq<char>> {
    let head = head_rows(lines, max_bytes);
    let rest = lines.skip(head.len() as int);
    let room = (line_budget(max_bytes) - cost(head)) as nat;
    rest.skip(rest.len() - trailing(rest, room))
}

/// How many lines are left out between the two.
pub open spec fn omitted(lines: Seq<Seq<char>>, max_bytes: nat) -> nat {
    (lines.len() - head_rows(lines, max_bytes).len() - tail_rows(lines, max_bytes).len()) as nat
}

/// What stands in place of `n` omitted lines.
pub open spec fn omission(n: nat) -> Seq<char> {
    "\n\n[... "@ + decimal(n) + " lines omitted by tcap --max-bytes ...]\n\n"@
}

/// `s` with its middle left out if it takes more than `max_bytes` bytes.
pub open spec fn truncated(s: Seq<char>, max_bytes: nat) -> Seq<char> {
    let lines = rows(s);
    if max_bytes == 0 || byte_len(s) <= max_bytes || omitted(lines, max_bytes) == 0 {
        s
    } else {
        join(head_rows(lines, max_bytes), "\n"@) + omission(omitted(lines, max_bytes)) + join(
            tail_rows(lines, max_bytes),
            "\n"@,
        )
    }
}

proof fn lemma_cost_concat(a: Seq<Seq<char>>, b: Seq<Seq<char>>)
    ensures
        cost(a + b) == cost(a) + cost(b),
    decreases b.len(),
{
    if b.len() == 0 {
        assert(a + b == a);
    } else {
        assert((a + b).drop_last() == a + b.drop_last());
        lemma_cost_concat(a, b.drop_last());
    }
}

/// The longest beginning that fits is known by the next line not fitting.
proof fn lemma_leading_is(lines: Seq<Seq<char>>, room: nat, n: int)
    requires
        0 <= n <= lines.len(),
        cost(lines.take(n)) <= room,
        n < lines.len() ==> cost(lines.take(n + 1)) > room,
    ensures
        leading(lines, room) == n,
    decreases lines.len(),
{
    if n == lines.len() {
        assert(lines.take(n) == lines);
    } else {
        assert(lines == lines.take(n + 1) + lines.skip(n + 1));
        lemma_cost_concat(lines.take(n + 1), lines.skip(n + 1));
        let front = lines.drop_last();
        assert(front.take(n) == lines.take(n));
        if n < front.len() {
            assert(front.take(n + 1) == lines.take(n + 1));
        }
        lemma_leading_is(front, room, n);
    }
}

/// The longest ending that fits is known by the line before it not fitting.
proof fn lemma_trailing_is(lines: Seq<Seq<char>>, room: nat, n: int)
    requires
        0 <= n <= lines.len(),
        cost(lines.skip(lines.len() - n)) <= room,
        n < lines.len() ==> cost(lines.skip(lines.len() - n - 1)) > room,
    ensures
        trailing(lines, room) == n,
    decreases lines.len(),
{
    if n == lines.len() {
        assert(lines.skip(0) == lines);
    } else {
        let cut = lines.len() - n - 1;
        assert(lines == lines.take(cut) + lines.skip(cut));
        lemma_cost_concat(lines.take(cut), lines.skip(cut));
        let back = lines.drop_first();
        assert(back.skip(back.len() - n) == lines.skip(lines.len() - n));
        if n < back.len() {
            assert(back.skip(back.len() - n - 1) == lines.skip(cut));
        }
        lemma_trailing_is(back, room, n);
    }
}

/// Elides the middle of `text` so that it fits roughly `max_bytes`.
///
/// Both ends carry signal, the command's opening lines and the error it died
/// on, so both are kept and the middle is cut. A silent truncation would be
/// worse than a visible one, hence the explicit mark. `max_bytes == 0`
/// disables.
pub fn truncate_middle(text: &str, max_bytes: usize) -> (r: String)
    ensures
        r@ == truncated(text@, max_bytes as nat),
{
    if max_bytes == 0 || byte_len_of(text) <= max_bytes {
        return copy_of(text);
    }
    let cs = chars_of(text);
    let lines = split_at(cs.as_slice(), Delimiter::Char('\n'));
    let total: usize = lines.len();
    let ghost all = pieces(lines@);
    assert(all == rows(text@));
    let budget: usize = if max_bytes >= 64 {
        max_bytes - 64
    } else {
        0
    };
    let half: usize = budget / 2;
    let mut head: usize = 0;
    let mut used: usize = 0;
    assert(all.take(0) == Seq::<Seq<char>>::empty());
    while head < total
        invariant_except_break
            head <= total,
        invariant
            total == lines@.len(),
            all == pieces(lines@),
            head <= total,
            used <= half,
            used == cost(all.take(head as int)),
        ensures
            head < total ==> cost(all.take(head + 1)) > half,
        decreases total - head,
    {
        let len: usize = byte_len_of(string_of(lines[head].as_slice()).as_str());
        assert(all.take(head + 1).drop_last() == all.take(head as int));
        assert(all.take(head + 1).last() == lines@[head as int]@);
        if len >= half - used {
            break;
        }
        used = used + len + 1;
        head = head + 1;
    }
    proof {
        lemma_leading_is(all, half as nat, head as int);
    }
    let ghost rest = all.skip(head as int);
    let room: usize = budget - used;
    let mut tail: usize = 0;
    let mut used_tail: usize = 0;
    assert(rest.skip(rest.len() as int) == Seq::<Seq<char>>::empty());
    while tail < total - head
        invariant
            total == lines@.len(),
            all == pieces(lines@),
            head <= total,
            rest == all.skip(head as int),
            tail <= total - head,
            used_tail <= room,
            used_tail == cost(rest.skip(rest.len() - tail)),
        ensures
            tail < rest.len() ==> cost(rest.skip(rest.len() - tail - 1)) > room,
        decreases total - head - tail,
    {
        let at: usize = total - tail - 1;
        let len: usize = byte_len_of(string_of(lines[at].as_slice()).as_str());
        proof {
            let line = lines@[at as int]@;
            let kept = rest.skip(rest.len() - tail);
            assert(rest.skip(rest.len() - tail - 1) == seq![line] + kept);
            lemma_cost_concat(seq![line], kept);
            assert(seq![line].drop_last() == Seq::<Seq<char>>::empty());
            assert(cost(Seq::<Seq<char>>::empty()) == 0);
            assert(cost(seq![line]) == byte_len(line) + 1);
        }
        if len >= room - used_tail {
            break;
        }
        used_tail = used_tail + len + 1;
        tail = tail + 1;
    }
    proof {
        lemma_trailing_is(rest, room as nat, tail as int);
    }
    let left_out: usize = total - head - tail;
    assert(head_rows(all, max_bytes as nat) == all.take(head as int));
    assert(tail_rows(all, max_bytes as nat) == rest.skip(rest.len() - tail));
    if left_out == 0 {
        return copy_of(text);
    }
    let first = vstd::slice::slice_subrange(lines.as_slice(), 0, head);
    let last = vstd::slice::slice_subrange(lines.as_slice(), total - tail, total);
    assert(pieces(first@) == all.take(head as int));
    assert(pieces(last@) == rest.skip(rest.len() - tail));
    let mut mark = copy_of("\n\n[... ");
    mark.append(decimal_of(left_out as u64).as_str());
    mark.append(" lines omitted by tcap --max-bytes ...]\n\n");
    let mut out = join_pieces(first, "\n");
    out.append(mark.as_str());
    out.append(join_pieces(last, "\n").as_str());
    out
}

// ---------------------------------------------------------------------------
// The header
// ---------------------------------------------------------------------------

/// `path` with the home directory written as `~`.
pub open spec fn shortened(path: Seq<char>, home: Option<Seq<char>>) -> Seq<char> {
    match home {
        Some(h) if h.len() > 0 && begins_with(path, h) => "~"@ + path.skip(h.len() as int),
        _ => path,
    }
}

/// `path` with the home directory, if it begins with that, written as `~`.
pub fn shorten_home(path: &str, home: Option<&str>) -> (r: String)
    ensures
        r@ == shortened(path@, opt_str(home)),
{
    if let Some(home) = home {
        let h = chars_of(home);
        let p = chars_of(path);
        if h.len() > 0 && found_at(p.as_slice(), h.as_slice(), 0) {
            let mut s = copy_of("~");
            let rest = piece(p.as_slice(), h.len(), p.len());
            assert(rest@ == path@.skip(h@.len() as int));
            s.append(string_of(rest.as_slice()).as_str());
            return s;
        }
    }
    copy_of(path)
}

/// `n / d` to the nearest integer, and halves to the even one.
pub open spec fn nearest(n: nat, d: nat) -> nat {
    if 2 * (n % d) < d {
        n / d
    } else if 2 * (n % d) > d {
        n / d + 1
    } else {
        n / d + (n / d) % 2
    }
}

/// How many binary places behind the point a number of seconds below 64 has,
/// with 53 significant bits.
pub open spec fn places(ms: nat) -> nat {
    if ms < 2000 {
        52
    } else if ms < 4000 {
        51
    } else if ms < 8000 {
        50
    } else if ms < 16000 {
        49
    } else if ms < 32000 {
        48
    } else {
        47
    }
}

/// `ms` thousandths of a second as a binary fraction with 53 significant bits:
/// how many of the fraction's last place it takes.
pub open spec fn fraction(ms: nat) -> nat {
    nearest(ms * pow2(places(ms)), 1000)
}

/// Tenths of a second: the binary fraction of `ms` thousandths of a second, to
/// the nearest tenth.
pub open spec fn tenths(ms: nat) -> nat {
    nearest(10 * fraction(ms), pow2(places(ms)))
}

/// A duration for people: milliseconds below a second, seconds with one
/// decimal below a minute, minutes and seconds from there on.
pub open spec fn duration_text(ms: nat) -> Seq<char> {
    if ms < 1000 {
        decimal(ms) + "ms"@
    } else if ms < 60_000 {
        decimal(tenths(ms) / 10) + "."@ + decimal(tenths(ms) % 10) + "s"@
    } else {
        decimal(ms / 60_000) + "m "@ + decimal((ms % 60_000) / 1000) + "s"@
    }
}

/// An integer and a remainder below a half is nearest to that integer.
proof fn lemma_nearest(n: nat, d: nat, q: nat, over: int)
    requires
        d > 0,
        n == q * d + over,
        -d < 2 * over <= d,
    ensures
        2 * over < d ==> nearest(n, d) == q,
        2 * over == d ==> nearest(n, d) == q + q % 2,
{
    if over >= 0 {
        vstd::arithmetic::div_mod::lemma_fundamental_div_mod_converse(
            n as int,
            d as int,
            q as int,
            over,
        );
    } else {
        assert(q > 0) by (nonlinear_arith)
            requires
                n == q * d + over,
                over < 0,
                n >= 0,
                q >= 0,
        ;
        assert(n == (q - 1) * d + (d + over)) by (nonlinear_arith)
            requires
                n == q * d + over,
        ;
        vstd::arithmetic::div_mod::lemma_fundamental_div_mod_converse(
            n as int,
            d as int,
            q - 1,
            d + over,
        );
    }
}

/// Half a tenth goes to the side that the binary fraction lies on, and to the
/// even tenth where the binary fraction is exact; that side is told by what the
/// fraction loses or gains, the remainder of `ms * p` by 1000.
proof fn lemma_tenths(ms: nat, p: nat)
    requires
        p >= 1000,
        p % 8 == 0,
    ensures
        ({
            let below = ms / 100;
            let rest = ms % 100;
            let lost = (ms * p) % 1000;
            nearest(10 * nearest(ms * p, 1000), p) == if rest < 50 {
                below
            } else if rest > 50 {
                below + 1
            } else if lost == 0 {
                below + below % 2
            } else if lost < 500 {
                below
            } else {
                below + 1
            }
        }),
{
    let below = ms / 100;
    let rest = ms % 100;
    let x = ms * p;
    let f = nearest(x, 1000);
    let e = 1000 * f - x;
    // Eight divides `x`, so nothing is lost or gained by exactly a half.
    assert(x % 8 == 0) by {
        vstd::arithmetic::div_mod::lemma_mul_mod_noop_right(ms as int, p as int, 8);
    }
    assert(x % 1000 != 500);
    assert(-500 < e < 500);
    assert(x == 100 * (below * p) + rest * p) by (nonlinear_arith)
        requires
            x == ms * p,
            ms == 100 * below + rest,
    ;
    let bp = below * p;
    let rp = rest * p;
    let over = 10 * f - bp;
    assert(100 * over == rp + e);
    assert(rp >= 0) by (nonlinear_arith)
        requires
            rp == rest * p,
            rest >= 0,
            p >= 0,
    ;
    if rest < 50 {
        assert(rp <= 49 * p) by (nonlinear_arith)
            requires
                rp == rest * p,
                rest <= 49,
        ;
        lemma_nearest(10 * f, p, below, over);
    } else if rest > 50 {
        assert(51 * p <= rp <= 99 * p) by (nonlinear_arith)
            requires
                rp == rest * p,
                51 <= rest <= 99,
        ;
        assert((below + 1) * p == bp + p) by (nonlinear_arith)
            requires
                bp == below * p,
        ;
        lemma_nearest(10 * f, p, below + 1, over - p);
    } else {
        assert(rp == 50 * p);
        if e <= 0 {
            lemma_nearest(10 * f, p, below, over);
        } else {
            assert((below + 1) * p == bp + p) by (nonlinear_arith)
                requires
                    bp == below * p,
            ;
            lemma_nearest(10 * f, p, below + 1, over - p);
        }
    }
}

/// Two to the power of the places, but for the thousands.
proof fn lemma_power(ms: nat)
    ensures
        pow2(places(ms)) >= 1000,
        pow2(places(ms)) % 8 == 0,
        pow2(places(ms)) % 1000 == if ms < 2000 {
            496
        } else if ms < 4000 {
            248
        } else if ms < 8000 {
            624
        } else if ms < 16000 {
            312
        } else if ms < 32000 {
            656
        } else {
            328nat
        },
{
    vstd::arithmetic::power2::lemma2_to64_rest();
}

/// Tenths of a second in `ms` milliseconds, below a minute.
#[verifier::spinoff_prover]
fn tenths_of(ms: u64) -> (r: u64)
    requires
        ms < 60_000,
    ensures
        r == tenths(ms as nat),
{
    let below: u64 = ms / 100;
    let rest: u64 = ms % 100;
    // Two to the power of the places, but for the thousands: only the remainder
    // by 1000 matters.
    let power: u64 = if ms < 2000 {
        496
    } else if ms < 4000 {
        248
    } else if ms < 8000 {
        624
    } else if ms < 16000 {
        312
    } else if ms < 32000 {
        656
    } else {
        328
    };
    assert(ms * power <= 60_000 * 656) by (nonlinear_arith)
        requires
            ms < 60_000,
            power <= 656,
    ;
    let lost: u64 = (ms * power) % 1000;
    proof {
        let p = pow2(places(ms as nat));
        lemma_power(ms as nat);
        assert(power == p % 1000);
        vstd::arithmetic::div_mod::lemma_mul_mod_noop_right(ms as int, p as int, 1000);
        lemma_tenths(ms as nat, p);
    }
    if rest < 50 {
        below
    } else if rest > 50 {
        below + 1
    } else if lost == 0 {
        below + below % 2
    } else if lost < 500 {
        below
    } else {
        below + 1
    }
}

/// A duration for people.
pub fn format_duration(ms: u64) -> (r: String)
    ensures
        r@ == duration_text(ms as nat),
{
    if ms < 1000 {
        let mut s = decimal_of(ms);
        s.append("ms");
        s
    } else if ms < 60_000 {
        let t: u64 = tenths_of(ms);
        let mut s = decimal_of(t / 10);
        s.append(".");
        s.append(decimal_of(t % 10).as_str());
        s.append("s");
        s
    } else {
        let mut s = decimal_of(ms / 60_000);
        s.append("m ");
        s.append(decimal_of((ms % 60_000) / 1000).as_str());
        s.append("s");
        s
    }
}

/// The facts of the second header line.
pub open spec fn meta_parts(cap: CaptureView, home: Option<Seq<char>>) -> Seq<Seq<char>> {
    let a = match cap.exit_code {
        Some(code) => seq!["exit: "@ + signed_decimal(code as int)],
        None => Seq::empty(),
    };
    let b = match cap.cwd {
        Some(cwd) => a.push("cwd: "@ + shortened(cwd, home)),
        None => a,
    };
    match cap.duration_ms {
        Some(ms) => b.push("took: "@ + duration_text(ms as nat)),
        None => b,
    }
}

/// The annotation above the output: the command, then what is known of its
/// run, then whether the output may be another command's.
pub open spec fn header_text(cap: CaptureView, home: Option<Seq<char>>) -> Seq<char> {
    let a = match cap.command {
        Some(cmd) => "$ "@ + cmd + "\n"@,
        None => Seq::empty(),
    };
    let parts = meta_parts(cap, home);
    let b = if parts.len() > 0 {
        a + ("# "@ + join(parts, "  "@) + "\n"@)
    } else {
        a
    };
    if cap.approximate {
        b + ("# note: "@ + cap.source
            + " returns the last non-empty output, which may not be this command's\n"@)
    } else {
        b
    }
}

/// The annotation block above the output.
///
/// The exit code is the highest-signal item for an LLM diagnosing a failure,
/// so it is shown whenever known, 0 included.
pub fn header(cap: &Capture, home: Option<&str>) -> (r: String)
    ensures
        r@ == header_text(cap@, opt_str(home)),
{
    let mut s = String::new();
    if let Some(cmd) = &cap.command {
        s = copy_of("$ ");
        s.append(cmd.as_str());
        s.append("\n");
    }
    let mut meta: Vec<String> = Vec::new();
    assert(texts(meta@) == Seq::<Seq<char>>::empty());
    if let Some(code) = cap.exit_code {
        let mut m = copy_of("exit: ");
        m.append(signed_decimal_of(code as i64).as_str());
        meta.push(m);
        assert(texts(meta@) == seq![m@]);
    }
    if let Some(cwd) = &cap.cwd {
        let mut m = copy_of("cwd: ");
        m.append(shorten_home(cwd.as_str(), home).as_str());
        let ghost before = meta@;
        meta.push(m);
        assert(texts(meta@) == texts(before).push(m@));
    }
    if let Some(ms) = cap.duration_ms {
        let mut m = copy_of("took: ");
        m.append(format_duration(ms).as_str());
        let ghost before = meta@;
        meta.push(m);
        assert(texts(meta@) == texts(before).push(m@));
    }
    assert(texts(meta@) == meta_parts(cap@, opt_str(home)));
    if meta.len() > 0 {
        let mut line = copy_of("# ");
        line.append(join_strings(meta.as_slice(), "  ").as_str());
        line.append("\n");
        s.append(line.as_str());
    }
    if cap.approximate {
        let mut note = copy_of("# note: ");
        note.append(cap.source.as_str());
        note.append(" returns the last non-empty output, which may not be this command's\n");
        s.append(note.as_str());
    }
    s
}

/// One capture as text, in a mode other than JSON.
pub open spec fn block_text(cap: CaptureView, mode: Mode, home: Option<Seq<char>>) -> Seq<char> {
    match mode {
        Mode::Command => match cap.command {
            Some(c) => c,
            None => Seq::empty(),
        },
        Mode::Annotated => if !cap.described() && !cap.approximate {
            cap.output
        } else if cap.output.len() == 0 {
            trim_end(header_text(cap, home))
        } else {
            header_text(cap, home) + "\n"@ + cap.output
        },
        _ => cap.output,
    }
}

/// Renders one already line-selected, already truncated capture.
pub fn render_one(cap: &Capture, mode: Mode, home: Option<&str>) -> (r: String)
    requires
        mode != Mode::Json,
    ensures
        r@ == block_text(cap@, mode, opt_str(home)),
{
    match mode {
        Mode::Command => match &cap.command {
            Some(c) => copy_of(c.as_str()),
            None => String::new(),
        },
        Mode::Annotated => {
            // `approximate` counts as something worth saying, even with no
            // command or exit code to show: that is precisely where an
            // unlabelled body is most likely to be the wrong one.
            if !cap.has_metadata() && !cap.approximate {
                return copy_of(cap.output.as_str());
            }
            let mut h = header(cap, home);
            if cap.output.as_str().is_empty() {
                let cs = chars_of(h.as_str());
                string_of(trimmed_end(cs.as_slice()).as_slice())
            } else {
                h.append("\n");
                h.append(cap.output.as_str());
                h
            }
        },
        _ => copy_of(cap.output.as_str()),
    }
}

// ---------------------------------------------------------------------------
// The whole set
// ---------------------------------------------------------------------------

/// The output of a capture, ready to be rendered.
pub open spec fn prepared(
    output: Seq<char>,
    mode: Mode,
    select: Select,
    max_bytes: nat,
) -> Seq<char> {
    let clean = if mode == Mode::Raw {
        output
    } else {
        cleaned(output)
    };
    truncated(selected(clean, select), max_bytes)
}

/// Prepares captures for output: clean or preserve ANSI, apply the line axis,
/// then truncate.
pub fn prepare(caps: &mut [Capture], mode: Mode, select: &Select, max_bytes: usize)
    ensures
        final(caps)@.len() == old(caps)@.len(),
        forall|i: int|
            0 <= i < old(caps)@.len() ==> (#[trigger] final(caps)@[i])@ == old(
                caps,
            )@[i]@.with_output(prepared(old(caps)@[i]@.output, mode, *select, max_bytes as nat)),
{
    let ghost before = caps@;
    let mut i: usize = 0;
    while i < caps.len()
        invariant
            i <= caps@.len(),
            caps@.len() == before.len(),
            forall|j: int| i <= j < before.len() ==> caps@[j] == #[trigger] before[j],
            forall|j: int|
                0 <= j < i ==> (#[trigger] caps@[j])@ == before[j]@.with_output(
                    prepared(before[j]@.output, mode, *select, max_bytes as nat),
                ),
        decreases caps@.len() - i,
    {
        let clean = if mode == Mode::Raw {
            copy_of(caps[i].output.as_str())
        } else {
            ansi::clean(caps[i].output.as_str())
        };
        let chosen = apply_line_selection(clean.as_str(), select);
        assert(caps@[i as int] == before[i as int]);
        caps[i].output = truncate_middle(chosen.as_str(), max_bytes);
        i = i + 1;
    }
}

/// The JSON entries of a capture: what is known, under its name.
pub open spec fn json_entries(cap: CaptureView) -> Map<Seq<char>, serde_json::Value> {
    let a = match cap.command {
        Some(c) => no_entries().insert("command"@, text_value(c)),
        None => no_entries(),
    };
    let b = match cap.exit_code {
        Some(code) => a.insert("exit_code"@, signed_value(code)),
        None => a,
    };
    let c = match cap.cwd {
        Some(cwd) => b.insert("cwd"@, text_value(cwd)),
        None => b,
    };
    let d = match cap.duration_ms {
        Some(ms) => c.insert("duration_ms"@, unsigned_value(ms)),
        None => c,
    };
    let e = d.insert("output"@, text_value(cap.output)).insert("source"@, text_value(cap.source));
    if cap.approximate {
        e.insert("approximate"@, flag_value(true))
    } else {
        e
    }
}

/// A capture as a JSON object.
pub open spec fn json_value(cap: CaptureView) -> serde_json::Value {
    object_value(json_entries(cap))
}

/// Captures as JSON: one is an object, any other number is an array.
pub open spec fn json_values(caps: Seq<CaptureView>) -> serde_json::Value {
    if caps.len() == 1 {
        json_value(caps[0])
    } else {
        array_value(caps.map_values(|c: CaptureView| json_value(c)))
    }
}

/// The text of a printed value, or of an object that says why it could not be
/// printed.
pub open spec fn printed(text: Result<Seq<char>, Seq<char>>) -> Seq<char> {
    match text {
        Ok(t) => t,
        Err(e) => "{\"error\": \""@ + e + "\"}"@,
    }
}

/// Captures as text, in the given mode.
pub open spec fn rendered(
    caps: Seq<CaptureView>,
    mode: Mode,
    home: Option<Seq<char>>,
) -> Seq<char> {
    if mode == Mode::Json {
        printed(pretty_text(json_values(caps)))
    } else {
        join(caps.map_values(|c: CaptureView| block_text(c, mode, home)), "\n\n"@)
    }
}

/// A capture as a JSON object.
pub fn to_json(cap: &Capture) -> (r: serde_json::Value)
    ensures
        r == json_value(cap@),
{
    let mut m = json::object();
    if let Some(c) = &cap.command {
        json::put(&mut m, "command", json::text(c.as_str()));
    }
    if let Some(code) = cap.exit_code {
        json::put(&mut m, "exit_code", json::signed(code));
    }
    if let Some(cwd) = &cap.cwd {
        json::put(&mut m, "cwd", json::text(cwd.as_str()));
    }
    if let Some(ms) = cap.duration_ms {
        json::put(&mut m, "duration_ms", json::unsigned(ms));
    }
    json::put(&mut m, "output", json::text(cap.output.as_str()));
    json::put(&mut m, "source", json::text(cap.source.as_str()));
    if cap.approximate {
        json::put(&mut m, "approximate", json::flag(true));
    }
    json::object_of(m)
}

/// The text to show for a value that was printed, or could not be.
pub fn printed_or_error(text: Result<String, String>) -> (r: String)
    ensures
        r@ == printed(
            match text {
                Ok(t) => Ok(t@),
                Err(e) => Err(e@),
            },
        ),
{
    match text {
        Ok(t) => t,
        Err(e) => {
            let mut s = copy_of("{\"error\": \"");
            s.append(e.as_str());
            s.append("\"}");
            s
        },
    }
}

/// Renders the full set. Multiple blocks are separated by a blank line and
/// read oldest-first, matching the order they were run. `home` is the user's
/// home directory.
pub fn render(caps: &[Capture], mode: Mode, home: Option<&str>) -> (r: String)
    ensures
        r@ == rendered(captures(caps@), mode, opt_str(home)),
{
    let ghost views = captures(caps@);
    if mode == Mode::Json {
        let value = if caps.len() == 1 {
            to_json(&caps[0])
        } else {
            let mut vs: Vec<serde_json::Value> = Vec::new();
            let mut i: usize = 0;
            let ghost want = views.map_values(|c: CaptureView| json_value(c));
            while i < caps.len()
                invariant
                    i <= caps@.len(),
                    views == captures(caps@),
                    want == views.map_values(|c: CaptureView| json_value(c)),
                    vs@ == want.take(i as int),
                decreases caps@.len() - i,
            {
                vs.push(to_json(&caps[i]));
                i = i + 1;
                assert(want.take(i as int) == want.take(i - 1).push(want[i - 1]));
            }
            assert(want.take(want.len() as int) == want);
            json::array_of(vs)
        };
        return printed_or_error(json::pretty(&value));
    }
    let mut blocks: Vec<String> = Vec::new();
    let mut i: usize = 0;
    let ghost want = views.map_values(|c: CaptureView| block_text(c, mode, opt_str(home)));
    while i < caps.len()
        invariant
            i <= caps@.len(),
            mode != Mode::Json,
            views == captures(caps@),
            want == views.map_values(|c: CaptureView| block_text(c, mode, opt_str(home))),
            texts(blocks@) == want.take(i as int),
        decreases caps@.len() - i,
    {
        let b = render_one(&caps[i], mode, home);
        let ghost before = blocks@;
        blocks.push(b);
        assert(texts(blocks@) == texts(before).push(b@));
        i = i + 1;
        assert(want.take(i as int) == want.take(i - 1).push(want[i - 1]));
    }
    assert(want.take(want.len() as int) == want);
    join_strings(blocks.as_slice(), "\n\n")
}

// ---------------------------------------------------------------------------
// Laws
// ---------------------------------------------------------------------------

/// Both line flags count from the end: lines that come before those counted
/// change nothing, so a selection is stable as output grows.
pub proof fn law_line_flags_count_from_the_end(
    more: Seq<Seq<char>>,
    all: Seq<Seq<char>>,
    select: Select,
)
    requires
        match (select.line_index, select.last_lines) {
            (Some(n), _) => at_least_one(n) <= all.len(),
            (None, Some(n)) => at_least_one(n) <= all.len(),
            (None, None) => false,
        },
    ensures
        kept_rows(more + all, select) == kept_rows(all, select),
{
}

/// The `n`th line from the end is the first of the last `n` lines, and nothing
/// where there are not so many.
pub proof fn law_an_index_is_the_first_of_a_count(all: Seq<Seq<char>>, n: usize)
    requires
        n >= 1,
    ensures
        ({
            let index = Select {
                cmd_index: None,
                commands: None,
                line_index: Some(n),
                last_lines: None,
            };
            let count = Select {
                cmd_index: None,
                commands: None,
                line_index: None,
                last_lines: Some(n),
            };
            &&& n <= all.len() ==> kept_rows(all, index) == kept_rows(all, count).take(1)
            &&& n <= all.len() ==> kept_rows(all, count).len() == n
            &&& n > all.len() ==> kept_rows(all, index).len() == 0
            &&& n > all.len() ==> kept_rows(all, count) == all
            &&& n == 1 && all.len() > 0 ==> kept_rows(all, index) == kept_rows(all, count)
        }),
{
}

/// Without line flags, and with a count that is not exceeded, text passes
/// through.
pub proof fn law_a_selection_of_everything_is_the_text(s: Seq<char>, select: Select)
    requires
        select.line_index is None,
        select.last_lines matches Some(n) ==> rows(s).len() <= n,
    ensures
        selected(s, select) == s,
{
    reveal_strlit("\n");
    assert("\n"@ == seq!['\n']);
    crate::text::lemma_join_split(s, '\n');
    assert(kept_rows(rows(s), select) == rows(s));
}

/// Taking the last lines of the last lines changes nothing.
pub proof fn law_a_count_of_lines_is_idempotent(s: Seq<char>, select: Select)
    requires
        select.line_index is None,
    ensures
        selected(selected(s, select), select) == selected(s, select),
{
    let d = Delimiter::Char('\n');
    let all = rows(s);
    let kept = kept_rows(all, select);
    reveal_strlit("\n");
    assert("\n"@ == seq!['\n']);
    crate::text::lemma_split_nonempty(s, d);
    crate::text::lemma_split_pieces(s, d);
    assert forall|i: int| 0 <= i < kept.len() implies crate::text::free_of(
        #[trigger] kept[i],
        '\n',
    ) by {
        let at = all.len() - kept.len() + i;
        assert(kept[i] == all[at]);
        assert forall|k: int| 0 <= k < kept[i].len() implies #[trigger] kept[i][k] != '\n' by {
            assert(!d.cuts(all[at][k]));
        }
    }
    assert(kept.len() > 0);
    crate::text::lemma_split_join(kept, '\n');
    assert(kept_rows(kept, select) == kept);
}

/// Lines that fit do fit.
proof fn lemma_leading_fits(lines: Seq<Seq<char>>, room: nat)
    ensures
        leading(lines, room) <= lines.len(),
        cost(lines.take(leading(lines, room) as int)) <= room,
    decreases lines.len(),
{
    if lines.len() == 0 || cost(lines) <= room {
        assert(lines.take(lines.len() as int) == lines);
    } else {
        lemma_leading_fits(lines.drop_last(), room);
        let n = leading(lines, room) as int;
        assert(lines.take(n) == lines.drop_last().take(n));
    }
}

/// Lines that fit do fit.
proof fn lemma_trailing_fits(lines: Seq<Seq<char>>, room: nat)
    ensures
        trailing(lines, room) <= lines.len(),
        cost(lines.skip(lines.len() - trailing(lines, room))) <= room,
    decreases lines.len(),
{
    if lines.len() == 0 || cost(lines) <= room {
        assert(lines.skip(0) == lines);
    } else {
        let rest = lines.drop_first();
        lemma_trailing_fits(rest, room);
        let n = trailing(lines, room);
        assert(lines.skip(lines.len() - n) == rest.skip(rest.len() - n));
    }
}

/// Lines cost one byte more than the text they join to.
proof fn lemma_cost_is_bytes(lines: Seq<Seq<char>>)
    ensures
        lines.len() > 0 ==> cost(lines) == byte_len(join(lines, "\n"@)) + 1,
        lines.len() == 0 ==> byte_len(join(lines, "\n"@)) == 0,
        byte_len(join(lines, "\n"@)) <= cost(lines),
    decreases lines.len(),
{
    reveal_strlit("\n");
    assert("\n"@ == seq!['\n']);
    crate::text::lemma_byte_len_ascii("\n"@);
    if lines.len() == 1 {
        assert(lines.drop_last() == Seq::<Seq<char>>::empty());
        assert(cost(lines.drop_last()) == 0);
    } else if lines.len() > 1 {
        let front = join(lines.drop_last(), "\n"@);
        lemma_cost_is_bytes(lines.drop_last());
        crate::text::lemma_byte_len_concat(front, "\n"@);
        crate::text::lemma_byte_len_concat(front + "\n"@, lines.last());
    }
}

/// What is kept of lines costs no more than the budget.
proof fn lemma_kept_fits(lines: Seq<Seq<char>>, max_bytes: nat)
    ensures
        cost(head_rows(lines, max_bytes)) + cost(tail_rows(lines, max_bytes)) <= line_budget(
            max_bytes,
        ),
        head_rows(lines, max_bytes).len() + tail_rows(lines, max_bytes).len() <= lines.len(),
        head_rows(lines, max_bytes) == lines.take(head_rows(lines, max_bytes).len() as int),
        tail_rows(lines, max_bytes) == lines.skip(
            lines.len() - tail_rows(lines, max_bytes).len(),
        ),
{
    let half = line_budget(max_bytes) / 2;
    lemma_leading_fits(lines, half);
    let head = head_rows(lines, max_bytes);
    let rest = lines.skip(head.len() as int);
    let room = (line_budget(max_bytes) - cost(head)) as nat;
    lemma_trailing_fits(rest, room);
    let tail = tail_rows(lines, max_bytes);
    assert(tail == lines.skip(lines.len() - tail.len()));
}

/// Text that exceeds the budget is always cut, and the cut is visible: whole
/// lines from the start, the mark with the number of lines that are missing,
/// at least one, and whole lines up to the end.
pub proof fn law_a_cut_is_marked(s: Seq<char>, max_bytes: nat)
    requires
        0 < max_bytes < byte_len(s),
    ensures
        omitted(rows(s), max_bytes) >= 1,
        exists|h: nat, t: nat|
            #![trigger rows(s).take(h as int), rows(s).skip(rows(s).len() - t)]
            h + t + omitted(rows(s), max_bytes) == rows(s).len() && truncated(s, max_bytes)
                == join(rows(s).take(h as int), "\n"@) + omission(omitted(rows(s), max_bytes))
                + join(rows(s).skip(rows(s).len() - t), "\n"@),
{
    let lines = rows(s);
    let head = head_rows(lines, max_bytes);
    let tail = tail_rows(lines, max_bytes);
    reveal_strlit("\n");
    assert("\n"@ == seq!['\n']);
    crate::text::lemma_split_nonempty(s, Delimiter::Char('\n'));
    crate::text::lemma_join_split(s, '\n');
    lemma_cost_is_bytes(lines);
    lemma_kept_fits(lines, max_bytes);
    if omitted(lines, max_bytes) == 0 {
        assert(lines == head + tail);
        lemma_cost_concat(head, tail);
        assert(false);
    }
    let h = head.len();
    let t = tail.len();
    assert(head == lines.take(h as int));
    assert(tail == lines.skip(lines.len() - t));
}

/// Text within the budget, and all text without one, stays as it is.
pub proof fn law_no_cut_where_it_fits(s: Seq<char>, max_bytes: nat)
    requires
        max_bytes == 0 || byte_len(s) <= max_bytes,
    ensures
        truncated(s, max_bytes) == s,
{
}

/// The bytes of the mark.
proof fn lemma_omission_len(n: nat)
    requires
        n < 10_000_000_000_000_000,
    ensures
        byte_len(omission(n)) <= 64,
{
    reveal_with_fuel(crate::text::ten_to, 17);
    crate::text::lemma_decimal(n, 16);
    crate::text::lemma_decimal_ascii(n);
    crate::text::lemma_byte_len_ascii(decimal(n));
    let a = "\n\n[... "@;
    let b = " lines omitted by tcap --max-bytes ...]\n\n"@;
    reveal_strlit("\n\n[... ");
    reveal_strlit(" lines omitted by tcap --max-bytes ...]\n\n");
    crate::text::lemma_byte_len_ascii(a);
    crate::text::lemma_byte_len_ascii(b);
    crate::text::lemma_byte_len_concat(a, decimal(n));
    crate::text::lemma_byte_len_concat(a + decimal(n), b);
}

/// A budget is kept, but for one too small for the mark: a cut text then takes
/// no more than the room for the mark.
pub proof fn law_a_cut_text_fits(s: Seq<char>, max_bytes: nat)
    requires
        max_bytes > 0,
        omitted(rows(s), max_bytes) < 10_000_000_000_000_000,
    ensures
        byte_len(truncated(s, max_bytes)) <= if max_bytes >= 64 {
            max_bytes
        } else {
            64
        },
{
    if byte_len(s) > max_bytes {
        law_a_cut_is_marked(s, max_bytes);
        let lines = rows(s);
        let head = head_rows(lines, max_bytes);
        let tail = tail_rows(lines, max_bytes);
        let mark = omission(omitted(lines, max_bytes));
        lemma_kept_fits(lines, max_bytes);
        lemma_cost_is_bytes(head);
        lemma_cost_is_bytes(tail);
        lemma_omission_len(omitted(lines, max_bytes));
        crate::text::lemma_byte_len_concat(join(head, "\n"@), mark);
        crate::text::lemma_byte_len_concat(join(head, "\n"@) + mark, join(tail, "\n"@));
    }
}

/// Cutting what has been cut to a budget changes nothing.
pub proof fn law_a_cut_is_idempotent(s: Seq<char>, max_bytes: nat)
    requires
        max_bytes >= 64,
        omitted(rows(s), max_bytes) < 10_000_000_000_000_000,
    ensures
        truncated(truncated(s, max_bytes), max_bytes) == truncated(s, max_bytes),
{
    law_a_cut_text_fits(s, max_bytes);
    law_no_cut_where_it_fits(truncated(s, max_bytes), max_bytes);
}

/// A selection of lines holds no character that the text does not hold.
proof fn lemma_selected_free(s: Seq<char>, select: Select, c: char)
    requires
        crate::text::free_of(s, c),
        c != '\n',
    ensures
        crate::text::free_of(selected(s, select), c),
{
    let all = rows(s);
    let kept = kept_rows(all, select);
    reveal_strlit("\n");
    assert("\n"@ == seq!['\n']);
    crate::text::lemma_split_chars(s, Delimiter::Char('\n'), c);
    assert forall|i: int| 0 <= i < kept.len() implies crate::text::free_of(
        #[trigger] kept[i],
        c,
    ) by {
        assert(exists|j: int| 0 <= j < all.len() && kept[i] == #[trigger] all[j]) by {
            match (select.line_index, select.last_lines) {
                (Some(n), _) => {
                    assert(kept[i] == all[all.len() - at_least_one(n)]);
                },
                _ => {
                    assert(kept[i] == all[all.len() - kept.len() + i]);
                },
            }
        }
    }
    crate::text::lemma_join_free(kept, '\n', c);
}

/// Cutting text brings no escape character in.
proof fn lemma_truncated_free(s: Seq<char>, max_bytes: nat)
    requires
        crate::text::free_of(s, ansi::ESC),
    ensures
        crate::text::free_of(truncated(s, max_bytes), ansi::ESC),
{
    let lines = rows(s);
    let head = head_rows(lines, max_bytes);
    let tail = tail_rows(lines, max_bytes);
    let n = omitted(lines, max_bytes);
    reveal_strlit("\n");
    assert("\n"@ == seq!['\n']);
    lemma_kept_fits(lines, max_bytes);
    crate::text::lemma_split_chars(s, Delimiter::Char('\n'), ansi::ESC);
    assert forall|i: int| 0 <= i < head.len() implies crate::text::free_of(
        #[trigger] head[i],
        ansi::ESC,
    ) by {
        assert(head[i] == lines[i]);
    }
    assert forall|i: int| 0 <= i < tail.len() implies crate::text::free_of(
        #[trigger] tail[i],
        ansi::ESC,
    ) by {
        assert(tail[i] == lines[lines.len() - tail.len() + i]);
    }
    crate::text::lemma_join_free(head, '\n', ansi::ESC);
    crate::text::lemma_join_free(tail, '\n', ansi::ESC);
    crate::text::lemma_decimal(n, 0);
    reveal_strlit("\n\n[... ");
    reveal_strlit(" lines omitted by tcap --max-bytes ...]\n\n");
    assert forall|i: int| 0 <= i < omission(n).len() implies #[trigger] omission(n)[i]
        != ansi::ESC by {
        let a = "\n\n[... "@.len();
        if a <= i < a + decimal(n).len() {
            assert(omission(n)[i] == decimal(n)[i - a]);
            assert(crate::text::is_digit(decimal(n)[i - a]));
        }
    }
}

/// In every mode but the raw one, no escape character is left in the output.
pub proof fn law_only_raw_output_keeps_escapes(
    output: Seq<char>,
    mode: Mode,
    select: Select,
    max_bytes: nat,
)
    requires
        mode != Mode::Raw,
    ensures
        crate::text::free_of(prepared(output, mode, select, max_bytes), ansi::ESC),
{
    let clean = cleaned(output);
    ansi::law_cleaned_text_is_tidy(output);
    let lines = rows(clean);
    crate::text::lemma_join_split(clean, '\n');
    if clean.len() > 0 {
        assert forall|i: int| 0 <= i < lines.len() implies crate::text::free_of(
            #[trigger] lines[i],
            ansi::ESC,
        ) by {
            assert(ansi::is_tidy(lines[i]));
        }
        crate::text::lemma_join_free(lines, '\n', ansi::ESC);
    }
    lemma_selected_free(clean, select, ansi::ESC);
    lemma_truncated_free(selected(clean, select), max_bytes);
}

/// Raw output within the budget comes out as it went in.
pub proof fn law_raw_output_is_verbatim(output: Seq<char>, select: Select, max_bytes: nat)
    requires
        select.line_index is None,
        select.last_lines is None,
        max_bytes == 0 || byte_len(output) <= max_bytes,
    ensures
        prepared(output, Mode::Raw, select, max_bytes) == output,
{
    law_a_selection_of_everything_is_the_text(output, select);
    law_no_cut_where_it_fits(output, max_bytes);
}

/// What stands in the header and does not end in white space stands in the
/// annotated block, with output or without.
proof fn lemma_block_shows_header(
    cap: CaptureView,
    home: Option<Seq<char>>,
    needle: Seq<char>,
    i: int,
)
    requires
        cap.described() || cap.approximate,
        occurs_at(header_text(cap, home), needle, i),
        needle.len() > 0,
        !is_space(needle.last()),
    ensures
        contains(block_text(cap, Mode::Annotated, home), needle),
{
    let h = header_text(cap, home);
    if cap.output.len() == 0 {
        crate::text::lemma_trim_end_keeps(h, needle, i);
    } else {
        let empty = Seq::<char>::empty();
        crate::text::lemma_occurs_within(empty, h, "\n"@ + cap.output, needle, i);
        assert(empty + h + ("\n"@ + cap.output) == h + "\n"@ + cap.output);
    }
}

/// The exit code is shown whenever it is known, 0 included.
pub proof fn law_a_known_exit_code_is_shown(cap: CaptureView, home: Option<Seq<char>>, code: i32)
    requires
        cap.exit_code == Some(code),
    ensures
        contains(
            block_text(cap, Mode::Annotated, home),
            "exit: "@ + signed_decimal(code as int),
        ),
{
    let needle = "exit: "@ + signed_decimal(code as int);
    let parts = meta_parts(cap, home);
    assert(parts[0] == needle);
    let n = if code < 0 {
        (-code) as nat
    } else {
        code as nat
    };
    crate::text::lemma_decimal(n, 0);
    assert(needle.last() == decimal(n).last());
    assert(crate::text::is_digit(decimal(n)[decimal(n).len() - 1]));
    let line = join(parts, "  "@);
    crate::text::lemma_join_first(parts, "  "@);
    let a = match cap.command {
        Some(cmd) => "$ "@ + cmd + "\n"@,
        None => Seq::empty(),
    };
    let end = header_text(cap, home).skip((a + ("# "@ + line + "\n"@)).len() as int);
    crate::text::lemma_occurs_within(a + "# "@, line, "\n"@ + end, needle, 0);
    assert(a + "# "@ + line + ("\n"@ + end) == header_text(cap, home));
    lemma_block_shows_header(cap, home, needle, (a + "# "@).len() as int);
}

/// Output that the terminal cannot tie to the command is labelled, even where
/// nothing else is known.
pub proof fn law_approximate_output_is_labelled(cap: CaptureView, home: Option<Seq<char>>)
    requires
        cap.approximate,
    ensures
        contains(
            block_text(cap, Mode::Annotated, home),
            "# note: "@ + cap.source
                + " returns the last non-empty output, which may not be this command's"@,
        ),
{
    let needle = "# note: "@ + cap.source
        + " returns the last non-empty output, which may not be this command's"@;
    let note = "# note: "@ + cap.source
        + " returns the last non-empty output, which may not be this command's\n"@;
    let h = header_text(cap, home);
    let before = h.take(h.len() - note.len());
    assert(h == before + note);
    reveal_strlit("\n");
    reveal_strlit(" returns the last non-empty output, which may not be this command's");
    reveal_strlit(" returns the last non-empty output, which may not be this command's\n");
    assert(note == needle + "\n"@);
    assert(needle.last() == 's');
    assert(needle.subrange(0, needle.len() as int) == needle);
    assert(occurs_at(needle, needle, 0));
    crate::text::lemma_occurs_within(before, needle, "\n"@, needle, 0);
    assert(before + needle + "\n"@ == h);
    lemma_block_shows_header(cap, home, needle, before.len() as int);
}

/// Blocks follow each other with a blank line between them.
pub proof fn law_blocks_are_separated_by_a_blank_line(
    caps: Seq<CaptureView>,
    last: CaptureView,
    mode: Mode,
    home: Option<Seq<char>>,
)
    requires
        mode != Mode::Json,
        caps.len() > 0,
    ensures
        rendered(caps.push(last), mode, home) == rendered(caps, mode, home) + "\n\n"@
            + block_text(last, mode, home),
{
    let f = |c: CaptureView| block_text(c, mode, home);
    assert(caps.push(last).map_values(f).drop_last() == caps.map_values(f));
}

/// A JSON object has an entry for each thing that is known, besides the output
/// and its source, and says that a capture is approximate only where it is.
pub proof fn law_json_names_what_is_known(cap: CaptureView)
    ensures
        ({
            let names = json_entries(cap).dom();
            &&& names.contains("command"@) == (cap.command is Some)
            &&& names.contains("exit_code"@) == (cap.exit_code is Some)
            &&& names.contains("cwd"@) == (cap.cwd is Some)
            &&& names.contains("duration_ms"@) == (cap.duration_ms is Some)
            &&& names.contains("output"@)
            &&& names.contains("source"@)
            &&& names.contains("approximate"@) == cap.approximate
        }),
        json_entries(cap)["output"@] == text_value(cap.output),
        json_entries(cap)["source"@] == text_value(cap.source),
{
    reveal_strlit("command");
    reveal_strlit("exit_code");
    reveal_strlit("cwd");
    reveal_strlit("duration_ms");
    reveal_strlit("output");
    reveal_strlit("source");
    reveal_strlit("approximate");
    assert("command"@[2] == 'm' && "cwd"@[2] == 'd');
    assert("output"@[0] == 'o' && "source"@[0] == 's');
    assert("duration_ms"@[0] == 'd' && "approximate"@[0] == 'a');
    assert("exit_code"@[0] == 'e' && "command"@[0] == 'c' && "cwd"@[0] == 'c');
}

/// A path that was shortened can be put back together.
pub proof fn law_a_shortened_path_can_be_restored(path: Seq<char>, home: Seq<char>)
    requires
        home.len() > 0,
        begins_with(path, home),
    ensures
        shortened(path, Some(home)).first() == '~',
        path == home + shortened(path, Some(home)).skip(1),
{
    reveal_strlit("~");
    let rest = path.skip(home.len() as int);
    assert(shortened(path, Some(home)).skip(1) == rest);
    assert(path == path.subrange(0, home.len() as int) + rest);
}

/// Durations below a minute are given to the nearest tenth of a second, and the
/// binary fraction that decides on halves has 53 significant bits.
pub proof fn law_durations_are_given_to_the_nearest_tenth(ms: nat)
    requires
        1000 <= ms < 60_000,
    ensures
        duration_text(ms) == decimal(tenths(ms) / 10) + "."@ + decimal(tenths(ms) % 10) + "s"@,
        -50 <= ms - 100 * tenths(ms) <= 50,
        pow2(52) <= fraction(ms) <= pow2(53),
{
    let p = pow2(places(ms));
    vstd::arithmetic::power2::lemma2_to64_rest();
    lemma_tenths(ms, p);
    if ms < 2000 {
        assert(1000 * p <= ms * p < 2000 * p) by (nonlinear_arith)
            requires
                1000 <= ms < 2000,
                p > 0,
        ;
    } else if ms < 4000 {
        assert(2000 * p <= ms * p < 4000 * p) by (nonlinear_arith)
            requires
                2000 <= ms < 4000,
                p > 0,
        ;
    } else if ms < 8000 {
        assert(4000 * p <= ms * p < 8000 * p) by (nonlinear_arith)
            requires
                4000 <= ms < 8000,
                p > 0,
        ;
    } else if ms < 16000 {
        assert(8000 * p <= ms * p < 16000 * p) by (nonlinear_arith)
            requires
                8000 <= ms < 16000,
                p > 0,
        ;
    } else if ms < 32000 {
        assert(16000 * p <= ms * p < 32000 * p) by (nonlinear_arith)
            requires
                16000 <= ms < 32000,
                p > 0,
        ;
    } else {
        assert(32000 * p <= ms * p < 64000 * p) by (nonlinear_arith)
            requires
                32000 <= ms < 64000,
                p > 0,
        ;
    }
}

/// The line flags select by position: the `n`th line from the end, or the last
/// `n` lines, whatever their number and wherever there are so many.
pub proof fn law_line_flags_select_by_position(all: Seq<Seq<char>>, n: usize, select: Select)
    requires
        1 <= n <= all.len(),
    ensures
        select.line_index == Some(n) ==> kept_rows(all, select) == seq![all[all.len() - n]],
        select.line_index is None && select.last_lines == Some(n) ==> kept_rows(all, select)
            == all.subrange(all.len() - n, all.len() as int),
        select.line_index is None && select.last_lines is None ==> kept_rows(all, select) == all,
        select.line_index == Some(0usize) ==> kept_rows(all, select) == seq![all.last()],
        select.line_index is None && select.last_lines == Some(0usize) ==> kept_rows(all, select)
            == seq![all.last()],
{
}

/// The text of a selection is made of the selected lines of the text, and of
/// these alone: the last lines are the end of the text, from the start of a
/// line on.
pub proof fn law_the_last_lines_are_the_end_of_the_text(s: Seq<char>, n: usize, select: Select)
    requires
        select.line_index is None,
        select.last_lines == Some(n),
        1 <= n <= split(s, Delimiter::Char('\n')).len(),
    ensures
        exists|k: int|
            #![trigger s.skip(k)]
            0 <= k <= s.len() && selected(s, select) == s.skip(k) && (k > 0 ==> s[k - 1] == '\n')
                && split(s.skip(k), Delimiter::Char('\n')).len() == n,
{
    let d = Delimiter::Char('\n');
    let all = rows(s);
    let cut = all.len() - n;
    let front = all.take(cut);
    let back = all.skip(cut);
    reveal_strlit("\n");
    assert("\n"@ == seq!['\n']);
    crate::text::law_cutting_loses_nothing(s, '\n');
    assert(back == kept_rows(all, select));
    assert(front + back == all);
    assert forall|i: int| 0 <= i < back.len() implies crate::text::free_of(
        #[trigger] back[i],
        '\n',
    ) by {
        assert(back[i] == all[cut + i]);
    }
    crate::text::lemma_split_join(back, '\n');
    if cut == 0 {
        assert(back == all);
        assert(s.skip(0) == s);
    } else {
        lemma_join_concat(front, back, "\n"@);
        let head = join(front, "\n"@) + "\n"@;
        assert(s == head + join(back, "\n"@));
        let k = head.len() as int;
        assert(s.skip(k) == join(back, "\n"@));
        assert(s[k - 1] == head[k - 1]);
    }
}

proof fn lemma_join_concat(a: Seq<Seq<char>>, b: Seq<Seq<char>>, sep: Seq<char>)
    requires
        a.len() > 0,
        b.len() > 0,
    ensures
        join(a + b, sep) == join(a, sep) + sep + join(b, sep),
    decreases b.len(),
{
    let all = a + b;
    assert(all.drop_last() == a + b.drop_last());
    assert(all.last() == b.last());
    if b.len() == 1 {
        assert(a + b.drop_last() == a);
    } else {
        lemma_join_concat(a, b.drop_last(), sep);
        assert(join(a, sep) + sep + join(b.drop_last(), sep) + sep + b.last() == join(a, sep) + sep
            + (join(b.drop_last(), sep) + sep + b.last()));
    }
}

/// The mark names the number of lines that are missing.
pub proof fn law_the_mark_names_the_missing_lines(n: nat)
    ensures
        omission(n) == "\n\n[... "@ + decimal(n) + " lines omitted by tcap --max-bytes ...]\n\n"@,
{
}

/// The lines at the start, from the first one that no longer fits.
proof fn lemma_leading_stops(lines: Seq<Seq<char>>, room: nat)
    ensures
        leading(lines, room) < lines.len() ==> cost(
            lines.take(leading(lines, room) as int + 1),
        ) > room,
    decreases lines.len(),
{
    if lines.len() > 0 && cost(lines) > room {
        let front = lines.drop_last();
        lemma_leading_stops(front, room);
        lemma_leading_fits(front, room);
        let n = leading(lines, room) as int;
        if n < front.len() {
            assert(front.take(n + 1) == lines.take(n + 1));
        } else {
            assert(lines.take(n + 1) == lines);
        }
    }
}

/// The lines at the end, from the last one that no longer fits.
proof fn lemma_trailing_stops(lines: Seq<Seq<char>>, room: nat)
    ensures
        trailing(lines, room) < lines.len() ==> cost(
            lines.skip(lines.len() - trailing(lines, room) - 1),
        ) > room,
    decreases lines.len(),
{
    if lines.len() > 0 && cost(lines) > room {
        let back = lines.drop_first();
        lemma_trailing_stops(back, room);
        lemma_trailing_fits(back, room);
        let n = trailing(lines, room) as int;
        if n < back.len() {
            assert(back.skip(back.len() - n - 1) == lines.skip(lines.len() - n - 1));
        } else {
            assert(lines.skip(0) == lines);
        }
    }
}

/// The bytes of lines, each with its line end.
pub open spec fn bytes_with_ends(lines: Seq<Seq<char>>) -> nat {
    if lines.len() == 0 {
        0
    } else {
        byte_len(join(lines, "\n"@)) + 1
    }
}

/// A cut is as small as the budget allows. Of the budget 64 bytes are kept for
/// the mark. The lines at the start fit half of the rest, and one more would
/// not; the lines at the end fit what those leave of it, and one more would not.
/// Between them stands the mark, with the number of lines that are missing.
pub proof fn law_a_cut_is_as_small_as_the_budget_allows(s: Seq<char>, max_bytes: nat)
    requires
        0 < max_bytes < byte_len(s),
    ensures
        ({
            let lines = split(s, Delimiter::Char('\n'));
            let budget = if max_bytes >= 64 {
                (max_bytes - 64) as nat
            } else {
                0
            };
            exists|h: int, t: int|
                #![trigger lines.take(h), lines.skip(lines.len() - t)]
                {
                    let head = lines.take(h);
                    let tail = lines.skip(lines.len() - t);
                    let missing = lines.len() - h - t;
                    &&& 0 <= h && 0 <= t && missing >= 1
                    &&& bytes_with_ends(head) <= budget / 2
                    &&& bytes_with_ends(lines.take(h + 1)) > budget / 2
                    &&& bytes_with_ends(head) + bytes_with_ends(tail) <= budget
                    &&& bytes_with_ends(head) + bytes_with_ends(
                        lines.skip(lines.len() - t - 1),
                    ) > budget
                    &&& truncated(s, max_bytes) == join(head, "\n"@) + ("\n\n[... "@ + decimal(
                        missing as nat,
                    ) + " lines omitted by tcap --max-bytes ...]\n\n"@) + join(tail, "\n"@)
                }
        }),
{
    let lines = rows(s);
    let budget = line_budget(max_bytes);
    law_a_cut_is_marked(s, max_bytes);
    lemma_kept_fits(lines, max_bytes);
    lemma_leading_fits(lines, budget / 2);
    lemma_leading_stops(lines, budget / 2);
    let head = head_rows(lines, max_bytes);
    let tail = tail_rows(lines, max_bytes);
    let h = head.len() as int;
    let t = tail.len() as int;
    let rest = lines.skip(h);
    let room = (budget - cost(head)) as nat;
    lemma_trailing_fits(rest, room);
    lemma_trailing_stops(rest, room);
    assert(head == lines.take(h));
    assert(tail == lines.skip(lines.len() - t));
    assert(rest.skip(rest.len() - t - 1) == lines.skip(lines.len() - t - 1));
    lemma_cost_is_bytes(head);
    lemma_cost_is_bytes(tail);
    lemma_cost_is_bytes(lines.take(h + 1));
    lemma_cost_is_bytes(lines.skip(lines.len() - t - 1));
    assert(cost(Seq::<Seq<char>>::empty()) == 0);
    if h == 0 {
        assert(head == Seq::<Seq<char>>::empty());
    }
    if t == 0 {
        assert(tail == Seq::<Seq<char>>::empty());
    }
    assert(bytes_with_ends(head) == cost(head));
    assert(bytes_with_ends(tail) == cost(tail));
    assert(lines.take(h) == head && lines.skip(lines.len() - t) == tail);
}

/// Both ends survive a cut: a first line that fits half of the budget for lines
/// stands at the start of the result, and a last line that fits what the lines at
/// the start leave of the budget stands at its end. The lines at the start take
/// no more than half.
pub proof fn law_both_ends_survive_a_cut(s: Seq<char>, max_bytes: nat)
    requires
        0 < max_bytes < byte_len(s),
    ensures
        ({
            let lines = split(s, Delimiter::Char('\n'));
            let result = truncated(s, max_bytes);
            let budget = if max_bytes >= 64 {
                (max_bytes - 64) as nat
            } else {
                0
            };
            let first = lines.first();
            let last = lines.last();
            &&& byte_len(first) + 1 <= budget / 2 ==> first.len() <= result.len() && result.take(
                first.len() as int,
            ) == first
            &&& exists|h: int|
                #![trigger lines.take(h)]
                {
                    let used = bytes_with_ends(lines.take(h));
                    &&& 0 <= h < lines.len()
                    &&& used <= budget / 2
                    &&& bytes_with_ends(lines.take(h + 1)) > budget / 2
                    &&& used + byte_len(last) + 1 <= budget ==> last.len() <= result.len()
                        && result.skip(result.len() - last.len()) == last
                }
        }),
{
    let lines = split(s, Delimiter::Char('\n'));
    let budget = if max_bytes >= 64 {
        (max_bytes - 64) as nat
    } else {
        0
    };
    law_a_cut_is_as_small_as_the_budget_allows(s, max_bytes);
    crate::text::lemma_split_nonempty(s, Delimiter::Char('\n'));
    let (h, t) = choose|h: int, t: int|
        #![trigger lines.take(h), lines.skip(lines.len() - t)]
        {
            let head = lines.take(h);
            let tail = lines.skip(lines.len() - t);
            let missing = lines.len() - h - t;
            &&& 0 <= h && 0 <= t && missing >= 1
            &&& bytes_with_ends(head) <= budget / 2
            &&& bytes_with_ends(lines.take(h + 1)) > budget / 2
            &&& bytes_with_ends(head) + bytes_with_ends(tail) <= budget
            &&& bytes_with_ends(head) + bytes_with_ends(lines.skip(lines.len() - t - 1)) > budget
            &&& truncated(s, max_bytes) == join(head, "\n"@) + ("\n\n[... "@ + decimal(
                missing as nat,
            ) + " lines omitted by tcap --max-bytes ...]\n\n"@) + join(tail, "\n"@)
        };
    let head = lines.take(h);
    let tail = lines.skip(lines.len() - t);
    let result = truncated(s, max_bytes);
    let first = lines.first();
    let last = lines.last();
    if byte_len(first) + 1 <= budget / 2 {
        if h == 0 {
            assert(lines.take(1) == seq![first]);
            assert(join(seq![first], "\n"@) == first);
        } else {
            crate::text::lemma_join_first(head, "\n"@);
            assert(head[0] == first);
            assert(result.take(first.len() as int) == join(head, "\n"@).subrange(
                0,
                first.len() as int,
            ));
        }
    }
    if bytes_with_ends(head) + byte_len(last) + 1 <= budget {
        if t == 0 {
            assert(lines.skip(lines.len() - 1) == seq![last]);
            assert(join(seq![last], "\n"@) == last);
        } else {
            assert(tail.last() == last);
            let end = join(tail, "\n"@);
            if t > 1 {
                assert(end == join(tail.drop_last(), "\n"@) + "\n"@ + last);
            }
            assert(end.skip(end.len() - last.len()) == last);
            assert(result.skip(result.len() - last.len()) == end.skip(end.len() - last.len()));
        }
    }
    assert(lines.take(h) == head);
}

/// An annotated block ends with the whole output, and what stands before it does
/// not depend on what the output is.
pub proof fn law_a_block_ends_with_the_whole_output(
    cap: CaptureView,
    other: Seq<char>,
    home: Option<Seq<char>>,
)
    requires
        cap.output.len() > 0,
        other.len() > 0,
    ensures
        exists|prefix: Seq<char>|
            #![trigger prefix + cap.output]
            block_text(cap, Mode::Annotated, home) == prefix + cap.output && block_text(
                (CaptureView { output: other, ..cap }),
                Mode::Annotated,
                home,
            ) == prefix + other,
{
    let b = CaptureView { output: other, ..cap };
    assert(meta_parts(b, home) == meta_parts(cap, home));
    assert(header_text(b, home) == header_text(cap, home));
    assert(b.described() == cap.described());
    if !cap.described() && !cap.approximate {
        let prefix = Seq::<char>::empty();
        assert(prefix + cap.output == cap.output);
        assert(prefix + other == other);
    } else {
        let prefix = header_text(cap, home) + "\n"@;
        assert(block_text(cap, Mode::Annotated, home) == prefix + cap.output);
    }
}

/// What stands above the output: nothing where nothing is known, and else the
/// header and an empty line. Without output the header stands alone, without its
/// line end. The other modes show the output as it is, or the command.
pub proof fn law_what_a_block_is_made_of(cap: CaptureView, home: Option<Seq<char>>)
    ensures
        ({
            let known = cap.command is Some || cap.exit_code is Some || cap.cwd is Some
                || cap.duration_ms is Some || cap.approximate;
            let block = block_text(cap, Mode::Annotated, home);
            &&& !known ==> block == cap.output
            &&& known && cap.output.len() > 0 ==> block == header_text(cap, home) + "\n"@
                + cap.output
            &&& known && cap.output.len() == 0 ==> block == trim_end(header_text(cap, home))
        }),
        block_text(cap, Mode::Output, home) == cap.output,
        block_text(cap, Mode::Raw, home) == cap.output,
        cap.command is Some ==> block_text(cap, Mode::Command, home) == cap.command->0,
        cap.command is None ==> block_text(cap, Mode::Command, home).len() == 0,
{
}

/// The header: the command on a line of its own, then exit code, directory and
/// duration on one, as far as they are known, then the note on output that may
/// be another command's.
pub proof fn law_what_the_header_says(cap: CaptureView, home: Option<Seq<char>>)
    ensures
        ({
            let command = match cap.command {
                Some(c) => "$ "@ + c + "\n"@,
                None => Seq::empty(),
            };
            let exit = "exit: "@ + signed_decimal(cap.exit_code->0 as int);
            let cwd = "cwd: "@ + shortened(cap.cwd->0, home);
            let took = "took: "@ + duration_text(cap.duration_ms->0 as nat);
            let facts = match (cap.exit_code, cap.cwd, cap.duration_ms) {
                (None, None, None) => Seq::empty(),
                (Some(_), None, None) => "# "@ + exit + "\n"@,
                (None, Some(_), None) => "# "@ + cwd + "\n"@,
                (None, None, Some(_)) => "# "@ + took + "\n"@,
                (Some(_), Some(_), None) => "# "@ + (exit + "  "@ + cwd) + "\n"@,
                (Some(_), None, Some(_)) => "# "@ + (exit + "  "@ + took) + "\n"@,
                (None, Some(_), Some(_)) => "# "@ + (cwd + "  "@ + took) + "\n"@,
                (Some(_), Some(_), Some(_)) => "# "@ + (exit + "  "@ + cwd + "  "@ + took)
                    + "\n"@,
            };
            let note = if cap.approximate {
                "# note: "@ + cap.source
                    + " returns the last non-empty output, which may not be this command's\n"@
            } else {
                Seq::empty()
            };
            header_text(cap, home) == command + facts + note
        }),
{
    let parts = meta_parts(cap, home);
    reveal_with_fuel(join, 4);
    if parts.len() > 1 {
        assert(parts.drop_last().len() == parts.len() - 1);
        assert(parts.drop_last()[0] == parts[0]);
    }
    if parts.len() > 2 {
        assert(parts.drop_last().drop_last()[0] == parts[0]);
        assert(parts.drop_last().last() == parts[1]);
    }
}

/// A path outside the home directory stays as it is, and so does every path
/// where the home directory is not known.
pub proof fn law_other_paths_stay(path: Seq<char>, home: Seq<char>)
    ensures
        shortened(path, None) == path,
        home.len() == 0 || !(home.len() <= path.len() && path.take(home.len() as int) == home)
            ==> shortened(path, Some(home)) == path,
{
    crate::text::law_what_it_means_to_occur(path, home);
}

/// Durations below a second are given in milliseconds, and from a minute on in
/// minutes and whole seconds.
pub proof fn law_short_and_long_durations(ms: nat)
    ensures
        ms < 1000 ==> duration_text(ms) == decimal(ms) + "ms"@,
        ms >= 60_000 ==> exists|m: nat, s: nat|
            #![trigger decimal(m), decimal(s)]
            s < 60 && 60_000 * m + 1000 * s <= ms < 60_000 * m + 1000 * s + 1000 && duration_text(
                ms,
            ) == decimal(m) + "m "@ + decimal(s) + "s"@,
{
    if ms >= 60_000 {
        let m = ms / 60_000;
        let s = (ms % 60_000) / 1000;
        assert(duration_text(ms) == decimal(m) + "m "@ + decimal(s) + "s"@);
    }
}

/// Output is cleaned unless it is wanted raw, then the lines are selected, then
/// it is cut: each step works on what the one before it gives.
pub proof fn law_output_is_cleaned_then_selected_then_cut(
    output: Seq<char>,
    mode: Mode,
    select: Select,
    max_bytes: nat,
)
    ensures
        ({
            let all = Select { line_index: None, last_lines: None, ..select };
            let clean = prepared(output, mode, all, 0);
            let chosen = prepared(output, mode, select, 0);
            &&& mode == Mode::Raw ==> clean == output
            &&& mode != Mode::Raw ==> clean == cleaned(output)
            &&& chosen == selected(clean, select)
            &&& prepared(output, mode, select, max_bytes) == truncated(chosen, max_bytes)
        }),
{
    let all = Select { line_index: None, last_lines: None, ..select };
    law_a_selection_of_everything_is_the_text(output, all);
    law_a_selection_of_everything_is_the_text(cleaned(output), all);
}

/// A text of one block is that block; of none, nothing.
pub proof fn law_one_block_is_its_own_text(cap: CaptureView, mode: Mode, home: Option<Seq<char>>)
    requires
        mode != Mode::Json,
    ensures
        rendered(seq![cap], mode, home) == block_text(cap, mode, home),
        rendered(Seq::empty(), mode, home) == Seq::<char>::empty(),
{
    let f = |c: CaptureView| block_text(c, mode, home);
    assert(seq![cap].map_values(f) == seq![f(cap)]);
}

/// The entries of a JSON object hold what is known as it is, under the names
/// `command`, `exit_code`, `cwd`, `duration_ms`, `output`, `source` and
/// `approximate`, and there are no others.
pub proof fn law_json_holds_what_is_known(cap: CaptureView)
    ensures
        ({
            let e = json_entries(cap);
            &&& cap.command is Some ==> e["command"@] == text_value(cap.command->0)
            &&& cap.exit_code is Some ==> e["exit_code"@] == signed_value(cap.exit_code->0)
            &&& cap.cwd is Some ==> e["cwd"@] == text_value(cap.cwd->0)
            &&& cap.duration_ms is Some ==> e["duration_ms"@] == unsigned_value(
                cap.duration_ms->0,
            )
            &&& e["output"@] == text_value(cap.output)
            &&& e["source"@] == text_value(cap.source)
            &&& cap.approximate ==> e["approximate"@] == flag_value(true)
            &&& forall|k: Seq<char>| #[trigger]
                e.dom().contains(k) ==> k == "command"@ || k == "exit_code"@ || k == "cwd"@ || k
                    == "duration_ms"@ || k == "output"@ || k == "source"@ || k == "approximate"@
        }),
{
    reveal_strlit("command");
    reveal_strlit("exit_code");
    reveal_strlit("cwd");
    reveal_strlit("duration_ms");
    reveal_strlit("output");
    reveal_strlit("source");
    reveal_strlit("approximate");
    assert("command"@[2] == 'm' && "cwd"@[2] == 'd');
    assert("output"@[0] == 'o' && "source"@[0] == 's');
    assert("duration_ms"@[0] == 'd' && "approximate"@[0] == 'a');
    assert("exit_code"@[0] == 'e' && "command"@[0] == 'c' && "cwd"@[0] == 'c');
}

/// One capture is printed as the object of its entries; any other number as an
/// array with one such object for each, in order. What could not be printed is
/// told in an object with the error.
pub proof fn law_json_is_one_object_or_an_array(caps: Seq<CaptureView>, home: Option<Seq<char>>)
    ensures
        ({
            let value = if caps.len() == 1 {
                object_value(json_entries(caps[0]))
            } else {
                array_value(
                    Seq::new(caps.len(), |i: int| object_value(json_entries(caps[i]))),
                )
            };
            rendered(caps, Mode::Json, home) == match pretty_text(value) {
                Ok(t) => t,
                Err(e) => "{\"error\": \""@ + e + "\"}"@,
            }
        }),
{
    assert(caps.map_values(|c: CaptureView| json_value(c)) == Seq::new(
        caps.len(),
        |i: int| object_value(json_entries(caps[i])),
    ));
}

/// From a second up to a minute, a duration is given in seconds with one
/// decimal, rounded to the nearest tenth. A time just between two tenths goes the
/// way that its binary fraction of 53 bits lies; one that the fraction holds
/// exactly goes to the even tenth.
pub proof fn law_how_seconds_are_rounded(ms: nat)
    requires
        1000 <= ms < 60_000,
    ensures
        ({
            let unit = if ms < 2000 {
                pow2(52)
            } else if ms < 4000 {
                pow2(51)
            } else if ms < 8000 {
                pow2(50)
            } else if ms < 16_000 {
                pow2(49)
            } else if ms < 32_000 {
                pow2(48)
            } else {
                pow2(47)
            };
            let below = ms / 100;
            let lost = (ms * unit) % 1000;
            let t = if ms % 100 < 50 {
                below
            } else if ms % 100 > 50 {
                below + 1
            } else if lost == 0 {
                below + below % 2
            } else if lost < 500 {
                below
            } else {
                below + 1
            };
            duration_text(ms) == decimal(t / 10) + "."@ + decimal(t % 10) + "s"@
        }),
{
    vstd::arithmetic::power2::lemma2_to64_rest();
    lemma_tenths(ms, pow2(places(ms)));
}

} // verus!
