//! Showing where in the source an error is: the message, then the lines that the error's span
//! covers, each with its line number and a line that underlines the span.

use vstd::prelude::*;
use crate::lexing::tokens::Span;
use crate::ProgramSourceData;
use crate::text::{push_str, source_slice, spec_decimal, spec_is_whitespace, string_push, trim_end};
use vstd::utf8::{decode_utf8, encode_utf8, is_char_boundary};
use vstd::string::StringSliceAdditionalSpecFns;

verus! {

/// `n` times the char `c`.
pub open spec fn repeat_char(c: char, n: nat) -> Seq<char> {
    Seq::new(n, |i: int| c)
}

/// Appends `n` times the char `c`.
fn push_repeat(out: &mut String, c: char, n: usize)
    ensures
        final(out)@ == old(out)@ + repeat_char(c, n as nat),
{
    let mut i: usize = 0;
    while i < n
        invariant
            0 <= i <= n,
            out@ == old(out)@ + repeat_char(c, i as nat),
        decreases n - i,
    {
        string_push(out, c);
        proof { assert(out@ =~= old(out)@ + repeat_char(c, (i + 1) as nat)); }
        i = i + 1;
    }
    proof { assert(out@ =~= old(out)@ + repeat_char(c, n as nat)); }
}

/// A line of the location view: the line number right-aligned in `width` columns (blank where
/// there is none), ` |`, the prefix and the text.
pub open spec fn location_line(number: Option<usize>, width: usize, pfx: Seq<char>, msg: Seq<char>) -> Seq<char> {
    let num = match number { Some(n) => spec_decimal(n as nat), None => Seq::empty() };
    let pad = if num.len() < width { repeat_char(' ', (width - num.len()) as nat) } else { Seq::empty() };
    pad + num + " |"@ + pfx + msg + "\n"@
}

fn push_location_line(out: &mut String, number: Option<usize>, width: usize, pfx: &str, msg: &str)
    ensures
        final(out)@ == old(out)@ + location_line(number, width, pfx@, msg@),
{
    let num = match number {
        Some(n) => crate::text::usize_to_string(n),
        None => String::new(),
    };
    let num_len: usize = match number {
        Some(n) => decimal_len(n),
        None => 0,
    };
    if num_len < width {
        push_repeat(out, ' ', width - num_len);
    }
    push_str(out, num.as_str());
    push_str(out, " |");
    push_str(out, pfx);
    push_str(out, msg);
    push_str(out, "\n");
    proof { assert(out@ =~= old(out)@ + location_line(number, width, pfx@, msg@)); }
}

/// How many digits the decimal text of `n` has.
fn decimal_len(n: usize) -> (r: usize)
    ensures
        r as nat == spec_decimal(n as nat).len(),
        1 <= r <= n as int + 1,
    decreases n,
{
    if n < 10 {
        1
    } else {
        decimal_len(n / 10) + 1
    }
}

/// `s` without the whitespace at its end.
pub open spec fn trimmed(s: Seq<char>) -> Seq<char>
    decreases s.len(),
{
    if s.len() > 0 && spec_is_whitespace(s.last()) {
        trimmed(s.drop_last())
    } else {
        s
    }
}

/// What `trim_end` gives is the text without the whitespace at its end.
proof fn lemma_trimmed(s: Seq<char>, r: Seq<char>)
    requires
        r == s.take(r.len() as int),
        r.len() <= s.len(),
        forall|i: int| r.len() <= i < s.len() ==> spec_is_whitespace(#[trigger] s[i]),
        r.len() == 0 || !spec_is_whitespace(r.last()),
    ensures
        r == trimmed(s),
    decreases s.len(),
{
    if s.len() > r.len() {
        assert(spec_is_whitespace(s[s.len() - 1]));
        assert(s.drop_last().take(r.len() as int) =~= r);
        lemma_trimmed(s.drop_last(), r);
    } else {
        assert(s =~= r);
    }
}

/// The text of the source from byte `start` to byte `end` (empty where these are not char
/// boundaries in order inside the source).
pub open spec fn slice_text(src: Seq<u8>, start: usize, end: usize) -> Seq<char> {
    if start <= end && end <= src.len() && is_char_boundary(src, start as int) && is_char_boundary(src, end as int) {
        decode_utf8(src.subrange(start as int, end as int))
    } else {
        Seq::empty()
    }
}

/// `a + b`, saturated at `usize::MAX`.
pub open spec fn add_sat(a: usize, b: usize) -> usize {
    if a + b > usize::MAX { usize::MAX } else { (a + b) as usize }
}

/// `a - b`, saturated at 0.
pub open spec fn sub_sat(a: usize, b: usize) -> usize {
    if a >= b { (a - b) as usize } else { 0 }
}

/// Where line `idx` (counted from 1) ends: where the next line starts, or at the end of the source.
pub open spec fn line_end(src: Seq<u8>, lines: Seq<usize>, idx: nat) -> usize {
    if idx < lines.len() { lines[idx as int] } else { src.len() as usize }
}

/// What is shown for line `idx` (counted from 1) of the error from byte `es` to byte `ee`: the
/// line without its trailing whitespace, then a line that underlines the error on it where the
/// error starts or ends on it (`^` under the error, `_` from the line's start up to a start).
pub open spec fn line_block(src: Seq<u8>, lines: Seq<usize>, idx: nat, width: usize, pfx: Seq<char>, es: usize, ee: usize) -> Seq<char> {
    let ls = lines[idx - 1];
    let le = line_end(src, lines, idx);
    let text = trimmed(slice_text(src, ls, le));
    let text_end = add_sat(ls, encode_utf8(text).len() as usize);
    let hl_end = if ee < text_end { ee } else { text_end };
    let shown = location_line(Some(idx as usize), width, pfx, text);
    if !(es < ls) && !(ee > le) {
        shown + location_line(None, width, pfx, repeat_char(' ', (es - ls) as nat) + repeat_char('^', sub_sat(hl_end, es) as nat))
    } else if es < ls && !(ee > le) {
        shown + location_line(None, width, "|_"@, repeat_char('^', sub_sat(hl_end, ls) as nat))
    } else if !(es < ls) && ee > le {
        shown + location_line(None, width, " _"@, repeat_char('_', (es - ls) as nat) + repeat_char('^', sub_sat(le, es) as nat))
    } else {
        shown
    }
}

/// The lines shown from line `idx` on: line after line until the one where the error ends (or
/// the last line); after the line where the error starts, the source lines are marked with `| `.
pub open spec fn location_body(src: Seq<u8>, lines: Seq<usize>, idx: nat, width: usize, pfx: Seq<char>, es: usize, ee: usize) -> Seq<char>
    decreases lines.len() + 1 - idx,
{
    if idx == 0 || idx > lines.len() {
        Seq::empty()
    } else {
        let block = line_block(src, lines, idx, width, pfx, es, ee);
        if !(ee > line_end(src, lines, idx)) || idx == lines.len() {
            block
        } else {
            let next_pfx = if !(es < lines[idx - 1]) { "| "@ } else { pfx };
            block + location_body(src, lines, idx + 1, width, next_pfx, es, ee)
        }
    }
}

/// The first line from `k` on that starts after byte `pos` (the number of lines where none does).
pub open spec fn first_line_after(lines: Seq<usize>, pos: usize, k: nat) -> nat
    decreases lines.len() - k,
{
    if k >= lines.len() {
        lines.len()
    } else if lines[k as int] > pos {
        k
    } else {
        first_line_after(lines, pos, k + 1)
    }
}

/// Appends what is shown for line `idx`; tells whether the error ends on it.
#[verifier::rlimit(100)]
#[verifier::spinoff_prover]
fn push_line_block(out: &mut String, source: &str, lines: &[usize], idx: usize, width: usize, pfx: &str, es: usize, ee: usize) -> (r: bool)
    requires
        1 <= idx <= lines@.len(),
    ensures
        final(out)@ == old(out)@ + line_block(source.spec_bytes(), lines@, idx as nat, width, pfx@, es, ee),
        r == !(ee > line_end(source.spec_bytes(), lines@, idx as nat)),
{
    let n = lines.len();
    let line_start = lines[idx - 1];
    let line_end = if idx < n { lines[idx] } else { source.as_bytes().len() };
    let text = source_slice(source, line_start, line_end);
    let trimmed = trim_end(text);
    let trimmed_len = trimmed.as_bytes().len();
    proof {
        lemma_trimmed(text@, trimmed@);
        vstd::utf8::encode_utf8_decode_utf8(text@);
        if text@.len() == 0 {
            assert(encode_utf8(text@) =~= Seq::<u8>::empty());
            assert(decode_utf8(Seq::<u8>::empty()) =~= Seq::<char>::empty());
        }
        assert(text@ == slice_text(source.spec_bytes(), line_start, line_end));
    }
    push_location_line(out, Some(idx), width, pfx, trimmed);

    let starts_before = es < line_start;
    let ends_after = ee > line_end;
    let text_end = line_start.saturating_add(trimmed_len);
    let hl_end = if ee < text_end { ee } else { text_end };
    if !starts_before && !ends_after {
        // the error is on this one line
        let mut marks = String::new();
        push_repeat(&mut marks, ' ', es - line_start);
        push_repeat(&mut marks, '^', hl_end.saturating_sub(es));
        push_location_line(out, None, width, pfx, marks.as_str());
    } else if starts_before && !ends_after {
        // the error's last line
        let mut marks = String::new();
        push_repeat(&mut marks, '^', hl_end.saturating_sub(line_start));
        push_location_line(out, None, width, "|_", marks.as_str());
    } else if !starts_before && ends_after {
        // the error's first line
        let mut marks = String::new();
        push_repeat(&mut marks, '_', es - line_start);
        push_repeat(&mut marks, '^', line_end.saturating_sub(es));
        push_location_line(out, None, width, " _", marks.as_str());
    }
    proof { assert(out@ =~= old(out)@ + line_block(source.spec_bytes(), lines@, idx as nat, width, pfx@, es, ee)); }
    !ends_after
}

/// The error message, then the lines of the source that `span` covers, each followed by a line
/// that underlines the span (`^`), with line numbers in front.
pub fn format_error_location(message: &str, span: Span, source_data: &ProgramSourceData) -> (r: String)
    ensures
        span.length > usize::MAX / 2 ==> r@ == message@ + "\n"@ + "(couldn't print where...)"@,
        span.length <= usize::MAX / 2 ==> r@ == message@ + "\n"@ + location_body(
            source_data.source_code.spec_bytes(), source_data.line_lookup@,
            first_line_after(source_data.line_lookup@, span.byte_offset, 0),
            spec_decimal(source_data.line_lookup@.len()).len() as usize, "  "@,
            span.byte_offset, add_sat(span.byte_offset, span.length)),
{
    let mut out = String::new();
    push_str(&mut out, message);
    push_str(&mut out, "\n");
    if span.length > usize::MAX / 2 {
        push_str(&mut out, "(couldn't print where...)");
        proof { assert(out@ =~= message@ + "\n"@ + "(couldn't print where...)"@); }
        return out;
    }
    let source = source_data.source_code;
    let lines = source_data.line_lookup;
    let n = lines.len();
    let err_start = span.byte_offset;
    let err_end = err_start.saturating_add(span.length);
    let width = decimal_len(n);

    // the first line that starts after the error's start
    let mut err_start_line = n;
    let mut k: usize = 0;
    while k < n
        invariant_except_break
            err_start_line == n,
        invariant
            0 <= k <= n,
            n == lines@.len(),
            first_line_after(lines@, err_start, 0) == first_line_after(lines@, err_start, k as nat),
        ensures
            err_start_line as nat == first_line_after(lines@, err_start, 0),
            err_start_line <= n,
        decreases n - k,
    {
        if lines[k] > err_start {
            err_start_line = k;
            break;
        }
        k = k + 1;
    }

    let ghost src = source.spec_bytes();
    let ghost goal = message@ + "\n"@ + location_body(src, lines@, err_start_line as nat, width, "  "@, err_start, err_end);
    proof { assert(out@ =~= message@ + "\n"@); }
    let mut prefix: &str = "  ";
    let mut line_index = err_start_line;
    while line_index > 0
        invariant_except_break
            out@ + location_body(src, lines@, line_index as nat, width, prefix@, err_start, err_end) == goal,
        invariant
            n == lines@.len(),
            line_index <= n,
            src == source.spec_bytes(),
        ensures
            out@ == goal,
        decreases n + 1 - line_index,
    {
        let ghost before = out@;
        let ghost pfx = prefix@;
        let ends_here = push_line_block(&mut out, source, lines, line_index, width, prefix, err_start, err_end);
        proof {
            assert(out@ + location_body(src, lines@, line_index as nat, width, pfx, err_start, err_end)
                =~= out@ + location_body(src, lines@, line_index as nat, width, pfx, err_start, err_end));
        }
        if ends_here || line_index == n {
            proof { assert(out@ =~= before + location_body(src, lines@, line_index as nat, width, pfx, err_start, err_end)); }
            break;
        }
        if !(err_start < lines[line_index - 1]) {
            prefix = "| ";
        }
        proof {
            assert(location_body(src, lines@, line_index as nat, width, pfx, err_start, err_end)
                == line_block(src, lines@, line_index as nat, width, pfx, err_start, err_end)
                    + location_body(src, lines@, (line_index + 1) as nat, width, prefix@, err_start, err_end));
            assert(out@ + location_body(src, lines@, (line_index + 1) as nat, width, prefix@, err_start, err_end) =~= goal);
        }
        line_index = line_index + 1;
    }
    out
}

} // verus!
