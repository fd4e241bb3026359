//! Line windows over a text, as `fs/read_text_file` asks for them.

use crate::text::chars_of;
use vstd::prelude::*;
use vstd::string::*;

verus! {

/// Where the line that starts at `from` ends: at the next line feed, or at the end of `s`.
pub open spec fn line_end(s: Seq<char>, from: int) -> int
    decreases s.len() - from,
{
    if from >= s.len() || s[from] == '\n' {
        from
    } else {
        line_end(s, from + 1)
    }
}

/// `line` without the carriage return that ends it, if one does.
pub open spec fn chomp(line: Seq<char>) -> Seq<char> {
    if line.len() > 0 && line.last() == '\r' {
        line.drop_last()
    } else {
        line
    }
}

/// The lines of `s` from position `from` on. A line ends with a line feed, or with a
/// carriage return and a line feed, and the last one need not end at all.
pub open spec fn lines_from(s: Seq<char>, from: int) -> Seq<Seq<char>>
    decreases s.len() - from,
{
    proof {
        lemma_line_end(s, from);
    }
    if from < 0 || from >= s.len() {
        Seq::empty()
    } else if line_end(s, from) >= s.len() {
        seq![s.subrange(from, s.len() as int)]
    } else {
        seq![chomp(s.subrange(from, line_end(s, from)))] + lines_from(s, line_end(s, from) + 1)
    }
}

/// The lines of `s`, without their line endings.
pub open spec fn lines(s: Seq<char>) -> Seq<Seq<char>> {
    lines_from(s, 0)
}

/// `lines` with one line feed between each two.
pub open spec fn join_lines(lines: Seq<Seq<char>>) -> Seq<char>
    decreases lines.len(),
{
    if lines.len() == 0 {
        Seq::empty()
    } else if lines.len() == 1 {
        lines[0]
    } else {
        join_lines(lines.drop_last()).push('\n') + lines.last()
    }
}

/// The index of the first line of a window that starts at the one-based line `line`.
pub open spec fn window_start(line: Option<u32>, count: int) -> int {
    let first = match line {
        Some(n) => if n > 0 {
            n - 1
        } else {
            0
        },
        None => 0,
    };
    if first < count {
        first
    } else {
        count
    }
}

/// The index behind the last line of a window that starts at `start`.
pub open spec fn window_end(start: int, limit: Option<u32>, count: int) -> int {
    match limit {
        Some(n) => if start + n < count {
            start + n
        } else {
            count
        },
        None => count,
    }
}

/// What a `line`/`limit` window shows of `text`: all of it when neither is given.
pub open spec fn window(text: Seq<char>, line: Option<u32>, limit: Option<u32>) -> Seq<char> {
    if line is None && limit is None {
        text
    } else {
        let all = lines(text);
        let start = window_start(line, all.len() as int);
        join_lines(all.subrange(start, window_end(start, limit, all.len() as int)))
    }
}

/// A line ends at or behind its start, and within the text.
pub proof fn lemma_line_end(s: Seq<char>, from: int)
    ensures
        from <= line_end(s, from),
        from <= s.len() ==> line_end(s, from) <= s.len(),
    decreases s.len() - from,
{
    if !(from >= s.len() || s[from] == '\n') {
        lemma_line_end(s, from + 1);
    }
}

/// The part of `s` that a span covers.
pub open spec fn span_text(s: Seq<char>, span: (usize, usize)) -> Seq<char> {
    s.subrange(span.0 as int, span.1 as int)
}

/// The start and end of every line of `chars`.
fn line_spans(chars: &Vec<char>) -> (spans: Vec<(usize, usize)>)
    ensures
        spans@.map_values(|span: (usize, usize)| span_text(chars@, span)) == lines(chars@),
        forall|i: int|
            0 <= i < spans@.len() ==> (#[trigger] spans@[i]).0 <= spans@[i].1 <= chars@.len(),
{
    let ghost text_of = |span: (usize, usize)| span_text(chars@, span);
    let mut spans: Vec<(usize, usize)> = Vec::new();
    let mut start: usize = 0;
    assert(spans@.map_values(text_of) + lines_from(chars@, 0) == lines(chars@));
    while start < chars.len()
        invariant
            start <= chars@.len(),
            text_of == (|span: (usize, usize)| span_text(chars@, span)),
            spans@.map_values(text_of) + lines_from(chars@, start as int) == lines(chars@),
            forall|i: int|
                0 <= i < spans@.len() ==> (#[trigger] spans@[i]).0 <= spans@[i].1 <= chars@.len(),
        decreases chars@.len() - start,
    {
        let mut end: usize = start;
        while end < chars.len() && chars[end] != '\n'
            invariant
                start <= end <= chars@.len(),
                line_end(chars@, start as int) == line_end(chars@, end as int),
            decreases chars@.len() - end,
        {
            end += 1;
        }
        let ghost before = spans@;
        let terminated = end < chars.len();
        let stop: usize = if terminated && start < end && chars[end - 1] == '\r' {
            end - 1
        } else {
            end
        };
        spans.push((start, stop));
        proof {
            assert(line_end(chars@, start as int) == end);
            let line = chars@.subrange(start as int, end as int);
            if terminated && start < end {
                assert(line.last() == chars@[end - 1]);
                assert(line.drop_last() == chars@.subrange(start as int, end - 1));
            }
            let rest = lines_from(chars@, end + 1);
            assert(text_of((start, stop)) == lines_from(chars@, start as int)[0]);
            assert(lines_from(chars@, start as int) == seq![text_of((start, stop))] + rest);
            assert(spans@.map_values(text_of) == before.map_values(text_of).push(
                text_of((start, stop)),
            ));
            assert(spans@.map_values(text_of) + rest == before.map_values(text_of) + (seq![
                text_of((start, stop)),
            ] + rest));
        }
        if terminated {
            start = end + 1;
        } else {
            start = end;
        }
    }
    assert(spans@.map_values(text_of) == lines(chars@));
    spans
}

/// Append `chars[from..to]` to `out`.
fn push_range(out: &mut String, chars: &Vec<char>, from: usize, to: usize)
    requires
        from <= to <= chars@.len(),
    ensures
        final(out)@ == old(out)@ + chars@.subrange(from as int, to as int),
{
    let mut i: usize = from;
    while i < to
        invariant
            from <= i <= to <= chars@.len(),
            out@ == old(out)@ + chars@.subrange(from as int, i as int),
        decreases to - i,
    {
        out.push(chars[i]);
        assert(chars@.subrange(from as int, i + 1) == chars@.subrange(from as int, i as int).push(
            chars@[i as int],
        ));
        i += 1;
    }
}

/// Apply the `line`/`limit` window of `fs/read_text_file`. `line` is 1-based and inclusive.
pub fn slice_lines(text: &str, line: Option<u32>, limit: Option<u32>) -> (result: String)
    ensures
        result@ == window(text@, line, limit),
{
    if line.is_none() && limit.is_none() {
        return text.to_owned();
    }
    let chars = chars_of(text);
    let spans = line_spans(&chars);
    let count: usize = spans.len();
    let first: usize = match line {
        Some(n) => if n > 0 {
            (n - 1) as usize
        } else {
            0
        },
        None => 0,
    };
    let start: usize = if first < count {
        first
    } else {
        count
    };
    let end: usize = match limit {
        Some(n) => if (n as usize) < count - start {
            start + n as usize
        } else {
            count
        },
        None => count,
    };
    let ghost text_of = |span: (usize, usize)| span_text(chars@, span);
    let ghost all = lines(text@);
    let mut result = String::new();
    let mut i: usize = start;
    assert(join_lines(all.subrange(start as int, start as int)) == Seq::<char>::empty());
    while i < end
        invariant
            start <= i <= end <= count == spans@.len() == all.len(),
            text_of == (|span: (usize, usize)| span_text(chars@, span)),
            all == spans@.map_values(text_of),
            forall|k: int|
                0 <= k < spans@.len() ==> (#[trigger] spans@[k]).0 <= spans@[k].1 <= chars@.len(),
            result@ == join_lines(all.subrange(start as int, i as int)),
        decreases end - i,
    {
        proof {
            let upto = all.subrange(start as int, i + 1);
            assert(upto.drop_last() == all.subrange(start as int, i as int));
            assert(upto.last() == text_of(spans@[i as int]));
        }
        if i > start {
            result.push('\n');
        }
        let ghost before = result@;
        push_range(&mut result, &chars, spans[i].0, spans[i].1);
        proof {
            if i == start {
                assert(result@ == text_of(spans@[i as int]));
            }
        }
        i += 1;
    }
    result
}

/// Joining the lines of two stretches is joining each and putting a line feed between.
proof fn lemma_join_concat(left: Seq<Seq<char>>, right: Seq<Seq<char>>)
    requires
        left.len() > 0,
        right.len() > 0,
    ensures
        join_lines(left + right) == join_lines(left).push('\n') + join_lines(right),
    decreases right.len(),
{
    let whole = left + right;
    assert(whole.last() == right.last());
    assert(whole.drop_last() == left + right.drop_last());
    if right.len() == 1 {
        assert(left + right.drop_last() == left);
    } else {
        lemma_join_concat(left, right.drop_last());
        assert(join_lines(whole) == join_lines(left).push('\n') + join_lines(
            right.drop_last(),
        ).push('\n') + right.last());
        assert(join_lines(left).push('\n') + join_lines(right.drop_last()).push('\n')
            + right.last() == join_lines(left).push('\n') + (join_lines(right.drop_last()).push(
            '\n',
        ) + right.last()));
    }
}

/// A window past the end of the text is empty, not an error.
pub proof fn law_window_past_the_end_is_empty(text: Seq<char>, line: u32, limit: Option<u32>)
    requires
        line > lines(text).len(),
    ensures
        window(text, Some(line), limit) == Seq::<char>::empty(),
{
}

/// Lines are counted from one, and line zero is read as line one.
pub proof fn law_line_zero_is_line_one(text: Seq<char>, limit: Option<u32>)
    ensures
        window(text, Some(0), limit) == window(text, Some(1), limit),
{
}

/// A limit shows at most that many lines, and the lines it shows are the ones that a
/// window without a limit starts with.
pub proof fn law_limit_keeps_the_first_lines(text: Seq<char>, line: u32, limit: u32)
    ensures
        ({
            let all = lines(text);
            let start = window_start(Some(line), all.len() as int);
            let open_ended = all.skip(start);
            let shown = if limit < open_ended.len() {
                open_ended.take(limit as int)
            } else {
                open_ended
            };
            &&& shown.len() <= limit
            &&& window(text, Some(line), None) == join_lines(open_ended)
            &&& window(text, Some(line), Some(limit)) == join_lines(shown)
        }),
{
    let all = lines(text);
    let start = window_start(Some(line), all.len() as int);
    let end = window_end(start, Some(limit), all.len() as int);
    assert(all.skip(start) == all.subrange(start, all.len() as int));
    if limit < all.skip(start).len() {
        assert(all.skip(start).take(limit as int) == all.subrange(start, end));
    }
}

/// Two windows, the second of which starts where the first one stops, show together what one
/// window over both shows, whether the second one has a limit or is open-ended.
pub proof fn law_adjacent_windows_join(text: Seq<char>, line: u32, first: u32, second: Option<u32>)
    requires
        line > 0,
        first > 0,
        line + first <= u32::MAX,
        line + first <= lines(text).len(),
        second matches Some(limit) ==> limit > 0 && first + limit <= u32::MAX,
    ensures
        ({
            let both = match second {
                Some(limit) => Some((first + limit) as u32),
                None => None,
            };
            window(text, Some(line), both) == window(text, Some(line), Some(first)).push('\n')
                + window(text, Some((line + first) as u32), second)
        }),
{
    let all = lines(text);
    let start = line - 1;
    let middle = start + first;
    let end = window_end(middle, second, all.len() as int);
    lemma_join_concat(all.subrange(start, middle), all.subrange(middle, end));
    assert(all.subrange(start, middle) + all.subrange(middle, end) == all.subrange(start, end));
}

/// A text of lines without carriage returns, the last of which ends, is what its lines
/// and a final line feed make up: a window from line one loses nothing but that.
pub proof fn law_reading_from_line_one_gives_the_text(text: Seq<char>)
    requires
        text.len() > 0,
        text.last() == '\n',
        !text.contains('\r'),
    ensures
        window(text, Some(1), None).push('\n') == text,
{
    lemma_lines_rebuild(text, 0);
    assert(lines(text).subrange(0, lines(text).len() as int) == lines(text));
    assert(text.subrange(0, text.len() as int) == text);
}

proof fn lemma_lines_rebuild(text: Seq<char>, from: int)
    requires
        0 <= from < text.len(),
        text.last() == '\n',
        !text.contains('\r'),
    ensures
        lines_from(text, from).len() > 0,
        join_lines(lines_from(text, from)).push('\n') == text.subrange(from, text.len() as int),
    decreases text.len() - from,
{
    lemma_line_end(text, from);
    lemma_line_end_at_feed(text, from);
    let end = line_end(text, from);
    let line = text.subrange(from, end);
    if line.len() > 0 {
        assert(line.last() == text[end - 1]);
    }
    assert(chomp(line) == line);
    if end + 1 < text.len() {
        lemma_lines_rebuild(text, end + 1);
        let rest = lines_from(text, end + 1);
        lemma_join_concat(seq![line], rest);
        assert((line.push('\n') + join_lines(rest)).push('\n') == line.push('\n') + join_lines(
            rest,
        ).push('\n'));
        assert(line.push('\n') + text.subrange(end + 1, text.len() as int) == text.subrange(
            from,
            text.len() as int,
        ));
    } else {
        assert(lines_from(text, from) == seq![line]);
        assert(line.push('\n') == text.subrange(from, text.len() as int));
    }
}

proof fn lemma_line_end_at_feed(text: Seq<char>, from: int)
    requires
        0 <= from < text.len(),
        text.last() == '\n',
    ensures
        line_end(text, from) < text.len(),
        text[line_end(text, from)] == '\n',
    decreases text.len() - from,
{
    if text[from] != '\n' {
        lemma_line_end_at_feed(text, from + 1);
    }
}

/// Where a line ends depends on what stands at and behind its start only.
proof fn lemma_line_end_shifts(s: Seq<char>, by: int, from: int)
    requires
        0 <= by <= s.len(),
        0 <= from,
    ensures
        line_end(s, by + from) == by + line_end(s.skip(by), from),
    decreases s.len() - by - from,
{
    if by + from < s.len() && s[by + from] != '\n' {
        lemma_line_end_shifts(s, by, from + 1);
    }
}

/// The lines from a position on are the lines of what stands there.
proof fn lemma_lines_shift(s: Seq<char>, by: int, from: int)
    requires
        0 <= by <= s.len(),
        0 <= from,
    ensures
        lines_from(s, by + from) == lines_from(s.skip(by), from),
    decreases s.len() - by - from,
{
    let rest = s.skip(by);
    if by + from < s.len() {
        lemma_line_end(rest, from);
        lemma_line_end_shifts(s, by, from);
        let end = line_end(rest, from);
        if end >= rest.len() {
            assert(s.subrange(by + from, s.len() as int) == rest.subrange(from, rest.len() as int));
        } else {
            lemma_lines_shift(s, by, end + 1);
            assert(s.subrange(by + from, by + end) == rest.subrange(from, end));
        }
    }
}

/// A text without line feeds is one line.
proof fn lemma_line_end_without_feed(a: Seq<char>, b: Seq<char>, from: int)
    requires
        !a.contains('\n'),
        0 <= from <= a.len(),
    ensures
        line_end(a.push('\n') + b, from) == a.len(),
        line_end(a, from) == a.len(),
    decreases a.len() - from,
{
    if from < a.len() {
        assert(a[from] != '\n');
        assert((a.push('\n') + b)[from] == a[from]);
        lemma_line_end_without_feed(a, b, from + 1);
    } else {
        assert((a.push('\n') + b)[from] == '\n');
    }
}

/// A line feed ends a line, and takes one carriage return before it along; what is left at the
/// end is a line of its own, as it stands, unless it is empty.
pub proof fn law_lines_end_with_line_feeds(a: Seq<char>, b: Seq<char>)
    requires
        !a.contains('\n'),
    ensures
        lines(a.push('\n') + b) == seq![
            if a.len() > 0 && a.last() == '\r' {
                a.take(a.len() - 1)
            } else {
                a
            },
        ] + lines(b),
        a.len() == 0 ==> lines(a) == Seq::<Seq<char>>::empty(),
        a.len() > 0 ==> lines(a) == seq![a],
{
    let s = a.push('\n') + b;
    let n = a.len() as int;
    lemma_line_end_without_feed(a, b, 0);
    assert(s.subrange(0, n) == a);
    assert(s.skip(n + 1) == b);
    lemma_lines_shift(s, n + 1, 0);
    assert(a.take(n - 1) == a.drop_last());
    assert(a.subrange(0, n) == a);
}

/// Joining puts one line feed between each two stretches of lines and adds nothing else.
pub proof fn law_joining_puts_line_feeds_between(
    left: Seq<Seq<char>>,
    right: Seq<Seq<char>>,
    line: Seq<char>,
)
    ensures
        join_lines(Seq::<Seq<char>>::empty()) == Seq::<char>::empty(),
        join_lines(seq![line]) == line,
        left.len() > 0 && right.len() > 0 ==> join_lines(left + right) == join_lines(left) + seq![
            '\n',
        ] + join_lines(right),
{
    if left.len() > 0 && right.len() > 0 {
        lemma_join_concat(left, right);
        assert(join_lines(left) + seq!['\n'] == join_lines(left).push('\n'));
    }
}

/// A window shows the lines from the one-based line `line` on, the first one if it is missing or
/// zero, and no more than `limit` of them; without either it shows the text as it is.
pub proof fn law_a_window_shows_its_lines(text: Seq<char>, line: Option<u32>, limit: Option<u32>)
    ensures
        line is None && limit is None ==> window(text, line, limit) == text,
        !(line is None && limit is None) ==> exists|before: int, count: int|
            #![trigger lines(text).subrange(before, before + count)]
            {
                &&& window(text, line, limit) == join_lines(
                    lines(text).subrange(before, before + count),
                )
                &&& 0 <= before && 0 <= count && before + count <= lines(text).len()
                &&& line is None || line == Some(0u32) || line == Some(1u32) ==> before == 0
                &&& line matches Some(n) ==> (n > 0 ==> before == n - 1 || (before == lines(
                    text,
                ).len() && before < n - 1))
                &&& limit is None ==> before + count == lines(text).len()
                &&& limit matches Some(m) ==> count == m || (count < m && before + count == lines(
                    text,
                ).len())
            },
{
    if !(line is None && limit is None) {
        let all = lines(text);
        let start = window_start(line, all.len() as int);
        let end = window_end(start, limit, all.len() as int);
        let count = end - start;
        assert(window(text, line, limit) == join_lines(all.subrange(start, start + count)));
    }
}

} // verus!
