//! Lines of a configuration file: finding text, and setting the value of a key
//! in a table's body while everything else stays as it is.
use crate::text::{chars_of, push_chars};
use vstd::prelude::*;

verus! {

/// Whether `c` is white space: the characters with Unicode's property of that
/// name.
pub open spec fn is_space(c: char) -> bool {
    ||| '\u{9}' <= c <= '\u{d}'
    ||| c == ' '
    ||| c == '\u{85}'
    ||| c == '\u{a0}'
    ||| c == '\u{1680}'
    ||| '\u{2000}' <= c <= '\u{200a}'
    ||| c == '\u{2028}'
    ||| c == '\u{2029}'
    ||| c == '\u{202f}'
    ||| c == '\u{205f}'
    ||| c == '\u{3000}'
}

/// Whether `c` is white space.
pub fn space(c: char) -> (r: bool)
    ensures
        r == is_space(c),
{
    ('\u{9}' <= c && c <= '\u{d}') || c == ' ' || c == '\u{85}' || c == '\u{a0}' || c == '\u{1680}'
        || ('\u{2000}' <= c && c <= '\u{200a}') || c == '\u{2028}' || c == '\u{2029}' || c
        == '\u{202f}' || c == '\u{205f}' || c == '\u{3000}'
}

/// How much white space `text` holds from `from` on, up to `to`.
pub open spec fn spaces(text: Seq<char>, from: int, to: int) -> int
    decreases to - from,
{
    if from < to && is_space(text[from]) {
        1 + spaces(text, from + 1, to)
    } else {
        0
    }
}

/// Where `text` ends without the white space at its end, no earlier than
/// `from`.
pub open spec fn trimmed_end(text: Seq<char>, from: int, to: int) -> int
    decreases to - from,
{
    if from < to && is_space(text[to - 1]) {
        trimmed_end(text, from, to - 1)
    } else {
        to
    }
}

/// Whether `pattern` stands in `text` at `at`, before `to`.
pub open spec fn stands(text: Seq<char>, pattern: Seq<char>, at: int, to: int) -> bool {
    &&& 0 <= at
    &&& at + pattern.len() <= to <= text.len()
    &&& text.subrange(at, at + pattern.len()) == pattern
}

/// Where `pattern` first stands in `text` from `from` on, before `to`.
pub open spec fn first_at(text: Seq<char>, pattern: Seq<char>, from: int, to: int) -> Option<int>
    decreases to - from + 1,
{
    if from > to {
        None
    } else if stands(text, pattern, from, to) {
        Some(from)
    } else {
        first_at(text, pattern, from + 1, to)
    }
}

/// What `first_at` gives.
pub proof fn lemma_first_at(text: Seq<char>, pattern: Seq<char>, from: int, to: int)
    requires
        0 <= from <= to <= text.len(),
    ensures
        match first_at(text, pattern, from, to) {
            Some(i) => {
                &&& from <= i
                &&& stands(text, pattern, i, to)
                &&& forall|k: int| from <= k < i ==> !#[trigger] stands(text, pattern, k, to)
            },
            None => forall|k: int| from <= k <= to ==> !#[trigger] stands(text, pattern, k, to),
        },
    decreases to - from,
{
    if !stands(text, pattern, from, to) {
        if from < to {
            lemma_first_at(text, pattern, from + 1, to);
        }
    }
}

/// `first_at` gives the place where `pattern` stands first.
pub proof fn lemma_first_is(text: Seq<char>, pattern: Seq<char>, from: int, i: int, to: int)
    requires
        0 <= from <= i <= to <= text.len(),
        stands(text, pattern, i, to),
        forall|k: int| from <= k < i ==> !#[trigger] stands(text, pattern, k, to),
    ensures
        first_at(text, pattern, from, to) == Some(i),
    decreases i - from,
{
    if from < i {
        assert(!stands(text, pattern, from, to));
        lemma_first_is(text, pattern, from + 1, i, to);
    }
}

/// Whether `pattern` stands in `text` at `at`, before `to`.
fn is_at(text: &Vec<char>, pattern: &Vec<char>, at: usize, to: usize) -> (r: bool)
    requires
        at <= to <= text@.len(),
    ensures
        r == stands(text@, pattern@, at as int, to as int),
{
    if pattern.len() > to - at {
        return false;
    }
    let mut k: usize = 0;
    while k < pattern.len()
        invariant
            k <= pattern@.len(),
            at + pattern@.len() <= to <= text@.len(),
            forall|m: int| 0 <= m < k ==> text@[at + m] == pattern@[m],
        decreases pattern@.len() - k,
    {
        if text[at + k] != pattern[k] {
            assert(text@.subrange(at as int, at + pattern@.len())[k as int] != pattern@[k as int]);
            return false;
        }
        k += 1;
    }
    assert(text@.subrange(at as int, at + pattern@.len()) =~= pattern@);
    true
}

/// Where `pattern` first stands in `text` from `from` on, before `to`.
pub fn find(text: &Vec<char>, pattern: &Vec<char>, from: usize, to: usize) -> (r: Option<usize>)
    requires
        from <= to <= text@.len(),
    ensures
        match r {
            Some(i) => first_at(text@, pattern@, from as int, to as int) == Some(i as int) && from
                <= i && i + pattern@.len() <= to,
            None => first_at(text@, pattern@, from as int, to as int) is None,
        },
{
    let mut i: usize = from;
    while i < to
        invariant
            from <= i <= to <= text@.len(),
            first_at(text@, pattern@, from as int, to as int) == first_at(
                text@,
                pattern@,
                i as int,
                to as int,
            ),
        decreases to - i,
    {
        if is_at(text, pattern, i, to) {
            return Some(i);
        }
        i += 1;
    }
    assert(first_at(text@, pattern@, to + 1, to as int) is None);
    if is_at(text, pattern, to, to) {
        Some(to)
    } else {
        None
    }
}

/// Where the line that starts at `from` ends: after its line feed, or at the
/// end of the text.
pub open spec fn line_end(text: Seq<char>, from: int) -> int
    decreases text.len() - from,
{
    if from >= text.len() {
        text.len() as int
    } else if text[from] == '\n' {
        from + 1
    } else {
        line_end(text, from + 1)
    }
}

/// Whether the line from `from` up to `to` sets `key`.
pub open spec fn sets_key(text: Seq<char>, key: Seq<char>, from: int, to: int) -> bool {
    let at = from + spaces(text, from, to);
    let after = at + key.len();
    let equals = after + spaces(text, after, to);
    stands(text, key, at, to) && equals < to && text[equals] == '='
}

/// Where the first line that sets `key` starts, from `from` on.
pub open spec fn key_line(text: Seq<char>, key: Seq<char>, from: int) -> Option<int>
    decreases text.len() - from,
    via key_line_ends
{
    if from >= text.len() {
        None
    } else if sets_key(text, key, from, line_end(text, from)) {
        Some(from)
    } else {
        key_line(text, key, line_end(text, from))
    }
}

/// A line is not empty and ends within the text.
pub proof fn lemma_line_end(text: Seq<char>, from: int)
    requires
        0 <= from < text.len(),
    ensures
        from < line_end(text, from) <= text.len(),
        forall|k: int| from <= k < line_end(text, from) - 1 ==> text[k] != '\n',
        line_end(text, from) < text.len() ==> text[line_end(text, from) - 1] == '\n',
    decreases text.len() - from,
{
    if text[from] != '\n' && from + 1 < text.len() {
        lemma_line_end(text, from + 1);
    } else if text[from] != '\n' {
        assert(line_end(text, from + 1) == text.len());
    }
}

#[via_fn]
proof fn key_line_ends(text: Seq<char>, key: Seq<char>, from: int) {
    if from < text.len() {
        lemma_line_end_after(text, from);
    }
}

/// A line ends after it starts.
proof fn lemma_line_end_after(text: Seq<char>, from: int)
    requires
        from < text.len(),
    ensures
        from < line_end(text, from) <= text.len(),
    decreases text.len() - from,
{
    if text[from] != '\n' {
        if from + 1 < text.len() {
            lemma_line_end_after(text, from + 1);
        } else {
            assert(line_end(text, from + 1) == text.len());
        }
    }
}

/// How much white space there is stays within the range.
pub proof fn lemma_spaces(text: Seq<char>, from: int, to: int)
    requires
        from <= to,
    ensures
        0 <= spaces(text, from, to) <= to - from,
        forall|k: int| from <= k < from + spaces(text, from, to) ==> is_space(#[trigger] text[k]),
        from + spaces(text, from, to) < to ==> !is_space(text[from + spaces(text, from, to)]),
    decreases to - from,
{
    if from < to && is_space(text[from]) {
        lemma_spaces(text, from + 1, to);
    }
}

/// Where the white space at the end starts is within the range.
proof fn lemma_trimmed_end(text: Seq<char>, from: int, to: int)
    requires
        from <= to,
    ensures
        from <= trimmed_end(text, from, to) <= to,
        from < trimmed_end(text, from, to) ==> !is_space(text[trimmed_end(text, from, to) - 1]),
    decreases to - from,
{
    if from < to && is_space(text[to - 1]) {
        lemma_trimmed_end(text, from, to - 1);
    }
}

/// Where the white space that starts at `from` ends, before `to`.
pub fn skip_spaces(text: &Vec<char>, from: usize, to: usize) -> (r: usize)
    requires
        from <= to <= text@.len(),
    ensures
        from <= r <= to,
        r == from + spaces(text@, from as int, to as int),
{
    let mut i: usize = from;
    while i < to && space(text[i])
        invariant
            from <= i <= to <= text@.len(),
            from + spaces(text@, from as int, to as int) == i + spaces(text@, i as int, to as int),
        decreases to - i,
    {
        i += 1;
    }
    i
}

/// Where the text ends without the white space at its end.
fn drop_spaces(text: &Vec<char>, from: usize, to: usize) -> (r: usize)
    requires
        from <= to <= text@.len(),
    ensures
        from <= r <= to,
        r == trimmed_end(text@, from as int, to as int),
{
    let mut i: usize = to;
    while i > from && space(text[i - 1])
        invariant
            from <= i <= to <= text@.len(),
            trimmed_end(text@, from as int, to as int) == trimmed_end(text@, from as int, i as int),
        decreases i,
    {
        i -= 1;
    }
    i
}

/// Where the line that starts at `from` ends.
pub fn end_of_line(text: &Vec<char>, from: usize) -> (r: usize)
    requires
        from < text@.len(),
    ensures
        r == line_end(text@, from as int),
        from < r <= text@.len(),
{
    proof {
        lemma_line_end(text@, from as int);
    }
    let mut i: usize = from;
    while i < text.len() && text[i] != '\n'
        invariant
            from <= i <= text@.len(),
            line_end(text@, from as int) == line_end(text@, i as int),
        decreases text@.len() - i,
    {
        i += 1;
    }
    if i < text.len() {
        i + 1
    } else {
        i
    }
}

/// Whether the line from `from` up to `to` sets `key`.
pub fn does_set(text: &Vec<char>, key: &Vec<char>, from: usize, to: usize) -> (r: bool)
    requires
        from <= to <= text@.len(),
    ensures
        r == sets_key(text@, key@, from as int, to as int),
{
    let at: usize = skip_spaces(text, from, to);
    if !is_at(text, key, at, to) {
        return false;
    }
    let equals: usize = skip_spaces(text, at + key.len(), to);
    equals < to && text[equals] == '='
}

/// Where `pattern` first stands at the start of a line, behind white space at
/// most, in the lines that start from `from` on and before `to`.
pub open spec fn line_at(text: Seq<char>, pattern: Seq<char>, from: int, to: int) -> Option<int>
    decreases text.len() - from,
    via line_at_ends
{
    if from >= to || from >= text.len() {
        None
    } else {
        let end = line_end(text, from);
        let at = from + spaces(text, from, end);
        if stands(text, pattern, at, end) {
            Some(at)
        } else {
            line_at(text, pattern, end, to)
        }
    }
}

#[via_fn]
proof fn line_at_ends(text: Seq<char>, pattern: Seq<char>, from: int, to: int) {
    if from < text.len() {
        lemma_line_end_after(text, from);
    }
}

/// Where `pattern` first stands at the start of a line.
pub fn find_line(text: &Vec<char>, pattern: &Vec<char>, from: usize, to: usize) -> (r: Option<
    usize,
>)
    requires
        to <= text@.len(),
    ensures
        match r {
            Some(i) => line_at(text@, pattern@, from as int, to as int) == Some(i as int) && from
                <= i && i + pattern@.len() <= text@.len(),
            None => line_at(text@, pattern@, from as int, to as int) is None,
        },
{
    let mut i: usize = from;
    while i < to
        invariant
            from <= i,
            i <= text@.len() || i == from,
            to <= text@.len(),
            line_at(text@, pattern@, from as int, to as int) == line_at(
                text@,
                pattern@,
                i as int,
                to as int,
            ),
        decreases text@.len() - i,
    {
        let end: usize = end_of_line(text, i);
        let at: usize = skip_spaces(text, i, end);
        if is_at(text, pattern, at, end) {
            return Some(at);
        }
        i = end;
    }
    None
}

/// The line that sets `key` to `value` in place of the one from `from` up to
/// `to`: its indent and its comment stay.
pub open spec fn new_line(
    text: Seq<char>,
    key: Seq<char>,
    value: Seq<char>,
    from: int,
    to: int,
) -> Seq<char> {
    let set = text.subrange(from, from + spaces(text, from, to)) + key + seq![' ', '=', ' '] + value;
    match first_at(text, seq!['#'], from, to) {
        Some(at) => set + seq![' '] + text.subrange(at, trimmed_end(text, at, to)) + seq!['\n'],
        None => set + seq!['\n'],
    }
}

/// `block` with `key` set to `value`: in the first line that sets it, or else in
/// a line of its own at the end.
pub open spec fn with_value(block: Seq<char>, key: Seq<char>, value: Seq<char>) -> Seq<char> {
    match key_line(block, key, 0) {
        Some(from) => {
            let to = line_end(block, from);
            block.take(from) + new_line(block, key, value, from, to) + block.skip(to)
        },
        None => {
            let ended = if block.len() > 0 && block.last() == '\n' {
                block
            } else {
                block.push('\n')
            };
            ended + key + seq![' ', '=', ' '] + value + seq!['\n']
        },
    }
}

/// Set one `key = value` in a table's body. The line that sets it keeps its
/// indent and its comment, every other line is kept as it is, and where no line
/// sets it one is added at the end.
pub fn set_value(block: &str, key: &str, value: &str) -> (r: String)
    ensures
        r@ == with_value(block@, key@, value@),
{
    let text = chars_of(block);
    let name = chars_of(key);
    let n: usize = text.len();
    let mut i: usize = 0;
    while i < n
        invariant
            i <= n,
            n == text@.len(),
            text@ == block@,
            name@ == key@,
            key_line(text@, name@, 0) == key_line(text@, name@, i as int),
        decreases n - i,
    {
        let end: usize = end_of_line(&text, i);
        if does_set(&text, &name, i, end) {
            return replaced_line(&text, &name, value, i, end);
        }
        i = end;
    }
    let mut out: String = block.to_owned();
    if n == 0 || text[n - 1] != '\n' {
        out.push('\n');
    }
    out.append(key);
    out.push(' ');
    out.push('=');
    out.push(' ');
    out.append(value);
    out.push('\n');
    assert(out@ =~= with_value(block@, key@, value@));
    out
}

/// The text with the line from `from` up to `to` replaced by one that sets the
/// key.
fn replaced_line(text: &Vec<char>, key: &Vec<char>, value: &str, from: usize, to: usize) -> (r:
    String)
    requires
        from <= to <= text@.len(),
    ensures
        r@ == text@.take(from as int) + new_line(text@, key@, value@, from as int, to as int)
            + text@.skip(to as int),
{
    let mut out: String = String::new();
    push_chars(&mut out, text, 0, from);
    assert(out@ =~= text@.take(from as int));
    let indent: usize = skip_spaces(text, from, to);
    push_chars(&mut out, text, from, indent);
    push_chars(&mut out, key, 0, key.len());
    assert(key@.subrange(0, key@.len() as int) =~= key@);
    out.push(' ');
    out.push('=');
    out.push(' ');
    out.append(value);
    let ghost set = text@.subrange(from as int, indent as int) + key@ + seq![' ', '=', ' '] + value@;
    assert(out@ =~= text@.take(from as int) + set);
    let mark: Vec<char> = vec!['#'];
    assert(mark@ =~= seq!['#']);
    match find(text, &mark, from, to) {
        Some(at) => {
            let end: usize = drop_spaces(text, at, to);
            out.push(' ');
            push_chars(&mut out, text, at, end);
        },
        None => {},
    }
    out.push('\n');
    assert(out@ =~= text@.take(from as int) + new_line(
        text@,
        key@,
        value@,
        from as int,
        to as int,
    ));
    push_chars(&mut out, text, to, text.len());
    assert(text@.subrange(to as int, text@.len() as int) =~= text@.skip(to as int));
    out
}

/// Texts that are the same over a range have the same white space there.
pub proof fn lemma_same_spaces(a: Seq<char>, b: Seq<char>, from: int, to: int)
    requires
        forall|k: int| from <= k < to ==> a[k] == b[k],
    ensures
        spaces(a, from, to) == spaces(b, from, to),
    decreases to - from,
{
    if from < to && is_space(a[from]) {
        lemma_same_spaces(a, b, from + 1, to);
    }
}

/// Texts that are the same over a line set the same key in it.
pub proof fn lemma_same_line(a: Seq<char>, b: Seq<char>, key: Seq<char>, from: int, to: int)
    requires
        0 <= from <= to <= a.len(),
        to <= b.len(),
        forall|k: int| from <= k < to ==> a[k] == b[k],
    ensures
        sets_key(a, key, from, to) == sets_key(b, key, from, to),
{
    lemma_same_spaces(a, b, from, to);
    lemma_spaces(a, from, to);
    let at = from + spaces(a, from, to);
    let after = at + key.len();
    if after <= to {
        assert(a.subrange(at, after) =~= b.subrange(at, after));
        lemma_same_spaces(a, b, after, to);
        lemma_spaces(a, after, to);
    }
}

/// Where a line ends.
pub proof fn lemma_line_ends_at(text: Seq<char>, from: int, end: int)
    requires
        0 <= from < end <= text.len(),
        forall|k: int| from <= k < end - 1 ==> text[k] != '\n',
        text[end - 1] == '\n',
    ensures
        line_end(text, from) == end,
    decreases end - from,
{
    if from < end - 1 {
        assert(text[from] != '\n');
        lemma_line_ends_at(text, from + 1, end);
    }
}

/// Where the line that sets a key is: at the start of a line.
proof fn lemma_key_line(text: Seq<char>, key: Seq<char>, i: int)
    requires
        0 <= i,
    ensures
        key_line(text, key, i) matches Some(f) ==> {
            &&& i <= f < text.len()
            &&& f == i || text[f - 1] == '\n'
            &&& sets_key(text, key, f, line_end(text, f))
        },
    decreases text.len() - i,
{
    if i < text.len() {
        lemma_line_end(text, i);
        if !sets_key(text, key, i, line_end(text, i)) {
            lemma_key_line(text, key, line_end(text, i));
        }
    }
}

/// Lines that are shared and do not set the key are passed over.
proof fn lemma_lines_passed(a: Seq<char>, b: Seq<char>, key: Seq<char>, i: int, m: int)
    requires
        0 <= i <= m <= a.len(),
        m <= b.len(),
        forall|k: int| 0 <= k < m ==> a[k] == b[k],
        m == 0 || a[m - 1] == '\n',
        key_line(a, key, i) matches Some(f) ==> f >= m,
    ensures
        key_line(b, key, i) == key_line(b, key, m),
    decreases m - i,
{
    if i < m {
        lemma_line_end(a, i);
        let e = line_end(a, i);
        if e > m {
            assert(a[m - 1] != '\n');
        }
        if e < m {
            assert(a[e - 1] == '\n');
        }
        assert(e <= m && a[e - 1] == '\n');
        assert forall|k: int| i <= k < e - 1 implies b[k] != '\n' by {
            assert(a[k] != '\n');
        }
        lemma_line_ends_at(b, i, e);
        lemma_same_line(a, b, key, i, e);
        assert(!sets_key(a, key, i, e));
        lemma_lines_passed(a, b, key, e, m);
    }
}

/// A line feed at the end of a text makes no line set a key.
proof fn lemma_line_feed_sets_nothing(text: Seq<char>, key: Seq<char>, i: int)
    requires
        0 <= i <= text.len(),
        key.len() > 0,
        !key.contains('\n'),
        text.len() == 0 || text.last() != '\n',
        key_line(text, key, i) is None,
    ensures
        key_line(text.push('\n'), key, i) is None,
    decreases text.len() - i,
{
    let longer = text.push('\n');
    let n = text.len() as int;
    if i < n {
        lemma_line_end(text, i);
        let e = line_end(text, i);
        if e < n {
            assert forall|k: int| i <= k < e - 1 implies longer[k] != '\n' by {
                assert(text[k] != '\n');
            }
            lemma_line_ends_at(longer, i, e);
            lemma_same_line(text, longer, key, i, e);
            lemma_line_feed_sets_nothing(text, key, e);
        } else {
            assert forall|k: int| i <= k < n implies longer[k] != '\n' by {
                if k < n - 1 {
                    assert(text[k] != '\n');
                }
            }
            lemma_line_ends_at(longer, i, n + 1);
            lemma_last_line(text, key, i);
            assert(key_line(longer, key, n + 1) is None);
        }
    } else {
        assert(longer[n] == '\n');
        lemma_line_ends_at(longer, n, n + 1);
        lemma_spaces(longer, n, n + 1);
        assert(spaces(longer, n, n + 1) == 1) by {
            assert(spaces(longer, n + 1, n + 1) == 0);
        }
        assert(!sets_key(longer, key, n, n + 1));
        assert(key_line(longer, key, n + 1) is None);
    }
}

/// A line feed after the last line does not make it set a key.
proof fn lemma_last_line(text: Seq<char>, key: Seq<char>, i: int)
    requires
        0 <= i < text.len(),
        key.len() > 0,
        !key.contains('\n'),
        !sets_key(text, key, i, text.len() as int),
    ensures
        !sets_key(text.push('\n'), key, i, (text.len() + 1) as int),
{
    let longer = text.push('\n');
    let n = text.len() as int;
    lemma_more_spaces(text, i);
    lemma_spaces(text, i, n);
    let at = i + spaces(text, i, n);
    if at < n {
        let after = at + key.len();
        if stands(longer, key, at, n + 1) {
            if after == n + 1 {
                assert(longer.subrange(at, after)[key.len() - 1] == '\n');
                assert(key[key.len() - 1] == '\n');
                assert(key.contains('\n'));
            }
            assert(longer.subrange(at, after) =~= text.subrange(at, after));
            lemma_more_spaces(text, after);
            lemma_spaces(text, after, n);
        }
    }
}

/// White space before a line feed at the end of a text.
proof fn lemma_more_spaces(text: Seq<char>, from: int)
    requires
        0 <= from <= text.len(),
    ensures
        spaces(text.push('\n'), from, (text.len() + 1) as int) == (if from + spaces(
            text,
            from,
            text.len() as int,
        ) == text.len() {
            spaces(text, from, text.len() as int) + 1
        } else {
            spaces(text, from, text.len() as int)
        }),
    decreases text.len() - from,
{
    let longer = text.push('\n');
    let n = text.len() as int;
    if from < n {
        assert(longer[from] == text[from]);
        if is_space(text[from]) {
            lemma_more_spaces(text, from + 1);
        } else {
            lemma_spaces(text, from, n);
        }
    } else {
        assert(spaces(longer, n + 1, n + 1) == 0);
    }
}

/// How many characters of white space come before one that is none.
pub proof fn lemma_spaces_are(text: Seq<char>, from: int, at: int, to: int)
    requires
        from <= at < to,
        forall|k: int| from <= k < at ==> is_space(text[k]),
        !is_space(text[at]),
    ensures
        spaces(text, from, to) == at - from,
    decreases at - from,
{
    if from < at {
        assert(is_space(text[from]));
        lemma_spaces_are(text, from + 1, at, to);
    }
}

/// Whether the line from `from` on sets `key` to `value`: the line sets the
/// key, and the value stands after it.
pub open spec fn holds_value(text: Seq<char>, key: Seq<char>, value: Seq<char>, from: int) -> bool {
    let to = line_end(text, from);
    let at = from + spaces(text, from, to);
    &&& sets_key(text, key, from, to)
    &&& stands(text, key + seq![' ', '=', ' '] + value, at, to)
}

/// A line that begins with white space, the key, an equals sign and the value,
/// and ends where its only line feed is, holds the value.
proof fn lemma_line_holds(
    text: Seq<char>,
    key: Seq<char>,
    value: Seq<char>,
    from: int,
    at: int,
    end: int,
)
    requires
        0 <= from <= at,
        key.len() > 0,
        !is_space(key[0]),
        at + key.len() + 3 + value.len() < end <= text.len(),
        forall|k: int| from <= k < at ==> is_space(text[k]),
        text.subrange(at, at + key.len() + 3 + value.len()) == key + seq![' ', '=', ' '] + value,
        forall|k: int| from <= k < end - 1 ==> text[k] != '\n',
        text[end - 1] == '\n',
    ensures
        line_end(text, from) == end,
        holds_value(text, key, value, from),
{
    lemma_line_ends_at(text, from, end);
    let set = key + seq![' ', '=', ' '] + value;
    let part = text.subrange(at, at + key.len() + 3 + value.len());
    let after = at + key.len();
    assert(text[at] == part[0] && part[0] == set[0] && set[0] == key[0]);
    lemma_spaces_are(text, from, at, end);
    assert(text[after] == part[key.len() as int] && set[key.len() as int] == ' ');
    assert(text[after + 1] == part[(key.len() + 1) as int] && set[(key.len() + 1) as int] == '=');
    lemma_spaces_are(text, after, after + 1, end);
    assert(text.subrange(at, after) =~= key) by {
        assert forall|k: int| 0 <= k < key.len() implies text.subrange(at, after)[k] == key[k] by {
            assert(text.subrange(at, after)[k] == part[k]);
            assert(part[k] == set[k]);
            assert(set[k] == key[k]);
        }
    }
    assert(set.len() == key.len() + 3 + value.len());
}

/// What the new line looks like: indented with white space, then the key and
/// the value, and one line feed at its end.
proof fn lemma_new_line(block: Seq<char>, key: Seq<char>, value: Seq<char>, from: int)
    requires
        0 <= from < block.len(),
        key.len() > 0,
        !key.contains('\n'),
        !value.contains('\n'),
        sets_key(block, key, from, line_end(block, from)),
    ensures
        ({
            let to = line_end(block, from);
            let indent = spaces(block, from, to);
            let set = key + seq![' ', '=', ' '] + value;
            let line = new_line(block, key, value, from, to);
            &&& 0 <= indent
            &&& indent + set.len() < line.len()
            &&& line.subrange(indent, indent + set.len()) == set
            &&& forall|k: int| 0 <= k < indent ==> is_space(#[trigger] line[k])
            &&& forall|k: int| 0 <= k < line.len() - 1 ==> #[trigger] line[k] != '\n'
            &&& line.last() == '\n'
        }),
{
    let to = line_end(block, from);
    lemma_line_end(block, from);
    lemma_spaces(block, from, to);
    let n = spaces(block, from, to);
    let set = key + seq![' ', '=', ' '] + value;
    let line = new_line(block, key, value, from, to);
    let indent = block.subrange(from, from + n);
    let hash = first_at(block, seq!['#'], from, to);
    lemma_first_at(block, seq!['#'], from, to);
    let told = match hash {
        Some(h) => seq![' '] + block.subrange(h, trimmed_end(block, h, to)),
        None => Seq::empty(),
    };
    if let Some(h) = hash {
        lemma_trimmed_end(block, h, to);
        lemma_comment(block, from, h);
    }
    assert(line =~= indent + set + told + seq!['\n']);
    assert(line.subrange(n, n + set.len()) =~= set);
    assert forall|k: int| 0 <= k < n implies is_space(#[trigger] line[k]) by {
        assert(line[k] == block[from + k]);
    }
    lemma_set_has_no_line_feed(key, value);
    assert forall|k: int| 0 <= k < line.len() - 1 implies #[trigger] line[k] != '\n' by {
        if k < n {
            assert(line[k] == block[from + k]);
        } else if k < n + set.len() {
            assert(line[k] == set[k - n]);
        } else {
            assert(line[k] == told[k - n - set.len()]);
        }
    }
}

/// What is set holds no line feed.
proof fn lemma_set_has_no_line_feed(key: Seq<char>, value: Seq<char>)
    requires
        !key.contains('\n'),
        !value.contains('\n'),
    ensures
        ({
            let set = key + seq![' ', '=', ' '] + value;
            forall|k: int| 0 <= k < set.len() ==> #[trigger] set[k] != '\n'
        }),
{
    let set = key + seq![' ', '=', ' '] + value;
    assert forall|k: int| 0 <= k < set.len() implies #[trigger] set[k] != '\n' by {
        if k < key.len() {
            assert(key.contains(key[k]));
        } else if k >= key.len() + 3 {
            assert(value.contains(value[k - key.len() - 3]));
        }
    }
}

/// A comment that is kept holds no line feed.
proof fn lemma_comment(block: Seq<char>, from: int, h: int)
    requires
        0 <= from <= h < line_end(block, from),
        from < block.len(),
    ensures
        ({
            let kept = seq![' '] + block.subrange(h, trimmed_end(block, h, line_end(block, from)));
            forall|k: int| 0 <= k < kept.len() ==> #[trigger] kept[k] != '\n'
        }),
{
    let to = line_end(block, from);
    lemma_line_end(block, from);
    lemma_trimmed_end(block, h, to);
    let end = trimmed_end(block, h, to);
    let kept = seq![' '] + block.subrange(h, end);
    assert forall|k: int| 0 <= k < kept.len() implies #[trigger] kept[k] != '\n' by {
        if k >= 1 {
            let c = h + k - 1;
            assert(kept[k] == block[c]);
            if c == to - 1 && block[c] == '\n' {
                assert(is_space(block[to - 1]));
                lemma_trimmed_end(block, h, to - 1);
            }
        }
    }
}

/// A value set in a line of the block reads back.
proof fn lemma_replaced_reads_back(
    block: Seq<char>,
    key: Seq<char>,
    value: Seq<char>,
    from: int,
)
    requires
        key.len() > 0,
        !is_space(key[0]),
        !key.contains('\n'),
        !value.contains('\n'),
        key_line(block, key, 0) == Some(from),
    ensures
        key_line(with_value(block, key, value), key, 0) == Some(from),
        holds_value(with_value(block, key, value), key, value, from),
        line_end(with_value(block, key, value), from) == from + new_line(
            block,
            key,
            value,
            from,
            line_end(block, from),
        ).len(),
{
    let t = with_value(block, key, value);
    let set = key + seq![' ', '=', ' '] + value;
    lemma_key_line(block, key, 0);
    lemma_new_line(block, key, value, from);
    lemma_line_end(block, from);
    let to = line_end(block, from);
    let n = spaces(block, from, to);
    let line = new_line(block, key, value, from, to);
    let end = from + line.len();
    assert forall|k: int| 0 <= k < line.len() implies #[trigger] t[from + k] == line[k] by {}
    assert forall|k: int| from <= k < from + n implies is_space(t[k]) by {
        assert(t[from + (k - from)] == line[k - from]);
    }
    assert(t.subrange(from + n, from + n + set.len()) =~= set) by {
        assert forall|k: int| 0 <= k < set.len() implies t.subrange(
            from + n,
            from + n + set.len(),
        )[k] == set[k] by {
            assert(t[from + (n + k)] == line[n + k]);
            assert(line.subrange(n, n + set.len())[k] == line[n + k]);
        }
    }
    assert forall|k: int| from <= k < end - 1 implies t[k] != '\n' by {
        assert(t[from + (k - from)] == line[k - from]);
    }
    assert(t[from + (line.len() - 1)] == line[line.len() - 1]);
    lemma_line_holds(t, key, value, from, from + n, end);
    assert forall|k: int| 0 <= k < from implies block[k] == t[k] by {}
    lemma_lines_passed(block, t, key, 0, from);
    assert(key_line(t, key, from) == Some(from));
}

/// A value set in a line of its own reads back.
proof fn lemma_added_reads_back(block: Seq<char>, key: Seq<char>, value: Seq<char>)
    requires
        key.len() > 0,
        !is_space(key[0]),
        !key.contains('\n'),
        !value.contains('\n'),
        key_line(block, key, 0) is None,
    ensures
        key_line(with_value(block, key, value), key, 0) matches Some(i) && holds_value(
            with_value(block, key, value),
            key,
            value,
            i,
        ) && i == with_value(block, key, value).len() - key.len() - value.len() - 4 && line_end(
            with_value(block, key, value),
            i,
        ) == with_value(block, key, value).len(),
{
    let t = with_value(block, key, value);
    let set = key + seq![' ', '=', ' '] + value;
    let ended = if block.len() > 0 && block.last() == '\n' {
        block
    } else {
        block.push('\n')
    };
    if !(block.len() > 0 && block.last() == '\n') {
        lemma_line_feed_sets_nothing(block, key, 0);
    }
    let m = ended.len() as int;
    let end = t.len() as int;
    assert(t =~= ended + set + seq!['\n']);
    assert(t.subrange(m, m + set.len()) =~= set);
    lemma_set_has_no_line_feed(key, value);
    assert forall|k: int| m <= k < end - 1 implies t[k] != '\n' by {
        assert(t[k] == set[k - m]);
    }
    lemma_line_holds(t, key, value, m, m, end);
    lemma_lines_passed(ended, t, key, 0, m);
    assert(key_line(t, key, m) == Some(m));
}

/// A value that was set reads back: the first line that sets its key is there
/// and holds it. The key is a word and the value does not break the line.
pub proof fn law_a_value_reads_back(block: Seq<char>, key: Seq<char>, value: Seq<char>)
    requires
        key.len() > 0,
        !is_space(key[0]),
        !key.contains('\n'),
        !value.contains('\n'),
    ensures
        key_line(with_value(block, key, value), key, 0) matches Some(i) && holds_value(
            with_value(block, key, value),
            key,
            value,
            i,
        ),
{
    match key_line(block, key, 0) {
        Some(from) => lemma_replaced_reads_back(block, key, value, from),
        None => lemma_added_reads_back(block, key, value),
    }
}

/// Setting a value leaves every line before and after the one that sets its
/// key as it is, and where no line sets it the whole block.
pub proof fn law_everything_else_is_kept(block: Seq<char>, key: Seq<char>, value: Seq<char>)
    ensures
        match key_line(block, key, 0) {
            Some(from) => block.take(from).is_prefix_of(with_value(block, key, value))
                && block.skip(line_end(block, from)).is_suffix_of(with_value(block, key, value)),
            None => block.is_prefix_of(with_value(block, key, value)),
        },
{
    let t = with_value(block, key, value);
    lemma_key_line(block, key, 0);
    match key_line(block, key, 0) {
        Some(from) => {
            lemma_line_end(block, from);
            let to = line_end(block, from);
            let line = new_line(block, key, value, from, to);
            assert(t =~= block.take(from) + line + block.skip(to));
            assert(block.take(from) =~= t.subrange(0, from));
            assert(block.skip(to) =~= t.subrange(
                t.len() - block.skip(to).len(),
                t.len() as int,
            ));
        },
        None => {
            assert(block =~= t.subrange(0, block.len() as int));
        },
    }
}

/// Where a character stands first in a range, if it does.
proof fn lemma_first_char(text: Seq<char>, c: char, from: int, i: int, to: int)
    requires
        0 <= from <= i <= to <= text.len(),
        forall|k: int| from <= k < i ==> text[k] != c,
        i < to ==> text[i] == c,
    ensures
        first_at(text, seq![c], from, to) == (if i < to {
            Some(i)
        } else {
            None
        }),
{
    assert forall|k: int| from <= k < i implies !#[trigger] stands(text, seq![c], k, to) by {
        if stands(text, seq![c], k, to) {
            assert(text.subrange(k, k + 1)[0] == text[k]);
        }
    }
    if i < to {
        assert(text.subrange(i, i + 1) =~= seq![c]);
        lemma_first_is(text, seq![c], from, i, to);
    } else {
        lemma_first_at(text, seq![c], from, to);
    }
}

/// The comment that a line keeps, and the space before it.
pub open spec fn kept_comment(text: Seq<char>, from: int, to: int) -> Seq<char> {
    match first_at(text, seq!['#'], from, to) {
        Some(at) => seq![' '] + text.subrange(at, trimmed_end(text, at, to)),
        None => Seq::empty(),
    }
}

/// A line that was set keeps its comment when it is set again.
proof fn lemma_comment_stays(text: Seq<char>, from: int, p: int, comment: Seq<char>, to: int)
    requires
        0 <= from <= p < to <= text.len(),
        forall|k: int| from <= k < p ==> text[k] != '#',
        text.subrange(p, to) == comment + seq!['\n'],
        comment.len() > 0 ==> comment.len() > 1 && comment[0] == ' ' && comment[1] == '#'
            && !is_space(comment.last()),
    ensures
        kept_comment(text, from, to) == comment,
{
    let part = text.subrange(p, to);
    assert(part.last() == '\n' && text[to - 1] == part.last());
    if comment.len() > 0 {
        assert(text[p] == part[0]);
        assert(text[p + 1] == part[1]);
        lemma_first_char(text, '#', from, p + 1, to);
        assert(text[to - 2] == part[part.len() - 2]);
        assert(trimmed_end(text, p + 1, to) == trimmed_end(text, p + 1, to - 1));
        assert(trimmed_end(text, p + 1, to - 1) == to - 1);
        assert(kept_comment(text, from, to) =~= comment) by {
            assert forall|k: int| 0 <= k < comment.len() implies kept_comment(text, from, to)[k]
                == comment[k] by {
                assert(part[k] == text[p + k]);
            }
        }
    } else {
        assert(part.len() == 1);
        lemma_first_char(text, '#', from, to, to);
    }
}

/// What replaces a line that is made of an indent, a setting and a comment.
proof fn lemma_line_replaced(
    text: Seq<char>,
    indent: Seq<char>,
    key: Seq<char>,
    first: Seq<char>,
    comment: Seq<char>,
    last: Seq<char>,
    from: int,
    to: int,
)
    requires
        0 <= from < to <= text.len(),
        text.subrange(from, to) == indent + (key + seq![' ', '=', ' '] + first) + (comment
            + seq!['\n']),
        forall|k: int| 0 <= k < indent.len() ==> is_space(#[trigger] indent[k]),
        key.len() > 0,
        !is_space(key[0]),
        !key.contains('#'),
        !first.contains('#'),
        comment.len() > 0 ==> comment.len() > 1 && comment[0] == ' ' && comment[1] == '#'
            && !is_space(comment.last()),
    ensures
        new_line(text, key, last, from, to) == indent + key + seq![' ', '=', ' '] + last + comment
            + seq!['\n'],
{
    let line = text.subrange(from, to);
    let set = key + seq![' ', '=', ' '] + first;
    let n = indent.len() as int;
    let tail = comment + seq!['\n'];
    let p = from + n + set.len();
    assert(line.len() == to - from && line.len() == n + set.len() + tail.len());
    assert forall|k: int| 0 <= k < line.len() implies #[trigger] line[k] == text[from + k] by {}
    assert forall|k: int| from <= k < from + n implies is_space(text[k]) by {
        assert(line[k - from] == indent[k - from]);
    }
    assert(text[from + n] == line[n] && line[n] == set[0] && set[0] == key[0]);
    lemma_spaces_are(text, from, from + n, to);
    assert(text.subrange(from, from + n) =~= indent) by {
        assert forall|k: int| 0 <= k < n implies text.subrange(from, from + n)[k] == indent[k] by {
            assert(line[k] == indent[k]);
        }
    }
    assert(text.subrange(p, to) =~= comment + seq!['\n']) by {
        assert forall|k: int| 0 <= k < comment.len() + 1 implies text.subrange(p, to)[k] == (comment
            + seq!['\n'])[k] by {
            assert(line[n + set.len() + k] == (comment + seq!['\n'])[k]);
        }
    }
    assert forall|k: int| from <= k < p implies text[k] != '#' by {
        if k < from + n {
            assert(is_space(text[k]));
        } else {
            let at = k - from - n;
            assert(line[n + at] == set[at]);
            if at < key.len() {
                assert(key.contains(key[at]));
            } else if at >= key.len() + 3 {
                assert(first.contains(first[at - key.len() - 3]));
            }
        }
    }
    lemma_comment_stays(text, from, p, comment, to);
    assert(new_line(text, key, last, from, to) =~= indent + key + seq![' ', '=', ' '] + last
        + comment + seq!['\n']);
}

/// What a comment that is kept looks like.
proof fn lemma_kept_comment(text: Seq<char>, from: int, to: int)
    requires
        0 <= from <= to <= text.len(),
    ensures
        ({
            let comment = kept_comment(text, from, to);
            comment.len() > 0 ==> comment.len() > 1 && comment[0] == ' ' && comment[1] == '#'
                && !is_space(comment.last())
        }),
{
    lemma_first_at(text, seq!['#'], from, to);
    if let Some(h) = first_at(text, seq!['#'], from, to) {
        assert(text.subrange(h, h + 1)[0] == text[h]);
        lemma_trimmed_end(text, h, to);
        lemma_trimmed_past(text, h, to);
        let comment = kept_comment(text, from, to);
        assert(comment.last() == text[trimmed_end(text, h, to) - 1]);
        assert(comment[1] == text[h]);
    }
}

/// The line that replaces one that was set is the one that would have replaced
/// the first.
proof fn lemma_line_set_again(
    block: Seq<char>,
    key: Seq<char>,
    first: Seq<char>,
    last: Seq<char>,
    from: int,
    to: int,
    line: Seq<char>,
    t: Seq<char>,
)
    requires
        0 <= from < to <= block.len(),
        key.len() > 0,
        !is_space(key[0]),
        !key.contains('#'),
        !first.contains('#'),
        line == new_line(block, key, first, from, to),
        line.len() > 0,
        from + line.len() <= t.len(),
        t.subrange(from, from + line.len()) == line,
    ensures
        new_line(t, key, last, from, from + line.len()) == new_line(block, key, last, from, to),
{
    lemma_spaces(block, from, to);
    lemma_kept_comment(block, from, to);
    let indent = block.subrange(from, from + spaces(block, from, to));
    let comment = kept_comment(block, from, to);
    lemma_new_line_is(block, key, first, from, to);
    lemma_new_line_is(block, key, last, from, to);
    assert forall|k: int| 0 <= k < indent.len() implies is_space(#[trigger] indent[k]) by {
        assert(indent[k] == block[from + k]);
    }
    lemma_line_replaced(t, indent, key, first, comment, last, from, from + line.len());
}

/// The part of a text that stands between two others.
proof fn lemma_within(before: Seq<char>, part: Seq<char>, behind: Seq<char>)
    ensures
        (before + part + behind).subrange(before.len() as int, (before.len() + part.len()) as int)
            == part,
{
    assert((before + part + behind).subrange(
        before.len() as int,
        (before.len() + part.len()) as int,
    ) =~= part);
}

/// What the line that replaces one is made of.
proof fn lemma_new_line_is(text: Seq<char>, key: Seq<char>, value: Seq<char>, from: int, to: int)
    ensures
        ({
            let indent = text.subrange(from, from + spaces(text, from, to));
            let comment = kept_comment(text, from, to);
            let line = new_line(text, key, value, from, to);
            &&& line == indent + key + seq![' ', '=', ' '] + value + comment + seq!['\n']
            &&& line == indent + (key + seq![' ', '=', ' '] + value) + (comment + seq!['\n'])
        }),
{
    let indent = text.subrange(from, from + spaces(text, from, to));
    let comment = kept_comment(text, from, to);
    let line = new_line(text, key, value, from, to);
    assert(line =~= indent + key + seq![' ', '=', ' '] + value + comment + seq!['\n']);
    assert(line =~= indent + (key + seq![' ', '=', ' '] + value) + (comment + seq!['\n']));
}

/// Text that starts with a character that is no white space is not trimmed away.
proof fn lemma_trimmed_past(text: Seq<char>, from: int, to: int)
    requires
        from < to,
        !is_space(text[from]),
    ensures
        trimmed_end(text, from, to) > from,
    decreases to - from,
{
    if is_space(text[to - 1]) {
        lemma_trimmed_past(text, from, to - 1);
    }
}

/// Of two values set for a key the last one stays, as if the first had never been
/// set: the last write wins, and setting a value twice is setting it once.
pub proof fn law_the_last_value_wins(
    block: Seq<char>,
    key: Seq<char>,
    first: Seq<char>,
    last: Seq<char>,
)
    requires
        key.len() > 0,
        !is_space(key[0]),
        !key.contains('\n'),
        !key.contains('#'),
        !first.contains('\n'),
        !first.contains('#'),
    ensures
        with_value(with_value(block, key, first), key, last) == with_value(block, key, last),
        with_value(with_value(block, key, first), key, first) == with_value(block, key, first),
{
    lemma_last_value_wins(block, key, first, last);
    lemma_last_value_wins(block, key, first, first);
}

proof fn lemma_last_value_wins(
    block: Seq<char>,
    key: Seq<char>,
    first: Seq<char>,
    last: Seq<char>,
)
    requires
        key.len() > 0,
        !is_space(key[0]),
        !key.contains('\n'),
        !key.contains('#'),
        !first.contains('\n'),
        !first.contains('#'),
    ensures
        with_value(with_value(block, key, first), key, last) == with_value(block, key, last),
{
    let t = with_value(block, key, first);
    match key_line(block, key, 0) {
        Some(from) => {
            lemma_key_line(block, key, 0);
            lemma_line_end(block, from);
            lemma_replaced_reads_back(block, key, first, from);
            let to = line_end(block, from);
            let end = line_end(t, from);
            let line = new_line(block, key, first, from, to);
            lemma_new_line_is(block, key, first, from, to);
            lemma_within(block.take(from), line, block.skip(to));
            lemma_line_set_again(block, key, first, last, from, to, line, t);
            assert(t.take(from) =~= block.take(from));
            assert(t.skip(end) =~= block.skip(to));
        },
        None => {
            lemma_added_reads_back(block, key, first);
            let m = key_line(t, key, 0)->0;
            let end = t.len() as int;
            let set = key + seq![' ', '=', ' '] + first;
            let ended = t.take(m);
            assert(t.subrange(m, end) =~= set + seq!['\n']);
            assert(t[m] == key[0]) by {
                assert(t.subrange(m, end)[0] == t[m]);
            }
            lemma_spaces_are(t, m, m, end);
            assert forall|k: int| m <= k < end implies t[k] != '#' by {
                assert(t.subrange(m, end)[k - m] == t[k]);
                let at = k - m;
                if at < key.len() {
                    assert(key.contains(key[at]));
                } else if key.len() + 3 <= at < set.len() {
                    assert(first.contains(first[at - key.len() - 3]));
                }
            }
            lemma_first_char(t, '#', m, end, end);
            assert(with_value(t, key, last) =~= ended + key + seq![' ', '=', ' '] + last
                + seq!['\n']);
            assert(with_value(block, key, last) =~= ended + key + seq![' ', '=', ' '] + last
                + seq!['\n']);
        },
    }
}

/// Whether `b` is `a` moved by `by`, from `from` on.
pub open spec fn moved(a: Seq<char>, b: Seq<char>, from: int, by: int) -> bool {
    &&& 0 <= from <= a.len()
    &&& 0 <= from + by
    &&& b.len() == a.len() + by
    &&& forall|k: int| from <= k < a.len() ==> #[trigger] a[k] == b[k + by]
}

proof fn lemma_moved_line_end(a: Seq<char>, b: Seq<char>, from: int, by: int, x: int)
    requires
        moved(a, b, from, by),
        from <= x,
    ensures
        line_end(b, x + by) == line_end(a, x) + by,
    decreases a.len() - x,
{
    if x < a.len() {
        assert(a[x] == b[x + by]);
        if a[x] != '\n' {
            lemma_moved_line_end(a, b, from, by, x + 1);
        }
    }
}

proof fn lemma_moved_spaces(a: Seq<char>, b: Seq<char>, from: int, by: int, x: int, y: int)
    requires
        moved(a, b, from, by),
        from <= x,
        y <= a.len(),
    ensures
        spaces(b, x + by, y + by) == spaces(a, x, y),
    decreases y - x,
{
    if x < y {
        assert(a[x] == b[x + by]);
        if is_space(a[x]) {
            lemma_moved_spaces(a, b, from, by, x + 1, y);
        }
    }
}

proof fn lemma_moved_stands(
    a: Seq<char>,
    b: Seq<char>,
    from: int,
    by: int,
    pattern: Seq<char>,
    x: int,
    y: int,
)
    requires
        moved(a, b, from, by),
        from <= x,
        y <= a.len(),
    ensures
        stands(b, pattern, x + by, y + by) == stands(a, pattern, x, y),
{
    if x + pattern.len() <= y {
        assert(b.subrange(x + by, x + by + pattern.len()) =~= a.subrange(x, x + pattern.len()));
    }
}

proof fn lemma_moved_sets(
    a: Seq<char>,
    b: Seq<char>,
    from: int,
    by: int,
    key: Seq<char>,
    x: int,
    y: int,
)
    requires
        moved(a, b, from, by),
        from <= x <= y <= a.len(),
    ensures
        sets_key(b, key, x + by, y + by) == sets_key(a, key, x, y),
{
    lemma_moved_spaces(a, b, from, by, x, y);
    lemma_spaces(a, x, y);
    let at = x + spaces(a, x, y);
    lemma_moved_stands(a, b, from, by, key, at, y);
    let after = at + key.len();
    if after <= y {
        lemma_moved_spaces(a, b, from, by, after, y);
        lemma_spaces(a, after, y);
        let equals = after + spaces(a, after, y);
        if equals < y {
            assert(a[equals] == b[equals + by]);
        }
    }
}

proof fn lemma_moved_key_line(a: Seq<char>, b: Seq<char>, from: int, by: int, key: Seq<char>, x: int)
    requires
        moved(a, b, from, by),
        from <= x,
    ensures
        key_line(b, key, x + by) == (match key_line(a, key, x) {
            Some(i) => Some(i + by),
            None => None,
        }),
    decreases a.len() - x,
{
    if x < a.len() {
        lemma_line_end(a, x);
        lemma_moved_line_end(a, b, from, by, x);
        let e = line_end(a, x);
        lemma_moved_sets(a, b, from, by, key, x, e);
        if !sets_key(a, key, x, e) {
            lemma_moved_key_line(a, b, from, by, key, e);
        }
    }
}

/// Whether a text is a word: it has characters, and none of them is white space
/// or an equals sign.
pub open spec fn is_word(text: Seq<char>) -> bool {
    text.len() > 0 && forall|i: int|
        0 <= i < text.len() ==> !is_space(#[trigger] text[i]) && text[i] != '='
}

/// A line sets one word at most.
proof fn lemma_one_key_per_line(text: Seq<char>, a: Seq<char>, b: Seq<char>, from: int, to: int)
    requires
        is_word(a),
        is_word(b),
        0 <= from <= to <= text.len(),
        sets_key(text, a, from, to),
        sets_key(text, b, from, to),
    ensures
        a == b,
{
    lemma_spaces(text, from, to);
    let at = from + spaces(text, from, to);
    let part_a = text.subrange(at, at + a.len());
    let part_b = text.subrange(at, at + b.len());
    lemma_spaces(text, at + a.len(), to);
    lemma_spaces(text, at + b.len(), to);
    let next_a = at + a.len();
    let next_b = at + b.len();
    assert(next_a < to && (is_space(text[next_a]) || text[next_a] == '='));
    assert(next_b < to && (is_space(text[next_b]) || text[next_b] == '='));
    if a.len() < b.len() {
        assert(part_b[a.len() as int] == text[next_a]);
        assert(b[a.len() as int] == text[next_a]);
    }
    if b.len() < a.len() {
        assert(part_a[b.len() as int] == text[next_b]);
        assert(a[b.len() as int] == text[next_b]);
    }
    assert(part_a =~= part_b);
}

/// A line that is the same in two texts, up to its line feed, holds the same
/// value in both.
proof fn lemma_same_value(
    a: Seq<char>,
    b: Seq<char>,
    key: Seq<char>,
    value: Seq<char>,
    i: int,
    e: int,
)
    requires
        0 <= i < e <= a.len(),
        e <= b.len(),
        e == line_end(a, i),
        a[e - 1] == '\n',
        forall|k: int| i <= k < e ==> a[k] == b[k],
        holds_value(a, key, value, i),
    ensures
        line_end(b, i) == e,
        holds_value(b, key, value, i),
        key_line(b, key, i) == Some(i),
{
    lemma_line_end(a, i);
    assert forall|k: int| i <= k < e - 1 implies b[k] != '\n' by {
        assert(a[k] != '\n');
    }
    lemma_line_ends_at(b, i, e);
    lemma_same_line(a, b, key, i, e);
    lemma_same_spaces(a, b, i, e);
    lemma_spaces(a, i, e);
    let at = i + spaces(a, i, e);
    let set = key + seq![' ', '=', ' '] + value;
    assert(b.subrange(at, at + set.len()) =~= a.subrange(at, at + set.len()));
}

/// A line that starts before another line ends before it starts.
proof fn lemma_earlier_line(text: Seq<char>, i: int, next: int)
    requires
        0 <= i < next <= text.len(),
        text[next - 1] == '\n',
    ensures
        line_end(text, i) <= next,
        text[line_end(text, i) - 1] == '\n',
{
    lemma_line_end(text, i);
    if line_end(text, i) > next {
        assert(text[next - 1] != '\n');
    }
}

/// Setting one key leaves the value of another: where another word's value reads
/// back before, it reads back after.
pub proof fn law_other_values_are_kept(
    block: Seq<char>,
    key: Seq<char>,
    value: Seq<char>,
    other: Seq<char>,
    held: Seq<char>,
    i: int,
)
    requires
        is_word(key),
        is_word(other),
        key != other,
        !value.contains('\n'),
        key_line(block, other, 0) == Some(i),
        holds_value(block, other, held, i),
    ensures
        key_line(with_value(block, key, value), other, 0) matches Some(j) && holds_value(
            with_value(block, key, value),
            other,
            held,
            j,
        ),
{
    assert(!key.contains('\n')) by {
        if key.contains('\n') {
            let k = choose|k: int| 0 <= k < key.len() && key[k] == '\n';
            assert(!is_space(key[k]));
        }
    }
    lemma_key_line(block, other, 0);
    lemma_key_line(block, key, 0);
    match key_line(block, key, 0) {
        Some(from) => lemma_kept_beside_replaced(block, key, value, other, held, i, from),
        None => lemma_kept_before_added(block, key, value, other, held, i),
    }
}

#[verifier::rlimit(40)]
#[verifier::spinoff_prover]
proof fn lemma_kept_beside_replaced(
    block: Seq<char>,
    key: Seq<char>,
    value: Seq<char>,
    other: Seq<char>,
    held: Seq<char>,
    i: int,
    from: int,
)
    requires
        is_word(key),
        is_word(other),
        key != other,
        !key.contains('\n'),
        !value.contains('\n'),
        key_line(block, other, 0) == Some(i),
        key_line(block, key, 0) == Some(from),
        holds_value(block, other, held, i),
    ensures
        key_line(with_value(block, key, value), other, 0) matches Some(j) && holds_value(
            with_value(block, key, value),
            other,
            held,
            j,
        ),
{
    let t = with_value(block, key, value);
    lemma_key_line(block, other, 0);
    lemma_key_line(block, key, 0);
    lemma_line_end(block, from);
    let to = line_end(block, from);
    let line = new_line(block, key, value, from, to);
    assert(t =~= block.take(from) + line + block.skip(to));
    if i == from {
        lemma_one_key_per_line(block, key, other, from, to);
    }
    assert forall|k: int| 0 <= k < from implies block[k] == t[k] by {}
    if i < from {
        lemma_earlier_line(block, i, from);
        lemma_lines_passed(block, t, other, 0, i);
        lemma_same_value(block, t, other, held, i, line_end(block, i));
    } else {
        lemma_lines_passed(block, t, other, 0, from);
        lemma_lines_passed(block, block, other, 0, from);
        if sets_key(block, other, from, to) {
            lemma_one_key_per_line(block, key, other, from, to);
        }
        assert(key_line(block, other, from) == key_line(block, other, to));
        lemma_replaced_reads_back(block, key, value, from);
        lemma_new_line(block, key, value, from);
        let end = from + line.len();
        assert(line_end(t, from) == end) by {
            assert forall|k: int| from <= k < end - 1 implies t[k] != '\n' by {
                assert(t[k] == line[k - from]);
            }
            assert(t[end - 1] == line[line.len() - 1]);
            lemma_line_ends_at(t, from, end);
        }
        if sets_key(t, other, from, end) {
            lemma_one_key_per_line(t, key, other, from, end);
        }
        let by = end - to;
        assert forall|k: int| to <= k < block.len() implies #[trigger] block[k] == t[k + by] by {
            assert(t[k + by] == block.skip(to)[k - to]);
        }
        assert(moved(block, t, to, by));
        lemma_moved_key_line(block, t, to, by, other, to);
        lemma_key_line(block, other, to);
        lemma_moved_line_end(block, t, to, by, i);
        lemma_line_end(block, i);
        let e = line_end(block, i);
        lemma_moved_sets(block, t, to, by, other, i, e);
        lemma_moved_spaces(block, t, to, by, i, e);
        lemma_spaces(block, i, e);
        lemma_moved_stands(
            block,
            t,
            to,
            by,
            other + seq![' ', '=', ' '] + held,
            i + spaces(block, i, e),
            e,
        );
        assert(holds_value(t, other, held, i + by));
    }
}

proof fn lemma_kept_before_added(
    block: Seq<char>,
    key: Seq<char>,
    value: Seq<char>,
    other: Seq<char>,
    held: Seq<char>,
    i: int,
)
    requires
        is_word(other),
        key_line(block, other, 0) == Some(i),
        key_line(block, key, 0) is None,
        holds_value(block, other, held, i),
    ensures
        key_line(with_value(block, key, value), other, 0) == Some(i),
        holds_value(with_value(block, key, value), other, held, i),
{
    let t = with_value(block, key, value);
    let n = block.len() as int;
    lemma_key_line(block, other, 0);
    lemma_line_end(block, i);
    let e = line_end(block, i);
    assert forall|k: int| 0 <= k < n implies block[k] == t[k] by {}
    lemma_lines_passed(block, t, other, 0, i);
    if block[e - 1] == '\n' {
        lemma_same_value(block, t, other, held, i, e);
    } else {
        // The last line has no line feed of its own, and gets one.
        assert(e == n);
        assert(t[n] == '\n');
        assert forall|k: int| i <= k < n implies t[k] != '\n' by {
            assert(block[k] == t[k]);
        }
        lemma_line_ends_at(t, i, n + 1);
        lemma_spaces(block, i, n);
        let at = i + spaces(block, i, n);
        let set = other + seq![' ', '=', ' '] + held;
        assert(block.subrange(at, at + set.len()) == set);
        assert(t.subrange(at, at + set.len()) =~= set);
        assert(block[at] == set[0]) by {
            assert(block.subrange(at, at + set.len())[0] == block[at]);
        }
        assert(set[0] == other[0]);
        assert forall|k: int| i <= k < at implies is_space(t[k]) by {
            assert(block[k] == t[k]);
        }
        lemma_spaces_are(t, i, at, n + 1);
        let after = at + other.len();
        assert(t[after] == set[other.len() as int]) by {
            assert(t.subrange(at, at + set.len())[other.len() as int] == t[after]);
        }
        assert(t[after + 1] == set[other.len() as int + 1]) by {
            assert(t.subrange(at, at + set.len())[other.len() as int + 1] == t[after + 1]);
        }
        lemma_spaces_are(t, after, after + 1, n + 1);
        assert(t.subrange(at, after) =~= other) by {
            assert forall|k: int| 0 <= k < other.len() implies t.subrange(at, after)[k]
                == other[k] by {
                assert(t.subrange(at, at + set.len())[k] == set[k]);
            }
        }
    }
}

/// Blanks, tabs and the ends of lines are white space; letters, digits and signs are not,
/// and nothing past the ideographic blank is.
pub proof fn law_signs_are_no_white_space(c: char)
    ensures
        c == ' ' || c == '\t' || c == '\r' || c == '\n' ==> is_space(c),
        '!' <= c <= '~' ==> !is_space(c),
        c < '\t' || c > '\u{3000}' ==> !is_space(c),
{
}

/// Text is found at the first place where it stands, and is missed only where it stands
/// nowhere.
pub proof fn law_text_is_found_where_it_stands_first(
    text: Seq<char>,
    pattern: Seq<char>,
    from: int,
    to: int,
    k: int,
)
    requires
        0 <= from <= k,
        k + pattern.len() <= to <= text.len(),
        text.subrange(k, k + pattern.len()) == pattern,
    ensures
        first_at(text, pattern, from, to) matches Some(i) && from <= i <= k && text.subrange(
            i,
            i + pattern.len(),
        ) == pattern,
{
    lemma_first_at(text, pattern, from, to);
    assert(stands(text, pattern, k, to));
}

/// White space at the end is cut off, all of it and nothing else.
pub proof fn law_the_end_is_trimmed(text: Seq<char>, from: int, to: int)
    requires
        from <= to,
    ensures
        from <= trimmed_end(text, from, to) <= to,
        forall|k: int| trimmed_end(text, from, to) <= k < to ==> is_space(#[trigger] text[k]),
        from < trimmed_end(text, from, to) ==> !is_space(text[trimmed_end(text, from, to) - 1]),
    decreases to - from,
{
    if from < to && is_space(text[to - 1]) {
        law_the_end_is_trimmed(text, from, to - 1);
    }
}

/// Whether the key stands at `at` behind white space, and an equals sign at `equals` behind
/// white space after it, in the line from `from` up to `to`.
pub open spec fn sets_at(
    text: Seq<char>,
    key: Seq<char>,
    from: int,
    at: int,
    equals: int,
    to: int,
) -> bool {
    &&& from <= at && at + key.len() <= equals < to
    &&& forall|k: int| from <= k < at ==> is_space(#[trigger] text[k])
    &&& text.subrange(at, at + key.len()) == key
    &&& forall|k: int| at + key.len() <= k < equals ==> is_space(#[trigger] text[k])
    &&& text[equals] == '='
}

/// A line sets a key exactly if it is the key and an equals sign, with nothing but white
/// space before them and between.
pub proof fn law_what_sets_a_key(text: Seq<char>, key: Seq<char>, from: int, to: int)
    requires
        0 <= from <= to <= text.len(),
        key.len() > 0,
        !is_space(key[0]),
    ensures
        sets_key(text, key, from, to) <==> exists|at: int, equals: int|
            sets_at(text, key, from, at, equals, to),
{
    lemma_spaces(text, from, to);
    let at = from + spaces(text, from, to);
    let after = at + key.len();
    if sets_key(text, key, from, to) {
        lemma_spaces(text, after, to);
        let equals = after + spaces(text, after, to);
        assert(sets_at(text, key, from, at, equals, to));
    }
    if exists|at: int, equals: int| sets_at(text, key, from, at, equals, to) {
        let (a, e) = choose|at: int, equals: int| sets_at(text, key, from, at, equals, to);
        assert(text.subrange(a, a + key.len())[0] == text[a]);
        lemma_spaces_are(text, from, a, to);
        lemma_spaces_are(text, a + key.len(), e, to);
    }
}

/// The first line that sets a key is replaced where it stands. The line starts at `from`,
/// holds the key at `at` and its equals sign at `equals`, the comment from `hash` up to
/// `cut`, and ends before `to`. Its indent stays and its value goes; the lines around it
/// stay. A comment stays behind one blank, without white space at its end.
pub proof fn law_a_line_is_replaced_where_it_stands(
    block: Seq<char>,
    key: Seq<char>,
    value: Seq<char>,
    from: int,
    at: int,
    equals: int,
    hash: int,
    cut: int,
    to: int,
)
    requires
        0 <= from && equals < hash <= cut < to <= block.len(),
        from == 0 || block[from - 1] == '\n',
        forall|k: int| from <= k < to - 1 ==> block[k] != '\n',
        block[to - 1] == '\n',
        key_line(block.take(from), key, 0) is None,
        is_word(key),
        sets_at(block, key, from, at, equals, to),
        forall|k: int| from <= k < hash ==> block[k] != '#',
        hash < cut ==> block[hash] == '#' && !is_space(block[cut - 1]),
        forall|k: int| cut <= k < to ==> is_space(#[trigger] block[k]),
    ensures
        ({
            let set = block.subrange(from, at) + key + seq![' ', '=', ' '] + value;
            with_value(block, key, value) == block.take(from) + (if hash < cut {
                set + seq![' '] + block.subrange(hash, cut) + seq!['\n']
            } else {
                set + seq!['\n']
            }) + block.skip(to)
        }),
{
    lemma_line_ends_at(block, from, to);
    assert(block[at] == key[0]) by {
        assert(block.subrange(at, at + key.len())[0] == block[at]);
    }
    assert(!is_space(key[0]));
    lemma_spaces_are(block, from, at, to);
    lemma_spaces_are(block, at + key.len(), equals, to);
    assert(sets_key(block, key, from, to));
    assert(forall|k: int| 0 <= k < from ==> block.take(from)[k] == block[k]);
    lemma_lines_passed(block.take(from), block, key, 0, from);
    assert(key_line(block, key, 0) == Some(from));
    if hash < cut {
        lemma_first_char(block, '#', from, hash, to);
        lemma_trims_to(block, hash, cut, to);
    } else {
        assert forall|k: int| from <= k < to implies block[k] != '#' by {
            if k >= cut {
                assert(is_space(block[k]));
            }
        }
        lemma_first_char(block, '#', from, to, to);
    }
}

proof fn lemma_trims_to(text: Seq<char>, from: int, cut: int, to: int)
    requires
        from < cut <= to,
        !is_space(text[cut - 1]),
        forall|k: int| cut <= k < to ==> is_space(#[trigger] text[k]),
    ensures
        trimmed_end(text, from, to) == cut,
    decreases to - cut,
{
    if cut < to {
        assert(is_space(text[to - 1]));
        lemma_trims_to(text, from, cut, to - 1);
    }
}

/// A key that no line sets comes in a line of its own at the end, behind a line feed where
/// the block does not end in one; and setting it again then changes that line alone.
pub proof fn law_a_new_key_comes_last(block: Seq<char>, key: Seq<char>, value: Seq<char>)
    requires
        forall|from: int|
            0 <= from < block.len() && (from == 0 || block[from - 1] == '\n')
                ==> !#[trigger] sets_key(block, key, from, line_end(block, from)),
    ensures
        ({
            let line = key + seq![' ', '=', ' '] + value + seq!['\n'];
            with_value(block, key, value) == (if block.len() > 0 && block.last() == '\n' {
                block + line
            } else {
                block + seq!['\n'] + line
            })
        }),
{
    lemma_key_line(block, key, 0);
    let line = key + seq![' ', '=', ' '] + value + seq!['\n'];
    if block.len() > 0 && block.last() == '\n' {
        assert(with_value(block, key, value) =~= block + line);
    } else {
        assert(with_value(block, key, value) =~= block + seq!['\n'] + line);
    }
}

/// Whether a line starts at `start` whose first text behind white space, at `at`, is the
/// pattern.
pub open spec fn leads_at(text: Seq<char>, pattern: Seq<char>, start: int, at: int) -> bool {
    &&& start <= at && at + pattern.len() <= text.len()
    &&& forall|k: int| start <= k < at ==> is_space(#[trigger] text[k]) && text[k] != '\n'
    &&& text.subrange(at, at + pattern.len()) == pattern
}

/// A line is found by what it leads with: of the lines that start from `from` on and before
/// `to`, the first that leads with the pattern, and none only if none does.
pub proof fn law_the_first_line_that_leads_is_found(
    text: Seq<char>,
    pattern: Seq<char>,
    from: int,
    to: int,
    start: int,
    at: int,
)
    requires
        0 <= from <= start < to <= text.len(),
        start == from || text[start - 1] == '\n',
        pattern.len() > 0,
        !is_space(pattern[0]),
        !pattern.contains('\n'),
        leads_at(text, pattern, start, at),
    ensures
        line_at(text, pattern, from, to) matches Some(found) && from <= found <= at && exists|
            s: int,
        |
            (s == from || text[s - 1] == '\n') && from <= s <= start && #[trigger] leads_at(
                text,
                pattern,
                s,
                found,
            ),
    decreases text.len() - from,
{
    lemma_line_end(text, from);
    let end = line_end(text, from);
    lemma_spaces(text, from, end);
    let here = from + spaces(text, from, end);
    if stands(text, pattern, here, end) {
        assert(text.subrange(here, here + pattern.len())[0] == text[here]);
        assert forall|k: int| from <= k < here implies is_space(#[trigger] text[k]) && text[k]
            != '\n' by {
            assert(k < end - 1);
        }
        assert(leads_at(text, pattern, from, here));
        if start > from && at < here {
            assert(text[start - 1] != '\n');
        }
        if start == from && at < here {
            assert(text.subrange(at, at + pattern.len())[0] == text[at]);
        }
    } else {
        if start == from {
            assert(text.subrange(at, at + pattern.len())[0] == text[at]);
            assert forall|k: int| at <= k < at + pattern.len() implies text[k] != '\n' by {
                assert(text.subrange(at, at + pattern.len())[k - at] == text[k]);
                assert(pattern.contains(pattern[k - at]));
            }
            assert(at + pattern.len() <= end) by {
                if end < at + pattern.len() {
                    assert(text[end - 1] == '\n');
                }
            }
            lemma_spaces_are(text, from, at, end);
            assert(false);
        }
        assert(start >= end) by {
            if start < end {
                assert(start - 1 < end - 1);
                assert(text[start - 1] != '\n');
            }
        }
        law_the_first_line_that_leads_is_found(text, pattern, end, to, start, at);
        let s = choose|s: int|
            (s == end || text[s - 1] == '\n') && end <= s <= start && #[trigger] leads_at(
                text,
                pattern,
                s,
                line_at(text, pattern, end, to)->0,
            );
        assert(leads_at(text, pattern, s, line_at(text, pattern, from, to)->0));
        assert(s == end ==> text[s - 1] == '\n');
    }
}

} // verus!
