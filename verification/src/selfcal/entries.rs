//! Entries of a configuration file: a line, or the lines that an array goes over.
//!
//! The scan knows comments and strings, so that a bracket or a key in one of them
//! is taken for neither.
use crate::selfcal::lines::{
    does_set, end_of_line, is_space, lemma_line_end, lemma_line_ends_at, lemma_same_line, lemma_same_spaces,
    lemma_spaces, lemma_spaces_are, line_end, sets_at, sets_key, skip_spaces, spaces, stands,
};
use vstd::prelude::*;

verus! {

/// What a character is part of.
#[derive(Clone, Copy, Debug, PartialEq, Eq, Structural)]
pub enum Lex {
    /// Keys, values and brackets.
    Plain,
    /// A comment.
    Comment,
    /// A string in double quotes.
    Basic,
    /// Such a string, behind a backslash.
    Escaped,
    /// A string in single quotes.
    Literal,
}

/// What the character after `c` is part of.
pub open spec fn lex_after(lex: Lex, c: char) -> Lex {
    match lex {
        Lex::Plain => if c == '#' {
            Lex::Comment
        } else if c == '"' {
            Lex::Basic
        } else if c == '\'' {
            Lex::Literal
        } else {
            Lex::Plain
        },
        Lex::Comment => if c == '\n' {
            Lex::Plain
        } else {
            Lex::Comment
        },
        Lex::Basic => if c == '"' {
            Lex::Plain
        } else if c == '\\' {
            Lex::Escaped
        } else {
            Lex::Basic
        },
        Lex::Escaped => Lex::Basic,
        Lex::Literal => if c == '\'' {
            Lex::Plain
        } else {
            Lex::Literal
        },
    }
}

/// How many brackets are open after `c`.
pub open spec fn depth_after(lex: Lex, depth: nat, c: char) -> nat {
    if lex == Lex::Plain && c == '[' {
        depth + 1
    } else if lex == Lex::Plain && c == ']' && depth > 0 {
        (depth - 1) as nat
    } else {
        depth
    }
}

/// Whether an entry may end behind a line feed here.
pub open spec fn may_end(lex: Lex, depth: nat) -> bool {
    depth == 0 && (lex == Lex::Plain || lex == Lex::Comment)
}

/// Where an entry ends that has come to `from`: after the first line feed that is
/// in no string and in no bracket, or at the end of the text.
pub open spec fn entry_end(text: Seq<char>, from: int, lex: Lex, depth: nat) -> int
    decreases text.len() - from,
{
    if from >= text.len() {
        text.len() as int
    } else if text[from] == '\n' && may_end(lex, depth) {
        from + 1
    } else {
        entry_end(
            text,
            from + 1,
            lex_after(lex, text[from]),
            depth_after(lex, depth, text[from]),
        )
    }
}

/// Where the bracket stands that closes the last one that is open.
pub open spec fn closing(text: Seq<char>, from: int, lex: Lex, depth: nat) -> Option<int>
    decreases text.len() - from,
{
    if from >= text.len() {
        None
    } else if lex == Lex::Plain && text[from] == ']' && depth <= 1 {
        Some(from)
    } else {
        closing(
            text,
            from + 1,
            lex_after(lex, text[from]),
            depth_after(lex, depth, text[from]),
        )
    }
}

/// Whether the line at `from` starts a table.
pub open spec fn heads_table(text: Seq<char>, from: int) -> bool {
    stands(text, seq!['['], from + spaces(text, from, line_end(text, from)), line_end(text, from))
}

/// Where the first entry that sets `key` starts, from `from` on and before the
/// first table.
pub open spec fn top_entry(text: Seq<char>, key: Seq<char>, from: int) -> Option<int>
    decreases text.len() - from,
    via top_entry_ends
{
    if from >= text.len() || heads_table(text, from) {
        None
    } else if sets_key(text, key, from, line_end(text, from)) {
        Some(from)
    } else {
        top_entry(text, key, entry_end(text, from, Lex::Plain, 0))
    }
}

#[via_fn]
proof fn top_entry_ends(text: Seq<char>, key: Seq<char>, from: int) {
    if from < text.len() {
        lemma_entry_end(text, from, Lex::Plain, 0);
    }
}

/// Where the first entry that sets `key` starts, from `from` on, in whatever table.
pub open spec fn any_entry(text: Seq<char>, key: Seq<char>, from: int) -> Option<int>
    decreases text.len() - from,
    via any_entry_ends
{
    if from >= text.len() {
        None
    } else if sets_key(text, key, from, line_end(text, from)) {
        Some(from)
    } else {
        any_entry(text, key, entry_end(text, from, Lex::Plain, 0))
    }
}

#[via_fn]
proof fn any_entry_ends(text: Seq<char>, key: Seq<char>, from: int) {
    if from < text.len() {
        lemma_entry_end(text, from, Lex::Plain, 0);
    }
}

/// An entry ends after it starts, and within the text.
proof fn lemma_entry_end(text: Seq<char>, from: int, lex: Lex, depth: nat)
    requires
        from < text.len(),
    ensures
        from < entry_end(text, from, lex, depth) <= text.len(),
    decreases text.len() - from,
{
    let next = lex_after(lex, text[from]);
    let open = depth_after(lex, depth, text[from]);
    if from + 1 < text.len() {
        lemma_entry_end(text, from + 1, next, open);
    } else {
        assert(entry_end(text, from + 1, next, open) == text.len());
    }
}

/// Where the value of the key is that the line at `from` sets.
pub open spec fn value_at(text: Seq<char>, key: Seq<char>, from: int) -> int {
    let to = line_end(text, from);
    let after = from + spaces(text, from, to) + key.len();
    let behind = after + spaces(text, after, to) + 1;
    behind + spaces(text, behind, to)
}

/// Whether the line at `from` sets the key to an array.
pub open spec fn sets_array(text: Seq<char>, key: Seq<char>, from: int) -> bool {
    value_at(text, key, from) < line_end(text, from) && text[value_at(text, key, from)] == '['
}

/// What the character after `c` is part of.
fn next_lex(lex: Lex, c: char) -> (r: Lex)
    ensures
        r == lex_after(lex, c),
{
    match lex {
        Lex::Plain => {
            if c == '#' {
                Lex::Comment
            } else if c == '"' {
                Lex::Basic
            } else if c == '\'' {
                Lex::Literal
            } else {
                Lex::Plain
            }
        },
        Lex::Comment => {
            if c == '\n' {
                Lex::Plain
            } else {
                Lex::Comment
            }
        },
        Lex::Basic => {
            if c == '"' {
                Lex::Plain
            } else if c == '\\' {
                Lex::Escaped
            } else {
                Lex::Basic
            }
        },
        Lex::Escaped => Lex::Basic,
        Lex::Literal => {
            if c == '\'' {
                Lex::Plain
            } else {
                Lex::Literal
            }
        },
    }
}

/// How many brackets are open after `c`.
fn next_depth(lex: Lex, depth: usize, c: char) -> (r: usize)
    requires
        depth < usize::MAX,
    ensures
        r == depth_after(lex, depth as nat, c),
{
    if lex == Lex::Plain && c == '[' {
        depth + 1
    } else if lex == Lex::Plain && c == ']' && depth > 0 {
        depth - 1
    } else {
        depth
    }
}

/// Where the entry ends that starts at `from`.
fn end_of_entry(text: &Vec<char>, from: usize) -> (r: usize)
    requires
        from < text@.len(),
    ensures
        r == entry_end(text@, from as int, Lex::Plain, 0),
        from < r <= text@.len(),
{
    proof {
        lemma_entry_end(text@, from as int, Lex::Plain, 0);
    }
    let mut lex = Lex::Plain;
    let mut depth: usize = 0;
    let mut i: usize = from;
    while i < text.len()
        invariant
            from <= i <= text@.len(),
            depth <= i,
            entry_end(text@, from as int, Lex::Plain, 0) == entry_end(
                text@,
                i as int,
                lex,
                depth as nat,
            ),
            from < entry_end(text@, from as int, Lex::Plain, 0) <= text@.len(),
        decreases text@.len() - i,
    {
        let c = text[i];
        if c == '\n' && depth == 0 && (lex == Lex::Plain || lex == Lex::Comment) {
            return i + 1;
        }
        depth = next_depth(lex, depth, c);
        lex = next_lex(lex, c);
        i += 1;
    }
    i
}

/// Where the array is closed whose first character is at `from`.
pub fn close_of(text: &Vec<char>, from: usize) -> (r: Option<usize>)
    requires
        0 < from <= text@.len(),
    ensures
        match r {
            Some(i) => closing(text@, from as int, Lex::Plain, 1) == Some(i as int) && from <= i
                < text@.len(),
            None => closing(text@, from as int, Lex::Plain, 1) is None,
        },
{
    let mut lex = Lex::Plain;
    let mut depth: usize = 1;
    let mut i: usize = from;
    while i < text.len()
        invariant
            0 < from <= i <= text@.len(),
            depth <= i,
            closing(text@, from as int, Lex::Plain, 1) == closing(
                text@,
                i as int,
                lex,
                depth as nat,
            ),
        decreases text@.len() - i,
    {
        let c = text[i];
        if lex == Lex::Plain && c == ']' && depth <= 1 {
            return Some(i);
        }
        depth = next_depth(lex, depth, c);
        lex = next_lex(lex, c);
        i += 1;
    }
    None
}

/// Where the first entry that sets `key` starts, before the first table.
pub fn find_top(text: &Vec<char>, key: &Vec<char>) -> (r: Option<usize>)
    ensures
        match r {
            Some(i) => top_entry(text@, key@, 0) == Some(i as int) && i < text@.len() && sets_key(
                text@,
                key@,
                i as int,
                line_end(text@, i as int),
            ),
            None => top_entry(text@, key@, 0) is None,
        },
{
    let mut i: usize = 0;
    while i < text.len()
        invariant
            i <= text@.len(),
            top_entry(text@, key@, 0) == top_entry(text@, key@, i as int),
        decreases text@.len() - i,
    {
        let to: usize = end_of_line(text, i);
        let at: usize = skip_spaces(text, i, to);
        if at < to && text[at] == '[' {
            assert(text@.subrange(at as int, at + 1) =~= seq!['[']);
            return None;
        }
        proof {
            if heads_table(text@, i as int) {
                assert(text@.subrange(at as int, at + 1)[0] == text@[at as int]);
            }
        }
        if does_set(text, key, i, to) {
            return Some(i);
        }
        i = end_of_entry(text, i);
    }
    None
}

/// Where the first entry that sets `key` starts, in whatever table.
pub fn find_any(text: &Vec<char>, key: &Vec<char>) -> (r: Option<usize>)
    ensures
        match r {
            Some(i) => any_entry(text@, key@, 0) == Some(i as int) && i < text@.len() && sets_key(
                text@,
                key@,
                i as int,
                line_end(text@, i as int),
            ),
            None => any_entry(text@, key@, 0) is None,
        },
{
    let mut i: usize = 0;
    while i < text.len()
        invariant
            i <= text@.len(),
            any_entry(text@, key@, 0) == any_entry(text@, key@, i as int),
        decreases text@.len() - i,
    {
        let to: usize = end_of_line(text, i);
        if does_set(text, key, i, to) {
            return Some(i);
        }
        i = end_of_entry(text, i);
    }
    None
}

/// Where the array opens that the line at `from` sets the key to, if it is one.
pub fn find_array(text: &Vec<char>, key: &Vec<char>, from: usize) -> (r: Option<usize>)
    requires
        from < text@.len(),
        sets_key(text@, key@, from as int, line_end(text@, from as int)),
    ensures
        match r {
            Some(i) => sets_array(text@, key@, from as int) && i == value_at(
                text@,
                key@,
                from as int,
            ) && from <= i < text@.len(),
            None => !sets_array(text@, key@, from as int),
        },
{
    let to: usize = end_of_line(text, from);
    let after: usize = skip_spaces(text, from, to) + key.len();
    let equals: usize = skip_spaces(text, after, to);
    let at: usize = skip_spaces(text, equals + 1, to);
    if at < to && text[at] == '[' {
        Some(at)
    } else {
        None
    }
}

/// An entry is at least a line.
proof fn lemma_entry_holds_line(text: Seq<char>, from: int, lex: Lex, depth: nat)
    requires
        from < text.len(),
    ensures
        line_end(text, from) <= entry_end(text, from, lex, depth),
    decreases text.len() - from,
{
    lemma_entry_end(text, from, lex, depth);
    let next = lex_after(lex, text[from]);
    let open = depth_after(lex, depth, text[from]);
    if from + 1 < text.len() {
        lemma_entry_holds_line(text, from + 1, next, open);
    } else {
        assert(line_end(text, from + 1) == text.len());
        assert(entry_end(text, from + 1, next, open) == text.len());
    }
}

/// An entry that ends within what two texts share ends at the same place in both.
proof fn lemma_same_entry_end(a: Seq<char>, b: Seq<char>, from: int, m: int, lex: Lex, depth: nat)
    requires
        0 <= from < m <= a.len(),
        m <= b.len(),
        forall|k: int| from <= k < m ==> a[k] == b[k],
        entry_end(a, from, lex, depth) <= m,
        entry_end(a, from, lex, depth) < a.len(),
    ensures
        entry_end(b, from, lex, depth) == entry_end(a, from, lex, depth),
    decreases m - from,
{
    assert(a[from] == b[from]);
    if !(a[from] == '\n' && may_end(lex, depth)) {
        let next = lex_after(lex, a[from]);
        let open = depth_after(lex, depth, a[from]);
        if from + 1 == a.len() {
            assert(entry_end(a, from + 1, next, open) == a.len());
        }
        lemma_entry_end(a, from + 1, next, open);
        lemma_same_entry_end(a, b, from + 1, m, next, open);
    }
}

/// Where the entry is that `top_entry` gives.
pub proof fn lemma_top_entry(text: Seq<char>, key: Seq<char>, from: int)
    requires
        0 <= from,
    ensures
        top_entry(text, key, from) matches Some(f) ==> {
            &&& from <= f < text.len()
            &&& !heads_table(text, f)
            &&& sets_key(text, key, f, line_end(text, f))
        },
    decreases text.len() - from,
{
    if from < text.len() && !heads_table(text, from) && !sets_key(
        text,
        key,
        from,
        line_end(text, from),
    ) {
        lemma_entry_end(text, from, Lex::Plain, 0);
        lemma_top_entry(text, key, entry_end(text, from, Lex::Plain, 0));
    }
}

/// Entries that are shared are passed over in both texts.
proof fn lemma_entries_passed(a: Seq<char>, b: Seq<char>, key: Seq<char>, from: int, f: int)
    requires
        0 <= from,
        top_entry(a, key, from) == Some(f),
        f < b.len(),
        forall|k: int| 0 <= k < f ==> a[k] == b[k],
        !heads_table(b, f),
        sets_key(b, key, f, line_end(b, f)),
    ensures
        top_entry(b, key, from) == Some(f),
    decreases f - from,
{
    lemma_top_entry(a, key, from);
    if !sets_key(a, key, from, line_end(a, from)) {
        let e = entry_end(a, from, Lex::Plain, 0);
        lemma_entry_end(a, from, Lex::Plain, 0);
        lemma_top_entry(a, key, e);
        lemma_entry_holds_line(a, from, Lex::Plain, 0);
        lemma_same_entry_end(a, b, from, f, Lex::Plain, 0);
        lemma_line_end(a, from);
        let l = line_end(a, from);
        assert(l <= e <= f);
        assert forall|k: int| from <= k < l - 1 implies b[k] != '\n' by {
            assert(a[k] == b[k]);
        }
        lemma_line_ends_at(b, from, l);
        lemma_same_line(a, b, key, from, l);
        lemma_same_spaces(a, b, from, l);
        lemma_spaces(a, from, l);
        let at = from + spaces(a, from, l);
        if heads_table(b, from) {
            assert(b.subrange(at, at + 1)[0] == b[at]);
            assert(a.subrange(at, at + 1) =~= seq!['[']);
        }
        lemma_entries_passed(a, b, key, e, f);
    }
}

/// A line has at least the characters before its first line feed.
proof fn lemma_line_goes_on(text: Seq<char>, from: int, to: int)
    requires
        0 <= from <= to <= text.len(),
        forall|k: int| from <= k < to ==> text[k] != '\n',
    ensures
        to <= line_end(text, from),
    decreases to - from,
{
    if from < to {
        assert(text[from] != '\n');
        lemma_line_goes_on(text, from + 1, to);
    } else if from < text.len() {
        lemma_line_end(text, from);
    }
}

/// Texts that are shared up to where an array opens, and there open one, set the
/// key to an array at the same place.
proof fn lemma_same_array(a: Seq<char>, b: Seq<char>, key: Seq<char>, f: int)
    requires
        0 <= f < a.len(),
        sets_key(a, key, f, line_end(a, f)),
        !heads_table(a, f),
        sets_array(a, key, f),
        value_at(a, key, f) < b.len(),
        forall|k: int| 0 <= k < value_at(a, key, f) ==> a[k] == b[k],
        b[value_at(a, key, f)] == '[',
    ensures
        f < b.len(),
        sets_key(b, key, f, line_end(b, f)),
        !heads_table(b, f),
        sets_array(b, key, f),
        value_at(b, key, f) == value_at(a, key, f),
{
    lemma_line_end(a, f);
    let to = line_end(a, f);
    let at = f + spaces(a, f, to);
    lemma_spaces(a, f, to);
    let after = at + key.len();
    lemma_spaces(a, after, to);
    let equals = after + spaces(a, after, to);
    lemma_spaces(a, equals + 1, to);
    let open = value_at(a, key, f);
    assert(f <= at <= after <= equals < open < to);
    assert forall|k: int| f <= k <= open implies b[k] != '\n' by {
        if k < open {
            assert(a[k] != '\n');
        }
    }
    lemma_line_goes_on(b, f, open + 1);
    let end = line_end(b, f);
    lemma_line_end(b, f);
    assert forall|k: int| f <= k < at implies is_space(b[k]) by {
        assert(a[k] == b[k]);
    }
    lemma_spaces_are(b, f, at, end);
    assert(b.subrange(at, after) =~= a.subrange(at, after));
    lemma_spaces_are(b, after, equals, end);
    lemma_spaces_are(b, equals + 1, open, end);
    if heads_table(b, f) {
        assert(b.subrange(at, at + 1)[0] == b[at]);
        assert(a.subrange(at, at + 1) =~= seq!['[']);
    }
}

/// Whether a text holds nothing that opens or closes anything.
pub open spec fn is_flat(text: Seq<char>) -> bool {
    forall|k: int|
        0 <= k < text.len() ==> {
            &&& #[trigger] text[k] != '['
            &&& text[k] != ']'
            &&& text[k] != '#'
            &&& text[k] != '"'
            &&& text[k] != '\''
        }
}

/// A flat array is closed by the first bracket behind it.
pub proof fn lemma_flat_closes(text: Seq<char>, from: int, to: int)
    requires
        0 <= from <= to < text.len(),
        is_flat(text.subrange(from, to)),
        text[to] == ']',
    ensures
        closing(text, from, Lex::Plain, 1) == Some(to),
    decreases to - from,
{
    if from < to {
        assert(text.subrange(from, to)[0] == text[from]);
        assert forall|k: int| 0 <= k < to - from - 1 implies #[trigger] text.subrange(
            from + 1,
            to,
        )[k] == text.subrange(from, to)[k + 1] by {}
        lemma_flat_closes(text, from + 1, to);
    }
}

/// A bracket that closes is within the text.
pub proof fn lemma_closing(text: Seq<char>, from: int, lex: Lex, depth: nat)
    ensures
        closing(text, from, lex, depth) matches Some(i) ==> from <= i < text.len(),
    decreases text.len() - from,
{
    if from < text.len() {
        lemma_closing(
            text,
            from + 1,
            lex_after(lex, text[from]),
            depth_after(lex, depth, text[from]),
        );
    }
}

/// An array that a line sets a key to opens within that line.
pub proof fn lemma_value_within(text: Seq<char>, key: Seq<char>, from: int)
    requires
        0 <= from < text.len(),
        sets_key(text, key, from, line_end(text, from)),
        sets_array(text, key, from),
    ensures
        from < value_at(text, key, from) < text.len(),
{
    let to = line_end(text, from);
    lemma_line_end(text, from);
    lemma_spaces(text, from, to);
    let after = from + spaces(text, from, to) + key.len();
    lemma_spaces(text, after, to);
    lemma_spaces(text, after + spaces(text, after, to) + 1, to);
}

/// An entry that sets the key to an array is found where texts are shared up to
/// where the array opens.
pub proof fn lemma_array_found(a: Seq<char>, b: Seq<char>, key: Seq<char>, f: int)
    requires
        top_entry(a, key, 0) == Some(f),
        sets_array(a, key, f),
        value_at(a, key, f) < b.len(),
        forall|k: int| 0 <= k < value_at(a, key, f) ==> a[k] == b[k],
        b[value_at(a, key, f)] == '[',
    ensures
        top_entry(b, key, 0) == Some(f),
        sets_array(b, key, f),
        value_at(b, key, f) == value_at(a, key, f),
{
    lemma_top_entry(a, key, 0);
    lemma_value_within(a, key, f);
    lemma_same_array(a, b, key, f);
    lemma_entries_passed(a, b, key, 0, f);
}

/// A first line that sets the key to an array is found.
pub proof fn lemma_first_line_found(text: Seq<char>, key: Seq<char>)
    requires
        key.len() > 0,
        key.len() + 3 < text.len(),
        forall|k: int|
            0 <= k < key.len() ==> !is_space(#[trigger] text[k]) && text[k] != '[' && text[k]
                == key[k],
        text[key.len() as int] == ' ',
        text[key.len() as int + 1] == '=',
        text[key.len() as int + 2] == ' ',
        text[key.len() as int + 3] == '[',
    ensures
        top_entry(text, key, 0) == Some(0int),
        sets_array(text, key, 0),
        value_at(text, key, 0) == key.len() + 3,
{
    let open = key.len() as int + 3;
    assert forall|k: int| 0 <= k <= open implies text[k] != '\n' by {
        if k < key.len() {
            assert(!is_space(text[k]));
        }
    }
    lemma_line_goes_on(text, 0, open + 1);
    lemma_line_end(text, 0);
    let end = line_end(text, 0);
    assert(!is_space(text[0]));
    lemma_spaces_are(text, 0, 0, end);
    assert(text.subrange(0, key.len() as int) =~= key);
    lemma_spaces_are(text, key.len() as int, key.len() as int + 1, end);
    lemma_spaces_are(text, key.len() as int + 2, open, end);
    if heads_table(text, 0) {
        assert(text.subrange(0, 1)[0] == text[0]);
    }
}

/// A comment goes on to the end of its line, whatever it holds: no bracket in it opens or
/// closes, and no quote in it starts a string. An entry ends there if no bracket is open.
pub proof fn law_a_comment_ends_with_its_line(text: Seq<char>, from: int, to: int, depth: nat)
    requires
        0 <= from <= to < text.len(),
        forall|k: int| from <= k < to ==> text[k] != '\n',
        text[to] == '\n',
    ensures
        closing(text, from, Lex::Comment, depth) == closing(text, to + 1, Lex::Plain, depth),
        depth == 0 ==> entry_end(text, from, Lex::Comment, depth) == to + 1,
        depth > 0 ==> entry_end(text, from, Lex::Comment, depth) == entry_end(
            text,
            to + 1,
            Lex::Plain,
            depth,
        ),
    decreases to - from,
{
    if from < to {
        law_a_comment_ends_with_its_line(text, from + 1, to, depth);
    }
}

/// A string in single quotes goes on to the next one, whatever is between: no bracket,
/// comment or line feed in it counts.
pub proof fn law_a_literal_string_ends_with_its_quote(
    text: Seq<char>,
    from: int,
    to: int,
    depth: nat,
)
    requires
        0 <= from <= to < text.len(),
        forall|k: int| from <= k < to ==> text[k] != '\'',
        text[to] == '\'',
    ensures
        closing(text, from, Lex::Literal, depth) == closing(text, to + 1, Lex::Plain, depth),
        entry_end(text, from, Lex::Literal, depth) == entry_end(
            text,
            to + 1,
            Lex::Plain,
            depth,
        ),
    decreases to - from,
{
    if from < to {
        law_a_literal_string_ends_with_its_quote(text, from + 1, to, depth);
    }
}

/// A string in double quotes goes on to the next one that no backslash stands before: no
/// bracket, comment or line feed in it counts, and a backslash takes the character behind
/// it along.
pub proof fn law_a_string_ends_with_its_quote(text: Seq<char>, from: int, to: int, depth: nat)
    requires
        0 <= from <= to < text.len(),
        forall|k: int| from <= k < to ==> text[k] != '"' && text[k] != '\\',
    ensures
        text[to] == '"' ==> {
            &&& closing(text, from, Lex::Basic, depth) == closing(text, to + 1, Lex::Plain, depth)
            &&& entry_end(text, from, Lex::Basic, depth) == entry_end(
                text,
                to + 1,
                Lex::Plain,
                depth,
            )
        },
        text[to] == '\\' && to + 1 < text.len() ==> {
            &&& closing(text, from, Lex::Basic, depth) == closing(text, to + 2, Lex::Basic, depth)
            &&& entry_end(text, from, Lex::Basic, depth) == entry_end(
                text,
                to + 2,
                Lex::Basic,
                depth,
            )
        },
    decreases to - from,
{
    if from < to {
        law_a_string_ends_with_its_quote(text, from + 1, to, depth);
    } else if text[to] == '\\' && to + 1 < text.len() {
        assert(closing(text, to + 1, Lex::Escaped, depth) == closing(
            text,
            to + 2,
            Lex::Basic,
            depth,
        ));
        assert(entry_end(text, to + 1, Lex::Escaped, depth) == entry_end(
            text,
            to + 2,
            Lex::Basic,
            depth,
        ));
    }
}

/// Outside strings and comments a bracket opens or closes, the one that closes the last
/// open one being the one looked for; a quote or a number sign starts a string or a
/// comment behind it; and anything else is passed over, a line feed too, unless no bracket
/// is open and it ends the entry.
pub proof fn law_what_a_plain_character_does(text: Seq<char>, from: int, depth: nat)
    requires
        0 <= from < text.len(),
    ensures
        ({
            let c = text[from];
            let closes = |lex: Lex, d: nat| closing(text, from + 1, lex, d);
            let ends = |lex: Lex, d: nat| entry_end(text, from + 1, lex, d);
            let shut = closing(text, from, Lex::Plain, depth);
            let end = entry_end(text, from, Lex::Plain, depth);
            &&& c == '[' ==> shut == closes(Lex::Plain, depth + 1) && end == ends(
                Lex::Plain,
                depth + 1,
            )
            &&& c == ']' && depth > 1 ==> shut == closes(Lex::Plain, (depth - 1) as nat)
            &&& c == ']' && depth <= 1 ==> shut == Some(from)
            &&& c == ']' && depth > 0 ==> end == ends(Lex::Plain, (depth - 1) as nat)
            &&& c == ']' && depth == 0 ==> end == ends(Lex::Plain, 0)
            &&& c == '#' ==> shut == closes(Lex::Comment, depth) && end == ends(
                Lex::Comment,
                depth,
            )
            &&& c == '"' ==> shut == closes(Lex::Basic, depth) && end == ends(Lex::Basic, depth)
            &&& c == '\'' ==> shut == closes(Lex::Literal, depth) && end == ends(
                Lex::Literal,
                depth,
            )
            &&& c == '\n' ==> shut == closes(Lex::Plain, depth) && end == (if depth == 0 {
                from + 1
            } else {
                ends(Lex::Plain, depth)
            })
            &&& c != '[' && c != ']' && c != '#' && c != '"' && c != '\'' && c != '\n' ==> shut
                == closes(Lex::Plain, depth) && end == ends(Lex::Plain, depth)
        }),
{
}

/// An array that lists nothing nested is closed by the first bracket behind it, wherever it
/// stands, and an entry that is one line of plain text is that line.
pub proof fn law_plain_text_is_one_entry(text: Seq<char>, from: int, to: int)
    requires
        0 <= from <= to < text.len(),
        is_flat(text.subrange(from, to)),
    ensures
        text[to] == ']' ==> closing(text, from, Lex::Plain, 1) == Some(to),
        text[to] == '\n' && !text.subrange(from, to).contains('\n') ==> entry_end(
            text,
            from,
            Lex::Plain,
            0,
        ) == to + 1,
    decreases to - from,
{
    if text[to] == ']' {
        lemma_flat_closes(text, from, to);
    }
    if from < to {
        let part = text.subrange(from, to);
        let rest = text.subrange(from + 1, to);
        assert forall|k: int| 0 <= k < rest.len() implies #[trigger] rest[k] == part[k + 1] by {}
        assert(part[0] == text[from]);
        assert(is_flat(rest));
        if !part.contains('\n') {
            assert(part.contains(part[0]));
            assert(!rest.contains('\n')) by {
                if rest.contains('\n') {
                    let k = choose|k: int| 0 <= k < rest.len() && rest[k] == '\n';
                    assert(part[k + 1] == '\n');
                }
            }
        }
        law_plain_text_is_one_entry(text, from + 1, to);
    }
}

/// The entry that sets a key is looked for one entry at a time. One that sets it is it; at
/// the top level the first line that opens a table, behind white space, ends the search,
/// and in any table it does not.
pub proof fn law_entries_are_looked_through_in_order(
    text: Seq<char>,
    key: Seq<char>,
    from: int,
    at: int,
)
    requires
        0 <= from <= at < line_end(text, from),
        from < text.len(),
        forall|k: int| from <= k < at ==> is_space(#[trigger] text[k]),
        !is_space(text[at]),
    ensures
        ({
            let sets = sets_key(text, key, from, line_end(text, from));
            let next = entry_end(text, from, Lex::Plain, 0);
            &&& text[at] == '[' ==> top_entry(text, key, from) is None
            &&& text[at] != '[' && sets ==> top_entry(text, key, from) == Some(from)
            &&& text[at] != '[' && !sets ==> top_entry(text, key, from) == top_entry(
                text,
                key,
                next,
            )
            &&& sets ==> any_entry(text, key, from) == Some(from)
            &&& !sets ==> any_entry(text, key, from) == any_entry(text, key, next)
            &&& top_entry(text, key, text.len() as int) is None
            &&& any_entry(text, key, text.len() as int) is None
        }),
{
    let to = line_end(text, from);
    lemma_line_end(text, from);
    lemma_spaces_are(text, from, at, to);
    if text[at] == '[' {
        assert(text.subrange(at, at + 1) =~= seq!['[']);
    } else if heads_table(text, from) {
        assert(text.subrange(at, at + 1)[0] == text[at]);
    }
}

/// A line sets a key to an array exactly if a bracket opens behind the equals sign, with
/// nothing but white space between, on that line.
pub proof fn law_what_sets_an_array(
    text: Seq<char>,
    key: Seq<char>,
    from: int,
    at: int,
    equals: int,
    value: int,
)
    requires
        0 <= from < text.len(),
        key.len() > 0,
        !is_space(key[0]),
        sets_at(text, key, from, at, equals, line_end(text, from)),
        equals < value < line_end(text, from),
        forall|k: int| equals < k < value ==> is_space(#[trigger] text[k]),
        !is_space(text[value]),
    ensures
        value_at(text, key, from) == value,
        sets_array(text, key, from) <==> text[value] == '[',
{
    let to = line_end(text, from);
    lemma_line_end(text, from);
    assert(text.subrange(at, at + key.len())[0] == text[at]);
    lemma_spaces_are(text, from, at, to);
    lemma_spaces_are(text, at + key.len(), equals, to);
    lemma_spaces_are(text, equals + 1, value, to);
}

} // verus!
