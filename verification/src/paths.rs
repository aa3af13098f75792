//! Paths as text: what comes before the last component, and what is found below.
//!
//! A path is taken by its letters; nothing is looked up. Separators that repeat
//! or trail, and components that name the directory they are in, do not count,
//! except such a component at the very start.
use crate::text::{chars_of, push_chars};
use vstd::prelude::*;

verus! {

/// Where the first `n` characters of a path end without separators and `.`
/// components that trail. The root is left.
pub open spec fn cut_end(path: Seq<char>, n: int) -> int
    decreases n,
{
    if n > 1 && (path[n - 1] == '/' || (path[n - 1] == '.' && path[n - 2] == '/')) {
        cut_end(path, n - 1)
    } else {
        n
    }
}

/// Where the last component of the first `n` characters of a path starts.
pub open spec fn name_start(path: Seq<char>, n: int) -> int
    decreases n,
{
    if n <= 0 || path[n - 1] == '/' {
        n
    } else {
        name_start(path, n - 1)
    }
}

/// Where the directory ends that the first `n` characters of a path are in; the
/// root and the empty path are in none.
pub open spec fn parent_end(path: Seq<char>, n: int) -> Option<int> {
    let end = cut_end(path, n);
    if end <= 0 || (end == 1 && path[0] == '/') {
        None
    } else {
        Some(cut_end(path, name_start(path, end)))
    }
}

/// The directory that a path is in.
pub open spec fn parent_of(path: Seq<char>) -> Option<Seq<char>> {
    match parent_end(path, path.len() as int) {
        Some(end) => Some(path.take(end)),
        None => None,
    }
}

/// What `below` names in the directory `root`.
pub open spec fn joined_path(root: Seq<char>, below: Seq<char>) -> Seq<char> {
    if root.len() == 0 || root.last() == '/' {
        root + below
    } else {
        root + seq!['/'] + below
    }
}

/// Where the directory ends that the first `n` characters of a path are in.
fn find_parent(path: &Vec<char>, n: usize) -> (r: Option<usize>)
    requires
        n <= path@.len(),
    ensures
        match r {
            Some(end) => parent_end(path@, n as int) == Some(end as int) && end <= n,
            None => parent_end(path@, n as int) is None,
        },
{
    let end: usize = cut(path, n);
    if end == 0 || (end == 1 && path[0] == '/') {
        return None;
    }
    let mut i: usize = end;
    while i > 0 && path[i - 1] != '/'
        invariant
            i <= end <= n <= path@.len(),
            name_start(path@, end as int) == name_start(path@, i as int),
        decreases i,
    {
        i -= 1;
    }
    Some(cut(path, i))
}

/// Where the first `n` characters end without what trails.
fn cut(path: &Vec<char>, n: usize) -> (r: usize)
    requires
        n <= path@.len(),
    ensures
        r == cut_end(path@, n as int),
        r <= n,
{
    let mut i: usize = n;
    while i > 1 && (path[i - 1] == '/' || (path[i - 1] == '.' && path[i - 2] == '/'))
        invariant
            i <= n <= path@.len(),
            cut_end(path@, n as int) == cut_end(path@, i as int),
        decreases i,
    {
        i -= 1;
    }
    i
}

/// What `below` names next to the directory that a file is in.
pub open spec fn beside_of(file: Seq<char>, below: Seq<char>) -> Option<Seq<char>> {
    match parent_of(file) {
        Some(directory) => match parent_of(directory) {
            Some(root) => Some(joined_path(root, below)),
            None => None,
        },
        None => None,
    }
}

/// A path and a prefix of it that ends later are cut alike.
proof fn lemma_prefix_cut(path: Seq<char>, m: int, n: int)
    requires
        n <= m <= path.len(),
    ensures
        cut_end(path.take(m), n) == cut_end(path, n),
        name_start(path.take(m), n) == name_start(path, n),
        cut_end(path, n) <= n,
        name_start(path, n) <= n,
    decreases n,
{
    if n > 0 {
        assert(path.take(m)[n - 1] == path[n - 1]);
        if n > 1 {
            assert(path.take(m)[n - 2] == path[n - 2]);
        }
        lemma_prefix_cut(path, m, n - 1);
    }
}

/// What `below` names next to the directory that a file is in.
pub fn beside(file: &str, below: &str) -> (r: Option<String>)
    ensures
        match r {
            Some(s) => beside_of(file@, below@) == Some(s@),
            None => beside_of(file@, below@) is None,
        },
{
    let path = chars_of(file);
    let n: usize = path.len();
    let directory: usize = match find_parent(&path, n) {
        Some(end) => end,
        None => {
            return None;
        },
    };
    proof {
        let part = path@.take(directory as int);
        let end = cut_end(path@, directory as int);
        lemma_prefix_cut(path@, directory as int, directory as int);
        lemma_prefix_cut(path@, directory as int, end);
        let start = name_start(path@, end);
        lemma_prefix_cut(path@, directory as int, start);
        assert(parent_end(part, directory as int) == parent_end(path@, directory as int));
    }
    let root: usize = match find_parent(&path, directory) {
        Some(end) => end,
        None => {
            return None;
        },
    };
    assert(path@.take(directory as int).take(root as int) =~= path@.take(root as int));
    let mut out: String = String::new();
    push_chars(&mut out, &path, 0, root);
    assert(out@ =~= path@.take(root as int));
    if root > 0 && path[root - 1] != '/' {
        out.push('/');
    }
    out.append(below);
    Some(out)
}

/// Whether a path ends in a component of its own: not in a separator, and not in a `.` that
/// names the directory it is in. The root does too.
pub open spec fn ends_clean(path: Seq<char>) -> bool {
    path.len() <= 1 || (path.last() != '/' && !(path.last() == '.' && path[path.len() - 2]
        == '/'))
}

/// What is below a directory is in it: a name behind a separator is in what comes before
/// the separator, and a name alone is in the empty path. The root and the empty path are
/// in none.
pub proof fn law_a_name_is_in_what_comes_before_it(directory: Seq<char>, name: Seq<char>)
    requires
        ends_clean(directory),
        name.len() > 0,
        !name.contains('/'),
        name != seq!['.'],
    ensures
        directory.len() > 0 && directory.last() != '/' ==> parent_of(
            directory + seq!['/'] + name,
        ) == Some(directory),
        parent_of(seq!['/'] + name) == Some(seq!['/']),
        parent_of(name) == Some(Seq::<char>::empty()),
        parent_of(Seq::<char>::empty()) is None,
        parent_of(seq!['/']) is None,
{
    assert forall|k: int| 0 <= k < name.len() implies name[k] != '/' by {
        assert(name.contains(name[k]));
    }
    assert(!(name.len() == 1 && name[0] == '.')) by {
        if name.len() == 1 && name[0] == '.' {
            assert(name =~= seq!['.']);
        }
    }
    if directory.len() > 0 && directory.last() != '/' {
        let path = directory + seq!['/'] + name;
        let d = directory.len() as int;
        lemma_clean_name(path, d + 1);
        assert(path[d] == '/');
        assert(path[d - 1] == directory.last());
        assert(cut_end(path, d + 1) == cut_end(path, d));
        assert(cut_end(path, d) == d) by {
            if d > 1 {
                assert(path[d - 2] == directory[d - 2]);
            }
        }
        assert(path.take(d) =~= directory);
    }
    let rooted = seq!['/'] + name;
    assert(rooted[0] == '/');
    lemma_clean_name(rooted, 1);
    assert(rooted.take(1) =~= seq!['/']);
    assert(name =~= Seq::<char>::empty() + name);
    lemma_clean_name(name, 0);
    assert(name.take(0) =~= Seq::<char>::empty());
    assert(cut_end(seq!['/'], 1) == 1);
}

/// A name that the path ends in, from `start` on, is its last component.
proof fn lemma_clean_name(path: Seq<char>, start: int)
    requires
        0 <= start < path.len(),
        start == 0 || path[start - 1] == '/',
        forall|k: int| start <= k < path.len() ==> path[k] != '/',
        !(path.len() == start + 1 && path[start] == '.'),
    ensures
        cut_end(path, path.len() as int) == path.len(),
        name_start(path, path.len() as int) == start,
        parent_end(path, path.len() as int) == Some(cut_end(path, start)),
{
    let n = path.len() as int;
    if n > 1 && path[n - 1] == '.' && path[n - 2] == '/' {
        assert(n - 2 < start);
    }
    lemma_name_start(path, start, n);
}

proof fn lemma_name_start(path: Seq<char>, start: int, n: int)
    requires
        0 <= start <= n <= path.len(),
        start == 0 || path[start - 1] == '/',
        forall|k: int| start <= k < n ==> path[k] != '/',
    ensures
        name_start(path, n) == start,
    decreases n,
{
    if start < n {
        lemma_name_start(path, start, n - 1);
    }
}

/// A separator at the end does not count, and neither does a `.` behind one.
pub proof fn law_what_trails_does_not_count(path: Seq<char>)
    requires
        path.len() > 0,
    ensures
        parent_of(path + seq!['/']) == parent_of(path),
        parent_of(path + seq!['/', '.']) == parent_of(path),
{
    let n = path.len() as int;
    let one = path + seq!['/'];
    let two = path + seq!['/', '.'];
    assert(one.take(n) =~= path);
    assert(two.take(n) =~= path);
    assert(cut_end(one, n + 1) == cut_end(one, n));
    assert(two[n + 1] == '.' && two[n] == '/');
    assert(cut_end(two, n + 2) == cut_end(two, n + 1));
    assert(cut_end(two, n + 1) == cut_end(two, n));
    lemma_prefix_cut(one, n, n);
    lemma_prefix_cut(two, n, n);
    let end = cut_end(path, n);
    lemma_prefix_cut(one, n, end);
    lemma_prefix_cut(two, n, end);
    let start = name_start(path, end);
    lemma_prefix_cut(one, n, start);
    lemma_prefix_cut(two, n, start);
    lemma_prefix_cut(path, n, end);
    lemma_prefix_cut(path, n, start);
    assert(one[0] == path[0] && two[0] == path[0]);
    if let Some(p) = parent_end(path, n) {
        if p >= 0 {
            assert(one.take(p) =~= path.take(p));
            assert(two.take(p) =~= path.take(p));
        }
    }
    lemma_cut_is_there(path, n);
    if end > 0 {
        lemma_start_is_there(path, end);
        lemma_cut_is_there(path, start);
    }
}

proof fn lemma_cut_is_there(path: Seq<char>, n: int)
    requires
        0 <= n,
    ensures
        0 <= cut_end(path, n) <= n,
        n > 0 ==> cut_end(path, n) > 0,
    decreases n,
{
    if n > 1 && (path[n - 1] == '/' || (path[n - 1] == '.' && path[n - 2] == '/')) {
        lemma_cut_is_there(path, n - 1);
    }
}

proof fn lemma_start_is_there(path: Seq<char>, n: int)
    requires
        0 <= n,
    ensures
        0 <= name_start(path, n) <= n,
    decreases n,
{
    if n > 0 && path[n - 1] != '/' {
        lemma_start_is_there(path, n - 1);
    }
}

/// What is found next to the directory of a file: for `root/directory/file` it is what is
/// below the root, and for a file in no directory of its own there is none.
pub proof fn law_what_is_beside_a_directory(
    root: Seq<char>,
    directory: Seq<char>,
    file: Seq<char>,
    below: Seq<char>,
)
    requires
        root.len() > 0,
        root.last() != '/',
        ends_clean(root),
        directory.len() > 0,
        !directory.contains('/'),
        directory != seq!['.'],
        file.len() > 0,
        !file.contains('/'),
        file != seq!['.'],
    ensures
        beside_of(root + seq!['/'] + directory + seq!['/'] + file, below) == Some(
            root + seq!['/'] + below,
        ),
        beside_of(seq!['/'] + directory + seq!['/'] + file, below) == Some(seq!['/'] + below),
        beside_of(directory + seq!['/'] + file, below) == Some(below),
        beside_of(file, below) is None,
{
    let whole = root + seq!['/'] + directory;
    assert(directory.last() != '/') by {
        assert(directory.contains(directory.last()));
    }
    assert(whole.last() == directory.last());
    assert(ends_clean(whole)) by {
        if directory.len() > 1 {
            assert(whole[whole.len() - 2] == directory[directory.len() - 2]);
            assert(directory.contains(directory[directory.len() - 2]));
        } else if directory.last() == '.' {
            assert(directory =~= seq!['.']);
        }
    }
    law_a_name_is_in_what_comes_before_it(whole, file);
    law_a_name_is_in_what_comes_before_it(root, directory);
    let rooted = seq!['/'] + directory;
    assert(rooted.last() == directory.last());
    assert(ends_clean(rooted)) by {
        if directory.len() > 1 {
            assert(rooted[rooted.len() - 2] == directory[directory.len() - 2]);
            assert(directory.contains(directory[directory.len() - 2]));
        } else if directory.last() == '.' {
            assert(directory =~= seq!['.']);
        }
    }
    law_a_name_is_in_what_comes_before_it(rooted, file);
    assert(ends_clean(directory)) by {
        if directory.len() > 1 {
            assert(directory.contains(directory[directory.len() - 2]));
        }
    }
    law_a_name_is_in_what_comes_before_it(directory, file);
    assert(Seq::<char>::empty() + below =~= below);
}

} // verus!
