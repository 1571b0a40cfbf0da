//! Slash-separated file paths as texts.

use vstd::prelude::*;

use crate::text::{append, chars_of, opt_text, text_between};

verus! {

pub open spec fn is_absolute(path: Seq<char>) -> bool {
    path.len() > 0 && path[0] == '/'
}

/// `path` as seen from `base`: itself where it is absolute, and otherwise below `base`.
pub open spec fn join(base: Seq<char>, path: Seq<char>) -> Seq<char> {
    if is_absolute(path) {
        path
    } else if base.len() > 0 && base.last() != '/' {
        base + "/"@ + path
    } else {
        base + path
    }
}

pub fn join_path(base: &str, path: &str) -> (r: String)
    ensures
        r@ == join(base@, path@),
{
    let p = chars_of(path);
    if p.len() > 0 && p[0] == '/' {
        return path.to_owned();
    }
    let b = chars_of(base);
    let mut s = base.to_owned();
    if b.len() > 0 && b[b.len() - 1] != '/' {
        append(&mut s, "/");
    }
    append(&mut s, path);
    s
}

/// How many characters at the start of a path are no name: the root, or a dot that stands alone.
pub open spec fn lead(path: Seq<char>) -> nat {
    if is_absolute(path) || (path.len() > 0 && path[0] == '.' && (path.len() == 1 || path[1]
        == '/')) {
        1
    } else {
        0
    }
}

/// What stands behind the last slash.
pub open spec fn last_piece(path: Seq<char>) -> Seq<char>
    decreases path.len(),
{
    if path.len() == 0 || path.last() == '/' {
        Seq::empty()
    } else {
        last_piece(path.drop_last()).push(path.last())
    }
}

/// What stands before the last slash, or the lead where that is longer.
pub open spec fn before_last_piece(path: Seq<char>) -> Seq<char> {
    let cut = path.len() - last_piece(path).len() - 1;
    path.take(
        if cut > lead(path) {
            cut
        } else {
            lead(path) as int
        },
    )
}

/// A piece that leads nowhere: one between two slashes, or a dot.
pub open spec fn is_idle(piece: Seq<char>) -> bool {
    piece.len() == 0 || piece == seq!['.']
}

/// A path without the slashes and the dots at its end that lead nowhere.
pub open spec fn trimmed_path(path: Seq<char>) -> Seq<char>
    decreases path.len(),
{
    if path.len() > lead(path) && is_idle(last_piece(path)) {
        trimmed_path(before_last_piece(path))
    } else {
        path
    }
}

/// The path without its last component; the root and the empty path have none.
pub open spec fn parent(path: Seq<char>) -> Option<Seq<char>> {
    let p = trimmed_path(path);
    if p.len() > lead(p) {
        Some(trimmed_path(before_last_piece(p)))
    } else if p.len() == 0 || is_absolute(p) {
        None
    } else {
        Some(Seq::empty())
    }
}

/// The last component, where it is a name.
pub open spec fn file_name(path: Seq<char>) -> Option<Seq<char>> {
    let p = trimmed_path(path);
    if p.len() > lead(p) && last_piece(p) != seq!['.', '.'] {
        Some(last_piece(p))
    } else {
        None
    }
}

/// The path with `name` in the place of its file name, or below it where it has none.
pub open spec fn with_file_name(path: Seq<char>, name: Seq<char>) -> Seq<char> {
    if file_name(path) is Some {
        join(parent(path)->0, name)
    } else {
        join(path, name)
    }
}

/// A text that names a file in its directory.
pub open spec fn is_plain_name(name: Seq<char>) -> bool {
    !is_idle(name) && name != seq!['.', '.'] && !name.contains('/')
}

proof fn lemma_last_piece(path: Seq<char>)
    ensures
        last_piece(path).len() <= path.len(),
        path.skip(path.len() - last_piece(path).len()) == last_piece(path),
        !last_piece(path).contains('/'),
        last_piece(path).len() < path.len() ==> path[path.len() - last_piece(path).len() - 1]
            == '/',
    decreases path.len(),
{
    if path.len() > 0 && path.last() != '/' {
        let shorter = path.drop_last();
        lemma_last_piece(shorter);
        let piece = last_piece(shorter);
        assert(path.skip(path.len() - piece.len() - 1) =~= piece.push(path.last()));
        assert forall|i: int| 0 <= i < piece.len() + 1 implies piece.push(path.last())[i] != '/' by {
            if i < piece.len() {
                assert(piece.contains(piece[i]));
            }
        }
    }
}

proof fn lemma_last_piece_is(path: Seq<char>, start: int)
    requires
        0 <= start <= path.len(),
        start > 0 ==> path[start - 1] == '/',
        !path.skip(start).contains('/'),
    ensures
        last_piece(path) == path.skip(start),
    decreases path.len() - start,
{
    if start < path.len() {
        let shorter = path.drop_last();
        assert(path.skip(start).contains(path.skip(start)[path.len() - 1 - start]));
        assert forall|i: int| 0 <= i < shorter.skip(start).len() implies shorter.skip(start)[i]
            != '/' by {
            assert(path.skip(start).contains(path.skip(start)[i]));
        }
        lemma_last_piece_is(shorter, start);
        assert(path.skip(start) =~= shorter.skip(start).push(path.last()));
    } else {
        assert(path.skip(start) =~= Seq::empty());
    }
}

/// How long the trimmed path is among the first `n` characters.
fn trimmed_end(v: &Vec<char>, n: usize) -> (r: usize)
    requires
        n <= v@.len(),
    ensures
        r <= n,
        v@.take(r as int) == trimmed_path(v@.take(n as int)),
{
    let mut end = n;
    loop
        invariant
            end <= n <= v@.len(),
            trimmed_path(v@.take(end as int)) == trimmed_path(v@.take(n as int)),
        decreases end,
    {
        let first = lead_end(v, end);
        let start = piece_start(v, end);
        let ghost path = v@.take(end as int);
        let idle = start == end || (start + 1 == end && v[start] == '.');
        proof {
            lemma_last_piece(path);
            if last_piece(path) == seq!['.'] {
                assert(last_piece(path)[0] == '.');
            }
            if start + 1 == end && v[start as int] == '.' {
                assert(last_piece(path) =~= seq!['.']);
            }
        }
        if end <= first || !idle {
            return end;
        }
        end = cut_before(start, first);
        assert(before_last_piece(path) =~= v@.take(end as int));
    }
}

/// Where the lead of the first `n` characters ends.
fn lead_end(v: &Vec<char>, n: usize) -> (r: usize)
    requires
        n <= v@.len(),
    ensures
        r == lead(v@.take(n as int)),
        r <= n,
{
    if n > 0 && (v[0] == '/' || (v[0] == '.' && (n == 1 || v[1] == '/'))) {
        1
    } else {
        0
    }
}

/// Where the last piece of the first `n` characters starts.
fn piece_start(v: &Vec<char>, n: usize) -> (r: usize)
    requires
        n <= v@.len(),
    ensures
        r <= n,
        last_piece(v@.take(n as int)) == v@.subrange(r as int, n as int),
{
    let mut start = n;
    let ghost path = v@.take(n as int);
    while start > 0 && v[start - 1] != '/'
        invariant
            start <= n <= v@.len(),
            path == v@.take(n as int),
            forall|i: int| start <= i < n ==> v@[i] != '/',
        decreases start,
    {
        start -= 1;
    }
    proof {
        lemma_last_piece_is(path, start as int);
        assert(path.skip(start as int) =~= v@.subrange(start as int, n as int));
    }
    start
}

/// Where what stands before the last piece ends.
fn cut_before(start: usize, first: usize) -> (r: usize)
    ensures
        r == (if start - 1 > first {
            start - 1
        } else {
            first as int
        }),
{
    if start > 0 && start - 1 > first {
        start - 1
    } else {
        first
    }
}

pub fn parent_path(path: &str) -> (r: Option<String>)
    ensures
        opt_text(r) == parent(path@),
{
    let v = chars_of(path);
    assert(v@.take(v@.len() as int) =~= path@);
    let end = trimmed_end(&v, v.len());
    let first = lead_end(&v, end);
    if end > first {
        let start = piece_start(&v, end);
        let cut = cut_before(start, first);
        assert(before_last_piece(v@.take(end as int)) =~= v@.take(cut as int));
        let to = trimmed_end(&v, cut);
        assert(v@.subrange(0, to as int) =~= v@.take(to as int));
        Some(text_between(&v, 0, to))
    } else if end == 0 || v[0] == '/' {
        None
    } else {
        let nothing = text_between(&v, 0, 0);
        assert(nothing@ =~= Seq::<char>::empty());
        Some(nothing)
    }
}

pub fn file_name_of(path: &str) -> (r: Option<String>)
    ensures
        opt_text(r) == file_name(path@),
{
    let v = chars_of(path);
    assert(v@.take(v@.len() as int) =~= path@);
    let end = trimmed_end(&v, v.len());
    if end <= lead_end(&v, end) {
        return None;
    }
    let start = piece_start(&v, end);
    let ghost piece = last_piece(v@.take(end as int));
    if end - start == 2 && v[start] == '.' && v[start + 1] == '.' {
        assert(piece =~= seq!['.', '.']);
        return None;
    }
    proof {
        if piece == seq!['.', '.'] {
            assert(piece.len() == 2 && piece[0] == '.' && piece[1] == '.');
        }
    }
    Some(text_between(&v, start, end))
}

pub fn path_with_file_name(path: &str, name: &str) -> (r: String)
    ensures
        r@ == with_file_name(path@, name@),
{
    if file_name_of(path).is_some() {
        match parent_path(path) {
            Some(directory) => join_path(&directory, name),
            None => join_path(path, name),
        }
    } else {
        join_path(path, name)
    }
}

proof fn lemma_trimmed_is_trimmed(path: Seq<char>)
    ensures
        ({
            let p = trimmed_path(path);
            p.len() <= lead(p) || !is_idle(last_piece(p))
        }),
        trimmed_path(trimmed_path(path)) == trimmed_path(path),
    decreases path.len(),
{
    lemma_last_piece(path);
    if path.len() > lead(path) && is_idle(last_piece(path)) {
        lemma_trimmed_is_trimmed(before_last_piece(path));
    }
}

/// A plain name below a directory is the file name of the path, and its parent is the directory.
pub proof fn law_named_below(directory: Seq<char>, name: Seq<char>)
    requires
        is_plain_name(name),
    ensures
        file_name(join(directory, name)) == Some(name),
        parent(join(directory, name)) == Some(trimmed_path(directory)),
{
    reveal_strlit("/");
    let path = join(directory, name);
    let start = path.len() - name.len();
    assert(!is_absolute(name)) by {
        if is_absolute(name) {
            assert(name.contains(name[0]));
        }
    }
    assert(path.skip(start) =~= name);
    lemma_last_piece_is(path, start);
    assert(lead(path) == lead(directory)) by {
        if directory.len() == 0 && name.len() > 1 && name[1] == '/' {
            assert(name.contains(name[1]));
        }
        if name.len() == 1 && name[0] == '.' {
            assert(name =~= seq!['.']);
        }
    }
    assert(trimmed_path(path) == path);
    if directory.len() == 0 {
        assert(before_last_piece(path) =~= directory);
    } else if directory.last() != '/' {
        assert(before_last_piece(path) =~= directory);
    } else if directory.len() == 1 {
        assert(before_last_piece(path) =~= directory);
    } else {
        assert(last_piece(directory) =~= Seq::empty());
        assert(before_last_piece(path) =~= before_last_piece(directory));
    }
}

/// A file under another plain name stands in the same directory, under that name.
pub proof fn law_renamed_file_stays_in_its_directory(path: Seq<char>, name: Seq<char>)
    requires
        file_name(path) is Some,
        is_plain_name(name),
    ensures
        parent(with_file_name(path, name)) == parent(path),
        file_name(with_file_name(path, name)) == Some(name),
{
    law_named_below(parent(path)->0, name);
    lemma_trimmed_is_trimmed(before_last_piece(trimmed_path(path)));
}

/// What is taken for a file name holds no slash and is neither empty nor a dot or two.
pub proof fn law_file_names_are_plain(path: Seq<char>)
    requires
        file_name(path) is Some,
    ensures
        is_plain_name(file_name(path)->0),
{
    lemma_trimmed_is_trimmed(path);
    lemma_last_piece(trimmed_path(path));
}

/// A path as seen from a directory is itself where it starts at the root; otherwise it stands below
/// the directory, with one slash between.
pub proof fn law_paths_are_joined(base: Seq<char>, path: Seq<char>)
    ensures
        path.len() > 0 && path[0] == '/' ==> join(base, path) == path,
        !(path.len() > 0 && path[0] == '/') ==> {
            &&& base.len() > 0 && base.last() != '/' ==> join(base, path) == base + seq!['/'] + path
            &&& base.len() == 0 || base.last() == '/' ==> join(base, path) == base + path
        },
{
    reveal_strlit("/");
    assert("/"@ =~= seq!['/']);
}

/// A slash at the end of a path, or a slash and a dot, leads nowhere.
pub proof fn law_idle_ends_do_not_matter(path: Seq<char>)
    requires
        path.len() > 0,
    ensures
        trimmed_path(path + seq!['/']) == trimmed_path(path),
        trimmed_path(path + seq!['/', '.']) == trimmed_path(path),
{
    let slash = path + seq!['/'];
    let dotted = path + seq!['/', '.'];
    lemma_last_piece_is(slash, slash.len() as int);
    assert(dotted.skip(dotted.len() - 1) =~= seq!['.']);
    lemma_last_piece_is(dotted, dotted.len() - 1);
    assert(lead(slash) == lead(path)) by {
        assert(slash[0] == path[0]);
        if path.len() > 1 {
            assert(slash[1] == path[1]);
        }
    }
    assert(lead(dotted) == lead(path)) by {
        assert(dotted[0] == path[0]);
        if path.len() > 1 {
            assert(dotted[1] == path[1]);
        }
    }
    assert(slash.take(path.len() as int) =~= path);
    assert(dotted.take(path.len() as int) =~= path);
}

} // verus!
