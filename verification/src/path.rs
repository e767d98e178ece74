//! The names of files in paths.
use crate::text::maybe_text;
use vstd::prelude::*;

verus! {

/// The place of the last dot, or -1.
pub open spec fn last_dot(name: Seq<char>) -> int
    decreases name.len(),
{
    if name.len() == 0 {
        -1
    } else if name.last() == '.' {
        name.len() - 1
    } else {
        last_dot(name.drop_last())
    }
}

/// The name of a file without its extension.
pub open spec fn stem(name: Seq<char>) -> Seq<char> {
    if last_dot(name) <= 0 {
        name
    } else {
        name.take(last_dot(name))
    }
}

/// The name of a file, where there is one, without its extension.
pub open spec fn stem_of(name: Option<Seq<char>>) -> Option<Seq<char>> {
    match name {
        Some(n) => Some(stem(n)),
        None => None,
    }
}

/// Only slashes separate names.
pub open spec fn slashes() -> Set<char> {
    set!['/']
}

/// Only backslashes separate names.
pub open spec fn backslashes() -> Set<char> {
    set!['\\']
}

/// Slashes and backslashes separate names.
pub open spec fn both() -> Set<char> {
    set!['/', '\\']
}

/// What follows the last separator.
pub open spec fn last_piece(path: Seq<char>, seps: Set<char>) -> Seq<char>
    decreases path.len(),
{
    if path.len() == 0 || seps.contains(path.last()) {
        Seq::empty()
    } else {
        last_piece(path.drop_last(), seps).push(path.last())
    }
}

/// The path without what names nothing at its end: separators, and dots that
/// follow one.
pub open spec fn cut(path: Seq<char>, seps: Set<char>) -> Seq<char>
    decreases path.len(),
{
    if path.len() > 0 && seps.contains(path.last()) {
        cut(path.drop_last(), seps)
    } else if path.len() > 1 && path.last() == '.' && seps.contains(path[path.len() - 2]) {
        cut(path.drop_last(), seps)
    } else {
        path
    }
}

/// The last name of a path; none where the path ends in dots, or holds nothing
/// but separators.
pub open spec fn name_by(path: Seq<char>, seps: Set<char>) -> Option<Seq<char>> {
    let name = last_piece(cut(path, seps), seps);
    if name.len() == 0 || name == "."@ || name == ".."@ {
        None
    } else {
        Some(name)
    }
}

/// Two separators at the start.
pub open spec fn starts_twice(path: Seq<char>) -> bool {
    path.len() >= 2 && both().contains(path[0]) && both().contains(path[1])
}

/// Whether a system may read the last name of a path so. Some read slashes alone;
/// others read backslashes too, a letter and a colon at the start as a drive, and
/// two separators at the start as a share, which has no name of its own, or as a
/// path in which slashes count for nothing.
pub open spec fn reads(path: Seq<char>, name: Option<Seq<char>>) -> bool {
    ||| name == name_by(path, slashes())
    ||| name == name_by(path, both())
    ||| starts_twice(path) && name is None
    ||| starts_twice(path) && path.len() >= 4 && path[2] == '?' && name == name_by(
        path,
        backslashes(),
    )
    ||| path.len() >= 2 && path[1] == ':' && name == name_by(path.skip(2), both())
}

/// Whether a system may read the last name of a path so, without its extension.
pub open spec fn reads_stem(path: Seq<char>, found: Option<Seq<char>>) -> bool {
    exists|name: Option<Seq<char>>| #[trigger] reads(path, name) && found == stem_of(name)
}

/// Whether every system reads a path alike: no backslashes, no drive, no share.
pub open spec fn portable(path: Seq<char>) -> bool {
    &&& forall|i: int| 0 <= i < path.len() ==> #[trigger] path[i] != '\\'
    &&& !starts_twice(path)
    &&& !(path.len() >= 2 && path[1] == ':')
}

/// Without backslashes it is the same whether they separate.
proof fn lemma_same_cut(path: Seq<char>)
    requires
        forall|i: int| 0 <= i < path.len() ==> #[trigger] path[i] != '\\',
    ensures
        cut(path, both()) == cut(path, slashes()),
        cut(path, slashes()).len() <= path.len(),
        forall|i: int|
            0 <= i < cut(path, slashes()).len() ==> #[trigger] cut(path, slashes())[i] != '\\',
    decreases path.len(),
{
    if path.len() > 0 {
        assert(path.last() != '\\');
        if path.len() > 1 {
            assert(path[path.len() - 2] != '\\');
        }
        lemma_same_cut(path.drop_last());
    }
}

/// Without backslashes it is the same whether they separate.
proof fn lemma_same_piece(path: Seq<char>)
    requires
        forall|i: int| 0 <= i < path.len() ==> #[trigger] path[i] != '\\',
    ensures
        last_piece(path, both()) == last_piece(path, slashes()),
    decreases path.len(),
{
    if path.len() > 0 {
        assert(path.last() != '\\');
        lemma_same_piece(path.drop_last());
    }
}

/// A path that every system reads alike has one reading: its names stand between
/// slashes.
pub proof fn law_one_reading(path: Seq<char>, name: Option<Seq<char>>)
    requires
        portable(path),
    ensures
        reads(path, name) <==> name == name_by(path, slashes()),
{
    lemma_same_cut(path);
    lemma_same_piece(cut(path, slashes()));
}

/// `Path::file_stem`: the last name of the path without its extension, where
/// there is such a name: `None` for the root, for the empty path, and for what
/// ends in two dots or is a dot alone. Separators and single dots at the end do
/// not count. Which of the readings of a path a system has is left open.
#[verifier::external_body]
pub(crate) fn file_stem(path: &str) -> (r: Option<String>)
    ensures
        reads_stem(path@, maybe_text(r)),
{
    match std::path::Path::new(path).file_stem() {
        Some(s) => match s.to_str() {
            Some(t) => Some(t.to_owned()),
            None => None,
        },
        None => None,
    }
}

/// `Path::file_name`: the last name of the path, where there is one: `None` for
/// the root, for the empty path, and for what ends in two dots or is a dot alone.
/// Separators and single dots at the end do not count. Which of the readings of a
/// path a system has is left open.
#[verifier::external_body]
pub(crate) fn file_name(path: &str) -> (r: Option<String>)
    ensures
        reads(path@, maybe_text(r)),
{
    match std::path::Path::new(path).file_name() {
        Some(s) => match s.to_str() {
            Some(t) => Some(t.to_owned()),
            None => None,
        },
        None => None,
    }
}

/// The stem of a name is what stands before its last dot; a name without a dot, or with
/// none but at its beginning, is its own stem.
pub proof fn law_stem(name: Seq<char>, end: Seq<char>)
    requires
        !end.contains('.'),
    ensures
        name.len() > 0 ==> stem(name + seq!['.'] + end) == name,
        stem(end) == end,
        stem(seq!['.'] + end) == seq!['.'] + end,
{
    let whole = name + seq!['.'] + end;
    lemma_last_dot(name, end);
    if name.len() > 0 {
        assert(whole.take(name.len() as int) =~= name);
    }
    lemma_no_dot(end);
    let hidden = Seq::<char>::empty() + seq!['.'] + end;
    lemma_last_dot(Seq::<char>::empty(), end);
    assert(hidden =~= seq!['.'] + end);
}

proof fn lemma_no_dot(s: Seq<char>)
    requires
        !s.contains('.'),
    ensures
        last_dot(s) == -1,
    decreases s.len(),
{
    if s.len() > 0 {
        let t = s.drop_last();
        assert(s.contains(s.last()));
        assert(!t.contains('.')) by {
            assert forall|i: int| 0 <= i < t.len() implies t[i] != '.' by {
                assert(s.contains(s[i]));
            }
        }
        lemma_no_dot(t);
    }
}

proof fn lemma_last_dot(name: Seq<char>, end: Seq<char>)
    requires
        !end.contains('.'),
    ensures
        last_dot(name + seq!['.'] + end) == name.len(),
    decreases end.len(),
{
    let whole = name + seq!['.'] + end;
    if end.len() == 0 {
        assert(whole.last() == '.');
    } else {
        let t = end.drop_last();
        assert(end.contains(end.last()));
        assert(!t.contains('.')) by {
            assert forall|i: int| 0 <= i < t.len() implies t[i] != '.' by {
                assert(end.contains(end[i]));
            }
        }
        lemma_last_dot(name, t);
        assert(whole.drop_last() =~= name + seq!['.'] + t);
        assert(whole.last() == end.last());
    }
}

/// The name of a file is what stands behind the last slash of its path, whatever the
/// directory is.
pub proof fn law_name_behind_last_slash(dir: Seq<char>, file: Seq<char>)
    requires
        file.len() > 0,
        !file.contains('/'),
        file != "."@,
        file != ".."@,
    ensures
        name_by(dir + seq!['/'] + file, slashes()) == Some(file),
        name_by(file, slashes()) == Some(file),
{
    let path = dir + seq!['/'] + file;
    reveal_strlit(".");
    assert(file.contains(file.last()));
    assert(path.last() == file.last());
    if file.len() == 1 && file[0] == '.' {
        assert(file =~= "."@);
    }
    if file.len() > 1 {
        assert(file.contains(file[file.len() - 2]));
        assert(path[path.len() - 2] == file[file.len() - 2]);
    }
    assert(cut(path, slashes()) == path);
    assert(cut(file, slashes()) == file);
    lemma_last_piece(dir + seq!['/'], file);
    assert(dir + seq!['/'] + file =~= (dir + seq!['/']) + file);
    lemma_last_piece(Seq::empty(), file);
    assert(Seq::<char>::empty() + file =~= file);
}

proof fn lemma_last_piece(before: Seq<char>, file: Seq<char>)
    requires
        !file.contains('/'),
        before.len() == 0 || before.last() == '/',
    ensures
        last_piece(before + file, slashes()) == file,
    decreases file.len(),
{
    let path = before + file;
    if file.len() == 0 {
        assert(path =~= before);
        assert(last_piece(path, slashes()) =~= file);
    } else {
        let t = file.drop_last();
        assert(file.contains(file.last()));
        assert(!t.contains('/')) by {
            assert forall|i: int| 0 <= i < t.len() implies t[i] != '/' by {
                assert(file.contains(file[i]));
            }
        }
        lemma_last_piece(before, t);
        assert(path.drop_last() =~= before + t);
        assert(last_piece(path, slashes()) =~= file);
    }
}

} // verus!
