//! Editing a `;`-separated search path (the user `PATH` the installer
//! registers its directory in). Entries are compared as the installer does:
//! white space trimmed and lowercased.

use vstd::prelude::*;
use crate::strings::{
    free_of, join_on, join_str, lemma_split_join, lemma_split_sep_piece, lemma_split_single, lowercased,
    split_on, split_str, str_eq, to_lowercase, trim, trimmed, views,
};

verus! {

/// The comparison key of a path entry: trimmed and lowercased.
pub open spec fn entry_key(entry: Seq<char>) -> Seq<char> {
    lowercased(trimmed(entry))
}

/// Some entry of `path` names `dir`.
pub open spec fn path_contains(path: Seq<char>, dir: Seq<char>) -> bool {
    exists|i: int| 0 <= i < split_on(path, ';').len() && #[trigger] entry_key(split_on(path, ';')[i]) == lowercased(dir)
}

/// `s` without its trailing `c` characters.
pub open spec fn strip_trailing(s: Seq<char>, c: char) -> Seq<char>
    decreases s.len(),
{
    if s.len() > 0 && s.last() == c {
        strip_trailing(s.drop_last(), c)
    } else {
        s
    }
}

/// The path with `dir` appended as a new last entry.
pub open spec fn appended_path(path: Seq<char>, dir: Seq<char>) -> Seq<char> {
    if path.len() == 0 {
        dir
    } else {
        strip_trailing(path, ';') + ";"@ + dir
    }
}

/// The entries kept when `dir` is removed: every entry that is not blank
/// and does not name `dir`, in order.
pub open spec fn kept_entries(entries: Seq<Seq<char>>, dir: Seq<char>) -> Seq<Seq<char>>
    decreases entries.len(),
{
    if entries.len() == 0 {
        Seq::empty()
    } else {
        let rest = kept_entries(entries.drop_last(), dir);
        let e = entries.last();
        if trimmed(e).len() == 0 || entry_key(e) == lowercased(dir) {
            rest
        } else {
            rest.push(e)
        }
    }
}

/// Length of `s` without its trailing `c` characters.
fn trailing_stripped_len(s: &str, c: char) -> (n: usize)
    ensures
        n <= s@.len(),
        s@.subrange(0, n as int) == strip_trailing(s@, c),
{
    let mut n = s.unicode_len();
    assert(s@.subrange(0, n as int) =~= s@);
    while n > 0 && s.get_char(n - 1) == c
        invariant
            n <= s@.len(),
            strip_trailing(s@.subrange(0, n as int), c) == strip_trailing(s@, c),
        decreases n,
    {
        assert(s@.subrange(0, n as int).drop_last() =~= s@.subrange(0, n - 1));
        n -= 1;
    }
    n
}

/// `path` with `dir` appended, or `None` when an entry already names `dir`
/// (so the path is left as it is).
pub fn path_with_dir(path: &str, dir: &str) -> (updated: Option<String>)
    ensures
        updated is None <==> path_contains(path@, dir@),
        updated is Some ==> updated.unwrap()@ == appended_path(path@, dir@),
{
    let lower_dir = to_lowercase(dir);
    let entries = split_str(path, ';');
    let mut i: usize = 0;
    while i < entries.len()
        invariant
            views(entries@) == split_on(path@, ';'),
            lower_dir@ == lowercased(dir@),
            i <= entries@.len(),
            forall|k: int| 0 <= k < i ==> #[trigger] entry_key(split_on(path@, ';')[k]) != lowercased(dir@),
        decreases entries@.len() - i,
    {
        assert(views(entries@)[i as int] == entries@[i as int]@);
        let key = to_lowercase(trim(entries[i].as_str()));
        if str_eq(key.as_str(), lower_dir.as_str()) {
            assert(entry_key(split_on(path@, ';')[i as int]) == lowercased(dir@));
            return None;
        }
        i += 1;
    }
    assert(!path_contains(path@, dir@)) by {
        assert(entries@.len() == split_on(path@, ';').len());
    }
    if path.unicode_len() == 0 {
        Some(String::from_str(dir))
    } else {
        let n = trailing_stripped_len(path, ';');
        let mut out = String::from_str(path.substring_char(0, n));
        out.append(";");
        out.append(dir);
        Some(out)
    }
}

/// `path` with every blank entry and every entry naming `dir` removed.
pub fn path_without_dir(path: &str, dir: &str) -> (updated: String)
    ensures
        updated@ == join_on(kept_entries(split_on(path@, ';'), dir@), ';'),
{
    let lower_dir = to_lowercase(dir);
    let entries = split_str(path, ';');
    let mut kept: Vec<String> = Vec::new();
    let mut i: usize = 0;
    while i < entries.len()
        invariant
            views(entries@) == split_on(path@, ';'),
            lower_dir@ == lowercased(dir@),
            i <= entries@.len(),
            views(kept@) == kept_entries(split_on(path@, ';').take(i as int), dir@),
        decreases entries@.len() - i,
    {
        let ghost es = split_on(path@, ';');
        assert(es.take(i as int + 1).drop_last() =~= es.take(i as int));
        assert(views(entries@)[i as int] == entries@[i as int]@);
        let t = trim(entries[i].as_str());
        let blank = t.unicode_len() == 0;
        let key = to_lowercase(t);
        if !blank && !str_eq(key.as_str(), lower_dir.as_str()) {
            kept.push(entries[i].clone());
            assert(views(kept@) =~= kept_entries(es.take(i as int), dir@).push(es[i as int]));
        }
        i += 1;
    }
    assert(split_on(path@, ';').take(entries@.len() as int) =~= split_on(path@, ';'));
    join_str(&kept, ';')
}

/// The pieces of a split never contain the separator.
pub proof fn lemma_split_pieces_free(s: Seq<char>, sep: char)
    ensures
        forall|i: int| 0 <= i < split_on(s, sep).len() ==> free_of(#[trigger] split_on(s, sep)[i], sep),
    decreases s.len(),
{
    if s.len() > 0 {
        lemma_split_pieces_free(s.drop_last(), sep);
        let rest = split_on(s.drop_last(), sep);
        crate::strings::lemma_split_nonempty(s.drop_last(), sep);
        if s.last() != sep {
            assert forall|i: int| 0 <= i < split_on(s, sep).len() implies free_of(#[trigger] split_on(s, sep)[i], sep) by {
                if i == rest.len() - 1 {
                    assert(free_of(rest[i], sep));
                }
            }
        }
    }
}

/// Every kept entry is a non-blank entry of the original list that does
/// not name `dir`.
pub proof fn lemma_kept_entries(entries: Seq<Seq<char>>, dir: Seq<char>)
    requires
        forall|i: int| 0 <= i < entries.len() ==> free_of(#[trigger] entries[i], ';'),
    ensures
        forall|j: int| 0 <= j < kept_entries(entries, dir).len() ==> {
            let e = #[trigger] kept_entries(entries, dir)[j];
            &&& free_of(e, ';')
            &&& entry_key(e) != lowercased(dir)
        },
    decreases entries.len(),
{
    if entries.len() > 0 {
        let init = entries.drop_last();
        assert forall|i: int| 0 <= i < init.len() implies free_of(#[trigger] init[i], ';') by {
            assert(init[i] == entries[i]);
        }
        lemma_kept_entries(init, dir);
        let rest = kept_entries(init, dir);
        let e = entries.last();
        assert(free_of(e, ';')) by {
            assert(e == entries[entries.len() - 1]);
        }
        assert forall|j: int| 0 <= j < kept_entries(entries, dir).len() implies {
            let f = #[trigger] kept_entries(entries, dir)[j];
            &&& free_of(f, ';')
            &&& entry_key(f) != lowercased(dir)
        } by {
            if j < rest.len() {
                assert(kept_entries(entries, dir)[j] == rest[j]);
            }
        }
    }
}

/// Once added, a directory is found in the path, whenever it is not blank
/// around its edges and holds no `;` (which would split it).
pub proof fn lemma_added_dir_found(path: Seq<char>, dir: Seq<char>)
    requires
        trimmed(dir) == dir,
        free_of(dir, ';'),
    ensures
        path_contains(appended_path(path, dir), dir),
{
    let entries = split_on(appended_path(path, dir), ';');
    if path.len() == 0 {
        lemma_split_single(dir, ';');
        assert(entries[0] == dir);
        assert(entry_key(entries[0]) == lowercased(dir));
    } else {
        let head = strip_trailing(path, ';');
        assert(head + ";"@ + dir == head + seq![';'] + dir) by {
            reveal_strlit(";");
        }
        lemma_split_sep_piece(head, dir, ';');
        let k = split_on(head, ';').len() as int;
        assert(entries[k] == dir);
        assert(entry_key(entries[k]) == lowercased(dir));
    }
}

/// After removal the directory is no longer found in the path, whenever
/// some other entry remains.
pub proof fn lemma_removed_dir_gone(path: Seq<char>, dir: Seq<char>)
    requires
        kept_entries(split_on(path, ';'), dir).len() > 0,
    ensures
        !path_contains(join_on(kept_entries(split_on(path, ';'), dir), ';'), dir),
{
    let entries = split_on(path, ';');
    lemma_split_pieces_free(path, ';');
    lemma_kept_entries(entries, dir);
    let kept = kept_entries(entries, dir);
    lemma_split_join(kept, ';');
}

} // verus!
