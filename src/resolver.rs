use vstd::prelude::*;
use crate::text::texts;

verus! {

/// The entries of a search-path value separated by `:`, empty ones included.
pub open spec fn split_on_colon(s: Seq<char>) -> Seq<Seq<char>>
    decreases s.len(),
{
    if s.len() == 0 {
        seq![Seq::empty()]
    } else {
        let init = split_on_colon(s.drop_last());
        if s.last() == ':' {
            init.push(Seq::empty())
        } else {
            init.update(init.len() - 1, init.last().push(s.last()))
        }
    }
}

/// Whether the flag at `i` is present and set.
pub open spec fn flagged(flags: Seq<bool>, i: int) -> bool {
    0 <= i < flags.len() && flags[i]
}

/// The entries whose flag is set, in their order.
pub open spec fn kept(entries: Seq<Seq<char>>, flags: Seq<bool>) -> Seq<Seq<char>>
    decreases entries.len(),
{
    if entries.len() == 0 {
        Seq::empty()
    } else {
        let init = kept(entries.drop_last(), flags);
        if flagged(flags, entries.len() - 1) {
            init.push(entries.last())
        } else {
            init
        }
    }
}

/// The path of the file `name` inside the directory `dir`.
pub open spec fn join_path(dir: Seq<char>, name: Seq<char>) -> Seq<char> {
    dir + seq!['/'] + name
}

/// Splits the value of the search-path variable on `:`.
pub fn split_search_path(value: &str) -> (r: Vec<String>)
    ensures
        texts(r@) == split_on_colon(value@),
{
    let n = value.unicode_len();
    let mut out: Vec<String> = Vec::new();
    let mut cur = String::new();
    let mut i: usize = 0;
    assert(value@.take(0) =~= Seq::<char>::empty());
    assert(texts(out@).push(cur@) =~= split_on_colon(value@.take(0)));
    while i < n
        invariant
            n == value@.len(),
            i <= n,
            texts(out@).push(cur@) == split_on_colon(value@.take(i as int)),
        decreases n - i,
    {
        let c = value.get_char(i);
        assert(value@.take(i + 1).drop_last() =~= value@.take(i as int));
        assert(value@.take(i + 1).last() == c);
        if c == ':' {
            let mut piece = String::new();
            std::mem::swap(&mut piece, &mut cur);
            out.push(piece);
            assert(texts(out@).push(cur@) =~= split_on_colon(value@.take(i + 1)));
        } else {
            let ghost before = cur@;
            cur.append(value.substring_char(i, i + 1));
            assert(cur@ =~= before.push(c));
            assert(texts(out@).push(cur@) =~= split_on_colon(value@.take(i + 1)));
        }
        i = i + 1;
    }
    assert(value@.take(n as int) =~= value@);
    out.push(cur);
    assert(texts(out@) =~= split_on_colon(value@));
    out
}

/// Keeps the entries that are directories: `is_dir[i]` tells whether
/// `entries[i]` is one, and an entry without a flag is dropped.
pub fn keep_dirs(entries: &Vec<String>, is_dir: &Vec<bool>) -> (r: Vec<String>)
    ensures
        texts(r@) == kept(texts(entries@), is_dir@),
{
    let mut out: Vec<String> = Vec::new();
    let mut i: usize = 0;
    assert(texts(entries@).take(0) =~= Seq::<Seq<char>>::empty());
    assert(texts(out@) =~= Seq::<Seq<char>>::empty());
    while i < entries.len()
        invariant
            i <= entries@.len(),
            texts(out@) == kept(texts(entries@).take(i as int), is_dir@),
        decreases entries@.len() - i,
    {
        let ghost prefix = texts(entries@).take(i + 1);
        assert(prefix.drop_last() =~= texts(entries@).take(i as int));
        assert(prefix.last() == entries@[i as int]@);
        if i < is_dir.len() && is_dir[i] {
            out.push(entries[i].clone());
            assert(texts(out@) =~= kept(prefix, is_dir@));
        }
        i = i + 1;
    }
    assert(texts(entries@).take(entries@.len() as int) =~= texts(entries@));
    out
}

/// The path of `name` inside `dir`.
pub fn candidate(dir: &str, name: &str) -> (r: String)
    ensures
        r@ == join_path(dir@, name@),
{
    let mut r = String::from_str(dir);
    r.append("/");
    r.append(name);
    proof {
        reveal_strlit("/");
    }
    r
}

/// The path of `name` inside each of the search directories, in order.
pub fn candidates(search_dirs: &Vec<String>, name: &str) -> (r: Vec<String>)
    ensures
        r@.len() == search_dirs@.len(),
        forall|i: int| 0 <= i < r@.len() ==> #[trigger] r@[i]@ == join_path(search_dirs@[i]@, name@),
{
    let mut out: Vec<String> = Vec::new();
    let mut i: usize = 0;
    while i < search_dirs.len()
        invariant
            i <= search_dirs@.len(),
            out@.len() == i,
            forall|k: int| 0 <= k < i ==> #[trigger] out@[k]@ == join_path(search_dirs@[k]@, name@),
        decreases search_dirs@.len() - i,
    {
        out.push(candidate(search_dirs[i].as_str(), name));
        i = i + 1;
    }
    out
}

/// Finds `name` on the search path: `executable[i]` tells whether the
/// candidate in `search_dirs[i]` is a regular file with the owner's execute
/// bit set (a missing flag counts as no). The first such candidate wins.
pub fn resolve(search_dirs: &Vec<String>, name: &str, executable: &Vec<bool>) -> (r: Option<String>)
    ensures
        r is None <==> forall|i: int| 0 <= i < search_dirs@.len() ==> !flagged(executable@, i),
        r matches Some(p) ==> exists|i: int|
            0 <= i < search_dirs@.len() && flagged(executable@, i)
            && (forall|j: int| 0 <= j < i ==> !flagged(executable@, j))
            && p@ == join_path(search_dirs@[i]@, name@),
{
    let mut i: usize = 0;
    while i < search_dirs.len()
        invariant
            i <= search_dirs@.len(),
            forall|j: int| 0 <= j < i ==> !flagged(executable@, j),
        decreases search_dirs@.len() - i,
    {
        if i < executable.len() && executable[i] {
            let p = candidate(search_dirs[i].as_str(), name);
            assert(flagged(executable@, i as int));
            return Some(p);
        }
        i = i + 1;
    }
    None
}

} // verus!
