//! The file store the tool engine works on: a set of paths with text
//! contents, viewed as a map from path to content.

use vstd::prelude::*;
use crate::text::str_eq;

verus! {

/// An in-memory file store: one entry per path, in the order the paths were
/// first written.
#[derive(Debug)]
pub struct FileStore {
    pub files: Vec<(String, String)>,
}

/// The map that a sequence of path/content entries denotes; a later entry
/// for the same path wins.
pub open spec fn store_map(entries: Seq<(Seq<char>, Seq<char>)>) -> Map<Seq<char>, Seq<char>>
    decreases entries.len(),
{
    if entries.len() == 0 {
        Map::empty()
    } else {
        store_map(entries.drop_last()).insert(entries.last().0, entries.last().1)
    }
}

/// A key is in the map exactly when some entry carries it.
pub proof fn lemma_store_map_contains(entries: Seq<(Seq<char>, Seq<char>)>, p: Seq<char>)
    ensures
        store_map(entries).contains_key(p) <==> exists|i: int|
            0 <= i < entries.len() && (#[trigger] entries[i]).0 == p,
    decreases entries.len(),
{
    if entries.len() > 0 {
        lemma_store_map_contains(entries.drop_last(), p);
        if store_map(entries).contains_key(p) {
            if entries.last().0 != p {
                let i = choose|i: int|
                    0 <= i < entries.drop_last().len() && (#[trigger] entries.drop_last()[i]).0
                        == p;
                assert(entries[i].0 == p);
            }
        }
        if exists|i: int| 0 <= i < entries.len() && (#[trigger] entries[i]).0 == p {
            let i = choose|i: int| 0 <= i < entries.len() && (#[trigger] entries[i]).0 == p;
            if i < entries.len() - 1 {
                assert(entries.drop_last()[i].0 == p);
            }
        }
    }
}

/// The entry of a key that no later entry shadows gives the key's value.
pub proof fn lemma_store_map_at(entries: Seq<(Seq<char>, Seq<char>)>, i: int)
    requires
        0 <= i < entries.len(),
        forall|j: int| i < j < entries.len() ==> (#[trigger] entries[j]).0 != entries[i].0,
    ensures
        store_map(entries).contains_key(entries[i].0),
        store_map(entries)[entries[i].0] == entries[i].1,
    decreases entries.len(),
{
    if i == entries.len() - 1 {
    } else {
        assert(entries.last().0 != entries[i].0);
        assert(entries.drop_last()[i] == entries[i]);
        lemma_store_map_at(entries.drop_last(), i);
    }
}

/// The index of the entry that carries `path`, or `-1`.
pub open spec fn spec_store_index(entries: Seq<(Seq<char>, Seq<char>)>, path: Seq<char>) -> int
    decreases entries.len(),
{
    if entries.len() == 0 {
        -1
    } else if entries[0].0 == path {
        0
    } else {
        let r = spec_store_index(entries.skip(1), path);
        if r == -1 {
            -1
        } else {
            1 + r
        }
    }
}

/// The entries after writing `content` under `path`: the path's entry
/// updated in place, or a new entry appended.
pub open spec fn spec_entries_insert(
    entries: Seq<(Seq<char>, Seq<char>)>,
    path: Seq<char>,
    content: Seq<char>,
) -> Seq<(Seq<char>, Seq<char>)> {
    let i = spec_store_index(entries, path);
    if i >= 0 {
        entries.update(i, (path, content))
    } else {
        entries + seq![(path, content)]
    }
}

/// A matching entry behind only other paths pins the index search.
proof fn lemma_store_index_at(entries: Seq<(Seq<char>, Seq<char>)>, path: Seq<char>, i: int)
    requires
        0 <= i < entries.len(),
        entries[i].0 == path,
        forall|j: int| 0 <= j < i ==> (#[trigger] entries[j]).0 != path,
    ensures
        spec_store_index(entries, path) == i,
    decreases i,
{
    if i > 0 {
        assert(forall|j: int| 0 <= j < i - 1 ==> (#[trigger] entries.skip(1)[j]).0 != path);
        lemma_store_index_at(entries.skip(1), path, i - 1);
    }
}

/// No entry carries the path, so the index search finds none.
proof fn lemma_store_index_none(entries: Seq<(Seq<char>, Seq<char>)>, path: Seq<char>)
    requires
        forall|j: int| 0 <= j < entries.len() ==> (#[trigger] entries[j]).0 != path,
    ensures
        spec_store_index(entries, path) == -1,
    decreases entries.len(),
{
    if entries.len() > 0 {
        assert(forall|j: int|
            0 <= j < entries.skip(1).len() ==> (#[trigger] entries.skip(1)[j]).0 != path);
        lemma_store_index_none(entries.skip(1), path);
    }
}

impl View for FileStore {
    type V = Map<Seq<char>, Seq<char>>;

    /// The store as a map from path to content.
    open spec fn view(&self) -> Map<Seq<char>, Seq<char>> {
        store_map(self.entries())
    }
}

impl FileStore {
    /// The store's entries as path/content pairs of characters.
    pub open spec fn entries(&self) -> Seq<(Seq<char>, Seq<char>)> {
        Seq::new(self.files@.len(), |i: int| (self.files@[i].0@, self.files@[i].1@))
    }

    /// Each path stands in at most one entry.
    pub open spec fn wf(&self) -> bool {
        forall|i: int, j: int|
            0 <= i < j < self.entries().len() ==> (#[trigger] self.entries()[i]).0 != (
            #[trigger] self.entries()[j]).0
    }

    /// An empty store.
    pub fn new() -> (r: FileStore)
        ensures
            r.wf(),
            r@ == Map::<Seq<char>, Seq<char>>::empty(),
            r.entries().len() == 0,
    {
        let r = FileStore { files: Vec::new() };
        proof {
            assert(r.entries().len() == 0);
        }
        r
    }

    /// The content under `path`, if the store holds the path.
    pub fn read(&self, path: &str) -> (r: Option<String>)
        requires
            self.wf(),
        ensures
            match r {
                Some(c) => self@.contains_key(path@) && c@ == self@[path@],
                None => !self@.contains_key(path@),
            },
    {
        let n = self.files.len();
        let mut i: usize = 0;
        while i < n
            invariant
                self.wf(),
                n == self.files@.len(),
                i <= n,
                forall|j: int| 0 <= j < i ==> (#[trigger] self.entries()[j]).0 != path@,
            decreases n - i,
        {
            if str_eq(self.files[i].0.as_str(), path) {
                proof {
                    assert(self.entries()[i as int].0 == path@);
                    lemma_store_map_at(self.entries(), i as int);
                }
                return Some(self.files[i].1.clone());
            }
            proof {
                assert(self.entries()[i as int].0 == self.files@[i as int].0@);
            }
            i += 1;
        }
        proof {
            lemma_store_map_contains(self.entries(), path@);
        }
        None
    }

    /// Write `content` under `path`, creating the entry or replacing the
    /// content in place.
    pub fn write(&mut self, path: &str, content: String)
        requires
            old(self).wf(),
        ensures
            final(self).wf(),
            final(self)@ == old(self)@.insert(path@, content@),
            final(self).entries() == spec_entries_insert(old(self).entries(), path@, content@),
    {
        let n = self.files.len();
        let mut i: usize = 0;
        while i < n
            invariant
                self.wf(),
                *self == *old(self),
                n == self.files@.len(),
                i <= n,
                forall|j: int| 0 <= j < i ==> (#[trigger] self.entries()[j]).0 != path@,
            decreases n - i,
        {
            if str_eq(self.files[i].0.as_str(), path) {
                proof {
                    assert(self.entries()[i as int].0 == path@);
                    lemma_store_index_at(self.entries(), path@, i as int);
                }
                self.files[i].1 = content;
                proof {
                    assert(self.entries() =~= old(self).entries().update(
                        i as int,
                        (path@, content@),
                    ));
                    lemma_store_map_update(old(self).entries(), i as int, content@);
                    assert(final(self)@ =~= old(self)@.insert(path@, content@));
                }
                return ;
            }
            proof {
                assert(self.entries()[i as int].0 == self.files@[i as int].0@);
            }
            i += 1;
        }
        proof {
            lemma_store_map_contains(self.entries(), path@);
            lemma_store_index_none(self.entries(), path@);
        }
        self.files.push((path.to_owned(), content));
        proof {
            assert(self.entries().drop_last() =~= old(self).entries());
            assert(self.entries().last().0 == path@);
            assert(self.entries() =~= old(self).entries() + seq![(path@, content@)]);
            assert(final(self)@ == old(self)@.insert(path@, content@));
            let e = self.entries();
            assert forall|a: int, b: int| 0 <= a < b < e.len() implies (#[trigger] e[a]).0 != (
            #[trigger] e[b]).0 by {
                if b == e.len() - 1 {
                    assert(e[a] == old(self).entries()[a]);
                } else {
                    assert(e[a] == old(self).entries()[a]);
                    assert(e[b] == old(self).entries()[b]);
                }
            }
        }
    }
}

/// Updating an unshadowed entry's content updates the denoted map at that
/// entry's key.
proof fn lemma_store_map_update(entries: Seq<(Seq<char>, Seq<char>)>, i: int, c: Seq<char>)
    requires
        0 <= i < entries.len(),
        forall|j: int| i < j < entries.len() ==> (#[trigger] entries[j]).0 != entries[i].0,
    ensures
        store_map(entries.update(i, (entries[i].0, c))) == store_map(entries).insert(
            entries[i].0,
            c,
        ),
    decreases entries.len(),
{
    let p = entries[i].0;
    let u = entries.update(i, (p, c));
    if i == entries.len() - 1 {
        assert(u.drop_last() =~= entries.drop_last());
        assert(u.last() == (p, c));
        assert(store_map(entries.drop_last()).insert(p, entries[i].1).insert(p, c)
            =~= store_map(entries.drop_last()).insert(p, c));
    } else {
        assert(entries.last().0 != p);
        assert(u.drop_last() =~= entries.drop_last().update(i, (p, c)));
        assert(entries.drop_last()[i] == entries[i]);
        lemma_store_map_update(entries.drop_last(), i, c);
        assert(u.last() == entries.last());
        assert(store_map(entries.drop_last()).insert(p, c).insert(entries.last().0, entries.last().1)
            =~= store_map(entries.drop_last()).insert(entries.last().0, entries.last().1).insert(
            p,
            c,
        ));
    }
}

/// Writing content under a path and then reading that path returns the
/// content exactly: the written map holds the path, with that content.
pub proof fn lemma_write_read_roundtrip(
    m: Map<Seq<char>, Seq<char>>,
    path: Seq<char>,
    content: Seq<char>,
)
    ensures
        m.insert(path, content).contains_key(path),
        m.insert(path, content)[path] == content,
{
}

} // verus!
