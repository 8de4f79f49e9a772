//! Inode numbers for paths: every path that was ever seen keeps the number it was given.

use std::collections::HashMap;

use vstd::hash_map::StringHashMap;
use vstd::prelude::*;

use crate::reply::{listing, Listing};
use crate::text::{child, child_path};

verus! {

broadcast use vstd::std_specs::hash::group_hash_axioms;

/// The inode of the root directory.
pub const ROOT_INODE: u64 = 1;

/// The inode numbers that were given out, and the paths they stand for.
pub struct InodeTable {
    inode_to_path: HashMap<u64, String>,
    path_to_inode: StringHashMap<u64>,
    next_inode: u64,
}

/// Inode numbers and paths, each the other's inverse. `next` is the first number that was not
/// given out.
#[verifier::ext_equal]
pub struct Inodes {
    pub paths: Map<u64, Seq<char>>,
    pub inodes: Map<Seq<char>, u64>,
    pub next: u64,
}

impl View for InodeTable {
    type V = Inodes;

    closed spec fn view(&self) -> Inodes {
        Inodes {
            paths: self.inode_to_path@.map_values(|path: String| path@),
            inodes: self.path_to_inode@,
            next: self.next_inode,
        }
    }
}

impl Inodes {
    /// The numbers from 1 on are given out, up to the last before `next`, and 1 to the root;
    /// numbers and paths belong to each other one to one.
    pub open spec fn valid(self) -> bool {
        &&& self.next > ROOT_INODE
        &&& forall|ino: u64| #[trigger]
            self.paths.contains_key(ino) <==> ROOT_INODE <= ino < self.next
        &&& self.paths[ROOT_INODE] == seq!['/']
        &&& forall|ino: u64| #[trigger]
            self.paths.contains_key(ino) ==> self.inodes.contains_key(self.paths[ino])
                && self.inodes[self.paths[ino]] == ino
        &&& forall|path: Seq<char>| #[trigger]
            self.inodes.contains_key(path) ==> self.paths.contains_key(self.inodes[path])
                && self.paths[self.inodes[path]] == path
    }

    /// The numbers once `path` has one: its own where it has one already, else the next.
    pub open spec fn with(self, path: Seq<char>) -> Inodes {
        if self.inodes.contains_key(path) {
            self
        } else {
            Inodes {
                paths: self.paths.insert(self.next, path),
                inodes: self.inodes.insert(path, self.next),
                next: (self.next + 1) as u64,
            }
        }
    }

    /// The numbers once every entry of the directory `parent` has one.
    pub open spec fn with_children(self, parent: Seq<char>, entries: Listing) -> Inodes
        decreases entries.len(),
    {
        if entries.len() == 0 {
            self
        } else {
            self.with_children(parent, entries.drop_last()).with(child(parent, entries.last().0))
        }
    }

    /// Whether `n` more numbers can be given out.
    pub open spec fn room(self, n: nat) -> bool {
        self.next + n <= u64::MAX
    }

    /// The numbers before anything but the root was seen.
    pub open spec fn initial() -> Inodes {
        Inodes {
            paths: map![ROOT_INODE => seq!['/']],
            inodes: map![seq!['/'] => ROOT_INODE],
            next: 2,
        }
    }

    /// Whether every path of `self` has the same number in `other`.
    pub open spec fn kept_in(self, other: Inodes) -> bool {
        &&& forall|path: Seq<char>| #[trigger]
            self.inodes.contains_key(path) ==> other.inodes.contains_key(path)
                && other.inodes[path] == self.inodes[path]
        &&& forall|ino: u64| #[trigger]
            self.paths.contains_key(ino) ==> other.paths.contains_key(ino) && other.paths[ino]
                == self.paths[ino]
    }
}

impl InodeTable {
    /// A table that holds the root alone.
    pub fn new() -> (res: Self)
        ensures
            res@ == Inodes::initial(),
            res@.valid(),
    {
        let mut inode_to_path: HashMap<u64, String> = HashMap::new();
        let mut path_to_inode: StringHashMap<u64> = StringHashMap::new();
        proof {
            reveal_strlit("/");
        }
        assert("/"@ =~= seq!['/']);
        inode_to_path.insert(ROOT_INODE, "/".to_owned());
        path_to_inode.insert("/".to_owned(), ROOT_INODE);
        let res = InodeTable { inode_to_path, path_to_inode, next_inode: 2 };
        assert(res@ =~= Inodes::initial());
        res
    }

    /// The number of `path`, given out now if it has none.
    pub fn alloc_inode(&mut self, path: &str) -> (res: u64)
        requires
            old(self)@.valid(),
            old(self)@.inodes.contains_key(path@) || old(self)@.room(1),
        ensures
            final(self)@ == old(self)@.with(path@),
            final(self)@.valid(),
            final(self)@.inodes.contains_key(path@),
            res == final(self)@.inodes[path@],
    {
        if let Some(ino) = self.path_to_inode.get(path) {
            return *ino;
        }
        let ino: u64 = self.next_inode;
        self.next_inode = ino + 1;
        self.path_to_inode.insert(path.to_owned(), ino);
        self.inode_to_path.insert(ino, path.to_owned());
        assert(self@ =~= old(self)@.with(path@));
        proof {
            lemma_with_valid(old(self)@, path@);
        }
        ino
    }

    /// The path of an inode, if the number was given out.
    pub fn get_path(&self, inode: u64) -> (res: Option<String>)
        ensures
            res is Some <==> self@.paths.contains_key(inode),
            res matches Some(path) ==> path@ == self@.paths[inode],
    {
        match self.inode_to_path.get(&inode) {
            Some(path) => Some(path.clone()),
            None => None,
        }
    }

    /// The first number that was not given out.
    pub fn next_inode(&self) -> (res: u64)
        ensures
            res == self@.next,
    {
        self.next_inode
    }

    /// Gives every entry of the directory `parent` a number.
    pub fn register_children(&mut self, parent: &str, entries: &Vec<(String, u32)>)
        requires
            old(self)@.valid(),
            old(self)@.room(entries@.len()),
        ensures
            final(self)@ == old(self)@.with_children(parent@, listing(entries@)),
            final(self)@.valid(),
    {
        let ghost start = self@;
        let ghost all = listing(entries@);
        let mut i: usize = 0;
        assert(all.take(0) =~= Seq::empty());
        while i < entries.len()
            invariant
                i <= entries@.len(),
                all == listing(entries@),
                self@ == start.with_children(parent@, all.take(i as int)),
                self@.valid(),
                self@.next <= start.next + i,
                start.room(entries@.len()),
            decreases entries@.len() - i,
        {
            let path = child_path(parent, entries[i].0.as_str());
            self.alloc_inode(path.as_str());
            assert(all.take(i + 1).drop_last() =~= all.take(i as int));
            assert(all.take(i + 1).last() == all[i as int]);
            i += 1;
        }
        assert(all.take(i as int) =~= all);
    }
}

/// Giving out a number keeps numbers and paths one to one.
pub proof fn lemma_with_valid(t: Inodes, path: Seq<char>)
    requires
        t.valid(),
        t.inodes.contains_key(path) || t.room(1),
    ensures
        t.with(path).valid(),
{
    let u = t.with(path);
    if !t.inodes.contains_key(path) {
        assert(!t.paths.contains_key(t.next));
        assert forall|ino: u64| #[trigger] u.paths.contains_key(ino) implies u.inodes.contains_key(
            u.paths[ino],
        ) && u.inodes[u.paths[ino]] == ino by {
            if ino != t.next {
                assert(t.paths.contains_key(ino));
                assert(u.paths[ino] == t.paths[ino]);
            }
        }
        assert forall|p: Seq<char>| #[trigger] u.inodes.contains_key(p) implies u.paths.contains_key(
            u.inodes[p],
        ) && u.paths[u.inodes[p]] == p by {
            if p != path {
                assert(t.inodes.contains_key(p));
                assert(t.paths.contains_key(t.inodes[p]));
            }
        }
    }
}

/// A number that was given out is never taken back or given to another path.
pub proof fn law_inode_is_kept(t: Inodes, path: Seq<char>)
    requires
        t.valid(),
        t.inodes.contains_key(path) || t.room(1),
    ensures
        t.kept_in(t.with(path)),
{
    if !t.inodes.contains_key(path) {
        assert(!t.paths.contains_key(t.next));
    }
}

/// Asking for the number of a path again gives the same number, and changes nothing.
pub proof fn law_inode_is_stable(t: Inodes, path: Seq<char>)
    ensures
        t.with(path).with(path) == t.with(path),
{
}

/// Two paths have two numbers.
pub proof fn law_inodes_are_distinct(t: Inodes, path1: Seq<char>, path2: Seq<char>)
    requires
        t.valid(),
        t.inodes.contains_key(path1),
        t.inodes.contains_key(path2),
        path1 != path2,
    ensures
        t.inodes[path1] != t.inodes[path2],
{
}

/// The number of a path leads back to the path.
pub proof fn law_inode_leads_back(t: Inodes, path: Seq<char>)
    requires
        t.valid(),
        t.inodes.contains_key(path) || t.room(1),
    ensures
        t.with(path).paths.contains_key(t.with(path).inodes[path]),
        t.with(path).paths[t.with(path).inodes[path]] == path,
{
    lemma_with_valid(t, path);
    assert(t.with(path).inodes.contains_key(path));
}

/// Once a directory was listed, each of its entries has a number, at most as many numbers as
/// entries were given out, and every number that was given out before is kept.
pub proof fn law_children_have_inodes(t: Inodes, parent: Seq<char>, entries: Listing)
    requires
        t.valid(),
        t.room(entries.len()),
    ensures
        t.with_children(parent, entries).valid(),
        t.with_children(parent, entries).next <= t.next + entries.len(),
        t.kept_in(t.with_children(parent, entries)),
        forall|i: int|
            0 <= i < entries.len() ==> t.with_children(parent, entries).inodes.contains_key(
                child(parent, (#[trigger] entries[i]).0),
            ),
    decreases entries.len(),
{
    if entries.len() > 0 {
        let front = entries.drop_last();
        let u = t.with_children(parent, front);
        let path = child(parent, entries.last().0);
        law_children_have_inodes(t, parent, front);
        lemma_with_valid(u, path);
        law_inode_is_kept(u, path);
        assert forall|i: int| 0 <= i < entries.len() implies u.with(path).inodes.contains_key(
            child(parent, (#[trigger] entries[i]).0),
        ) by {
            if i < front.len() {
                assert(front[i] == entries[i]);
                assert(u.inodes.contains_key(child(parent, front[i].0)));
            }
        }
    }
}

/// At first the root has the number 1, and nothing else has one.
pub proof fn law_only_the_root_is_known_at_first(path: Seq<char>, ino: u64)
    ensures
        Inodes::initial().next == 2,
        Inodes::initial().inodes.contains_key(path) <==> path == seq!['/'],
        Inodes::initial().inodes[seq!['/']] == 1,
        Inodes::initial().paths.contains_key(ino) <==> ino == 1,
        Inodes::initial().paths[1] == seq!['/'],
{
}

/// A path that has a number changes nothing; a path that has none gets the next, and no other path
/// gets one.
pub proof fn law_one_number_is_given_out(t: Inodes, path: Seq<char>, other: Seq<char>)
    requires
        t.valid(),
        t.inodes.contains_key(path) || t.room(1),
    ensures
        t.inodes.contains_key(path) ==> t.with(path) == t,
        !t.inodes.contains_key(path) ==> {
            &&& t.with(path).inodes.contains_key(path)
            &&& t.with(path).inodes[path] == t.next
            &&& t.with(path).next == t.next + 1
        },
        other != path ==> (t.with(path).inodes.contains_key(other) <==> t.inodes.contains_key(
            other,
        )),
{
}

/// Listing a directory gives numbers to its entries and to nothing else.
pub proof fn law_only_children_get_numbers(
    t: Inodes,
    parent: Seq<char>,
    entries: Listing,
    path: Seq<char>,
)
    requires
        t.with_children(parent, entries).inodes.contains_key(path),
    ensures
        t.inodes.contains_key(path) || exists|i: int|
            0 <= i < entries.len() && path == child(parent, (#[trigger] entries[i]).0),
    decreases entries.len(),
{
    if entries.len() > 0 {
        let front = entries.drop_last();
        if t.with_children(parent, front).inodes.contains_key(path) {
            law_only_children_get_numbers(t, parent, front, path);
            if !t.inodes.contains_key(path) {
                let i = choose|i: int|
                    0 <= i < front.len() && path == child(parent, (#[trigger] front[i]).0);
                assert(entries[i] == front[i]);
            }
        } else {
            assert(path == child(parent, entries[entries.len() - 1].0));
        }
    }
}

} // verus!
