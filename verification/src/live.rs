//! The set of live indexers: for each unique name at most one executor.

use vstd::prelude::*;
use vstd::string::*;

verus! {

/// One live indexer: its unique name and the executor that serves it.
pub struct LiveIndexer {
    pub uid: String,
    pub executor: u64,
}

/// Whether entry `i` of `entries` is the one named `uid`.
pub open spec fn names(entries: Seq<LiveIndexer>, i: int, uid: Seq<char>) -> bool {
    0 <= i < entries.len() && entries[i].uid@ == uid
}

/// No unique name occurs twice in `entries`.
pub open spec fn distinct(entries: Seq<LiveIndexer>) -> bool {
    forall|i: int, j: int|
        0 <= i < entries.len() && 0 <= j < entries.len() && i != j ==> #[trigger] entries[i].uid@
            != #[trigger] entries[j].uid@
}

/// The map from unique name to executor that `entries` stand for.
pub open spec fn as_map(entries: Seq<LiveIndexer>) -> Map<Seq<char>, u64> {
    Map::new(
        |uid: Seq<char>| exists|i: int| names(entries, i, uid),
        |uid: Seq<char>| entries[choose|i: int| names(entries, i, uid)].executor,
    )
}

proof fn lemma_entry(entries: Seq<LiveIndexer>, i: int)
    requires
        distinct(entries),
        0 <= i < entries.len(),
    ensures
        as_map(entries).contains_key(entries[i].uid@),
        as_map(entries)[entries[i].uid@] == entries[i].executor,
{
    let uid = entries[i].uid@;
    assert(names(entries, i, uid));
    let j = choose|j: int| names(entries, j, uid);
    assert(names(entries, j, uid));
    assert(j == i);
}

proof fn lemma_push(entries: Seq<LiveIndexer>, entry: LiveIndexer)
    requires
        distinct(entries),
        !as_map(entries).contains_key(entry.uid@),
    ensures
        distinct(entries.push(entry)),
        as_map(entries.push(entry)) == as_map(entries).insert(entry.uid@, entry.executor),
{
    let after = entries.push(entry);
    assert forall|i: int, j: int|
        0 <= i < after.len() && 0 <= j < after.len() && i != j implies #[trigger] after[i].uid@
        != #[trigger] after[j].uid@ by {
        if i < entries.len() && j < entries.len() {
            assert(entries[i].uid@ != entries[j].uid@);
        } else if i < entries.len() {
            assert(names(entries, i, entries[i].uid@));
        } else {
            assert(names(entries, j, entries[j].uid@));
        }
    }
    let want = as_map(entries).insert(entry.uid@, entry.executor);
    assert forall|uid: Seq<char>| as_map(after).contains_key(uid) <==> want.contains_key(uid) by {
        if as_map(after).contains_key(uid) {
            let i = choose|i: int| names(after, i, uid);
            if i < entries.len() {
                assert(names(entries, i, uid));
            }
        }
        if want.contains_key(uid) {
            if uid == entry.uid@ {
                assert(names(after, entries.len() as int, uid));
            } else {
                let i = choose|i: int| names(entries, i, uid);
                assert(names(after, i, uid));
            }
        }
    }
    assert forall|uid: Seq<char>| as_map(after).contains_key(uid) implies as_map(after)[uid]
        == want[uid] by {
        let i = choose|i: int| names(after, i, uid);
        lemma_entry(after, i);
        if i < entries.len() {
            lemma_entry(entries, i);
        }
    }
    assert(as_map(after) =~= want);
}

proof fn lemma_update(entries: Seq<LiveIndexer>, at: int, entry: LiveIndexer)
    requires
        distinct(entries),
        0 <= at < entries.len(),
        entries[at].uid@ == entry.uid@,
    ensures
        distinct(entries.update(at, entry)),
        as_map(entries.update(at, entry)) == as_map(entries).insert(entry.uid@, entry.executor),
{
    let after = entries.update(at, entry);
    assert forall|i: int, j: int|
        0 <= i < after.len() && 0 <= j < after.len() && i != j implies #[trigger] after[i].uid@
        != #[trigger] after[j].uid@ by {
        assert(entries[i].uid@ != entries[j].uid@);
    }
    let want = as_map(entries).insert(entry.uid@, entry.executor);
    assert forall|uid: Seq<char>| as_map(after).contains_key(uid) <==> want.contains_key(uid) by {
        if as_map(after).contains_key(uid) {
            let i = choose|i: int| names(after, i, uid);
            assert(names(entries, i, uid));
        }
        if want.contains_key(uid) {
            if uid == entry.uid@ {
                assert(names(after, at, uid));
            } else {
                let i = choose|i: int| names(entries, i, uid);
                assert(names(after, i, uid));
            }
        }
    }
    assert forall|uid: Seq<char>| as_map(after).contains_key(uid) implies as_map(after)[uid]
        == want[uid] by {
        let i = choose|i: int| names(after, i, uid);
        lemma_entry(after, i);
        lemma_entry(entries, i);
    }
    assert(as_map(after) =~= want);
}

proof fn lemma_remove(entries: Seq<LiveIndexer>, at: int)
    requires
        distinct(entries),
        0 <= at < entries.len(),
    ensures
        distinct(entries.remove(at)),
        as_map(entries.remove(at)) == as_map(entries).remove(entries[at].uid@),
{
    let after = entries.remove(at);
    let gone = entries[at].uid@;
    assert forall|i: int, j: int|
        0 <= i < after.len() && 0 <= j < after.len() && i != j implies #[trigger] after[i].uid@
        != #[trigger] after[j].uid@ by {
        let from_i = if i < at { i } else { i + 1 };
        let from_j = if j < at { j } else { j + 1 };
        assert(entries[from_i].uid@ != entries[from_j].uid@);
    }
    let want = as_map(entries).remove(gone);
    assert forall|uid: Seq<char>| as_map(after).contains_key(uid) <==> want.contains_key(uid) by {
        if as_map(after).contains_key(uid) {
            let i = choose|i: int| names(after, i, uid);
            let from = if i < at { i } else { i + 1 };
            assert(names(entries, from, uid));
            assert(entries[from].uid@ != entries[at].uid@);
        }
        if want.contains_key(uid) {
            let i = choose|i: int| names(entries, i, uid);
            let to = if i < at { i } else { i - 1 };
            assert(names(after, to, uid));
        }
    }
    assert forall|uid: Seq<char>| as_map(after).contains_key(uid) implies as_map(after)[uid]
        == want[uid] by {
        let i = choose|i: int| names(after, i, uid);
        let from = if i < at { i } else { i + 1 };
        lemma_entry(after, i);
        lemma_entry(entries, from);
    }
    assert(as_map(after) =~= want);
}

/// The live indexers of a service, keyed by unique name.
pub struct LiveSet {
    entries: Vec<LiveIndexer>,
}

impl View for LiveSet {
    type V = Map<Seq<char>, u64>;

    closed spec fn view(&self) -> Map<Seq<char>, u64> {
        as_map(self.entries@)
    }
}

impl LiveSet {
    #[verifier::type_invariant]
    spec fn no_name_twice(self) -> bool {
        distinct(self.entries@)
    }

    /// A set without indexers.
    pub fn new() -> (set: LiveSet)
        ensures
            set@ == Map::<Seq<char>, u64>::empty(),
    {
        let set = LiveSet { entries: Vec::new() };
        assert(set@ =~= Map::<Seq<char>, u64>::empty());
        set
    }

    /// The place of the indexer named `uid`, if it is live.
    fn position(&self, uid: &str) -> (at: Option<usize>)
        ensures
            match at {
                Some(i) => names(self.entries@, i as int, uid@),
                None => !self@.contains_key(uid@),
            },
    {
        let wanted = String::from_str(uid);
        let mut i: usize = 0;
        while i < self.entries.len()
            invariant
                i <= self.entries.len(),
                wanted@ == uid@,
                forall|j: int| 0 <= j < i ==> !names(self.entries@, j, uid@),
            decreases self.entries.len() - i,
        {
            if self.entries[i].uid == wanted {
                return Some(i);
            }
            i = i + 1;
        }
        None
    }

    /// How many indexers are live.
    pub fn len(&self) -> (n: usize)
        ensures
            n == self@.dom().len(),
    {
        proof {
            use_type_invariant(self);
            lemma_len(self.entries@);
        }
        self.entries.len()
    }

    /// The executor of the indexer named `uid`, if it is live.
    pub fn get(&self, uid: &str) -> (executor: Option<u64>)
        ensures
            executor == (if self@.contains_key(uid@) {
                Some(self@[uid@])
            } else {
                None
            }),
    {
        proof {
            use_type_invariant(self);
        }
        match self.position(uid) {
            Some(i) => {
                proof {
                    lemma_entry(self.entries@, i as int);
                }
                Some(self.entries[i].executor)
            },
            None => None,
        }
    }

    /// Makes `executor` the executor of the indexer named `uid` and returns
    /// the one it replaces.
    pub fn insert(&mut self, uid: String, executor: u64) -> (replaced: Option<u64>)
        ensures
            final(self)@ == old(self)@.insert(uid@, executor),
            replaced == (if old(self)@.contains_key(uid@) {
                Some(old(self)@[uid@])
            } else {
                None
            }),
    {
        proof {
            use_type_invariant(&*self);
        }
        let entry = LiveIndexer { uid, executor };
        match self.position(entry.uid.as_str()) {
            Some(i) => {
                proof {
                    lemma_entry(self.entries@, i as int);
                    lemma_update(self.entries@, i as int, entry);
                }
                let replaced = self.entries[i].executor;
                let mut entries: Vec<LiveIndexer> = Vec::new();
                core::mem::swap(&mut self.entries, &mut entries);
                entries.set(i, entry);
                core::mem::swap(&mut self.entries, &mut entries);
                Some(replaced)
            },
            None => {
                proof {
                    lemma_push(self.entries@, entry);
                }
                let mut entries: Vec<LiveIndexer> = Vec::new();
                core::mem::swap(&mut self.entries, &mut entries);
                entries.push(entry);
                core::mem::swap(&mut self.entries, &mut entries);
                None
            },
        }
    }

    /// Takes the indexer named `uid` out of the set and returns its executor.
    pub fn remove(&mut self, uid: &str) -> (removed: Option<u64>)
        ensures
            final(self)@ == old(self)@.remove(uid@),
            removed == (if old(self)@.contains_key(uid@) {
                Some(old(self)@[uid@])
            } else {
                None
            }),
    {
        proof {
            use_type_invariant(&*self);
        }
        match self.position(uid) {
            Some(i) => {
                proof {
                    lemma_entry(self.entries@, i as int);
                    lemma_remove(self.entries@, i as int);
                }
                let mut entries: Vec<LiveIndexer> = Vec::new();
                core::mem::swap(&mut self.entries, &mut entries);
                let entry = entries.remove(i);
                core::mem::swap(&mut self.entries, &mut entries);
                Some(entry.executor)
            },
            None => {
                assert(self@.remove(uid@) =~= self@);
                None
            },
        }
    }
}

proof fn lemma_len(entries: Seq<LiveIndexer>)
    requires
        distinct(entries),
    ensures
        as_map(entries).dom().finite(),
        as_map(entries).dom().len() == entries.len(),
    decreases entries.len(),
{
    if entries.len() == 0 {
        assert(as_map(entries).dom() =~= Set::<Seq<char>>::empty());
    } else {
        let last = entries.last();
        let rest = entries.drop_last();
        assert forall|i: int, j: int|
            0 <= i < rest.len() && 0 <= j < rest.len() && i != j implies #[trigger] rest[i].uid@
            != #[trigger] rest[j].uid@ by {
            assert(entries[i].uid@ != entries[j].uid@);
        }
        lemma_len(rest);
        if as_map(rest).contains_key(last.uid@) {
            let i = choose|i: int| names(rest, i, last.uid@);
            assert(entries[i].uid@ != entries[entries.len() - 1].uid@);
        }
        lemma_push(rest, last);
        assert(rest.push(last) =~= entries);
        assert(as_map(entries).dom() =~= as_map(rest).dom().insert(last.uid@));
    }
}

} // verus!
