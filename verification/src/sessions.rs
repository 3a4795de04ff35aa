//! The open connections, by name.
use crate::text::same;
use vstd::prelude::*;

verus! {

/// The open connections. No name occurs twice.
pub struct Sessions<C> {
    entries: Vec<(String, C)>,
}

/// No two entries have one name.
pub closed spec fn distinct<C>(entries: Seq<(String, C)>) -> bool {
    forall|i: int, j: int|
        0 <= i < j < entries.len() ==> (#[trigger] entries[i]).0@ != (#[trigger] entries[j]).0@
}

/// An entry with this name stands at `i`.
pub closed spec fn named<C>(entries: Seq<(String, C)>, name: Seq<char>, i: int) -> bool {
    0 <= i < entries.len() && entries[i].0@ == name
}

/// The connections by name.
pub closed spec fn by_name<C>(entries: Seq<(String, C)>) -> Map<Seq<char>, C> {
    Map::new(
        |name: Seq<char>| exists|i: int| named(entries, name, i),
        |name: Seq<char>| entries[choose|i: int| named(entries, name, i)].1,
    )
}

impl<C> View for Sessions<C> {
    type V = Map<Seq<char>, C>;

    closed spec fn view(&self) -> Map<Seq<char>, C> {
        by_name(self.entries@)
    }
}

/// Where no name occurs twice, each entry is what its name stands for.
proof fn lemma_by_name_at<C>(entries: Seq<(String, C)>, i: int)
    requires
        distinct(entries),
        0 <= i < entries.len(),
    ensures
        by_name(entries).contains_key(entries[i].0@),
        by_name(entries)[entries[i].0@] == entries[i].1,
{
    let name = entries[i].0@;
    assert(named(entries, name, i));
    let k = choose|k: int| named(entries, name, k);
    assert(k == i) by {
        if k < i {
            assert(entries[k].0@ != entries[i].0@);
        } else if i < k {
            assert(entries[i].0@ != entries[k].0@);
        }
    }
}

impl<C> Sessions<C> {
    #[verifier::type_invariant]
    spec fn well_formed(&self) -> bool {
        distinct(self.entries@)
    }

    /// No connection is open.
    pub fn new() -> (sessions: Self)
        ensures
            sessions@ == Map::<Seq<char>, C>::empty(),
    {
        let sessions = Sessions { entries: Vec::new() };
        assert(sessions@ =~= Map::<Seq<char>, C>::empty());
        sessions
    }

    /// Where the connection of this name stands.
    fn position(&self, name: &str) -> (found: Option<usize>)
        ensures
            match found {
                Some(i) => named(self.entries@, name@, i as int),
                None => forall|i: int| !#[trigger] named(self.entries@, name@, i),
            },
    {
        let mut i: usize = 0;
        while i < self.entries.len()
            invariant
                i <= self.entries@.len(),
                forall|j: int| 0 <= j < i ==> !#[trigger] named(self.entries@, name@, j),
            decreases self.entries@.len() - i,
        {
            if same(self.entries[i].0.as_str(), name) {
                return Some(i);
            }
            i = i + 1;
        }
        None
    }

    /// The connection of this name.
    pub fn get(&self, name: &str) -> (connection: Option<&C>)
        ensures
            match connection {
                Some(c) => self@.contains_key(name@) && *c == self@[name@],
                None => !self@.contains_key(name@),
            },
    {
        proof {
            use_type_invariant(self);
        }
        match self.position(name) {
            Some(i) => {
                proof {
                    lemma_by_name_at(self.entries@, i as int);
                }
                Some(&self.entries[i].1)
            },
            None => None,
        }
    }

    /// Closes the connection of this name and hands it out.
    pub fn remove(&mut self, name: &str) -> (connection: Option<C>)
        ensures
            final(self)@ == old(self)@.remove(name@),
            match connection {
                Some(c) => old(self)@.contains_key(name@) && c == old(self)@[name@],
                None => !old(self)@.contains_key(name@),
            },
    {
        proof {
            use_type_invariant(&*self);
        }
        match self.position(name) {
            Some(i) => {
                let mut entries: Vec<(String, C)> = Vec::new();
                std::mem::swap(&mut entries, &mut self.entries);
                let ghost all = entries@;
                let (_, connection) = entries.remove(i);
                proof {
                    lemma_by_name_at(all, i as int);
                    lemma_without(all, i as int);
                }
                self.entries = entries;
                Some(connection)
            },
            None => {
                assert(self@.remove(name@) =~= self@);
                None
            },
        }
    }

    /// Opens a connection under a name. The one that had the name is handed out.
    pub fn insert(&mut self, name: String, connection: C) -> (replaced: Option<C>)
        ensures
            final(self)@ == old(self)@.insert(name@, connection),
            match replaced {
                Some(c) => old(self)@.contains_key(name@) && c == old(self)@[name@],
                None => !old(self)@.contains_key(name@),
            },
    {
        let replaced = self.remove(name.as_str());
        proof {
            use_type_invariant(&*self);
        }
        let mut entries: Vec<(String, C)> = Vec::new();
        std::mem::swap(&mut entries, &mut self.entries);
        let ghost rest = entries@;
        entries.push((name, connection));
        proof {
            assert(!by_name(rest).contains_key(name@));
            lemma_with(rest, (name, connection));
            assert(by_name(entries@) =~= old(self)@.insert(name@, connection));
        }
        self.entries = entries;
        replaced
    }
}

/// Without the entry at `i`, its name stands for nothing, and every other name for what it did.
proof fn lemma_without<C>(entries: Seq<(String, C)>, i: int)
    requires
        distinct(entries),
        0 <= i < entries.len(),
    ensures
        distinct(entries.remove(i)),
        by_name(entries.remove(i)) == by_name(entries).remove(entries[i].0@),
{
    let rest = entries.remove(i);
    let name = entries[i].0@;
    assert forall|a: int, b: int| 0 <= a < b < rest.len() implies (#[trigger] rest[a]).0@ != (
    #[trigger] rest[b]).0@ by {
        let c = if a < i { a } else { a + 1 };
        let d = if b < i { b } else { b + 1 };
        assert(entries[c].0@ != entries[d].0@);
    }
    assert forall|n: Seq<char>|
        by_name(rest).contains_key(n) <==> #[trigger] by_name(entries).remove(name).contains_key(n) by {
        if by_name(rest).contains_key(n) {
            let a = choose|a: int| named(rest, n, a);
            let c = if a < i { a } else { a + 1 };
            assert(named(entries, n, c));
            if c < i {
                assert(entries[c].0@ != entries[i].0@);
            } else {
                assert(entries[i].0@ != entries[c].0@);
            }
        }
        if by_name(entries).remove(name).contains_key(n) {
            let c = choose|c: int| named(entries, n, c);
            let a = if c < i { c } else { c - 1 };
            assert(named(rest, n, a));
        }
    }
    assert forall|n: Seq<char>| #[trigger]
        by_name(rest).contains_key(n) implies by_name(rest)[n] == by_name(entries).remove(name)[n] by {
        let a = choose|a: int| named(rest, n, a);
        let c = if a < i { a } else { a + 1 };
        lemma_by_name_at(rest, a);
        lemma_by_name_at(entries, c);
        assert(by_name(entries).remove(name).contains_key(n));
    }
    assert(by_name(rest) =~= by_name(entries).remove(name));
}

/// With one more entry under a new name, that name stands for it, and every other for what it did.
proof fn lemma_with<C>(entries: Seq<(String, C)>, entry: (String, C))
    requires
        distinct(entries),
        !by_name(entries).contains_key(entry.0@),
    ensures
        distinct(entries.push(entry)),
        by_name(entries.push(entry)) == by_name(entries).insert(entry.0@, entry.1),
{
    let all = entries.push(entry);
    let name = entry.0@;
    assert forall|a: int, b: int| 0 <= a < b < all.len() implies (#[trigger] all[a]).0@ != (
    #[trigger] all[b]).0@ by {
        if b == entries.len() {
            if all[a].0@ == name {
                assert(named(entries, name, a));
            }
        } else {
            assert(entries[a].0@ != entries[b].0@);
        }
    }
    lemma_by_name_at(all, entries.len() as int);
    assert forall|n: Seq<char>|
        by_name(all).contains_key(n) <==> #[trigger] by_name(entries).insert(name, entry.1).contains_key(n) by {
        if by_name(all).contains_key(n) {
            let a = choose|a: int| named(all, n, a);
            if a < entries.len() {
                assert(named(entries, n, a));
            }
        }
        if by_name(entries).contains_key(n) {
            let a = choose|a: int| named(entries, n, a);
            assert(named(all, n, a));
        }
    }
    assert forall|n: Seq<char>| #[trigger]
        by_name(all).contains_key(n) implies by_name(all)[n] == by_name(entries).insert(name, entry.1)[n] by {
        if n != name {
            let a = choose|a: int| named(all, n, a);
            assert(named(entries, n, a));
            lemma_by_name_at(all, a);
            lemma_by_name_at(entries, a);
        }
    }
    assert(by_name(all) =~= by_name(entries).insert(name, entry.1));
}

}
