//! The command registry: a mapping from command name to an opaque callback
//! handle supplied by the host runtime.
//!
//! Entries are kept in insertion order and names are unique. Registering an
//! existing name silently replaces its handle and hands the previous handle
//! back — the registry is shared, process-wide and mutable by any
//! collaborator, so collisions are the callers' responsibility.

use vstd::prelude::*;
use crate::text::chars_eq;

verus! {

/// One registered command: its name and the host's opaque callback handle.
pub struct CommandEntry {
    pub name: Vec<char>,
    pub handle: u64,
}

/// The registry of callable commands, in insertion order.
pub struct CommandMap {
    pub entries: Vec<CommandEntry>,
}

impl CommandMap {
    /// The registered names, in insertion order.
    pub open spec fn names(self) -> Seq<Seq<char>> {
        self.entries@.map(|i: int, e: CommandEntry| e.name@)
    }

    /// Well-formed: no two entries share a name.
    pub open spec fn wf(self) -> bool {
        forall|i: int, j: int|
            0 <= i < j < self.entries@.len() ==> self.entries@[i].name@ != self.entries@[j].name@
    }

    /// Some entry carries this name.
    pub open spec fn spec_contains(self, name: Seq<char>) -> bool {
        exists|i: int| 0 <= i < self.entries@.len() && self.entries@[i].name@ == name
    }

    /// The position of the entry carrying this name, when one exists.
    pub open spec fn index_of(self, name: Seq<char>) -> int {
        choose|i: int| 0 <= i < self.entries@.len() && self.entries@[i].name@ == name
    }

    /// The handle registered under this name, if any.
    pub open spec fn spec_get(self, name: Seq<char>) -> Option<u64> {
        if self.spec_contains(name) {
            Some(self.entries@[self.index_of(name)].handle)
        } else {
            None
        }
    }

    /// An empty registry.
    pub fn new() -> (r: Self)
        ensures
            r.wf(),
            r.names() == Seq::<Seq<char>>::empty(),
            forall|k: Seq<char>| r.spec_get(k) == None::<u64>,
    {
        let r = CommandMap { entries: Vec::new() };
        assert(r.names() =~= Seq::<Seq<char>>::empty());
        r
    }

    /// Look up the handle registered under `name`.
    pub fn get(&self, name: &Vec<char>) -> (r: Option<u64>)
        requires
            self.wf(),
        ensures
            r == self.spec_get(name@),
    {
        let n = self.entries.len();
        let mut i: usize = 0;
        while i < n
            invariant
                i <= n,
                n == self.entries@.len(),
                self.wf(),
                forall|j: int| 0 <= j < i ==> self.entries@[j].name@ != name@,
            decreases n - i,
        {
            if chars_eq(&self.entries[i].name, name) {
                proof {
                    assert(self.spec_contains(name@));
                    let w = self.index_of(name@);
                    assert(0 <= w < self.entries@.len() && self.entries@[w].name@ == name@);
                    assert(w == i);
                }
                return Some(self.entries[i].handle);
            }
            i += 1;
        }
        assert(!self.spec_contains(name@));
        None
    }

    /// Register `handle` under `name`, inserting a new entry or silently
    /// replacing the handle of an existing one; the previous handle, if any,
    /// is returned. Every other name keeps its handle, and the listing order
    /// of names does not change (a new name goes to the end).
    pub fn add_cmd(&mut self, name: Vec<char>, handle: u64) -> (prev: Option<u64>)
        requires
            old(self).wf(),
        ensures
            final(self).wf(),
            prev == old(self).spec_get(name@),
            final(self).spec_get(name@) == Some(handle),
            forall|k: Seq<char>| k != name@ ==> final(self).spec_get(k) == old(self).spec_get(k),
            old(self).spec_contains(name@) ==> final(self).names() == old(self).names(),
            !old(self).spec_contains(name@) ==> final(self).names() == old(self).names().push(
                name@,
            ),
    {
        let ghost name_seq = name@;
        let n = self.entries.len();
        let mut i: usize = 0;
        while i < n
            invariant
                i <= n,
                n == self.entries@.len(),
                *self == *old(self),
                self.wf(),
                name@ == name_seq,
                forall|j: int| 0 <= j < i ==> self.entries@[j].name@ != name_seq,
            decreases n - i,
        {
            if chars_eq(&self.entries[i].name, &name) {
                let prev = self.entries[i].handle;
                proof {
                    assert(old(self).entries@[i as int].name@ == name_seq);
                    assert(old(self).spec_contains(name_seq));
                    let w = old(self).index_of(name_seq);
                    assert(0 <= w < old(self).entries@.len() && old(self).entries@[w].name@
                        == name_seq);
                    assert(w == i);
                }
                self.entries[i] = CommandEntry { name, handle };
                proof {
                    lemma_replace_at(*old(self), *self, i as int, handle);
                }
                return Some(prev);
            }
            i += 1;
        }
        assert(!old(self).spec_contains(name_seq));
        self.entries.push(CommandEntry { name, handle });
        proof {
            lemma_push_new(*old(self), *self, handle);
        }
        None
    }
}

/// Replacing the entry at a well-formed position with one of the same name
/// changes only that name's handle, and no name's listing position.
proof fn lemma_replace_at(m0: CommandMap, m1: CommandMap, i: int, handle: u64)
    requires
        m0.wf(),
        0 <= i < m0.entries@.len(),
        m1.entries@ == m0.entries@.update(
            i,
            CommandEntry { name: m1.entries@[i].name, handle },
        ),
        m1.entries@[i].name@ == m0.entries@[i].name@,
    ensures
        m1.wf(),
        m1.names() == m0.names(),
        m1.spec_get(m0.entries@[i].name@) == Some(handle),
        forall|k: Seq<char>|
            k != m0.entries@[i].name@ ==> m1.spec_get(k) == m0.spec_get(k),
{
    let name = m0.entries@[i].name@;
    assert(forall|j: int|
        0 <= j < m1.entries@.len() ==> m1.entries@[j].name@ == m0.entries@[j].name@);
    assert(m1.names() =~= m0.names());
    assert(m1.spec_contains(name)) by {
        assert(m1.entries@[i].name@ == name);
    }
    assert(m1.index_of(name) == i) by {
        let w = m1.index_of(name);
        assert(0 <= w < m1.entries@.len() && m1.entries@[w].name@ == name);
    }
    assert forall|k: Seq<char>| k != name implies m1.spec_get(k) == m0.spec_get(k) by {
        assert(m1.spec_contains(k) == m0.spec_contains(k)) by {
            if m0.spec_contains(k) {
                let w = m0.index_of(k);
                assert(m1.entries@[w].name@ == k);
            }
            if m1.spec_contains(k) {
                let w = m1.index_of(k);
                assert(m0.entries@[w].name@ == k);
            }
        }
        if m0.spec_contains(k) {
            let w0 = m0.index_of(k);
            let w1 = m1.index_of(k);
            assert(w0 == w1);
            assert(w0 != i);
        }
    }
}

/// Appending an entry with a fresh name adds that name at the end of the
/// listing and leaves every existing name's handle alone.
proof fn lemma_push_new(m0: CommandMap, m1: CommandMap, handle: u64)
    requires
        m0.wf(),
        m1.entries@.len() == m0.entries@.len() + 1,
        m1.entries@ == m0.entries@.push(m1.entries@.last()),
        m1.entries@.last().handle == handle,
        !m0.spec_contains(m1.entries@.last().name@),
    ensures
        m1.wf(),
        m1.names() == m0.names().push(m1.entries@.last().name@),
        m1.spec_get(m1.entries@.last().name@) == Some(handle),
        forall|k: Seq<char>|
            k != m1.entries@.last().name@ ==> m1.spec_get(k) == m0.spec_get(k),
{
    let name = m1.entries@.last().name@;
    let n = m0.entries@.len() as int;
    assert(forall|j: int| 0 <= j < n ==> m1.entries@[j] == m0.entries@[j]);
    assert(forall|j: int| 0 <= j < n ==> m0.entries@[j].name@ != name);
    assert(m1.names() =~= m0.names().push(name));
    assert(m1.spec_contains(name)) by {
        assert(m1.entries@[n].name@ == name);
    }
    assert(m1.index_of(name) == n) by {
        let w = m1.index_of(name);
        assert(0 <= w < m1.entries@.len() && m1.entries@[w].name@ == name);
    }
    assert forall|k: Seq<char>| k != name implies m1.spec_get(k) == m0.spec_get(k) by {
        assert(m1.spec_contains(k) == m0.spec_contains(k)) by {
            if m0.spec_contains(k) {
                let w = m0.index_of(k);
                assert(m1.entries@[w].name@ == k);
            }
            if m1.spec_contains(k) {
                let w = m1.index_of(k);
                assert(w < n);
                assert(m0.entries@[w].name@ == k);
            }
        }
        if m0.spec_contains(k) {
            let w0 = m0.index_of(k);
            let w1 = m1.index_of(k);
            assert(w0 == w1);
        }
    }
}

} // verus!
