//! The registry of running forwards: one task handle per composite key.

use vstd::prelude::*;
use crate::text::{starts_with, texts_view, to_chars};

verus! {

/// The table of running forwards. Each entry pairs a key with the handle of
/// the task that serves it; no key occurs twice. Entries keep the order in
/// which their keys first came in.
pub struct Registry<H> {
    entries: Vec<(String, H)>,
}

/// Whether some entry of `entries` has the key `key`.
pub open spec fn has_key<H>(entries: Seq<(Seq<char>, H)>, key: Seq<char>) -> bool {
    exists|i: int| 0 <= i < entries.len() && (#[trigger] entries[i]).0 == key
}

/// Whether some entry of `entries` has a key that begins with `prefix`.
pub open spec fn has_prefixed<H>(entries: Seq<(Seq<char>, H)>, prefix: Seq<char>) -> bool {
    exists|i: int| 0 <= i < entries.len() && prefix.is_prefix_of((#[trigger] entries[i]).0)
}

/// The index of the first entry with the key `key`, or the number of
/// entries where there is none.
pub open spec fn index_of_key<H>(entries: Seq<(Seq<char>, H)>, key: Seq<char>) -> int
    decreases entries.len(),
{
    if entries.len() == 0 || entries[0].0 == key {
        0
    } else {
        1 + index_of_key(entries.skip(1), key)
    }
}

/// The entries after `handle` was stored under `key`: in the place of the
/// entry that had the key, or at the end where none had it.
pub open spec fn insert_spec<H>(entries: Seq<(Seq<char>, H)>, key: Seq<char>, handle: H) -> Seq<
    (Seq<char>, H),
> {
    let at = index_of_key(entries, key);
    if 0 <= at < entries.len() {
        entries.update(at, (key, handle))
    } else {
        entries.push((key, handle))
    }
}

/// The handle stored under `key`, where there is one.
pub open spec fn handle_of<H>(entries: Seq<(Seq<char>, H)>, key: Seq<char>) -> Option<H> {
    let at = index_of_key(entries, key);
    if 0 <= at < entries.len() {
        Some(entries[at].1)
    } else {
        None
    }
}

/// The entries without the one that has the key `key`.
pub open spec fn remove_spec<H>(entries: Seq<(Seq<char>, H)>, key: Seq<char>) -> Seq<
    (Seq<char>, H),
> {
    let at = index_of_key(entries, key);
    if 0 <= at < entries.len() {
        entries.remove(at)
    } else {
        entries
    }
}

/// The entries without those that have one of the keys `keys`.
pub open spec fn remove_keys_spec<H>(entries: Seq<(Seq<char>, H)>, keys: Seq<Seq<char>>) -> Seq<
    (Seq<char>, H),
>
    decreases keys.len(),
{
    if keys.len() == 0 {
        entries
    } else {
        remove_spec(remove_keys_spec(entries, keys.drop_last()), keys.last())
    }
}

/// The handles that leave when the entries with the keys `keys` are taken
/// out one key after the other, in that order.
pub open spec fn removed_handles_spec<H>(entries: Seq<(Seq<char>, H)>, keys: Seq<Seq<char>>) -> Seq<
    H,
>
    decreases keys.len(),
{
    if keys.len() == 0 {
        Seq::empty()
    } else {
        let before = removed_handles_spec(entries, keys.drop_last());
        match handle_of(remove_keys_spec(entries, keys.drop_last()), keys.last()) {
            Some(h) => before.push(h),
            None => before,
        }
    }
}

/// `index_of_key` lies within the entries, no entry before it has the key,
/// and where it lies inside the entries the entry there has the key.
pub proof fn lemma_index_of_key<H>(entries: Seq<(Seq<char>, H)>, key: Seq<char>)
    ensures
        0 <= index_of_key(entries, key) <= entries.len(),
        forall|j: int| 0 <= j < index_of_key(entries, key) ==> (#[trigger] entries[j]).0 != key,
        index_of_key(entries, key) < entries.len() ==> entries[index_of_key(entries, key)].0
            == key,
        index_of_key(entries, key) < entries.len() <==> has_key(entries, key),
    decreases entries.len(),
{
    if entries.len() == 0 || entries[0].0 == key {
    } else {
        let rest = entries.skip(1);
        lemma_index_of_key(rest, key);
        assert(forall|j: int| 0 <= j < rest.len() ==> rest[j] == entries[j + 1]);
        assert forall|j: int| 0 <= j < index_of_key(entries, key) implies (
        #[trigger] entries[j]).0 != key by {
            if j > 0 {
                assert(rest[j - 1] == entries[j]);
            }
        }
        if has_key(rest, key) {
            let k = choose|k: int| 0 <= k < rest.len() && (#[trigger] rest[k]).0 == key;
            assert(entries[k + 1].0 == key);
        }
        if has_key(entries, key) {
            let k = choose|k: int| 0 <= k < entries.len() && (#[trigger] entries[k]).0 == key;
            assert(rest[k - 1].0 == key);
        }
    }
}

/// An index whose entry has the key, with no entry before it that has it,
/// is the index of the key.
pub proof fn lemma_index_of_key_is<H>(entries: Seq<(Seq<char>, H)>, key: Seq<char>, at: int)
    requires
        0 <= at <= entries.len(),
        forall|j: int| 0 <= j < at ==> (#[trigger] entries[j]).0 != key,
        at < entries.len() ==> entries[at].0 == key,
    ensures
        index_of_key(entries, key) == at,
{
    lemma_index_of_key(entries, key);
    let found = index_of_key(entries, key);
    if found < at {
        assert(entries[found].0 != key);
    }
    if at < found {
        assert(entries[at].0 != key);
    }
}

/// Whether no two entries of `entries` share a key.
pub open spec fn distinct_keys<H>(entries: Seq<(Seq<char>, H)>) -> bool {
    forall|i: int, j: int|
        0 <= i < entries.len() && 0 <= j < entries.len() && i != j ==> (#[trigger] entries[i]).0
            != (#[trigger] entries[j]).0
}

/// Storing under a key keeps the keys distinct, and afterwards the keys are
/// those from before and the new one.
pub proof fn lemma_insert_keys<H>(entries: Seq<(Seq<char>, H)>, key: Seq<char>, handle: H)
    requires
        distinct_keys(entries),
    ensures
        distinct_keys(insert_spec(entries, key, handle)),
        forall|other: Seq<char>|
            #[trigger] has_key(insert_spec(entries, key, handle), other) <==> (other == key
                || has_key(entries, other)),
{
    lemma_index_of_key(entries, key);
    let at = index_of_key(entries, key);
    let after = insert_spec(entries, key, handle);
    if at < entries.len() {
        assert(forall|i: int| 0 <= i < after.len() ==> (#[trigger] after[i]).0 == entries[i].0);
        assert forall|other: Seq<char>| has_key(after, other) <==> (other == key || has_key(
            entries,
            other,
        )) by {
            if has_key(after, other) {
                let i = choose|i: int| 0 <= i < after.len() && (#[trigger] after[i]).0 == other;
                assert(entries[i].0 == other);
            }
            if has_key(entries, other) {
                let i = choose|i: int|
                    0 <= i < entries.len() && (#[trigger] entries[i]).0 == other;
                assert(after[i].0 == other);
            }
            if other == key {
                assert(after[at].0 == key);
            }
        }
        assert forall|i: int, j: int|
            0 <= i < after.len() && 0 <= j < after.len() && i != j implies (#[trigger] after[i]).0
            != (#[trigger] after[j]).0 by {
            assert(after[i].0 == entries[i].0);
            assert(after[j].0 == entries[j].0);
        }
    } else {
        assert(forall|i: int| 0 <= i < entries.len() ==> (#[trigger] after[i]) == entries[i]);
        assert(after[entries.len() as int].0 == key);
        assert forall|other: Seq<char>| has_key(after, other) <==> (other == key || has_key(
            entries,
            other,
        )) by {
            if has_key(after, other) {
                let i = choose|i: int| 0 <= i < after.len() && (#[trigger] after[i]).0 == other;
                if i < entries.len() {
                    assert(entries[i].0 == other);
                }
            }
            if has_key(entries, other) {
                let i = choose|i: int|
                    0 <= i < entries.len() && (#[trigger] entries[i]).0 == other;
                assert(after[i].0 == other);
            }
        }
        assert forall|i: int, j: int|
            0 <= i < after.len() && 0 <= j < after.len() && i != j implies (#[trigger] after[i]).0
            != (#[trigger] after[j]).0 by {
            if i < entries.len() {
                assert(after[i] == entries[i]);
            }
            if j < entries.len() {
                assert(after[j] == entries[j]);
            }
        }
    }
}

/// Taking a key out keeps the keys distinct, and afterwards the keys are
/// those from before without that one.
pub proof fn lemma_remove_keys<H>(entries: Seq<(Seq<char>, H)>, key: Seq<char>)
    requires
        distinct_keys(entries),
    ensures
        distinct_keys(remove_spec(entries, key)),
        forall|other: Seq<char>|
            #[trigger] has_key(remove_spec(entries, key), other) <==> (other != key && has_key(
                entries,
                other,
            )),
{
    lemma_index_of_key(entries, key);
    let at = index_of_key(entries, key);
    let after = remove_spec(entries, key);
    if at < entries.len() {
        assert(forall|i: int| 0 <= i < at ==> (#[trigger] after[i]) == entries[i]);
        assert(forall|i: int| at <= i < after.len() ==> (#[trigger] after[i]) == entries[i + 1]);
        assert forall|other: Seq<char>| has_key(after, other) <==> (other != key && has_key(
            entries,
            other,
        )) by {
            if has_key(after, other) {
                let i = choose|i: int| 0 <= i < after.len() && (#[trigger] after[i]).0 == other;
                if i < at {
                    assert(entries[i].0 == other);
                } else {
                    assert(entries[i + 1].0 == other);
                    assert(entries[i + 1].0 != entries[at].0);
                }
            }
            if other != key && has_key(entries, other) {
                let i = choose|i: int|
                    0 <= i < entries.len() && (#[trigger] entries[i]).0 == other;
                if i < at {
                    assert(after[i].0 == other);
                } else {
                    assert(after[i - 1].0 == other);
                }
            }
        }
        assert forall|i: int, j: int|
            0 <= i < after.len() && 0 <= j < after.len() && i != j implies (#[trigger] after[i]).0
            != (#[trigger] after[j]).0 by {
            let bi = if i < at { i } else { i + 1 };
            let bj = if j < at { j } else { j + 1 };
            assert(after[i] == entries[bi]);
            assert(after[j] == entries[bj]);
        }
    }
}

/// Taking several keys out keeps the keys distinct, and afterwards the keys
/// are those from before that are none of them.
pub proof fn lemma_remove_all_keys<H>(entries: Seq<(Seq<char>, H)>, keys: Seq<Seq<char>>)
    requires
        distinct_keys(entries),
    ensures
        distinct_keys(remove_keys_spec(entries, keys)),
        forall|other: Seq<char>|
            #[trigger] has_key(remove_keys_spec(entries, keys), other) <==> (!keys.contains(other)
                && has_key(entries, other)),
    decreases keys.len(),
{
    if keys.len() > 0 {
        let before = remove_keys_spec(entries, keys.drop_last());
        lemma_remove_all_keys(entries, keys.drop_last());
        lemma_remove_keys(before, keys.last());
        assert forall|other: Seq<char>|
            has_key(remove_keys_spec(entries, keys), other) <==> (!keys.contains(other)
                && has_key(entries, other)) by {
            if keys.contains(other) {
                let i = choose|i: int| 0 <= i < keys.len() && keys[i] == other;
                if i < keys.len() - 1 {
                    assert(keys.drop_last()[i] == other);
                }
            }
            if keys.drop_last().contains(other) {
                let i = choose|i: int| 0 <= i < keys.drop_last().len() && keys.drop_last()[i]
                    == other;
                assert(keys[i] == other);
            }
        }
    }
}

impl<H> Registry<H> {
    /// The entries as plain values: key text and handle, in order.
    pub closed spec fn view(&self) -> Seq<(Seq<char>, H)> {
        Seq::new(self.entries@.len(), |i: int| (self.entries@[i].0@, self.entries@[i].1))
    }

    /// The invariant of the registry: no key occurs twice.
    pub open spec fn wf(&self) -> bool {
        distinct_keys(self@)
    }

    /// An empty registry.
    pub fn new() -> (out: Registry<H>)
        ensures
            out@ == Seq::<(Seq<char>, H)>::empty(),
            out.wf(),
    {
        let out = Registry { entries: Vec::new() };
        assert(out@ =~= Seq::<(Seq<char>, H)>::empty());
        out
    }

    /// The number of entries.
    pub fn len(&self) -> (out: usize)
        ensures
            out == self@.len(),
    {
        self.entries.len()
    }

    /// Whether the registry holds no entry.
    pub fn is_empty(&self) -> (out: bool)
        ensures
            out == (self@.len() == 0),
    {
        self.entries.len() == 0
    }

    /// The index of the entry with the key `key`, or the number of entries
    /// where there is none.
    fn position(&self, key: &str) -> (out: usize)
        ensures
            out <= self@.len(),
            out < self@.len() ==> self@[out as int].0 == key@,
            forall|j: int| 0 <= j < out ==> (#[trigger] self@[j]).0 != key@,
            out == index_of_key(self@, key@),
    {
        let mut i: usize = 0;
        while i < self.entries.len()
            invariant
                i <= self.entries.len(),
                self@.len() == self.entries@.len(),
                forall|j: int| 0 <= j < i ==> (#[trigger] self@[j]).0 != key@,
            decreases self.entries.len() - i,
        {
            if crate::model::text_is(self.entries[i].0.as_str(), key) {
                proof {
                    lemma_index_of_key_is(self@, key@, i as int);
                }
                return i;
            }
            i += 1;
        }
        proof {
            lemma_index_of_key_is(self@, key@, i as int);
        }
        i
    }

    /// Whether an entry has the key `key`.
    pub fn contains_key(&self, key: &str) -> (out: bool)
        ensures
            out == has_key(self@, key@),
    {
        let at = self.position(key);
        proof {
            lemma_index_of_key(self@, key@);
        }
        at < self.entries.len()
    }

    /// Stores `handle` under `key`. Where the key is already there, the new
    /// handle takes the place of the old one, which is handed back.
    pub fn insert(&mut self, key: String, handle: H) -> (previous: Option<H>)
        requires
            old(self).wf(),
        ensures
            final(self).wf(),
            final(self)@ == insert_spec(old(self)@, key@, handle),
            previous == handle_of(old(self)@, key@),
            has_key(final(self)@, key@),
            forall|other: Seq<char>|
                other != key@ ==> has_key(final(self)@, other) == has_key(old(self)@, other),
    {
        let at = self.position(key.as_str());
        let ghost before = self@;
        proof {
            lemma_insert_keys(before, key@, handle);
        }
        if at < self.entries.len() {
            let (_, previous) = self.entries.remove(at);
            self.entries.insert(at, (key, handle));
            proof {
                assert(before[at as int].1 == previous);
                assert(self@ =~= before.update(at as int, (key@, handle)));
            }
            Some(previous)
        } else {
            self.entries.push((key, handle));
            proof {
                assert(self@ =~= before.push((key@, handle)));
            }
            None
        }
    }

    /// Takes the entry with the key `key` out and hands its handle back;
    /// `None`, and nothing changed, where there is no such entry.
    pub fn remove(&mut self, key: &str) -> (removed: Option<H>)
        requires
            old(self).wf(),
        ensures
            final(self).wf(),
            final(self)@ == remove_spec(old(self)@, key@),
            removed == handle_of(old(self)@, key@),
            !has_key(final(self)@, key@),
            forall|other: Seq<char>|
                other != key@ ==> has_key(final(self)@, other) == has_key(old(self)@, other),
    {
        let at = self.position(key);
        let ghost before = self@;
        proof {
            lemma_remove_keys(before, key@);
        }
        if at < self.entries.len() {
            let (_, handle) = self.entries.remove(at);
            proof {
                assert(before[at as int].1 == handle);
                assert(self@ =~= before.remove(at as int));
            }
            Some(handle)
        } else {
            None
        }
    }

    /// Takes the entries with the keys `keys` out, one key after the other,
    /// and hands back the handles that left, in that order.
    pub fn remove_all(&mut self, keys: &Vec<String>) -> (removed: Vec<H>)
        requires
            old(self).wf(),
        ensures
            final(self).wf(),
            final(self)@ == remove_keys_spec(old(self)@, texts_view(keys@)),
            removed@ == removed_handles_spec(old(self)@, texts_view(keys@)),
    {
        let mut removed: Vec<H> = Vec::new();
        let mut i: usize = 0;
        let ghost all = texts_view(keys@);
        proof {
            assert(all.subrange(0, 0) =~= Seq::<Seq<char>>::empty());
        }
        while i < keys.len()
            invariant
                i <= keys.len(),
                all == texts_view(keys@),
                self.wf(),
                self@ == remove_keys_spec(old(self)@, all.subrange(0, i as int)),
                removed@ == removed_handles_spec(old(self)@, all.subrange(0, i as int)),
            decreases keys.len() - i,
        {
            proof {
                let upto = all.subrange(0, i + 1);
                assert(upto.drop_last() =~= all.subrange(0, i as int));
                assert(upto.last() == keys@[i as int]@);
            }
            match self.remove(keys[i].as_str()) {
                Some(h) => {
                    removed.push(h);
                },
                None => {},
            }
            i += 1;
        }
        proof {
            assert(all.subrange(0, keys.len() as int) =~= all);
        }
        removed
    }

    /// The key of the first entry whose key begins with `prefix`; `None`
    /// where no key does.
    pub fn first_key_with_prefix(&self, prefix: &str) -> (found: Option<String>)
        ensures
            found.is_some() == has_prefixed(self@, prefix@),
            found matches Some(key) ==> exists|i: int|
                0 <= i < self@.len() && (#[trigger] self@[i]).0 == key@ && prefix@.is_prefix_of(
                    key@,
                ) && forall|j: int| 0 <= j < i ==> !prefix@.is_prefix_of((#[trigger] self@[j]).0),
    {
        let wanted = to_chars(prefix);
        let mut i: usize = 0;
        while i < self.entries.len()
            invariant
                i <= self.entries.len(),
                wanted@ == prefix@,
                self@.len() == self.entries@.len(),
                forall|j: int| 0 <= j < i ==> !prefix@.is_prefix_of((#[trigger] self@[j]).0),
            decreases self.entries.len() - i,
        {
            let key = to_chars(self.entries[i].0.as_str());
            if starts_with(&key, &wanted) {
                let out = self.entries[i].0.clone();
                assert(self@[i as int].0 == out@);
                return Some(out);
            }
            i += 1;
        }
        None
    }

    /// The keys of all entries, in order.
    pub fn keys(&self) -> (out: Vec<String>)
        ensures
            out@.len() == self@.len(),
            forall|i: int| 0 <= i < out@.len() ==> (#[trigger] out@[i])@ == self@[i].0,
    {
        let mut out: Vec<String> = Vec::new();
        let mut i: usize = 0;
        while i < self.entries.len()
            invariant
                i <= self.entries.len(),
                self@.len() == self.entries@.len(),
                out@.len() == i,
                forall|j: int| 0 <= j < i ==> (#[trigger] out@[j])@ == self@[j].0,
            decreases self.entries.len() - i,
        {
            out.push(self.entries[i].0.clone());
            i += 1;
        }
        out
    }

    /// Empties the registry and hands every entry back, in order.
    pub fn drain(&mut self) -> (taken: Vec<(String, H)>)
        ensures
            final(self)@ == Seq::<(Seq<char>, H)>::empty(),
            final(self).wf(),
            taken@.len() == old(self)@.len(),
            forall|i: int|
                0 <= i < taken@.len() ==> (#[trigger] taken@[i]).0@ == old(self)@[i].0
                    && taken@[i].1 == old(self)@[i].1,
    {
        let mut taken: Vec<(String, H)> = Vec::new();
        core::mem::swap(&mut self.entries, &mut taken);
        assert(self@ =~= Seq::<(Seq<char>, H)>::empty());
        taken
    }
}

} // verus!
