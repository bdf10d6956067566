use linked_hash_map::LinkedHashMap;
use vstd::prelude::*;

verus! {

/// One roster entry as seen by specifications: initials, name, email.
pub type EntryView = (Seq<char>, Seq<char>, Seq<char>);

#[verifier::external_type_specification]
#[verifier::external_body]
#[verifier::reject_recursive_types(K)]
#[verifier::reject_recursive_types(V)]
#[verifier::reject_recursive_types(S)]
pub struct ExLinkedHashMap<K, V, S>(LinkedHashMap<K, V, S>);

/// A co-author: the name and email written into a trailer line.
#[derive(Clone, Debug, PartialEq, Eq)]
pub struct Author {
    pub name: String,
    pub email: String,
}

/// What a linked hash map of authors holds, in iteration (insertion) order.
pub uninterp spec fn author_entries(m: LinkedHashMap<String, Author>) -> Seq<(Seq<char>, Seq<char>, Seq<char>)>;

/// Index of the entry with initials `k`, or -1 when there is none.
pub open spec fn key_index(s: Seq<EntryView>, k: Seq<char>) -> int
    decreases s.len(),
{
    if s.len() == 0 {
        -1
    } else if s.last().0 == k {
        s.len() - 1
    } else {
        key_index(s.drop_last(), k)
    }
}

pub open spec fn has_key(s: Seq<EntryView>, k: Seq<char>) -> bool {
    key_index(s, k) >= 0
}

/// The entries of `s` without those keyed by `k`, order kept.
pub open spec fn without_key(s: Seq<EntryView>, k: Seq<char>) -> Seq<EntryView>
    decreases s.len(),
{
    if s.len() == 0 {
        s
    } else if s.last().0 == k {
        without_key(s.drop_last(), k)
    } else {
        without_key(s.drop_last(), k).push(s.last())
    }
}

/// No two entries share their initials.
pub open spec fn unique_keys(s: Seq<EntryView>) -> bool {
    forall|i: int, j: int| 0 <= i < j < s.len() ==> s[i].0 != s[j].0
}

/// The roster after adding `e`: an entry with the same initials is dropped
/// and `e` goes to the back.
pub open spec fn upsert(s: Seq<EntryView>, e: EntryView) -> Seq<EntryView> {
    without_key(s, e.0).push(e)
}

/// The roster built by adding the entries of `s` one after another.
pub open spec fn upsert_all(s: Seq<EntryView>) -> Seq<EntryView>
    decreases s.len(),
{
    if s.len() == 0 {
        s
    } else {
        upsert(upsert_all(s.drop_last()), s.last())
    }
}

pub open spec fn entry_view(e: (String, Author)) -> EntryView {
    (e.0@, e.1.name@, e.1.email@)
}

pub open spec fn entry_views(v: Seq<(String, Author)>) -> Seq<EntryView> {
    v.map_values(|e: (String, Author)| entry_view(e))
}

pub proof fn lemma_key_index(s: Seq<EntryView>, k: Seq<char>)
    ensures
        -1 <= key_index(s, k) < s.len(),
        key_index(s, k) >= 0 ==> s[key_index(s, k)].0 == k,
        forall|j: int| key_index(s, k) < j < s.len() ==> s[j].0 != k,
    decreases s.len(),
{
    if s.len() > 0 && s.last().0 != k {
        let r = s.drop_last();
        lemma_key_index(r, k);
        assert forall|j: int| key_index(s, k) < j < s.len() implies s[j].0 != k by {
            if j < r.len() {
                assert(s[j] == r[j]);
            }
        }
    }
}

pub proof fn lemma_without_key(s: Seq<EntryView>, k: Seq<char>)
    ensures
        !has_key(without_key(s, k), k),
        forall|e: EntryView| #[trigger] without_key(s, k).contains(e) ==> s.contains(e),
        unique_keys(s) ==> unique_keys(without_key(s, k)),
        !has_key(s, k) ==> without_key(s, k) == s,
    decreases s.len(),
{
    lemma_key_index(s, k);
    if s.len() > 0 {
        let r = s.drop_last();
        lemma_without_key(r, k);
        lemma_key_index(r, k);
        let w0 = without_key(r, k);
        assert forall|e: EntryView| without_key(s, k).contains(e) implies s.contains(e) by {
            if e == s.last() {
                assert(s[s.len() - 1] == e);
            } else {
                let j = choose|j: int|
                    0 <= j < without_key(s, k).len() && without_key(s, k)[j] == e;
                if s.last().0 != k {
                    assert(j < w0.len());
                }
                assert(w0[j] == e);
                assert(w0.contains(e));
                assert(r.contains(e));
                let m = choose|m: int| 0 <= m < r.len() && r[m] == e;
                assert(s[m] == e);
            }
        }
        let w = without_key(r, k);
        lemma_key_index(w, k);
        if s.last().0 != k {
            lemma_key_index(w.push(s.last()), k);
            assert(key_index(w.push(s.last()), k) == key_index(w, k));
            if unique_keys(s) {
                assert forall|i: int, j: int| 0 <= i < j < w.push(s.last()).len() implies w.push(
                    s.last(),
                )[i].0 != w.push(s.last())[j].0 by {
                    if j == w.len() {
                        assert(w.contains(w[i]));
                        let m = choose|m: int| 0 <= m < r.len() && r[m] == w[i];
                        assert(s[m] == w[i]);
                    }
                }
            }
        }
        if !has_key(s, k) {
            assert(s.last().0 != k);
            assert(r =~= s.drop_last());
            assert(s =~= r.push(s.last()));
        }
    }
}

pub proof fn lemma_upsert_unique(s: Seq<EntryView>, e: EntryView)
    requires
        unique_keys(s),
    ensures
        unique_keys(upsert(s, e)),
{
    lemma_without_key(s, e.0);
    let w = without_key(s, e.0);
    lemma_key_index(w, e.0);
}

proof fn lemma_upsert_all_unique(s: Seq<EntryView>)
    requires
        unique_keys(s),
    ensures
        upsert_all(s) == s,
    decreases s.len(),
{
    if s.len() > 0 {
        let r = s.drop_last();
        assert(unique_keys(r)) by {
            assert forall|i: int, j: int| 0 <= i < j < r.len() implies r[i].0 != r[j].0 by {
                assert(r[i] == s[i] && r[j] == s[j]);
            }
        }
        lemma_upsert_all_unique(r);
        lemma_key_index(r, s.last().0);
        if has_key(r, s.last().0) {
            let i = key_index(r, s.last().0);
            assert(s[i] == r[i]);
            assert(s[i].0 == s[s.len() - 1].0);
        }
        lemma_without_key(r, s.last().0);
        assert(r.push(s.last()) =~= s);
    }
}

/// Listing a roster's entries and adding them one after another to an empty
/// roster gives the same roster back, in the same order.
pub proof fn lemma_entries_round_trip(roster: Coauthors, entries: Seq<(String, Author)>)
    requires
        roster.wf(),
        entry_views(entries) == roster@,
    ensures
        upsert_all(entry_views(entries)) == roster@,
{
    lemma_upsert_all_unique(roster@);
}

/// Relies on LinkedHashMap::new: the map starts empty.
#[verifier::external_body]
fn map_new() -> (r: LinkedHashMap<String, Author>)
    ensures
        author_entries(r) == Seq::<EntryView>::empty(),
{
    LinkedHashMap::new()
}

/// Relies on LinkedHashMap::insert: an entry with the same key is replaced
/// and the pair moves to the back of the order.
#[verifier::external_body]
fn map_insert(m: &mut LinkedHashMap<String, Author>, k: String, v: Author)
    ensures
        author_entries(*final(m)) == without_key(author_entries(*old(m)), k@).push(
            (k@, v.name@, v.email@),
        ),
{
    m.insert(k, v);
}

/// Relies on LinkedHashMap::get: the value stored under `k`, if any.
#[verifier::external_body]
fn map_get<'a>(m: &'a LinkedHashMap<String, Author>, k: &str) -> (r: Option<&'a Author>)
    ensures
        r is Some <==> has_key(author_entries(*m), k@),
        r is Some ==> author_entries(*m)[key_index(author_entries(*m), k@)] == (
            k@,
            r->0.name@,
            r->0.email@,
        ),
{
    m.get(k)
}

/// Relies on LinkedHashMap::get_mut: the value stored under `k`, changed in
/// place, so the entry keeps its position.
#[verifier::external_body]
fn map_get_mut<'a>(m: &'a mut LinkedHashMap<String, Author>, k: &str) -> (r: Option<
    &'a mut Author,
>)
    ensures
        r is Some <==> has_key(author_entries(*old(m)), k@),
        r is Some ==> author_entries(*old(m))[key_index(author_entries(*old(m)), k@)] == (
            k@,
            r->0.name@,
            r->0.email@,
        ),
        r is Some ==> author_entries(*final(m)) == author_entries(*old(m)).update(
            key_index(author_entries(*old(m)), k@),
            (k@, final(r->0).name@, final(r->0).email@),
        ),
        r is None ==> author_entries(*final(m)) == author_entries(*old(m)),
{
    m.get_mut(k)
}

/// Relies on LinkedHashMap::remove: the entry under `k` leaves, the others
/// keep their order.
#[verifier::external_body]
fn map_remove(m: &mut LinkedHashMap<String, Author>, k: &str)
    ensures
        author_entries(*final(m)) == without_key(author_entries(*old(m)), k@),
{
    m.remove(k);
}

/// Relies on LinkedHashMap::iter: every pair, in insertion order.
#[verifier::external_body]
fn map_pairs(m: &LinkedHashMap<String, Author>) -> (r: Vec<(String, Author)>)
    ensures
        entry_views(r@) == author_entries(*m),
{
    m.iter().map(|(k, v)| (k.clone(), v.clone())).collect()
}

/// The roster: initials mapped to authors, in insertion order.
#[derive(Debug, PartialEq, Eq)]
pub struct Coauthors {
    pub coauthors: LinkedHashMap<String, Author>,
}

impl Coauthors {
    pub open spec fn view(&self) -> Seq<EntryView> {
        author_entries(self.coauthors)
    }

    /// Initials are unique; every roster built by this type's methods is.
    pub open spec fn wf(&self) -> bool {
        unique_keys(self@)
    }

    pub fn new() -> (r: Coauthors)
        ensures
            r@ == Seq::<EntryView>::empty(),
            r.wf(),
    {
        Coauthors { coauthors: map_new() }
    }

    /// Adds or replaces the author under `initials`; the entry goes to the back.
    pub fn insert(&mut self, initials: String, author: Author)
        requires
            old(self).wf(),
        ensures
            final(self)@ == upsert(old(self)@, (initials@, author.name@, author.email@)),
            final(self).wf(),
    {
        proof {
            lemma_upsert_unique(self@, (initials@, author.name@, author.email@));
        }
        map_insert(&mut self.coauthors, initials, author);
    }

    /// Removes the author under `initials`, if there is one.
    pub fn remove(&mut self, initials: &str)
        requires
            old(self).wf(),
        ensures
            final(self)@ == without_key(old(self)@, initials@),
            final(self).wf(),
    {
        proof {
            lemma_without_key(self@, initials@);
        }
        map_remove(&mut self.coauthors, initials);
    }

    pub fn get(&self, initials: &str) -> (r: Option<&Author>)
        ensures
            r is Some <==> has_key(self@, initials@),
            r is Some ==> self@[key_index(self@, initials@)] == (
                initials@,
                r->0.name@,
                r->0.email@,
            ),
    {
        map_get(&self.coauthors, initials)
    }

    /// Changes the name and/or the email of the author under `initials` in
    /// place. Returns false, changing nothing, when there is no such author.
    pub fn update(&mut self, initials: &str, name: Option<String>, email: Option<String>) -> (r:
        bool)
        requires
            old(self).wf(),
        ensures
            r == has_key(old(self)@, initials@),
            final(self).wf(),
            !r ==> final(self)@ == old(self)@,
            r ==> final(self)@ == old(self)@.update(
                key_index(old(self)@, initials@),
                (
                    initials@,
                    match name {
                        Some(n) => n@,
                        None => old(self)@[key_index(old(self)@, initials@)].1,
                    },
                    match email {
                        Some(e) => e@,
                        None => old(self)@[key_index(old(self)@, initials@)].2,
                    },
                ),
            ),
    {
        let ghost before = self@;
        let slot = map_get_mut(&mut self.coauthors, initials);
        match slot {
            Some(author) => {
                if let Some(n) = name {
                    author.name = n;
                }
                if let Some(e) = email {
                    author.email = e;
                }
                proof {
                    lemma_key_index(before, initials@);
                    let i = key_index(before, initials@);
                    let after = before.update(i, (initials@, author.name@, author.email@));
                    assert forall|a: int, b: int| 0 <= a < b < after.len() implies after[a].0
                        != after[b].0 by {
                        assert(before[a].0 != before[b].0);
                    }
                }
                true
            },
            None => false,
        }
    }

    /// Every entry, in order.
    pub fn entries(&self) -> (r: Vec<(String, Author)>)
        ensures
            entry_views(r@) == self@,
    {
        map_pairs(&self.coauthors)
    }

    /// The roster that adding the given entries one after another gives.
    pub fn from_entries(entries: Vec<(String, Author)>) -> (r: Coauthors)
        ensures
            r@ == upsert_all(entry_views(entries@)),
            r.wf(),
    {
        let mut r = Coauthors::new();
        let ghost views = entry_views(entries@);
        let mut i: usize = 0;
        while i < entries.len()
            invariant
                r.wf(),
                i <= entries@.len(),
                views == entry_views(entries@),
                r@ == upsert_all(views.subrange(0, i as int)),
            decreases entries@.len() - i,
        {
            let k = entries[i].0.clone();
            let a = Author { name: entries[i].1.name.clone(), email: entries[i].1.email.clone() };
            proof {
                let sub = views.subrange(0, i as int + 1);
                assert(sub.drop_last() =~= views.subrange(0, i as int));
                assert(sub.last() == (k@, a.name@, a.email@));
            }
            r.insert(k, a);
            i = i + 1;
        }
        proof {
            assert(views.subrange(0, i as int) =~= views);
        }
        r
    }
}

} // verus!
