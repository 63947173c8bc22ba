//! A cache of classinfos in memory, held in a least-frequently-used cache of the `lfu_cache`
//! crate so that only a limited number of them stay in memory.
use vstd::prelude::*;
use std::hash::Hash;
use std::sync::Arc;
use lfu_cache::LfuCache;
use crate::response::{share, ClassInfo, ClassInfoMap, EntryMap};
use crate::types::ClassInfoClass;

verus! {

/// The number of classinfos a cache holds by default.
pub const DEFAULT_CACHE_SIZE: usize = 1000;

#[verifier::external_type_specification]
#[verifier::external_body]
#[verifier::reject_recursive_types(Key)]
#[verifier::reject_recursive_types(Value)]
pub struct ExLfuCache<Key: Hash + Eq, Value>(LfuCache<Key, Value>);

/// The LFU cache of classinfos.
pub type ClassInfoLfu = LfuCache<ClassInfoClass, Arc<ClassInfo>>;

/// The map without classinfos.
pub open spec fn no_classinfos() -> Map<ClassInfoClass, Arc<ClassInfo>> {
    Map::empty()
}

/// The classinfos that an LFU cache holds, by class.
pub uninterp spec fn lfu_contents(cache: ClassInfoLfu) -> Map<
    ClassInfoClass,
    Arc<ClassInfo>,
>;

/// The capacity an LFU cache was made with; 0 stands for no bound.
pub uninterp spec fn lfu_capacity(cache: ClassInfoLfu) -> usize;

/// The access count of each entry of an LFU cache, by class.
pub uninterp spec fn lfu_frequencies(cache: ClassInfoLfu) -> Map<ClassInfoClass, nat>;

/// The map without access counts.
pub open spec fn no_frequencies() -> Map<ClassInfoClass, nat> {
    Map::empty()
}

/// Makes an empty LFU cache that holds at most `capacity` entries (no bound for 0).
///
/// Calls `LfuCache::with_capacity`; its source starts with no entries and keeps the capacity,
/// where 0 means unbounded.
#[verifier::external_body]
fn lfu_with_capacity(capacity: usize) -> (res: ClassInfoLfu)
    ensures
        lfu_contents(res) == no_classinfos(),
        lfu_frequencies(res) == no_frequencies(),
        lfu_capacity(res) == capacity,
{
    LfuCache::with_capacity(capacity)
}

/// Looks a class up, sharing its classinfo.
///
/// Calls `LfuCache::get` and clones the `Arc` it returns. In its source `get` only moves the
/// entry found to the next frequency (`FrequencyList::update`), one access more, so the entries,
/// the other access counts and the capacity stay as they were.
#[verifier::external_body]
fn lfu_get(cache: &mut ClassInfoLfu, class: &ClassInfoClass) -> (res:
    Option<Arc<ClassInfo>>)
    ensures
        lfu_contents(*final(cache)) == lfu_contents(*old(cache)),
        lfu_frequencies(*final(cache)) == if lfu_frequencies(*old(cache)).contains_key(*class) {
            lfu_frequencies(*old(cache)).insert(*class, lfu_frequencies(*old(cache))[*class] + 1)
        } else {
            lfu_frequencies(*old(cache))
        },
        lfu_capacity(*final(cache)) == lfu_capacity(*old(cache)),
        match res {
            Some(c) => lfu_contents(*old(cache)).contains_key(*class) && c == lfu_contents(
                *old(cache),
            )[*class],
            None => !lfu_contents(*old(cache)).contains_key(*class),
        },
{
    match cache.get(class) {
        Some(classinfo) => Some(Arc::clone(classinfo)),
        None => None,
    }
}

/// Inserts a classinfo for a class.
///
/// Calls `LfuCache::insert`. Its source (`insert_rc`) first removes an entry for the same class;
/// if the class was not there and the cache is bounded and full, it evicts one entry from the
/// head of its frequency list (`pop_lfu`), which holds the entries of the lowest access count,
/// and then adds the new entry with an access count of 0. The evicted or replaced value is
/// returned. Left unsaid: which of several entries of the lowest count is evicted (the source
/// documents the most recently added one).
#[verifier::external_body]
fn lfu_insert(
    cache: &mut ClassInfoLfu,
    class: ClassInfoClass,
    classinfo: Arc<ClassInfo>,
) -> (res: Option<Arc<ClassInfo>>)
    requires
        lfu_contents(*old(cache)).dom().finite(),
    ensures
        lfu_capacity(*final(cache)) == lfu_capacity(*old(cache)),
        ({
            let before = lfu_contents(*old(cache));
            let after = lfu_contents(*final(cache));
            let freq = lfu_frequencies(*old(cache));
            let freq_after = lfu_frequencies(*final(cache));
            let cap = lfu_capacity(*old(cache));
            if before.contains_key(class) {
                after == before.insert(class, classinfo) && res == Some(before[class])
                    && freq_after == freq.insert(class, 0)
            } else if cap == 0 || before.len() < cap {
                after == before.insert(class, classinfo) && res is None && freq_after
                    == freq.insert(class, 0)
            } else {
                exists|evicted: ClassInfoClass|
                    #![trigger before.remove(evicted)]
                    before.contains_key(evicted) && after == before.remove(evicted).insert(
                        class,
                        classinfo,
                    ) && res == Some(before[evicted]) && freq_after == freq.remove(evicted).insert(
                        class,
                        0,
                    ) && forall|k: ClassInfoClass|
                        #[trigger] freq.contains_key(k) ==> freq[evicted] <= freq[k]
            }
        }),
{
    cache.insert(class, classinfo)
}

/// A cache of classinfos in memory, limited in size: when it is full, inserting a new class
/// evicts the least frequently used one.
pub struct ClassInfoCache {
    inner: ClassInfoLfu,
}

impl ClassInfoCache {
    /// The classinfos the cache holds.
    pub closed spec fn contents(&self) -> Map<ClassInfoClass, Arc<ClassInfo>> {
        lfu_contents(self.inner)
    }

    /// The capacity of the cache; 0 stands for no bound.
    pub closed spec fn capacity(&self) -> usize {
        lfu_capacity(self.inner)
    }

    /// How many times each class the cache holds was looked up since it was inserted.
    pub closed spec fn frequencies(&self) -> Map<ClassInfoClass, nat> {
        lfu_frequencies(self.inner)
    }

    /// The cache holds finitely many classinfos, no more than its capacity, each with an access
    /// count.
    pub closed spec fn wf(&self) -> bool {
        &&& self.contents().dom().finite()
        &&& self.capacity() == 0 || self.contents().len() <= self.capacity()
        &&& self.frequencies().dom() == self.contents().dom()
    }

    /// Creates an empty cache with the given `capacity`.
    pub fn with_capacity(capacity: usize) -> (res: Self)
        ensures
            res.wf(),
            res.contents() == Map::<ClassInfoClass, Arc<ClassInfo>>::empty(),
            res.capacity() == capacity,
    {
        let res = ClassInfoCache { inner: lfu_with_capacity(capacity) };
        assert(res.frequencies().dom() =~= res.contents().dom());
        res
    }

    /// Creates an empty cache of the default capacity.
    pub fn new() -> (res: Self)
        ensures
            res.wf(),
            res.contents() == Map::<ClassInfoClass, Arc<ClassInfo>>::empty(),
            res.capacity() == DEFAULT_CACHE_SIZE,
    {
        Self::with_capacity(DEFAULT_CACHE_SIZE)
    }

    /// Gets the classinfo of `class`, if the cache holds it.
    pub fn get_classinfo(&mut self, class: &ClassInfoClass) -> (res: Option<Arc<ClassInfo>>)
        requires
            old(self).wf(),
        ensures
            final(self).wf(),
            final(self).contents() == old(self).contents(),
            final(self).capacity() == old(self).capacity(),
            final(self).frequencies() == accessed(old(self).frequencies(), seq![*class]),
            res == lookup_class(old(self).contents(), *class),
    {
        let ghost f0 = self.frequencies();
        let res = lfu_get(&mut self.inner, class);
        assert(seq![*class].drop_last() =~= Seq::<ClassInfoClass>::empty());
        assert(accessed(f0, seq![*class].drop_last()) == f0);
        assert(self.frequencies().dom() =~= self.contents().dom());
        res
    }

    /// Gets the classinfos of `classes` that the cache holds, and the classes it does not hold,
    /// in order.
    pub fn get_map(&mut self, classes: &[ClassInfoClass]) -> (res: (ClassInfoMap, Vec<ClassInfoClass>))
        requires
            old(self).wf(),
        ensures
            final(self).wf(),
            final(self).contents() == old(self).contents(),
            final(self).capacity() == old(self).capacity(),
            final(self).frequencies() == accessed(old(self).frequencies(), classes@),
            res.0@ == old(self).contents().restrict(classes@.to_set()),
            res.1@ == missing_classes(classes@, old(self).contents()),
    {
        let ghost contents = self.contents();
        let mut map: ClassInfoMap = EntryMap::new();
        let mut misses: Vec<ClassInfoClass> = Vec::new();
        let n = classes.len();
        let mut i: usize = 0;
        while i < n
            invariant
                n == classes@.len(),
                i <= n,
                self.wf(),
                self.contents() == contents,
                self.capacity() == old(self).capacity(),
                contents == old(self).contents(),
                self.frequencies() == accessed(old(self).frequencies(), classes@.take(i as int)),
                map@ == contents.restrict(classes@.take(i as int).to_set()),
                misses@ == missing_classes(classes@.take(i as int), contents),
            decreases n - i,
        {
            let class = classes[i];
            let ghost prefix = classes@.take(i as int);
            proof {
                assert(classes@.take(i + 1) =~= prefix.push(class));
                assert(classes@.take(i + 1).drop_last() =~= prefix);
                prefix.lemma_push_to_set_commute(class);
            }
            let found = lfu_get(&mut self.inner, &class);
            proof {
                assert(self.frequencies().dom() =~= self.contents().dom());
            }
            match found {
                Some(classinfo) => {
                    map.insert(class, classinfo);
                    proof {
                        assert(map@ =~= contents.restrict(prefix.push(class).to_set()));
                    }
                },
                None => {
                    misses.push(class);
                    proof {
                        assert(map@ =~= contents.restrict(prefix.push(class).to_set()));
                    }
                },
            }
            i = i + 1;
        }
        proof {
            assert(classes@.take(n as int) =~= classes@);
        }
        (map, misses)
    }

    /// Inserts classinfos into the cache, one entry after the other. Each inserted class starts
    /// with an access count of 0; a full cache makes room by evicting a least used class.
    pub fn insert_map(&mut self, classinfos: ClassInfoMap)
        requires
            old(self).wf(),
        ensures
            final(self).wf(),
            final(self).capacity() == old(self).capacity(),
            inserted_ok(old(self).contents(), classinfos.entry_list(), final(self).contents()),
            counts_kept(
                old(self).frequencies(),
                classinfos.entry_list(),
                final(self).contents(),
                final(self).frequencies(),
            ),
            evicts_least_used(
                old(self).contents(),
                old(self).frequencies(),
                classinfos.entry_list(),
                final(self).contents(),
            ),
            old(self).capacity() == 0 ==> final(self).contents() == old(self).contents().union_prefer_right(
                classinfos@,
            ),
            classinfos.entry_list().len() > 0 ==> final(self).contents().contains_key(
                classinfos.entry_list().last().0,
            ) && final(self).contents()[classinfos.entry_list().last().0]
                == classinfos.entry_list().last().1,
    {
        let ghost start = self.contents();
        let ghost start_f = self.frequencies();
        let entries = classinfos.into_entries();
        let ghost all = entries@;
        let n = entries.len();
        let mut i: usize = 0;
        while i < n
            invariant
                n == entries@.len(),
                all == entries@,
                i <= n,
                self.wf(),
                self.capacity() == old(self).capacity(),
                start == old(self).contents(),
                start_f == old(self).frequencies(),
                inserted_ok(start, all.take(i as int), self.contents()),
                counts_kept(start_f, all.take(i as int), self.contents(), self.frequencies()),
                evicts_least_used(start, start_f, all.take(i as int), self.contents()),
                self.capacity() == 0 ==> self.contents() == start.union_prefer_right(
                    entries_map_of(all.take(i as int)),
                ),
                i > 0 ==> self.contents().contains_key(all[i - 1].0) && self.contents()[all[i
                    - 1].0] == all[i - 1].1,
            decreases n - i,
        {
            let (class, classinfo) = (entries[i].0, share(&entries[i].1));
            let ghost before = self.contents();
            let ghost before_f = self.frequencies();
            let ghost prefix = all.take(i as int);
            proof {
                assert(all.take(i + 1) =~= prefix.push((class, classinfo)));
                assert(all.take(i + 1).drop_last() =~= prefix);
            }
            let _evicted = lfu_insert(&mut self.inner, class, classinfo);
            proof {
                let after = self.contents();
                let cap = self.capacity();
                if !before.contains_key(class) && !(cap == 0 || before.len() < cap) {
                    let evicted = choose|evicted: ClassInfoClass|
                        #![trigger before.remove(evicted)]
                        before.contains_key(evicted) && after == before.remove(evicted).insert(
                            class,
                            classinfo,
                        ) && _evicted == Some(before[evicted]) && self.frequencies()
                            == before_f.remove(evicted).insert(class, 0) && forall|k: ClassInfoClass|
                            #[trigger] before_f.contains_key(k) ==> before_f[evicted] <= before_f[k];
                    assert(before.remove(evicted).len() == before.len() - 1);
                    lemma_counts_step(
                        start, start_f, prefix, before, before_f, class, classinfo, after,
                        self.frequencies(), Some(evicted),
                    );
                } else {
                    lemma_counts_step(
                        start, start_f, prefix, before, before_f, class, classinfo, after,
                        self.frequencies(), None,
                    );
                }
                assert(self.frequencies().dom() =~= self.contents().dom());
                lemma_inserted_step(start, prefix, before, class, classinfo, after);
                if cap == 0 {
                    assert(self.contents() =~= start.union_prefer_right(
                        entries_map_of(all.take(i + 1)),
                    ));
                }
            }
            i = i + 1;
        }
        proof {
            assert(all.take(n as int) =~= all);
        }
    }
}

/// The access counts `f` after looking up the classes of `s` in order: each lookup of a class
/// that has a count adds one to it.
pub open spec fn accessed(f: Map<ClassInfoClass, nat>, s: Seq<ClassInfoClass>) -> Map<
    ClassInfoClass,
    nat,
>
    decreases s.len(),
{
    if s.len() == 0 {
        f
    } else {
        let g = accessed(f, s.drop_last());
        if g.contains_key(s.last()) {
            g.insert(s.last(), g[s.last()] + 1)
        } else {
            g
        }
    }
}

/// The classinfo that `m` holds for `class`, if any.
pub open spec fn lookup_class(m: Map<ClassInfoClass, Arc<ClassInfo>>, class: ClassInfoClass) -> Option<
    Arc<ClassInfo>,
> {
    if m.contains_key(class) {
        Some(m[class])
    } else {
        None
    }
}

/// The classes of `s` that `m` lacks, in order.
pub open spec fn missing_classes(s: Seq<ClassInfoClass>, m: Map<ClassInfoClass, Arc<ClassInfo>>) -> Seq<
    ClassInfoClass,
>
    decreases s.len(),
{
    if s.len() == 0 {
        Seq::empty()
    } else if m.contains_key(s.last()) {
        missing_classes(s.drop_last(), m)
    } else {
        missing_classes(s.drop_last(), m).push(s.last())
    }
}

/// The map that a list of entries stands for.
pub open spec fn entries_map_of(s: Seq<(ClassInfoClass, Arc<ClassInfo>)>) -> Map<
    ClassInfoClass,
    Arc<ClassInfo>,
> {
    crate::response::entries_map(s)
}

/// `after` is what a cache holding `before` can hold once the entries `s` were inserted into it:
/// each class it holds maps to the classinfo last inserted for it, or, if none was inserted, to
/// the classinfo it held before.
pub open spec fn inserted_ok(
    before: Map<ClassInfoClass, Arc<ClassInfo>>,
    s: Seq<(ClassInfoClass, Arc<ClassInfo>)>,
    after: Map<ClassInfoClass, Arc<ClassInfo>>,
) -> bool {
    forall|k: ClassInfoClass|
        #[trigger] after.contains_key(k) ==> if entries_map_of(s).contains_key(k) {
            after[k] == entries_map_of(s)[k]
        } else {
            before.contains_key(k) && after[k] == before[k]
        }
}

/// The access counts `after_f` of a cache holding `after`, once the entries `s` were inserted
/// into a cache whose counts were `start_f`: 0 for an inserted class, the count before for the
/// others.
pub open spec fn counts_kept(
    start_f: Map<ClassInfoClass, nat>,
    s: Seq<(ClassInfoClass, Arc<ClassInfo>)>,
    after: Map<ClassInfoClass, Arc<ClassInfo>>,
    after_f: Map<ClassInfoClass, nat>,
) -> bool {
    forall|k: ClassInfoClass|
        #[trigger] after.contains_key(k) ==> after_f[k] == if entries_map_of(s).contains_key(k) {
            0
        } else {
            start_f[k]
        }
}

/// Inserting the entries `s` into a cache holding `before`, with access counts `before_f`,
/// evicted least used classes first: a class held before, not inserted and no longer held was
/// looked up no more often than any class held before, not inserted and still held.
pub open spec fn evicts_least_used(
    before: Map<ClassInfoClass, Arc<ClassInfo>>,
    before_f: Map<ClassInfoClass, nat>,
    s: Seq<(ClassInfoClass, Arc<ClassInfo>)>,
    after: Map<ClassInfoClass, Arc<ClassInfo>>,
) -> bool {
    forall|e: ClassInfoClass, k: ClassInfoClass|
        #![trigger before_f[e], before_f[k]]
        before.contains_key(e) && !entries_map_of(s).contains_key(e) && !after.contains_key(e)
            && before.contains_key(k) && !entries_map_of(s).contains_key(k) && after.contains_key(
            k,
        ) ==> before_f[e] <= before_f[k]
}

proof fn lemma_counts_step(
    start: Map<ClassInfoClass, Arc<ClassInfo>>,
    start_f: Map<ClassInfoClass, nat>,
    prefix: Seq<(ClassInfoClass, Arc<ClassInfo>)>,
    before: Map<ClassInfoClass, Arc<ClassInfo>>,
    before_f: Map<ClassInfoClass, nat>,
    class: ClassInfoClass,
    classinfo: Arc<ClassInfo>,
    after: Map<ClassInfoClass, Arc<ClassInfo>>,
    after_f: Map<ClassInfoClass, nat>,
    evicted: Option<ClassInfoClass>,
)
    requires
        counts_kept(start_f, prefix, before, before_f),
        evicts_least_used(start, start_f, prefix, before),
        before_f.dom() == before.dom(),
        match evicted {
            None => after == before.insert(class, classinfo) && after_f == before_f.insert(
                class,
                0,
            ),
            Some(ev) => before.contains_key(ev) && after == before.remove(ev).insert(
                class,
                classinfo,
            ) && after_f == before_f.remove(ev).insert(class, 0) && forall|k: ClassInfoClass|
                #[trigger] before_f.contains_key(k) ==> before_f[ev] <= before_f[k],
        },
    ensures
        counts_kept(start_f, prefix.push((class, classinfo)), after, after_f),
        evicts_least_used(start, start_f, prefix.push((class, classinfo)), after),
{
    let next = prefix.push((class, classinfo));
    assert(next.drop_last() =~= prefix);
    assert forall|k: ClassInfoClass| #[trigger] after.contains_key(k) implies after_f[k] == if entries_map_of(next).contains_key(k) {
        0
    } else {
        start_f[k]
    } by {
        if k != class {
            assert(before.contains_key(k));
        }
    }
    assert forall|e: ClassInfoClass, k: ClassInfoClass|
        #![trigger start_f[e], start_f[k]]
        start.contains_key(e) && !entries_map_of(next).contains_key(e) && !after.contains_key(e)
            && start.contains_key(k) && !entries_map_of(next).contains_key(k) && after.contains_key(
            k,
        ) implies start_f[e] <= start_f[k] by {
        assert(k != class && before.contains_key(k));
        assert(before_f[k] == start_f[k]);
        match evicted {
            Some(ev) => {
                if e == ev {
                    assert(before_f[e] == start_f[e]);
                    assert(before_f.contains_key(k));
                } else {
                    assert(!before.contains_key(e));
                }
            },
            None => {
                assert(!before.contains_key(e));
            },
        }
    }
}

proof fn lemma_inserted_step(
    start: Map<ClassInfoClass, Arc<ClassInfo>>,
    prefix: Seq<(ClassInfoClass, Arc<ClassInfo>)>,
    before: Map<ClassInfoClass, Arc<ClassInfo>>,
    class: ClassInfoClass,
    classinfo: Arc<ClassInfo>,
    after: Map<ClassInfoClass, Arc<ClassInfo>>,
)
    requires
        inserted_ok(start, prefix, before),
        after.contains_key(class),
        after[class] == classinfo,
        forall|k: ClassInfoClass|
            k != class && #[trigger] after.contains_key(k) ==> before.contains_key(k) && after[k]
                == before[k],
    ensures
        inserted_ok(start, prefix.push((class, classinfo)), after),
{
    assert(prefix.push((class, classinfo)).drop_last() =~= prefix);
    assert forall|k: ClassInfoClass| #[trigger] after.contains_key(k) implies if entries_map_of(
        prefix.push((class, classinfo)),
    ).contains_key(k) {
        after[k] == entries_map_of(prefix.push((class, classinfo)))[k]
    } else {
        start.contains_key(k) && after[k] == start[k]
    } by {
        if k != class {
            assert(before.contains_key(k));
        }
    }
}


/// Every class asked of the cache is either found in it or listed as missing, never both: the
/// found classinfos and the missing classes split the classes asked for.
pub proof fn law_get_map_partitions(
    contents: Map<ClassInfoClass, Arc<ClassInfo>>,
    classes: Seq<ClassInfoClass>,
    class: ClassInfoClass,
)
    requires
        classes.contains(class),
    ensures
        contents.restrict(classes.to_set()).contains_key(class) != missing_classes(
            classes,
            contents,
        ).contains(class),
    decreases classes.len(),
{
    lemma_missing_classes(contents, classes, class);
}

proof fn lemma_missing_classes(
    contents: Map<ClassInfoClass, Arc<ClassInfo>>,
    classes: Seq<ClassInfoClass>,
    class: ClassInfoClass,
)
    ensures
        missing_classes(classes, contents).contains(class) <==> (classes.contains(class)
            && !contents.contains_key(class)),
    decreases classes.len(),
{
    if classes.len() > 0 {
        let rest = classes.drop_last();
        lemma_missing_classes(contents, rest, class);
        assert(classes =~= rest.push(classes.last()));
        if rest.contains(class) {
            let k = choose|k: int| 0 <= k < rest.len() && rest[k] == class;
            assert(classes[k] == class);
        }
        if classes.contains(class) && class != classes.last() {
            let k = choose|k: int| 0 <= k < classes.len() && classes[k] == class;
            assert(rest[k] == class);
        }
        if !contents.contains_key(classes.last()) {
            let m = missing_classes(rest, contents);
            if m.contains(class) {
                let k = choose|k: int| 0 <= k < m.len() && m[k] == class;
                assert(m.push(classes.last())[k] == class);
            }
            if m.push(classes.last()).contains(class) && class != classes.last() {
                let k = choose|k: int| 0 <= k < m.push(classes.last()).len() && m.push(
                    classes.last(),
                )[k] == class;
                assert(m[k] == class);
            }
            assert(m.push(classes.last())[m.len() as int] == classes.last());
        }
    }
}


/// A class that a cache serves after classinfos were inserted maps to the classinfo last
/// inserted for it, if one was; an unbounded cache serves every inserted class.
pub proof fn law_cache_serves_last_insert(
    before: Map<ClassInfoClass, Arc<ClassInfo>>,
    entries: Seq<(ClassInfoClass, Arc<ClassInfo>)>,
    after: Map<ClassInfoClass, Arc<ClassInfo>>,
    class: ClassInfoClass,
    unbounded: bool,
)
    requires
        inserted_ok(before, entries, after),
        unbounded ==> after == before.union_prefer_right(entries_map_of(entries)),
        entries_map_of(entries).contains_key(class),
    ensures
        after.contains_key(class) ==> after[class] == entries_map_of(entries)[class],
        unbounded ==> after.contains_key(class),
{
}

} // verus!
