//! Statement caching for improved performance
//!
//! This module provides client-side statement caching to avoid repeated
//! parsing of SQL statements on the Oracle server. When a statement is
//! executed, its cursor ID and metadata are cached. Subsequent executions
//! of the same SQL text can reuse the cached cursor, skipping the parse phase.
//!
//! # Known limitation: server-side cursor cleanup
//!
//! When a cursor completes or a cached statement is evicted, we reset the
//! cursor_id to 0 locally but do not send a cursor-close message to the
//! server. For long-running connections with many distinct SQL statements,
//! this could lead to server-side cursor accumulation. Oracle will eventually
//! reclaim these, but explicit cleanup would be better.

use crate::statement::Statement;
use indexmap::IndexMap;
use std::time::Instant;
use vstd::prelude::*;

verus! {

/// The hash map of the `indexmap` crate, which keeps its entries in an order of their own.
#[verifier::external_type_specification]
#[verifier::external_body]
#[verifier::reject_recursive_types(K)]
#[verifier::reject_recursive_types(V)]
#[verifier::reject_recursive_types(S)]
pub struct ExIndexMap<K, V, S>(indexmap::IndexMap<K, V, S>);

/// A point in time of the standard library.
#[verifier::external_type_specification]
#[verifier::external_body]
pub struct ExInstant(std::time::Instant);

/// A cached statement with usage tracking
#[derive(Debug)]
pub struct CachedStatement {
    /// The cached statement with cursor_id and metadata
    pub statement: Statement,
    /// Whether the statement is currently in use
    pub in_use: bool,
    /// When this statement was last used, in nanoseconds since the cache was created
    pub last_used: u128,
}

/// The longest duration of the standard library, in nanoseconds.
pub const LONGEST_DURATION: u128 = 18_446_744_073_709_551_615_999_999_999;

/// The entries of a cache in their order, each with its SQL text.
pub type Entries = Seq<(Seq<char>, CachedStatement)>;

/// The entries that a map holds, in their order.
pub uninterp spec fn entries(map: IndexMap<String, CachedStatement>) -> Seq<
    (Seq<char>, CachedStatement),
>;

/// True of the place where the entry of an SQL text stands.
pub open spec fn stands_at(list: Entries, sql: Seq<char>, at: int) -> bool {
    0 <= at < list.len() && list[at].0 == sql
}

/// True where there is an entry of an SQL text.
pub open spec fn holds(list: Entries, sql: Seq<char>) -> bool {
    exists|at: int| stands_at(list, sql, at)
}

/// The place of the entry of an SQL text.
pub open spec fn place_of(list: Entries, sql: Seq<char>) -> int {
    choose|at: int| stands_at(list, sql, at)
}

/// The entries without the one at a place, which the last one takes.
pub open spec fn swap_removed(list: Entries, at: int) -> Entries {
    if at == list.len() - 1 {
        list.drop_last()
    } else {
        list.update(at, list.last()).drop_last()
    }
}

/// Calls `IndexMap::new`. Claims that the map has no entries.
#[verifier::external_body]
fn new_map() -> (map: IndexMap<String, CachedStatement>)
    ensures
        entries(map) == Seq::<(Seq<char>, CachedStatement)>::empty(),
{
    IndexMap::new()
}

/// Calls `IndexMap::get_mut`. Claims that it gives the value of an entry with that key, through
/// which nothing but that value can be changed, and nothing if and only if no entry has that key.
#[verifier::external_body]
fn entry_mut<'a>(map: &'a mut IndexMap<String, CachedStatement>, sql: &str) -> (entry: Option<
    &'a mut CachedStatement,
>)
    ensures
        match entry {
            Some(value) => exists|at: int|
                #[trigger] stands_at(entries(*old(map)), sql@, at) && *value == entries(
                    *old(map),
                )[at].1 && entries(*final(map)) == entries(*old(map)).update(
                    at,
                    (sql@, *final(value)),
                ),
            None => !holds(entries(*old(map)), sql@) && *final(map) == *old(map),
        },
{
    map.get_mut(sql)
}

/// Calls `IndexMap::insert`. Claims that an entry with a new key comes last, that an entry whose
/// key is there already gets the value, and that nothing else changes.
#[verifier::external_body]
fn insert_entry(map: &mut IndexMap<String, CachedStatement>, sql: String, value: CachedStatement)
    ensures
        if holds(entries(*old(map)), sql@) {
            exists|at: int|
                #[trigger] stands_at(entries(*old(map)), sql@, at) && entries(*final(map))
                    == entries(*old(map)).update(at, (sql@, value))
        } else {
            entries(*final(map)) == entries(*old(map)).push((sql@, value))
        },
{
    map.insert(sql, value);
}

/// Calls `IndexMap::swap_remove`. Claims that the entry with that key leaves, that the last entry
/// takes its place, and that nothing changes if and only if no entry has that key.
#[verifier::external_body]
fn remove_entry(map: &mut IndexMap<String, CachedStatement>, sql: &str) -> (removed: Option<
    CachedStatement,
>)
    ensures
        match removed {
            Some(value) => exists|at: int|
                #[trigger] stands_at(entries(*old(map)), sql@, at) && value == entries(
                    *old(map),
                )[at].1 && entries(*final(map)) == swap_removed(entries(*old(map)), at),
            None => !holds(entries(*old(map)), sql@) && *final(map) == *old(map),
        },
{
    map.swap_remove(sql)
}

/// Calls `IndexMap::get_index`. Claims that it gives the entry at that place of the order, and
/// nothing behind the last.
#[verifier::external_body]
fn entry_at(map: &IndexMap<String, CachedStatement>, index: usize) -> (entry: Option<
    (&String, &CachedStatement),
>)
    ensures
        match entry {
            Some((sql, value)) => index < entries(*map).len() && sql@ == entries(
                *map,
            )[index as int].0 && *value == entries(*map)[index as int].1,
            None => entries(*map).len() <= index,
        },
{
    map.get_index(index)
}

/// Calls `IndexMap::len`. Claims that it is the number of entries.
#[verifier::external_body]
fn entry_count(map: &IndexMap<String, CachedStatement>) -> (count: usize)
    ensures
        count == entries(*map).len(),
{
    map.len()
}

/// Calls `IndexMap::is_empty`. Claims that it says whether there are no entries.
#[verifier::external_body]
fn has_no_entries(map: &IndexMap<String, CachedStatement>) -> (empty: bool)
    ensures
        empty == (entries(*map).len() == 0),
{
    map.is_empty()
}

/// Calls `IndexMap::clear`. Claims that no entry is left.
#[verifier::external_body]
fn clear_entries(map: &mut IndexMap<String, CachedStatement>)
    ensures
        entries(*final(map)) == Seq::<(Seq<char>, CachedStatement)>::empty(),
{
    map.clear()
}

/// Calls `Instant::now`. Nothing is claimed: the time is what it is.
#[verifier::external_body]
fn current_time() -> (now: Instant) {
    Instant::now()
}

/// Calls `Instant::elapsed`, and gives the duration in nanoseconds. Claims that the duration is at
/// most the longest there is, of `u64::MAX` seconds and just less than one more; which one it is
/// depends on when it is called.
#[verifier::external_body]
fn nanoseconds_since(start: &Instant) -> (nanoseconds: u128)
    ensures
        nanoseconds <= LONGEST_DURATION,
{
    start.elapsed().as_nanos()
}

impl CachedStatement {
    /// Wrap a statement that is used at the given time, and not in use from then on
    pub fn new(statement: Statement, now: u128) -> (cached: Self)
        ensures
            cached == (CachedStatement { statement, in_use: false, last_used: now }),
    {
        CachedStatement { statement, in_use: false, last_used: now }
    }

    /// Note that the statement is used at the given time
    pub fn touch(&mut self, now: u128)
        ensures
            *final(self) == (CachedStatement { last_used: now, ..*old(self) }),
    {
        self.last_used = now;
    }
}

/// What a cache holds, and how much it is to hold.
pub struct CacheView {
    /// The entries in their order
    pub entries: Entries,
    /// Maximum number of statements to cache
    pub max_size: nat,
    /// The latest time at which a statement was used
    pub latest: u128,
}

/// The time of a use when so much time has elapsed: that time where it lies after the latest use,
/// and otherwise the next nanosecond after the latest use, as long as there is one.
pub open spec fn next_stamp(elapsed: u128, latest: u128) -> u128 {
    if latest < elapsed {
        elapsed
    } else if latest < u128::MAX {
        (latest + 1) as u128
    } else {
        latest
    }
}

/// The time of a use when so much time has elapsed
pub fn stamp_after(elapsed: u128, latest: u128) -> (now: u128)
    ensures
        now == next_stamp(elapsed, latest),
{
    if latest < elapsed {
        elapsed
    } else if latest < u128::MAX {
        latest + 1
    } else {
        latest
    }
}

/// True of the entry that is evicted: of those not in use, the one that was used least recently,
/// and the first of them where several were used at the same time.
pub open spec fn is_least_recent(list: Entries, at: int) -> bool {
    &&& 0 <= at < list.len()
    &&& !list[at].1.in_use
    &&& forall|i: int|
        0 <= i < list.len() && !(#[trigger] list[i]).1.in_use ==> list[at].1.last_used
            <= list[i].1.last_used && (i < at ==> list[at].1.last_used < list[i].1.last_used)
}

/// True of entries that are all in use.
pub open spec fn all_in_use(list: Entries) -> bool {
    forall|i: int| 0 <= i < list.len() ==> (#[trigger] list[i]).1.in_use
}

/// The entries after an eviction: without the least recently used, or as they are where all are
/// in use.
pub open spec fn evicted(list: Entries) -> Entries {
    if all_in_use(list) {
        list
    } else {
        swap_removed(list, choose|at: int| is_least_recent(list, at))
    }
}

/// True of a statement that may be cached: it has a cursor and does not define data.
pub open spec fn cacheable(statement: Statement) -> bool {
    !statement.defines_data() && statement.cursor_id != 0
}

impl CacheView {
    /// The same cache with other entries.
    pub open spec fn with(self, list: Entries) -> CacheView {
        CacheView { entries: list, ..self }
    }

    /// The same cache, used at a time.
    pub open spec fn at(self, now: u128) -> CacheView {
        CacheView {
            latest: if self.latest < now {
                now
            } else {
                self.latest
            },
            ..self
        }
    }

    /// The entry of an SQL text.
    pub open spec fn entry(self, sql: Seq<char>) -> CachedStatement {
        self.entries[place_of(self.entries, sql)].1
    }

    /// The cache with another entry of an SQL text that it holds.
    pub open spec fn with_entry(self, sql: Seq<char>, value: CachedStatement) -> CacheView {
        self.with(self.entries.update(place_of(self.entries, sql), (sql, value)))
    }

    /// What looking an SQL text up at a time gives, and what it leaves.
    pub open spec fn got(self, sql: Seq<char>, now: u128) -> (CacheView, Option<Statement>) {
        if self.max_size == 0 || !holds(self.entries, sql) {
            (self, None)
        } else {
            let found = self.entry(sql);
            (
                self.at(now).with_entry(
                    sql,
                    CachedStatement { in_use: true, last_used: now, ..found },
                ),
                if found.in_use {
                    None
                } else {
                    Some(found.statement)
                },
            )
        }
    }

    /// What storing a statement at a time leaves. A new statement finds no room where the cache is
    /// full and all that it holds are in use.
    pub open spec fn stored(self, sql: Seq<char>, statement: Statement, now: u128) -> CacheView {
        let fresh = CachedStatement { statement, in_use: false, last_used: now };
        if self.max_size == 0 || !cacheable(statement) {
            self
        } else if holds(self.entries, sql) {
            self.at(now).with_entry(sql, fresh)
        } else if self.entries.len() < self.max_size {
            self.at(now).with(self.entries.push((sql, fresh)))
        } else if all_in_use(self.entries) {
            self
        } else {
            self.at(now).with(evicted(self.entries).push((sql, fresh)))
        }
    }

    /// What returning a statement leaves.
    pub open spec fn returned(self, sql: Seq<char>) -> CacheView {
        if holds(self.entries, sql) {
            self.with_entry(sql, CachedStatement { in_use: false, ..self.entry(sql) })
        } else {
            self
        }
    }

    /// What closing a cursor leaves.
    pub open spec fn cursor_closed(self, sql: Seq<char>) -> CacheView {
        if holds(self.entries, sql) && self.entry(sql).statement.cursor_id != 0 {
            let found = self.entry(sql);
            self.with_entry(
                sql,
                CachedStatement {
                    statement: Statement { cursor_id: 0, executed: false, ..found.statement },
                    ..found
                },
            )
        } else {
            self
        }
    }

    /// True of a cache that holds no more than its maximum, in which no SQL text occurs twice, no
    /// statement defines data, and no statement was used after the latest use.
    pub open spec fn wf(self) -> bool {
        &&& forall|i: int, j: int|
            #![trigger self.entries[i], self.entries[j]]
            0 <= i < j < self.entries.len() ==> self.entries[i].0 != self.entries[j].0
        &&& forall|i: int|
            0 <= i < self.entries.len() ==> !(#[trigger] self.entries[i]).1.statement.defines_data()
        &&& forall|i: int|
            0 <= i < self.entries.len() ==> (#[trigger] self.entries[i]).1.last_used <= self.latest
        &&& self.entries.len() <= self.max_size
    }
}

/// Client-side statement cache using LRU eviction
///
/// The cache stores prepared statements keyed by their SQL text.
/// When a statement is retrieved from cache, its cursor ID is preserved,
/// allowing Oracle to skip parsing and use the cached server cursor.
#[derive(Debug)]
pub struct StatementCache {
    /// The cache using IndexMap for O(1) lookup
    cache: IndexMap<String, CachedStatement>,
    /// Maximum number of statements to cache
    max_size: usize,
    /// When the cache was created
    created: Instant,
    /// When a statement was last used, in nanoseconds since the cache was created
    latest: u128,
}

impl View for StatementCache {
    type V = CacheView;

    closed spec fn view(&self) -> CacheView {
        CacheView {
            entries: entries(self.cache),
            max_size: self.max_size as nat,
            latest: self.latest,
        }
    }
}

/// In a list without duplicates an entry stands at one place only.
pub(crate) proof fn lemma_place(view: CacheView, sql: Seq<char>, at: int)
    requires
        view.wf(),
        stands_at(view.entries, sql, at),
    ensures
        holds(view.entries, sql),
        place_of(view.entries, sql) == at,
{
    let place = place_of(view.entries, sql);
    assert(stands_at(view.entries, sql, place));
    assert(view.entries[place].0 == view.entries[at].0);
}

/// Wherever an entry stands in a list without duplicates, that is its place.
proof fn lemma_places(view: CacheView, sql: Seq<char>)
    requires
        view.wf(),
    ensures
        forall|at: int|
            #[trigger] stands_at(view.entries, sql, at) ==> holds(view.entries, sql) && at
                == place_of(view.entries, sql),
{
    assert forall|at: int| #[trigger] stands_at(view.entries, sql, at) implies holds(
        view.entries,
        sql,
    ) && at == place_of(view.entries, sql) by {
        lemma_place(view, sql, at);
    }
}

/// Changing the value of an entry keeps the cache well-formed.
pub(crate) proof fn lemma_with_entry(view: CacheView, sql: Seq<char>, value: CachedStatement)
    requires
        view.wf(),
        holds(view.entries, sql),
        !value.statement.defines_data(),
        value.last_used <= view.latest,
    ensures
        view.with_entry(sql, value).wf(),
{
    let at = place_of(view.entries, sql);
    assert(stands_at(view.entries, sql, at));
    let after = view.entries.update(at, (sql, value));
    assert forall|i: int, j: int|
        #![trigger after[i], after[j]]
        0 <= i < j < after.len() implies after[i].0 != after[j].0 by {
        assert(view.entries[i].0 != view.entries[j].0);
    }
}

/// The statement of an entry does not define data, and was not used after the latest use.
pub(crate) proof fn lemma_entry(view: CacheView, sql: Seq<char>)
    requires
        view.wf(),
        holds(view.entries, sql),
    ensures
        !view.entry(sql).statement.defines_data(),
        view.entry(sql).last_used <= view.latest,
{
    assert(stands_at(view.entries, sql, place_of(view.entries, sql)));
}

/// Removing an entry keeps the cache well-formed.
pub(crate) proof fn lemma_swap_removed(view: CacheView, at: int)
    requires
        view.wf(),
        0 <= at < view.entries.len(),
    ensures
        view.with(swap_removed(view.entries, at)).wf(),
        forall|sql: Seq<char>|
            !holds(view.entries, sql) ==> !#[trigger] holds(swap_removed(view.entries, at), sql),
{
    let list = view.entries;
    let after = swap_removed(list, at);
    let last = list.len() - 1;
    assert forall|i: int, j: int|
        #![trigger after[i], after[j]]
        0 <= i < j < after.len() implies after[i].0 != after[j].0 by {
        assert(list[i].0 != list[last].0);
        assert(list[j].0 != list[last].0);
        assert(list[i].0 != list[j].0);
    }
    assert forall|i: int| 0 <= i < after.len() implies !(
    #[trigger] after[i]).1.statement.defines_data() by {
        assert(!list[last].1.statement.defines_data());
        assert(!list[i].1.statement.defines_data());
    }
    assert forall|sql: Seq<char>| !holds(list, sql) implies !#[trigger] holds(after, sql) by {
        if holds(after, sql) {
            let place = place_of(after, sql);
            assert(stands_at(after, sql, place));
            if place == at {
                assert(stands_at(list, sql, last));
            } else {
                assert(stands_at(list, sql, place));
            }
        }
    }
}

/// Adding an entry of a new SQL text keeps the cache well-formed.
pub(crate) proof fn lemma_pushed(view: CacheView, sql: Seq<char>, value: CachedStatement)
    requires
        view.wf(),
        view.entries.len() < view.max_size,
        !holds(view.entries, sql),
        !value.statement.defines_data(),
        value.last_used <= view.latest,
    ensures
        view.with(view.entries.push((sql, value))).wf(),
{
    let after = view.entries.push((sql, value));
    assert forall|i: int, j: int|
        #![trigger after[i], after[j]]
        0 <= i < j < after.len() implies after[i].0 != after[j].0 by {
        assert(!stands_at(view.entries, sql, i));
        if j < view.entries.len() {
            assert(view.entries[i].0 != view.entries[j].0);
        }
    }
}

/// At most one entry is the least recently used.
pub(crate) proof fn lemma_one_least_recent(list: Entries, a: int, b: int)
    requires
        is_least_recent(list, a),
        is_least_recent(list, b),
    ensures
        a == b,
{
    assert(list[a].1.last_used <= list[b].1.last_used);
    assert(list[b].1.last_used <= list[a].1.last_used);
}

impl StatementCache {
    /// Create a new statement cache with the given maximum size
    ///
    /// A size of 0 effectively disables caching.
    pub fn new(max_size: usize) -> (cache: Self)
        ensures
            cache.wf(),
            cache@ == (CacheView { entries: Seq::empty(), max_size: max_size as nat, latest: 0 }),
    {
        StatementCache { cache: new_map(), max_size, created: current_time(), latest: 0 }
    }

    /// True of a cache that holds no more than its maximum, in which no SQL text occurs twice, no
    /// statement defines data, and no statement was used after the latest use.
    pub open spec fn wf(&self) -> bool {
        self@.wf()
    }

    /// The time of a use: later than every use before
    ///
    /// Where the clock has not advanced, the next nanosecond is taken.
    fn current_stamp(&self) -> (now: u128)
        ensures
            exists|elapsed: u128|
                elapsed <= LONGEST_DURATION && now == #[trigger] next_stamp(
                    elapsed,
                    self@.latest,
                ),
    {
        let elapsed: u128 = nanoseconds_since(&self.created);
        let now: u128 = stamp_after(elapsed, self.latest);
        assert(now == next_stamp(elapsed, self@.latest));
        now
    }

    /// Note that a statement was used at the given time
    fn note_use(&mut self, now: u128)
        ensures
            final(self)@ == old(self)@.at(now),
    {
        if self.latest < now {
            self.latest = now;
        }
    }

    /// Get a statement from the cache, if available
    ///
    /// Returns a clone of the cached statement with preserved cursor_id and metadata.
    /// If the cached statement is already in use, returns `None`: the caller gets a new cursor
    /// from Oracle. Updates LRU ordering on hit.
    pub fn get(&mut self, sql: &str) -> (found: Option<Statement>)
        requires
            old(self).wf(),
        ensures
            final(self).wf(),
            exists|elapsed: u128|
                elapsed <= LONGEST_DURATION && (final(self)@, found) == old(self)@.got(
                    sql@,
                    #[trigger] next_stamp(elapsed, old(self)@.latest),
                ),
    {
        let now: u128 = self.current_stamp();
        self.get_at(sql, now)
    }

    /// Get a statement from the cache, if available, at the given time
    pub fn get_at(&mut self, sql: &str, now: u128) -> (found: Option<Statement>)
        requires
            old(self).wf(),
        ensures
            final(self).wf(),
            (final(self)@, found) == old(self)@.got(sql@, now),
    {
        if self.max_size == 0 {
            return None;
        }
        let ghost before = self@;
        proof {
            lemma_places(before, sql@);
        }
        // Check if we have this SQL cached
        let found = match entry_mut(&mut self.cache, sql) {
            Some(cached) => {
                cached.touch(now);
                if cached.in_use {
                    // Statement is in use - the caller will get a new cursor from Oracle
                    None
                } else {
                    // Mark as in use and return a clone for reuse
                    cached.in_use = true;
                    Some(cached.statement.clone_for_reuse())
                }
            },
            None => {
                return None;
            },
        };
        self.note_use(now);
        proof {
            lemma_entry(before, sql@);
            lemma_with_entry(
                before.at(now),
                sql@,
                CachedStatement { in_use: true, last_used: now, ..before.entry(sql@) },
            );
        }
        found
    }

    /// Store a statement in the cache
    ///
    /// DDL statements are never cached, nor are statements without a cursor. If the cache is full,
    /// the least recently used statement that is not in use is evicted; where all are in use, the
    /// statement is not cached.
    pub fn put(&mut self, sql: String, statement: Statement)
        requires
            old(self).wf(),
        ensures
            final(self).wf(),
            exists|elapsed: u128|
                elapsed <= LONGEST_DURATION && final(self)@ == old(self)@.stored(
                    sql@,
                    statement,
                    #[trigger] next_stamp(elapsed, old(self)@.latest),
                ),
    {
        let now: u128 = self.current_stamp();
        self.put_at(sql, statement, now)
    }

    /// Store a statement in the cache at the given time
    pub fn put_at(&mut self, sql: String, statement: Statement, now: u128)
        requires
            old(self).wf(),
        ensures
            final(self).wf(),
            final(self)@ == old(self)@.stored(sql@, statement, now),
    {
        if self.max_size == 0 {
            return;
        }
        // Never cache DDL statements (CREATE, ALTER, DROP, etc.)

        if statement.is_ddl() {
            return;
        }
        // Don't cache statements without a cursor_id (not yet executed)

        if statement.cursor_id() == 0 {
            return;
        }
        let ghost before = self@;
        let ghost fresh = CachedStatement { statement, in_use: false, last_used: now };
        proof {
            lemma_places(before, sql@);
            if holds(before.entries, sql@) {
                lemma_with_entry(before.at(now), sql@, fresh);
            }
        }
        // Check if already cached (update it)
        match entry_mut(&mut self.cache, sql.as_str()) {
            Some(cached) => {
                cached.statement = statement;
                cached.in_use = false;
                cached.touch(now);
            },
            None => {
                // Evict LRU entry if cache is full
                if entry_count(&self.cache) >= self.max_size {
                    self.evict_lru();
                    if entry_count(&self.cache) >= self.max_size {
                        // All statements are in use
                        return;
                    }
                }
                proof {
                    lemma_pushed(self@.at(now), sql@, fresh);
                }
                insert_entry(&mut self.cache, sql, CachedStatement::new(statement, now));
            },
        }
        self.note_use(now);
    }

    /// Evict the least recently used entry
    ///
    /// Where all statements are in use nothing is evicted.
    pub fn evict_lru(&mut self)
        requires
            old(self).wf(),
        ensures
            final(self).wf(),
            final(self)@ == old(self)@.with(evicted(old(self)@.entries)),
            final(self)@.entries.len() == old(self)@.entries.len() - (if all_in_use(
                old(self)@.entries,
            ) {
                0int
            } else {
                1
            }),
            forall|sql: Seq<char>|
                !holds(old(self)@.entries, sql) ==> !#[trigger] holds(final(self)@.entries, sql),
    {
        // Find the LRU entry (first entry that's not in use)
        let mut lru: Option<(&String, u128)> = None;
        let ghost mut lru_at: int = 0;
        let ghost list = self@.entries;
        let count: usize = entry_count(&self.cache);
        let mut i: usize = 0;
        while i < count
            invariant
                count == list.len(),
                list == entries(self.cache),
                i <= count,
                match lru {
                    Some((key, last_used)) => {
                        &&& is_least_recent(list.take(i as int), lru_at)
                        &&& key@ == list[lru_at].0
                        &&& last_used == list[lru_at].1.last_used
                    },
                    None => all_in_use(list.take(i as int)),
                },
            decreases count - i,
        {
            let ghost seen = list.take(i as int);
            let ghost next = list.take(i + 1);
            assert(forall|k: int| 0 <= k < i ==> next[k] == seen[k]);
            match entry_at(&self.cache, i) {
                Some((key, cached)) => {
                    if !cached.in_use {
                        match lru {
                            Some((_, last_used)) => {
                                if cached.last_used < last_used {
                                    lru = Some((key, cached.last_used));
                                    proof {
                                        lru_at = i as int;
                                    }
                                }
                            },
                            None => {
                                lru = Some((key, cached.last_used));
                                proof {
                                    lru_at = i as int;
                                }
                            },
                        }
                    }
                },
                None => {},
            }
            i = i + 1;
        }
        assert(list.take(i as int) =~= list);
        let key = match lru {
            Some((key, _)) => Some(key.clone()),
            None => None,
        };
        match key {
            Some(key) => {
                proof {
                    let chosen = choose|at: int| is_least_recent(list, at);
                    lemma_one_least_recent(list, lru_at, chosen);
                    assert(stands_at(list, key@, lru_at));
                    lemma_places(self@, key@);
                    lemma_swap_removed(self@, lru_at);
                }
                let _ = remove_entry(&mut self.cache, key.as_str());
            },
            // All statements are in use - this is rare but possible
            None => {},
        }
    }

    /// Return a statement to the cache after use
    ///
    /// This marks the statement as no longer in use so it can be reused.
    pub fn return_statement(&mut self, sql: &str)
        requires
            old(self).wf(),
        ensures
            final(self).wf(),
            final(self)@ == old(self)@.returned(sql@),
    {
        let ghost before = self@;
        proof {
            lemma_places(before, sql@);
            if holds(before.entries, sql@) {
                lemma_entry(before, sql@);
                lemma_with_entry(
                    before,
                    sql@,
                    CachedStatement { in_use: false, ..before.entry(sql@) },
                );
            }
        }
        match entry_mut(&mut self.cache, sql) {
            Some(cached) => {
                cached.in_use = false;
            },
            None => {},
        }
    }

    /// Mark a cursor as closed in the cache
    ///
    /// Resets cursor_id to 0 so the next execution gets a fresh cursor from
    /// Oracle. This prevents data corruption from reusing stale cursor IDs.
    pub fn mark_cursor_closed(&mut self, sql: &str)
        requires
            old(self).wf(),
        ensures
            final(self).wf(),
            final(self)@ == old(self)@.cursor_closed(sql@),
    {
        let ghost before = self@;
        proof {
            lemma_places(before, sql@);
            if holds(before.entries, sql@) {
                let found = before.entry(sql@);
                lemma_entry(before, sql@);
                lemma_with_entry(before, sql@, found);
                lemma_with_entry(
                    before,
                    sql@,
                    CachedStatement {
                        statement: Statement { cursor_id: 0, executed: false, ..found.statement },
                        ..found
                    },
                );
            }
        }
        match entry_mut(&mut self.cache, sql) {
            Some(cached) => {
                if cached.statement.cursor_id() != 0 {
                    cached.statement.set_cursor_id(0);
                    cached.statement.set_executed(false);
                } else {
                    proof {
                        let at = place_of(before.entries, sql@);
                        assert(before.entries.update(at, (sql@, before.entry(sql@)))
                            =~= before.entries);
                    }
                }
            },
            None => {},
        }
    }

    /// Clear all cached statements
    ///
    /// This should be called when the session changes (e.g., DRCP session switch).
    pub fn clear(&mut self)
        ensures
            final(self).wf(),
            final(self)@ == old(self)@.with(Seq::empty()),
    {
        clear_entries(&mut self.cache);
    }

    /// Get the current number of cached statements
    pub fn len(&self) -> (count: usize)
        ensures
            count == self@.entries.len(),
    {
        entry_count(&self.cache)
    }

    /// Check if the cache is empty
    pub fn is_empty(&self) -> (empty: bool)
        ensures
            empty == (self@.entries.len() == 0),
    {
        has_no_entries(&self.cache)
    }

    /// Get the maximum cache size
    pub fn max_size(&self) -> (size: usize)
        ensures
            size == self@.max_size,
    {
        self.max_size
    }
}

} // verus!
