//! What holds of every statement cache.

use crate::statement::Statement;
use crate::statement_cache::{
    all_in_use, cacheable, evicted, holds, is_least_recent, lemma_entry, lemma_one_least_recent,
    lemma_place, lemma_pushed, lemma_swap_removed, lemma_with_entry, next_stamp, place_of,
    stands_at, swap_removed, CacheView, CachedStatement, Entries, LONGEST_DURATION,
};
use vstd::prelude::*;

verus! {

/// True where the entry of an SQL text is the same in two caches.
pub open spec fn same_entry(before: CacheView, after: CacheView, sql: Seq<char>) -> bool {
    &&& holds(before.entries, sql) <==> holds(after.entries, sql)
    &&& holds(before.entries, sql) ==> before.entry(sql) == after.entry(sql)
}

/// After another value for one SQL text, the cache gives that value, and the same as before for
/// every other SQL text.
proof fn lemma_entry_changed(
    view: CacheView,
    sql: Seq<char>,
    value: CachedStatement,
    other: Seq<char>,
)
    requires
        view.wf(),
        holds(view.entries, sql),
        !value.statement.defines_data(),
        value.last_used <= view.latest,
    ensures
        view.with_entry(sql, value).wf(),
        holds(view.with_entry(sql, value).entries, sql),
        view.with_entry(sql, value).entry(sql) == value,
        other != sql ==> same_entry(view, view.with_entry(sql, value), other),
{
    let after = view.with_entry(sql, value);
    let at = place_of(view.entries, sql);
    assert(stands_at(view.entries, sql, at));
    lemma_with_entry(view, sql, value);
    assert(stands_at(after.entries, sql, at));
    lemma_place(after, sql, at);
    if other != sql {
        if holds(view.entries, other) {
            let place = place_of(view.entries, other);
            assert(stands_at(view.entries, other, place));
            assert(stands_at(after.entries, other, place));
            lemma_place(after, other, place);
        }
        if holds(after.entries, other) {
            let place = place_of(after.entries, other);
            assert(stands_at(after.entries, other, place));
            assert(stands_at(view.entries, other, place));
            lemma_place(view, other, place);
        }
    }
}

/// After a new entry, the cache gives that entry, and the same as before for every other SQL text.
proof fn lemma_entry_added(
    view: CacheView,
    sql: Seq<char>,
    value: CachedStatement,
    other: Seq<char>,
)
    requires
        view.wf(),
        view.entries.len() < view.max_size,
        !holds(view.entries, sql),
        !value.statement.defines_data(),
        value.last_used <= view.latest,
    ensures
        ({
            let after = view.with(view.entries.push((sql, value)));
            &&& after.wf()
            &&& holds(after.entries, sql)
            &&& after.entry(sql) == value
            &&& other != sql ==> same_entry(view, after, other)
        }),
{
    let after = view.with(view.entries.push((sql, value)));
    let last = view.entries.len() as int;
    lemma_pushed(view, sql, value);
    assert(stands_at(after.entries, sql, last));
    lemma_place(after, sql, last);
    if other != sql {
        if holds(view.entries, other) {
            let place = place_of(view.entries, other);
            assert(stands_at(view.entries, other, place));
            assert(stands_at(after.entries, other, place));
            lemma_place(after, other, place);
        }
        if holds(after.entries, other) {
            let place = place_of(after.entries, other);
            assert(stands_at(after.entries, other, place));
            assert(stands_at(view.entries, other, place));
            lemma_place(view, other, place);
        }
    }
}

/// After the entry at a place has left, its SQL text is gone, and the cache gives the same as
/// before for every other SQL text.
proof fn lemma_entry_removed(view: CacheView, at: int, other: Seq<char>)
    requires
        view.wf(),
        0 <= at < view.entries.len(),
    ensures
        ({
            let after = view.with(swap_removed(view.entries, at));
            &&& after.wf()
            &&& !holds(after.entries, view.entries[at].0)
            &&& other != view.entries[at].0 ==> same_entry(view, after, other)
        }),
{
    let list = view.entries;
    let after = view.with(swap_removed(list, at));
    let last = list.len() - 1;
    lemma_swap_removed(view, at);
    assert forall|i: int| 0 <= i < after.entries.len() implies after.entries[i].0 != list[at].0 by {
        assert(list[i].0 != list[at].0 || i == at);
        assert(list[last].0 != list[at].0 || last == at);
    }
    if other != list[at].0 {
        if holds(list, other) {
            let place = place_of(list, other);
            assert(stands_at(list, other, place));
            if place == last {
                assert(stands_at(after.entries, other, at));
                lemma_place(after, other, at);
            } else {
                assert(stands_at(after.entries, other, place));
                lemma_place(after, other, place);
            }
        }
        if holds(after.entries, other) {
            let place = place_of(after.entries, other);
            assert(stands_at(after.entries, other, place));
            if place == at {
                assert(stands_at(list, other, last));
                lemma_place(view, other, last);
            } else {
                assert(stands_at(list, other, place));
                lemma_place(view, other, place);
            }
        }
    }
}

/// Where not all statements are in use, one of them is the least recently used of those that are
/// not.
pub proof fn idle_statement_can_be_evicted(list: Entries) -> (at: int)
    requires
        !all_in_use(list),
    ensures
        is_least_recent(list, at),
        evicted(list) == swap_removed(list, at),
        evicted(list).len() == list.len() - 1,
{
    let at = find_least_recent(list, list.len());
    assert(list.take(list.len() as int) =~= list);
    let chosen = choose|i: int| is_least_recent(list, i);
    lemma_one_least_recent(list, at, chosen);
    at
}

/// The least recently used statement among the first ones.
proof fn find_least_recent(list: Entries, count: nat) -> (at: int)
    requires
        count <= list.len(),
        !all_in_use(list.take(count as int)),
    ensures
        is_least_recent(list.take(count as int), at),
    decreases count,
{
    let now = list.take(count as int);
    let before = list.take(count - 1);
    assert(forall|i: int| 0 <= i < count - 1 ==> before[i] == now[i]);
    if all_in_use(before) {
        assert forall|i: int| 0 <= i < count - 1 implies (#[trigger] now[i]).1.in_use by {
            assert(before[i].1.in_use);
        }
        count - 1
    } else {
        let earlier = find_least_recent(list, (count - 1) as nat);
        let last = count - 1;
        let found = if !now[last].1.in_use && now[last].1.last_used < now[earlier].1.last_used {
            last
        } else {
            earlier
        };
        assert forall|i: int|
            0 <= i < now.len() && !(#[trigger] now[i]).1.in_use implies now[found].1.last_used
            <= now[i].1.last_used && (i < found ==> now[found].1.last_used
            < now[i].1.last_used) by {
            if i < last {
                assert(before[i] == now[i]);
                assert(!before[i].1.in_use);
            }
        }
        found
    }
}

/// True of a cache that has room for a statement: it holds one of the same SQL text, or is not
/// full, or can evict a statement that is not in use.
pub open spec fn has_room(view: CacheView, sql: Seq<char>) -> bool {
    holds(view.entries, sql) || view.entries.len() < view.max_size || !all_in_use(view.entries)
}

/// A statement that was stored, may be cached, and found room, is what the next lookup of its SQL
/// text gives, cursor included.
pub proof fn stored_statement_is_got(
    view: CacheView,
    sql: Seq<char>,
    statement: Statement,
    stored_at: u128,
    got_at: u128,
)
    requires
        view.wf(),
        view.max_size > 0,
        cacheable(statement),
        has_room(view, sql),
    ensures
        view.stored(sql, statement, stored_at).got(sql, got_at).1 == Some(statement),
{
    stored_entry_is_fresh(view, sql, statement, stored_at);
}

/// Storing a statement that may be cached and finds room leaves a fresh entry of its SQL text.
pub proof fn stored_entry_is_fresh(
    view: CacheView,
    sql: Seq<char>,
    statement: Statement,
    now: u128,
)
    requires
        view.wf(),
        view.max_size > 0,
        cacheable(statement),
        has_room(view, sql),
    ensures
        ({
            let after = view.stored(sql, statement, now);
            &&& after.wf()
            &&& holds(after.entries, sql)
            &&& after.entry(sql) == (CachedStatement { statement, in_use: false, last_used: now })
        }),
{
    let fresh = CachedStatement { statement, in_use: false, last_used: now };
    let used = view.at(now);
    if holds(view.entries, sql) {
        lemma_entry_changed(used, sql, fresh, sql);
    } else if view.entries.len() < view.max_size {
        lemma_entry_added(used, sql, fresh, sql);
    } else {
        let at = idle_statement_can_be_evicted(view.entries);
        lemma_entry_removed(used, at, sql);
        lemma_swap_removed(used, at);
        lemma_entry_added(used.with(evicted(view.entries)), sql, fresh, sql);
    }
}

/// A statement that was handed out is not handed out again before it is returned.
pub proof fn statement_in_use_is_not_got(
    view: CacheView,
    sql: Seq<char>,
    first: u128,
    second: u128,
)
    requires
        view.wf(),
    ensures
        view.got(sql, first).0.got(sql, second).1 is None,
{
    if view.max_size > 0 && holds(view.entries, sql) {
        lemma_entry(view, sql);
        lemma_entry_changed(
            view.at(first),
            sql,
            CachedStatement { in_use: true, last_used: first, ..view.entry(sql) },
            sql,
        );
    }
}

/// A statement that was returned is what the next lookup gives, if it is still cached.
pub proof fn returned_statement_is_got(view: CacheView, sql: Seq<char>, now: u128)
    requires
        view.wf(),
        holds(view.entries, sql),
    ensures
        view.returned(sql).got(sql, now).1 == Some(view.entry(sql).statement),
{
    lemma_entry(view, sql);
    assert(stands_at(view.entries, sql, place_of(view.entries, sql)));
    lemma_entry_changed(
        view,
        sql,
        CachedStatement { in_use: false, ..view.entry(sql) },
        sql,
    );
}

/// Once its cursor was closed, a statement that is not in use is handed out without a cursor and as
/// not executed; one that had no cursor is handed out as it is.
pub proof fn closed_cursor_is_not_reused(view: CacheView, sql: Seq<char>, now: u128)
    requires
        view.wf(),
        holds(view.entries, sql),
    ensures
        view.cursor_closed(sql).got(sql, now).1 == (if view.entry(sql).in_use {
            None
        } else if view.entry(sql).statement.cursor_id == 0 {
            Some(view.entry(sql).statement)
        } else {
            Some(Statement { cursor_id: 0, executed: false, ..view.entry(sql).statement })
        }),
{
    lemma_entry(view, sql);
    let found = view.entry(sql);
    if found.statement.cursor_id != 0 {
        lemma_entry_changed(
            view,
            sql,
            CachedStatement {
                statement: Statement { cursor_id: 0, executed: false, ..found.statement },
                ..found
            },
            sql,
        );
    }
}

/// A disabled cache holds nothing and gives nothing, whatever is stored.
pub proof fn disabled_cache_stays_empty(
    view: CacheView,
    sql: Seq<char>,
    statement: Statement,
    now: u128,
)
    requires
        view.wf(),
        view.max_size == 0,
    ensures
        view.stored(sql, statement, now) == view,
        view.entries.len() == 0,
        view.got(sql, now) == (view, None::<Statement>),
{
}

/// A statement that defines data, or has no cursor, is never stored.
pub proof fn uncacheable_statement_is_not_stored(
    view: CacheView,
    sql: Seq<char>,
    statement: Statement,
    now: u128,
)
    requires
        !cacheable(statement),
    ensures
        view.stored(sql, statement, now) == view,
{
}

/// Looking up, returning and closing one SQL text changes nothing of another, and not the size.
pub proof fn other_statements_are_kept(
    view: CacheView,
    sql: Seq<char>,
    other: Seq<char>,
    now: u128,
)
    requires
        view.wf(),
        other != sql,
    ensures
        same_entry(view, view.got(sql, now).0, other),
        same_entry(view, view.returned(sql), other),
        same_entry(view, view.cursor_closed(sql), other),
        view.got(sql, now).0.entries.len() == view.entries.len(),
        view.returned(sql).entries.len() == view.entries.len(),
        view.cursor_closed(sql).entries.len() == view.entries.len(),
{
    if holds(view.entries, sql) {
        let found = view.entry(sql);
        lemma_entry(view, sql);
        lemma_entry_changed(
            view.at(now),
            sql,
            CachedStatement { in_use: true, last_used: now, ..found },
            other,
        );
        lemma_entry_changed(view, sql, CachedStatement { in_use: false, ..found }, other);
        lemma_entry_changed(
            view,
            sql,
            CachedStatement {
                statement: Statement { cursor_id: 0, executed: false, ..found.statement },
                ..found
            },
            other,
        );
    }
}

/// Storing a statement drops at most one other: the least recently used one that is not in use,
/// and that only where the cache is full and the SQL text is new to it.
pub proof fn only_least_recent_is_dropped(
    view: CacheView,
    sql: Seq<char>,
    statement: Statement,
    now: u128,
    other: Seq<char>,
)
    requires
        view.wf(),
        other != sql,
    ensures
        same_entry(view, view.stored(sql, statement, now), other) || (view.entries.len()
            >= view.max_size && !holds(view.entries, sql) && holds(view.entries, other)
            && is_least_recent(view.entries, place_of(view.entries, other))),
{
    let fresh = CachedStatement { statement, in_use: false, last_used: now };
    let used = view.at(now);
    if view.max_size == 0 || !cacheable(statement) {
    } else if holds(view.entries, sql) {
        lemma_entry_changed(used, sql, fresh, other);
    } else if view.entries.len() < view.max_size {
        lemma_entry_added(used, sql, fresh, other);
    } else if !all_in_use(view.entries) {
        let at = idle_statement_can_be_evicted(view.entries);
        lemma_entry_removed(used, at, other);
        lemma_swap_removed(used, at);
        lemma_entry_added(used.with(evicted(view.entries)), sql, fresh, other);
        if other == view.entries[at].0 {
            assert(stands_at(view.entries, other, at));
            lemma_place(view, other, at);
        }
    }
}

/// A statement stays as it is when another is stored, as long as there is one that is not in use
/// and was used before it.
pub proof fn recently_used_statement_stays(
    view: CacheView,
    sql: Seq<char>,
    statement: Statement,
    now: u128,
    kept: Seq<char>,
    older: Seq<char>,
)
    requires
        view.wf(),
        kept != sql,
        holds(view.entries, kept),
        holds(view.entries, older),
        !view.entry(older).in_use,
        view.entry(older).last_used < view.entry(kept).last_used,
    ensures
        same_entry(view, view.stored(sql, statement, now), kept),
{
    only_least_recent_is_dropped(view, sql, statement, now, kept);
    let place = place_of(view.entries, kept);
    let oldest = place_of(view.entries, older);
    assert(stands_at(view.entries, older, oldest));
    assert(!view.entries[oldest].1.in_use);
    assert(!is_least_recent(view.entries, place));
}

/// Once cleared, the cache gives nothing.
pub proof fn cleared_cache_gives_nothing(view: CacheView, sql: Seq<char>, now: u128)
    ensures
        view.with(Seq::empty()).got(sql, now).1 is None,
{
}

/// Storing a statement keeps the cache well-formed: above all, it never holds more than its
/// maximum.
pub proof fn size_is_bounded(view: CacheView, sql: Seq<char>, statement: Statement, now: u128)
    requires
        view.wf(),
    ensures
        ({
            let after = view.stored(sql, statement, now);
            &&& after.wf()
            &&& after.max_size == view.max_size
            &&& after.entries.len() <= after.max_size
        }),
{
    if view.max_size > 0 && cacheable(statement) && has_room(view, sql) {
        stored_entry_is_fresh(view, sql, statement, now);
    }
}

/// A full cache whose statements are all in use stays as it is when a new one is stored.
pub proof fn full_cache_in_use_is_kept(
    view: CacheView,
    sql: Seq<char>,
    statement: Statement,
    now: u128,
)
    requires
        !has_room(view, sql),
    ensures
        view.stored(sql, statement, now) == view,
{
}

/// What is looked up or stored at a time after the latest use was used after everything else that
/// the cache holds.
pub proof fn used_statement_is_most_recent(
    view: CacheView,
    sql: Seq<char>,
    statement: Statement,
    now: u128,
    other: Seq<char>,
)
    requires
        view.wf(),
        view.latest < now,
        other != sql,
    ensures
        ({
            let after = view.got(sql, now).0;
            view.max_size > 0 && holds(view.entries, sql) && holds(after.entries, other)
                ==> after.entry(other).last_used < after.entry(sql).last_used
        }),
        ({
            let after = view.stored(sql, statement, now);
            view.max_size > 0 && cacheable(statement) && has_room(view, sql) && holds(
                after.entries,
                other,
            ) ==> after.entry(other).last_used < after.entry(sql).last_used
        }),
{
    if view.max_size > 0 && holds(view.entries, sql) {
        lemma_entry(view, sql);
        let value = CachedStatement { in_use: true, last_used: now, ..view.entry(sql) };
        lemma_entry_changed(view.at(now), sql, value, other);
        if holds(view.entries, other) {
            lemma_entry(view, other);
        }
    }
    if view.max_size > 0 && cacheable(statement) && has_room(view, sql) {
        stored_entry_is_fresh(view, sql, statement, now);
        let after = view.stored(sql, statement, now);
        if holds(after.entries, other) {
            stored_keeps_or_drops(view, sql, statement, now, other);
            lemma_entry(view, other);
        }
    }
}

/// Every use is later than all before it, and stays within the longest duration, or one nanosecond
/// behind the latest use: a cache that is only looked up and stored to never comes near the end of
/// all time.
pub proof fn uses_are_in_order(elapsed: u128, latest: u128)
    requires
        elapsed <= LONGEST_DURATION,
        latest < u128::MAX,
    ensures
        latest < next_stamp(elapsed, latest),
        next_stamp(elapsed, latest) <= LONGEST_DURATION || next_stamp(elapsed, latest) == latest
            + 1,
{
}

/// After a use, the latest use is that use, or the cache is as it was.
pub proof fn latest_use_is_kept(view: CacheView, sql: Seq<char>, statement: Statement, now: u128)
    requires
        view.latest <= now,
    ensures
        view.got(sql, now).0.latest == now || view.got(sql, now).0 == view,
        view.stored(sql, statement, now).latest == now || view.stored(sql, statement, now) == view,
        view.returned(sql).latest == view.latest,
        view.cursor_closed(sql).latest == view.latest,
{
}

/// What the cache holds of another SQL text after storing a statement, it held before.
proof fn stored_keeps_or_drops(
    view: CacheView,
    sql: Seq<char>,
    statement: Statement,
    now: u128,
    other: Seq<char>,
)
    requires
        view.wf(),
        other != sql,
        holds(view.stored(sql, statement, now).entries, other),
    ensures
        holds(view.entries, other),
        view.stored(sql, statement, now).entry(other) == view.entry(other),
{
    let fresh = CachedStatement { statement, in_use: false, last_used: now };
    let used = view.at(now);
    if view.max_size == 0 || !cacheable(statement) {
    } else if holds(view.entries, sql) {
        lemma_entry_changed(used, sql, fresh, other);
    } else if view.entries.len() < view.max_size {
        lemma_entry_added(used, sql, fresh, other);
    } else if !all_in_use(view.entries) {
        let at = idle_statement_can_be_evicted(view.entries);
        lemma_entry_removed(used, at, other);
        lemma_swap_removed(used, at);
        lemma_entry_added(used.with(evicted(view.entries)), sql, fresh, other);
    }
}

/// A statement that was looked up after the latest use, and returned, is not the one that leaves
/// when the next is stored, as long as another one is not in use.
pub proof fn looked_up_statement_outlasts_another(
    view: CacheView,
    sql: Seq<char>,
    looked_up_at: u128,
    idle: Seq<char>,
    new_sql: Seq<char>,
    statement: Statement,
    now: u128,
)
    requires
        view.wf(),
        view.latest < looked_up_at,
        holds(view.entries, sql),
        holds(view.entries, idle),
        idle != sql,
        new_sql != sql,
        !view.entry(idle).in_use,
    ensures
        ({
            let before = view.got(sql, looked_up_at).0.returned(sql);
            let after = before.stored(new_sql, statement, now);
            holds(after.entries, sql) && after.entry(sql) == before.entry(sql)
        }),
{
    assert(stands_at(view.entries, sql, place_of(view.entries, sql)));
    lemma_entry(view, sql);
    lemma_entry(view, idle);
    let got = view.got(sql, looked_up_at).0;
    let value = CachedStatement { in_use: true, last_used: looked_up_at, ..view.entry(sql) };
    lemma_entry_changed(view.at(looked_up_at), sql, value, idle);
    let idle_value = CachedStatement { in_use: false, ..value };
    lemma_entry_changed(got, sql, idle_value, idle);
    let before = got.returned(sql);
    recently_used_statement_stays(before, new_sql, statement, now, sql, idle);
}

/// A statement that does not define data and has a cursor, whatever else is true of it, is what the
/// next lookup of its SQL text gives, where the cache holds that text already, is not full, or
/// holds a statement that is not in use.
pub proof fn statement_with_cursor_is_got(
    view: CacheView,
    sql: Seq<char>,
    statement: Statement,
    stored_at: u128,
    got_at: u128,
)
    requires
        view.wf(),
        view.max_size > 0,
        !statement.defines_data(),
        statement.cursor_id != 0,
        holds(view.entries, sql) || view.entries.len() < view.max_size || exists|i: int|
            0 <= i < view.entries.len() && !(#[trigger] view.entries[i]).1.in_use,
    ensures
        view.stored(sql, statement, stored_at).got(sql, got_at).1 == Some(statement),
{
    stored_statement_is_got(view, sql, statement, stored_at, got_at);
}

/// A statement that defines data, or has no cursor, changes nothing.
pub proof fn statement_without_cursor_is_not_stored(
    view: CacheView,
    sql: Seq<char>,
    statement: Statement,
    now: u128,
)
    requires
        statement.defines_data() || statement.cursor_id == 0,
    ensures
        view.stored(sql, statement, now) == view,
{
}

/// A lookup that finds an entry notes the time and that it is in use, and nothing else of it; it
/// gives the statement if and only if that was not in use. One that finds none changes nothing.
pub proof fn lookup_notes_use(view: CacheView, sql: Seq<char>, now: u128)
    requires
        view.wf(),
    ensures
        ({
            let (after, found) = view.got(sql, now);
            if holds(view.entries, sql) {
                let before = view.entry(sql);
                &&& holds(after.entries, sql)
                &&& after.entry(sql).statement == before.statement
                &&& after.entry(sql).in_use
                &&& after.entry(sql).last_used == now
                &&& before.in_use ==> found is None
                &&& !before.in_use ==> found == Some(before.statement)
                &&& after.latest == (if view.latest < now {
                    now
                } else {
                    view.latest
                })
                &&& after.max_size == view.max_size
            } else {
                after == view && found is None
            }
        }),
{
    if holds(view.entries, sql) {
        assert(stands_at(view.entries, sql, place_of(view.entries, sql)));
        lemma_entry(view, sql);
        lemma_entry_changed(
            view.at(now),
            sql,
            CachedStatement { in_use: true, last_used: now, ..view.entry(sql) },
            sql,
        );
    }
}

/// Returning a statement notes that it is not in use, and closing its cursor that it has none and
/// was not executed; neither changes anything else of the entry, nor when it was used.
pub proof fn return_and_close_change_no_more(view: CacheView, sql: Seq<char>)
    requires
        view.wf(),
    ensures
        holds(view.entries, sql) ==> {
            let before = view.entry(sql);
            let returned = view.returned(sql).entry(sql);
            let closed = view.cursor_closed(sql).entry(sql);
            &&& holds(view.returned(sql).entries, sql)
            &&& returned.statement == before.statement
            &&& !returned.in_use
            &&& returned.last_used == before.last_used
            &&& holds(view.cursor_closed(sql).entries, sql)
            &&& closed.statement.sql == before.statement.sql
            &&& closed.statement.cursor_id == 0
            &&& closed.statement.executed == (before.statement.executed
                && before.statement.cursor_id == 0)
            &&& closed.in_use == before.in_use
            &&& closed.last_used == before.last_used
        },
        !holds(view.entries, sql) ==> view.returned(sql) == view && view.cursor_closed(sql) == view,
{
    if holds(view.entries, sql) {
        let found = view.entry(sql);
        lemma_entry(view, sql);
        lemma_entry_changed(view, sql, CachedStatement { in_use: false, ..found }, sql);
        lemma_entry_changed(
            view,
            sql,
            CachedStatement {
                statement: Statement { cursor_id: 0, executed: false, ..found.statement },
                ..found
            },
            sql,
        );
    }
}

/// A statement in use stays when another is stored, and a statement that leaves was not used after
/// any other that is not in use.
pub proof fn idle_and_oldest_leaves(
    view: CacheView,
    sql: Seq<char>,
    statement: Statement,
    now: u128,
    other: Seq<char>,
    idle: Seq<char>,
)
    requires
        view.wf(),
        other != sql,
        holds(view.entries, other),
    ensures
        ({
            let after = view.stored(sql, statement, now);
            let left = !holds(after.entries, other);
            &&& view.entry(other).in_use ==> !left
            &&& holds(view.entries, sql) ==> !left
            &&& view.entries.len() < view.max_size ==> !left
            &&& left && holds(view.entries, idle) && !view.entry(idle).in_use ==> view.entry(
                other,
            ).last_used <= view.entry(idle).last_used
            &&& !left ==> after.entry(other) == view.entry(other)
        }),
{
    only_least_recent_is_dropped(view, sql, statement, now, other);
    let after = view.stored(sql, statement, now);
    assert(stands_at(view.entries, other, place_of(view.entries, other)));
    if holds(after.entries, other) {
        stored_keeps_or_drops(view, sql, statement, now, other);
    } else if holds(view.entries, idle) {
        assert(stands_at(view.entries, idle, place_of(view.entries, idle)));
    }
}

/// How many statements the cache holds after one was stored that does not define data and has a
/// cursor: one more where the text is new and there is room, and otherwise as many as before.
pub proof fn size_after_storing(view: CacheView, sql: Seq<char>, statement: Statement, now: u128)
    requires
        view.wf(),
        !statement.defines_data(),
        statement.cursor_id != 0,
    ensures
        view.stored(sql, statement, now).entries.len() == view.entries.len() + (if !holds(
            view.entries,
            sql,
        ) && view.entries.len() < view.max_size {
            1int
        } else {
            0
        }),
{
    if view.max_size > 0 && !holds(view.entries, sql) && view.entries.len() >= view.max_size
        && !all_in_use(view.entries) {
        let at = idle_statement_can_be_evicted(view.entries);
    }
}

/// A use is stamped with the time that has elapsed where that lies after the latest use, and
/// otherwise with the nanosecond behind the latest use.
pub proof fn stamp_is_the_later(elapsed: u128, latest: u128)
    requires
        latest < u128::MAX,
    ensures
        elapsed > latest ==> next_stamp(elapsed, latest) == elapsed,
        elapsed <= latest ==> next_stamp(elapsed, latest) == latest + 1,
{
}

/// Evicting takes one statement where one is not in use, and leaves every other as it was; where
/// all are in use it changes nothing.
pub proof fn eviction_takes_one(view: CacheView, other: Seq<char>)
    requires
        view.wf(),
        holds(view.entries, other),
    ensures
        ({
            let after = view.with(evicted(view.entries));
            let some_idle = exists|i: int|
                0 <= i < view.entries.len() && !(#[trigger] view.entries[i]).1.in_use;
            &&& after.wf()
            &&& some_idle ==> after.entries.len() == view.entries.len() - 1
            &&& !some_idle ==> after == view
            &&& view.entry(other).in_use ==> holds(after.entries, other)
            &&& holds(after.entries, other) ==> after.entry(other) == view.entry(other)
            &&& !holds(after.entries, other) ==> forall|i: int|
                0 <= i < view.entries.len() && !(#[trigger] view.entries[i]).1.in_use
                    ==> view.entry(other).last_used < view.entries[i].1.last_used || (view.entry(
                    other,
                ).last_used == view.entries[i].1.last_used && place_of(view.entries, other) <= i)
        }),
{
    assert(stands_at(view.entries, other, place_of(view.entries, other)));
    if !all_in_use(view.entries) {
        let at = idle_statement_can_be_evicted(view.entries);
        lemma_entry_removed(view, at, other);
        if other == view.entries[at].0 {
            assert(stands_at(view.entries, other, at));
            lemma_place(view, other, at);
        }
    }
}

} // verus!
