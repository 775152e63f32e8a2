use oracle_rs::statement_cache::{stamp_after, LONGEST_DURATION};
use oracle_rs::{Statement, StatementCache};

fn make_test_statement(sql: &str, cursor_id: u16) -> Statement {
    let mut stmt = Statement::new(sql);
    stmt.set_cursor_id(cursor_id);
    stmt.set_executed(true);
    stmt
}

#[test]
fn test_cache_basic() {
    let mut cache = StatementCache::new(5);

    // Add a statement
    let stmt = make_test_statement("SELECT 1 FROM DUAL", 100);
    cache.put("SELECT 1 FROM DUAL".to_string(), stmt);

    assert_eq!(cache.len(), 1);

    // Retrieve it
    let cached = cache.get("SELECT 1 FROM DUAL").expect("Should be cached");
    assert_eq!(cached.cursor_id(), 100);

    // Return it
    cache.return_statement("SELECT 1 FROM DUAL");
}

#[test]
fn test_cache_miss() {
    let mut cache = StatementCache::new(5);
    assert!(cache.get("SELECT 1 FROM DUAL").is_none());
}

#[test]
fn test_cache_disabled() {
    let mut cache = StatementCache::new(0);

    let stmt = make_test_statement("SELECT 1 FROM DUAL", 100);
    cache.put("SELECT 1 FROM DUAL".to_string(), stmt);

    assert_eq!(cache.len(), 0);
    assert!(cache.get("SELECT 1 FROM DUAL").is_none());
}

#[test]
fn test_ddl_not_cached() {
    let mut cache = StatementCache::new(5);

    let mut stmt = Statement::new("CREATE TABLE test (id NUMBER)");
    stmt.set_cursor_id(100);
    cache.put("CREATE TABLE test (id NUMBER)".to_string(), stmt);

    assert_eq!(cache.len(), 0);
}

#[test]
fn test_no_cursor_not_cached() {
    let mut cache = StatementCache::new(5);

    // Statement without cursor_id should not be cached
    let stmt = Statement::new("SELECT 1 FROM DUAL");
    cache.put("SELECT 1 FROM DUAL".to_string(), stmt);

    assert_eq!(cache.len(), 0);
}

#[test]
fn test_lru_eviction() {
    let mut cache = StatementCache::new(3);

    // Add 3 statements
    cache.put(
        "SELECT 1 FROM DUAL".to_string(),
        make_test_statement("SELECT 1 FROM DUAL", 1),
    );
    cache.put(
        "SELECT 2 FROM DUAL".to_string(),
        make_test_statement("SELECT 2 FROM DUAL", 2),
    );
    cache.put(
        "SELECT 3 FROM DUAL".to_string(),
        make_test_statement("SELECT 3 FROM DUAL", 3),
    );

    assert_eq!(cache.len(), 3);

    // Access the first one to make it recently used
    cache.get("SELECT 1 FROM DUAL");
    cache.return_statement("SELECT 1 FROM DUAL");

    // Add a 4th - should evict "SELECT 2" (LRU)
    cache.put(
        "SELECT 4 FROM DUAL".to_string(),
        make_test_statement("SELECT 4 FROM DUAL", 4),
    );

    assert_eq!(cache.len(), 3);
    assert!(cache.get("SELECT 2 FROM DUAL").is_none()); // Evicted
    assert!(cache.get("SELECT 1 FROM DUAL").is_some()); // Still there
}

#[test]
fn test_in_use_not_returned() {
    let mut cache = StatementCache::new(5);

    cache.put(
        "SELECT 1 FROM DUAL".to_string(),
        make_test_statement("SELECT 1 FROM DUAL", 100),
    );

    // Get the statement (marks it in use)
    let _ = cache.get("SELECT 1 FROM DUAL");

    // Try to get it again - should return None because it's in use
    assert!(cache.get("SELECT 1 FROM DUAL").is_none());

    // Return it
    cache.return_statement("SELECT 1 FROM DUAL");

    // Now we can get it again
    assert!(cache.get("SELECT 1 FROM DUAL").is_some());
}

#[test]
fn test_clear() {
    let mut cache = StatementCache::new(5);

    cache.put(
        "SELECT 1 FROM DUAL".to_string(),
        make_test_statement("SELECT 1 FROM DUAL", 1),
    );
    cache.put(
        "SELECT 2 FROM DUAL".to_string(),
        make_test_statement("SELECT 2 FROM DUAL", 2),
    );

    assert_eq!(cache.len(), 2);

    cache.clear();

    assert_eq!(cache.len(), 0);
}

#[test]
fn test_update_existing() {
    let mut cache = StatementCache::new(5);

    cache.put(
        "SELECT 1 FROM DUAL".to_string(),
        make_test_statement("SELECT 1 FROM DUAL", 100),
    );

    // Update with new cursor_id
    cache.put(
        "SELECT 1 FROM DUAL".to_string(),
        make_test_statement("SELECT 1 FROM DUAL", 200),
    );

    assert_eq!(cache.len(), 1);

    let cached = cache.get("SELECT 1 FROM DUAL").unwrap();
    assert_eq!(cached.cursor_id(), 200);
}

fn put_at(cache: &mut StatementCache, sql: &str, cursor_id: u16, now: u128) {
    cache.put_at(sql.to_string(), make_test_statement(sql, cursor_id), now);
}

#[test]
fn oldest_idle_statement_leaves() {
    let mut cache = StatementCache::new(3);
    put_at(&mut cache, "A", 1, 30);
    put_at(&mut cache, "B", 2, 10);
    put_at(&mut cache, "C", 3, 20);
    // "B" is the oldest, but in use at the time 11, and "C" is next
    assert!(cache.get_at("B", 11).is_some());
    put_at(&mut cache, "D", 4, 40);
    assert_eq!(cache.len(), 3);
    assert!(cache.get_at("C", 50).is_none());
    assert_eq!(cache.get_at("A", 51).unwrap().cursor_id(), 1);
    assert_eq!(cache.get_at("D", 52).unwrap().cursor_id(), 4);
    // All three are in use now: a fourth one finds no room
    put_at(&mut cache, "E", 5, 60);
    assert_eq!(cache.len(), 3);
    assert_eq!(cache.max_size(), 3);
    assert!(cache.get_at("E", 61).is_none());
    // One of them is updated in place, and is idle from then on: it leaves for the next
    put_at(&mut cache, "A", 7, 70);
    put_at(&mut cache, "F", 6, 80);
    assert_eq!(cache.len(), 3);
    assert!(cache.get_at("A", 90).is_none());
    assert!(cache.get_at("F", 91).is_some());
}

#[test]
fn first_of_equally_old_statements_leaves() {
    let mut cache = StatementCache::new(2);
    put_at(&mut cache, "A", 1, 5);
    put_at(&mut cache, "B", 2, 5);
    put_at(&mut cache, "C", 3, 6);
    assert!(cache.get_at("A", 7).is_none());
    assert!(cache.get_at("B", 7).is_some());
    assert!(cache.get_at("C", 7).is_some());
}

#[test]
fn lookup_of_a_statement_in_use_counts_as_use() {
    let mut cache = StatementCache::new(2);
    put_at(&mut cache, "A", 1, 1);
    put_at(&mut cache, "B", 2, 2);
    assert!(cache.get_at("A", 3).is_some());
    assert!(cache.get_at("A", 9).is_none());
    cache.return_statement("A");
    put_at(&mut cache, "C", 3, 10);
    assert!(cache.get_at("B", 11).is_none());
    assert!(cache.get_at("A", 12).is_some());
}

#[test]
fn closed_cursor_is_forgotten() {
    let mut cache = StatementCache::new(2);
    put_at(&mut cache, "A", 7, 1);
    put_at(&mut cache, "B", 8, 1);
    cache.mark_cursor_closed("A");
    cache.mark_cursor_closed("A");
    cache.mark_cursor_closed("unknown");
    let statement = cache.get("A").unwrap();
    assert_eq!(statement.cursor_id(), 0);
    assert!(!statement.executed);
    assert_eq!(statement.sql, "A");
    let other = cache.get("B").unwrap();
    assert_eq!(other.cursor_id(), 8);
    assert!(other.executed);
}

#[test]
fn unknown_statements_are_not_returned() {
    let mut cache = StatementCache::new(1);
    assert!(cache.is_empty());
    cache.return_statement("A");
    assert!(cache.is_empty());
    put_at(&mut cache, "A", 1, 1);
    assert!(!cache.is_empty());
    cache.clear();
    assert!(cache.is_empty());
    assert!(cache.get("A").is_none());
}

#[test]
fn storing_again_makes_available() {
    let mut cache = StatementCache::new(1);
    put_at(&mut cache, "A", 1, 1);
    assert!(cache.get_at("A", 2).is_some());
    put_at(&mut cache, "A", 2, 3);
    assert_eq!(cache.get_at("A", 4).unwrap().cursor_id(), 2);
    // A statement that may not be cached leaves the cached one as it is
    put_at(&mut cache, "A", 0, 5);
    assert!(cache.get_at("A", 6).is_none());
    cache.return_statement("A");
    assert_eq!(cache.get_at("A", 7).unwrap().cursor_id(), 2);
}

#[test]
fn eviction_keeps_the_last_entry() {
    let mut cache = StatementCache::new(3);
    put_at(&mut cache, "A", 1, 1);
    put_at(&mut cache, "B", 2, 2);
    put_at(&mut cache, "C", 3, 3);
    cache.evict_lru();
    assert_eq!(cache.len(), 2);
    assert!(cache.get_at("A", 4).is_none());
    assert_eq!(cache.get_at("B", 4).unwrap().cursor_id(), 2);
    assert_eq!(cache.get_at("C", 4).unwrap().cursor_id(), 3);
    // Both are in use
    cache.evict_lru();
    assert_eq!(cache.len(), 2);
}

#[test]
fn statements_that_define_data_are_known() {
    for sql in [
        "create table t (a number)",
        "  \t\r\n ALTER SESSION SET X = 1",
        "Drop table t",
        "GRANT select on t to u",
        "revoke all on t from u",
        "ANALYZE TABLE t",
        "AUDIT ALL",
        "comment on table t is 'x'",
        "TRUNCATE TABLE t",
        "TRUNCATE",
    ] {
        assert!(Statement::new(sql).is_ddl(), "{}", sql);
    }
    for sql in ["", "   ", "SELECT 1 FROM DUAL", "CREATED", "CREAT", "_CREATE", "insert into created values (1)", "é"] {
        assert!(!Statement::new(sql).is_ddl(), "{}", sql);
    }
}

#[test]
fn cache_never_exceeds_its_maximum() {
    let mut cache = StatementCache::new(1);
    cache.put("A".to_string(), make_test_statement("A", 1));
    assert!(cache.get("A").is_some());
    cache.put("B".to_string(), make_test_statement("B", 2));
    assert_eq!(cache.len(), 1);
    assert!(cache.get("B").is_none());
    cache.return_statement("A");
    cache.put("B".to_string(), make_test_statement("B", 2));
    assert_eq!(cache.len(), 1);
    assert_eq!(cache.get("B").unwrap().cursor_id(), 2);
}

#[test]
fn later_uses_do_not_look_earlier() {
    let mut cache = StatementCache::new(2);
    // A use that lies far ahead of the clock
    put_at(&mut cache, "A", 1, u128::MAX);
    // Plain uses come no earlier, so the first of the two leaves
    cache.put("B".to_string(), make_test_statement("B", 2));
    cache.put("C".to_string(), make_test_statement("C", 3));
    assert!(cache.get("A").is_none());
    assert!(cache.get("B").is_some());
    assert!(cache.get("C").is_some());
}

#[test]
fn looked_up_statement_outlasts_another_one() {
    // Plain calls in quick succession: the order of use decides, not how fast the clock runs
    for _ in 0..200 {
        let mut cache = StatementCache::new(2);
        cache.put("A".to_string(), make_test_statement("A", 1));
        cache.put("B".to_string(), make_test_statement("B", 2));
        assert!(cache.get("A").is_some());
        cache.return_statement("A");
        cache.put("C".to_string(), make_test_statement("C", 3));
        assert!(cache.get("B").is_none());
        assert!(cache.get("A").is_some());
        assert!(cache.get("C").is_some());
    }
}

#[test]
fn stamps_come_one_after_another() {
    assert_eq!(stamp_after(0, 0), 1);
    assert_eq!(stamp_after(9, 4), 9);
    assert_eq!(stamp_after(4, 4), 5);
    assert_eq!(stamp_after(3, 4), 5);
    assert_eq!(stamp_after(LONGEST_DURATION, 4), LONGEST_DURATION);
    assert_eq!(stamp_after(LONGEST_DURATION, LONGEST_DURATION), LONGEST_DURATION + 1);
    assert_eq!(stamp_after(0, u128::MAX), u128::MAX);
    assert_eq!(LONGEST_DURATION, std::time::Duration::MAX.as_nanos());
}

#[test]
fn closed_statement_in_use_is_not_got() {
    let mut cache = StatementCache::new(1);
    put_at(&mut cache, "A", 7, 1);
    assert!(cache.get_at("A", 2).is_some());
    cache.mark_cursor_closed("A");
    assert!(cache.get_at("A", 3).is_none());
    cache.return_statement("A");
    let statement = cache.get_at("A", 4).unwrap();
    assert_eq!(statement.cursor_id(), 0);
    assert!(!statement.executed);
}
