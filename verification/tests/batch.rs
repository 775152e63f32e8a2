use oracle_rs::{BatchBinds, BatchBuilder, BatchError, BatchOptions, BatchResult, Error, Value};

#[test]
fn test_batch_builder() {
    let batch = BatchBuilder::new("INSERT INTO t (a, b) VALUES (:1, :2)")
        .add_row(vec![Value::Integer(1), Value::String("a".to_string())])
        .add_row(vec![Value::Integer(2), Value::String("b".to_string())])
        .build();

    assert_eq!(batch.row_count(), 2);
    assert_eq!(batch.column_count(), 2);
    assert!(!batch.is_empty());
}

#[test]
fn test_batch_validation() {
    let mut batch = BatchBinds::new("INSERT INTO t (a) VALUES (:1)");
    batch.add_row(vec![Value::Integer(1)]);
    batch.add_row(vec![Value::Integer(2)]);

    assert!(batch.validate().is_ok());
}

#[test]
fn test_batch_validation_empty() {
    let batch = BatchBinds::new("INSERT INTO t (a) VALUES (:1)");
    assert!(batch.validate().is_err());
}

#[test]
fn test_batch_options() {
    let opts = BatchOptions::new()
        .with_batch_errors()
        .with_row_counts()
        .with_auto_commit();

    assert!(opts.batch_errors);
    assert!(opts.array_dml_row_counts);
    assert!(opts.auto_commit);
}

#[test]
fn test_batch_result() {
    let result = BatchResult::with_row_counts(vec![1, 2, 3]);

    assert_eq!(result.total_rows_affected, 6);
    assert_eq!(result.success_count, 3);
    assert!(result.is_success());
    assert!(!result.has_errors());
}

#[test]
fn test_batch_error_display() {
    let err = BatchError::new(5, 1, "test error");
    assert_eq!(err.to_string(), "Row 5: ORA-00001: test error");
}

#[test]
fn test_add_multiple_rows() {
    let batch = BatchBuilder::new("INSERT INTO t (a) VALUES (:1)")
        .add_rows(vec![
            vec![Value::Integer(1)],
            vec![Value::Integer(2)],
            vec![Value::Integer(3)],
        ])
        .build();

    assert_eq!(batch.row_count(), 3);
}

#[test]
fn empty_batch_says_so() {
    let batch = BatchBinds::new("INSERT INTO t (a) VALUES (:1)");
    assert!(batch.is_empty());
    assert_eq!(batch.column_count(), 0);
    assert_eq!(batch.sql(), "INSERT INTO t (a) VALUES (:1)");
    match batch.validate() {
        Err(Error::Internal(text)) => assert_eq!(text, "Batch has no rows"),
        other => panic!("{:?}", other),
    }
}

#[test]
fn first_uneven_row_is_named() {
    let batch = BatchBuilder::new("INSERT INTO t (a, b) VALUES (:1, :2)")
        .add_row(vec![Value::Integer(1), Value::Null])
        .add_row(vec![Value::Integer(2), Value::Bytes(vec![1, 2])])
        .add_row(vec![Value::Integer(3)])
        .add_row(vec![])
        .build();
    assert_eq!(batch.column_count(), 2);
    match batch.validate() {
        Err(Error::Internal(text)) => assert_eq!(text, "Row 2 has 1 columns, expected 2"),
        other => panic!("{:?}", other),
    }
}

#[test]
fn rows_without_columns_are_even() {
    let batch = BatchBuilder::new("BEGIN NULL; END;")
        .add_rows(vec![vec![], vec![]])
        .build();
    assert_eq!(batch.column_count(), 0);
    assert!(batch.validate().is_ok());
}

#[test]
fn rows_are_added_in_order() {
    let one = BatchBuilder::new("S")
        .add_row(vec![Value::Integer(1)])
        .add_rows(vec![vec![Value::Integer(2)], vec![Value::Integer(3)]])
        .build();
    let numbers: Vec<i64> = one
        .rows()
        .iter()
        .map(|row| match row[0] {
            Value::Integer(n) => n,
            _ => -1,
        })
        .collect();
    assert_eq!(numbers, vec![1, 2, 3]);
}

#[test]
fn options_reach_the_batch() {
    let batch = BatchBuilder::new("S").with_row_counts().build();
    assert!(batch.options().array_dml_row_counts);
    assert!(!batch.options().batch_errors);
    assert!(!batch.options().auto_commit);
    let batch = BatchBuilder::new("S").with_batch_errors().with_auto_commit().build();
    assert!(!batch.options().array_dml_row_counts);
    assert!(batch.options().batch_errors);
    assert!(batch.options().auto_commit);

    let mut batch = BatchBinds::new("S");
    batch
        .with_options(BatchOptions::new().with_auto_commit())
        .add_row(vec![Value::Integer(7)]);
    assert!(batch.options().auto_commit);
    assert_eq!(batch.row_count(), 1);
    assert_eq!(batch.statement().sql, "S");
    assert_eq!(batch.statement().cursor_id(), 0);
}

#[test]
fn defaults_are_off() {
    let opts = BatchOptions::default();
    assert!(!opts.batch_errors && !opts.array_dml_row_counts && !opts.auto_commit);
    let result = BatchResult::default();
    assert!(result.row_counts.is_none());
    assert_eq!(result.total_rows_affected, 0);
    assert_eq!((result.success_count, result.failure_count), (0, 0));
    assert!(result.is_success());
}

#[test]
fn errors_are_no_success() {
    let mut result = BatchResult::with_row_counts(vec![u64::MAX - 1, 1]);
    assert_eq!(result.total_rows_affected, u64::MAX);
    assert_eq!(result.row_counts, Some(vec![u64::MAX - 1, 1]));
    result.errors.push(BatchError::new(0, 123456, ""));
    assert!(!result.is_success());
    assert!(result.has_errors());
    assert_eq!(result.errors[0].to_string(), "Row 0: ORA-123456: ");
}
