use nba_draft::table::Table;

#[test]
fn test_insert_record() {
    let mut table = Table::new();
    table.insert_record(
        "Test Player",
        "SG",
        "test_id",
        2023,
        "5.0",
        "0.8",
        "0.6",
        "0.3",
        "0.1",
    );

    let record = table.read_record_by_id("test_id");
    assert!(record.is_some());
    let record = record.unwrap();
    assert_eq!(record.player, "Test Player");
    assert_eq!(record.position, "SG");
    assert_eq!(record.id, "test_id");
    assert_eq!(record.draft_year, 2023);
}

#[test]
fn test_read_records() {
    let mut table = Table::new();
    table.insert_record(
        "Test Player",
        "SG",
        "test_id",
        2023,
        "5.0",
        "0.8",
        "0.6",
        "0.3",
        "0.1",
    );

    let records = table.read_records();
    assert_eq!(records.len(), 1);
    assert_eq!(records[0].player, "Test Player");
}

#[test]
fn test_update_record() {
    let mut table = Table::new();
    table.insert_record(
        "Test Player",
        "SG",
        "test_id",
        2023,
        "5.0",
        "0.8",
        "0.6",
        "0.3",
        "0.1",
    );

    table.update_record("test_id", "Updated Player", "PF", 2024, "6.5");

    let updated_record = table.read_record_by_id("test_id").unwrap();
    assert_eq!(updated_record.player, "Updated Player");
    assert_eq!(updated_record.position, "PF");
    assert_eq!(updated_record.draft_year, 2024);
    assert_eq!(updated_record.projected_spm, "6.5");
}

#[test]
fn test_delete_record() {
    let mut table = Table::new();
    table.insert_record(
        "Test Player",
        "SG",
        "test_id",
        2023,
        "5.0",
        "0.8",
        "0.6",
        "0.3",
        "0.1",
    );

    table.delete_record("test_id");

    let record = table.read_record_by_id("test_id");
    assert!(record.is_none());
}

#[test]
fn test_insert_update_delete_round() {
    let mut table = Table::new();
    table.insert_record(
        "Test Player",
        "SG",
        "test_id",
        2023,
        "5.0",
        "0.8",
        "0.6",
        "0.3",
        "0.1",
    );

    let record = table.read_record_by_id("test_id").unwrap();
    assert_eq!(record.player, "Test Player");
    assert_eq!(record.position, "SG");
    assert_eq!(record.id, "test_id");
    assert_eq!(record.draft_year, 2023);
    assert_eq!(record.projected_spm, "5.0");
    assert_eq!(record.superstar, "0.8");
    assert_eq!(record.starter, "0.6");
    assert_eq!(record.role_player, "0.3");
    assert_eq!(record.bust, "0.1");

    table.update_record("test_id", "Updated Player", "PF", 2024, "6.5");
    let record = table.read_record_by_id("test_id").unwrap();
    assert_eq!(record.player, "Updated Player");
    assert_eq!(record.position, "PF");
    assert_eq!(record.id, "test_id");
    assert_eq!(record.draft_year, 2024);
    assert_eq!(record.projected_spm, "6.5");
    assert_eq!(record.superstar, "0.8");
    assert_eq!(record.starter, "0.6");
    assert_eq!(record.role_player, "0.3");
    assert_eq!(record.bust, "0.1");

    table.delete_record("test_id");
    assert!(table.read_record_by_id("test_id").is_none());
}

#[test]
fn test_read_by_missing_id() {
    let mut table = Table::new();
    assert!(table.read_record_by_id("never_inserted").is_none());
    table.insert_record("A", "PG", "a1", 2020, "1.0", "0.2", "0.3", "0.4", "0.5");
    assert!(table.read_record_by_id("never_inserted").is_none());
}

#[test]
fn test_update_touches_all_matches_only() {
    let mut table = Table::new();
    table.insert_record("A", "PG", "dup", 2020, "1.0", "0.2", "0.3", "0.4", "0.5");
    table.insert_record("B", "SF", "other", 2021, "2.0", "0.6", "0.7", "0.8", "0.9");
    table.insert_record("C", "C", "dup", 2022, "3.0", "0.1", "0.1", "0.1", "0.1");

    table.update_record("dup", "New Name", "SG", 2024, "9.9");

    let records = table.read_records();
    assert_eq!(records.len(), 3);
    assert_eq!(records[0].player, "New Name");
    assert_eq!(records[0].position, "SG");
    assert_eq!(records[0].draft_year, 2024);
    assert_eq!(records[0].projected_spm, "9.9");
    assert_eq!(records[0].superstar, "0.2");
    assert_eq!(records[1].player, "B");
    assert_eq!(records[1].draft_year, 2021);
    assert_eq!(records[2].player, "New Name");
    assert_eq!(records[2].superstar, "0.1");
}

#[test]
fn test_delete_removes_all_matches() {
    let mut table = Table::new();
    table.insert_record("A", "PG", "dup", 2020, "1.0", "0.2", "0.3", "0.4", "0.5");
    table.insert_record("B", "SF", "other", 2021, "2.0", "0.6", "0.7", "0.8", "0.9");
    table.insert_record("C", "C", "dup", 2022, "3.0", "0.1", "0.1", "0.1", "0.1");

    table.delete_record("dup");

    let records = table.read_records();
    assert_eq!(records.len(), 1);
    assert_eq!(records[0].id, "other");
    assert!(table.read_record_by_id("dup").is_none());
}
