use zotero_csv_merge::csv::{
    find_column, map_rows, map_table, CsvReader, ExtractError, Field, RowError, RowErrorKind,
};

fn strings(fields: &[&str]) -> Vec<String> {
    fields.iter().map(|field| field.to_string()).collect()
}

fn read(content: &str) -> CsvReader {
    CsvReader::new(content.as_bytes().to_vec())
}

#[test]
fn rows_become_records_in_order() {
    let headers = strings(&["Key", "Title", "Extra"]);
    let rows = vec![strings(&["K1", "First", "a"]), strings(&["K2", "Second", "b"])];
    let records = map_rows(&headers, &rows).unwrap();
    assert_eq!(records.len(), 2);
    assert_eq!(records[0].key(), "K1");
    assert_eq!(records[0].title(), "First");
    assert_eq!(records[0].extra(), "a");
    assert_eq!(records[1].key(), "K2");
    assert_eq!(records[1].title(), "Second");
    assert_eq!(records[1].extra(), "b");
}

#[test]
fn columns_are_found_by_name_not_by_place() {
    let headers = strings(&["Author", "Extra", "Year", "Key", "Title"]);
    assert_eq!(find_column(&headers, Field::Key), Ok(3));
    assert_eq!(find_column(&headers, Field::Title), Ok(4));
    assert_eq!(find_column(&headers, Field::Extra), Ok(1));
    let rows = vec![strings(&["Doe", "note", "1999", "ABCD1234", "A Book"])];
    let records = map_rows(&headers, &rows).unwrap();
    assert_eq!(records[0].key(), "ABCD1234");
    assert_eq!(records[0].title(), "A Book");
    assert_eq!(records[0].extra(), "note");
}

#[test]
fn row_without_title_is_rejected() {
    let found = read("Key,Extra\nK1,a\n").extract();
    assert!(matches!(
        found,
        Err(ExtractError::Row(RowError { row: 0, kind: RowErrorKind::Missing(Field::Title) }))
    ));
    let headers = strings(&["Key", "Extra"]);
    let rows = vec![strings(&["K1", "a"])];
    assert_eq!(
        map_rows(&headers, &rows).unwrap_err(),
        RowError { row: 0, kind: RowErrorKind::Missing(Field::Title) }
    );
}

#[test]
fn column_names_are_matched_exactly() {
    let headers = strings(&["key", "Title ", "EXTRA"]);
    assert_eq!(find_column(&headers, Field::Key), Err(RowErrorKind::Missing(Field::Key)));
    assert_eq!(find_column(&headers, Field::Title), Err(RowErrorKind::Missing(Field::Title)));
    assert_eq!(find_column(&headers, Field::Extra), Err(RowErrorKind::Missing(Field::Extra)));
}

#[test]
fn first_missing_field_is_reported() {
    let rows = vec![strings(&["T"])];
    assert_eq!(
        map_rows(&strings(&["Title"]), &rows).unwrap_err(),
        RowError { row: 0, kind: RowErrorKind::Missing(Field::Key) }
    );
    let rows = vec![strings(&["K", "T"])];
    assert_eq!(
        map_rows(&strings(&["Key", "Title"]), &rows).unwrap_err(),
        RowError { row: 0, kind: RowErrorKind::Missing(Field::Extra) }
    );
}

#[test]
fn column_named_twice_is_rejected() {
    let headers = strings(&["Key", "Title", "Extra", "Title"]);
    assert_eq!(find_column(&headers, Field::Title), Err(RowErrorKind::Duplicate(Field::Title)));
    assert_eq!(find_column(&headers, Field::Key), Ok(0));
    let rows = vec![strings(&["K", "T", "x", "T2"])];
    assert_eq!(
        map_rows(&headers, &rows).unwrap_err(),
        RowError { row: 0, kind: RowErrorKind::Duplicate(Field::Title) }
    );
    let found = read("Key,Key,Title,Extra\nK,K,T,x\n").extract();
    assert!(matches!(
        found,
        Err(ExtractError::Row(RowError { row: 0, kind: RowErrorKind::Duplicate(Field::Key) }))
    ));
}

#[test]
fn row_of_another_length_is_rejected_where_it_stands() {
    let headers = strings(&["Key", "Title", "Extra"]);
    let rows = vec![
        strings(&["K1", "First", "a"]),
        strings(&["K2", "Second"]),
        strings(&["K3", "Third", "c"]),
    ];
    assert_eq!(
        map_rows(&headers, &rows).unwrap_err(),
        RowError { row: 1, kind: RowErrorKind::Length }
    );
    let rows = vec![strings(&["K1", "First", "a", "more"])];
    assert_eq!(
        map_rows(&headers, &rows).unwrap_err(),
        RowError { row: 0, kind: RowErrorKind::Length }
    );
}

#[test]
fn length_comes_before_missing_columns() {
    let rows = vec![strings(&["K1"])];
    assert_eq!(
        map_rows(&strings(&["Key", "Extra"]), &rows).unwrap_err(),
        RowError { row: 0, kind: RowErrorKind::Length }
    );
}

#[test]
fn no_rows_give_no_records() {
    assert_eq!(map_rows(&strings(&["Key", "Extra"]), &[]).unwrap().len(), 0);
    assert_eq!(map_rows(&Vec::new(), &[]).unwrap().len(), 0);
}

#[test]
fn empty_fields_are_kept() {
    let rows = vec![strings(&["K1", "", ""])];
    let records = map_rows(&strings(&["Key", "Title", "Extra"]), &rows).unwrap();
    assert_eq!(records[0].key(), "K1");
    assert_eq!(records[0].title(), "");
    assert_eq!(records[0].extra(), "");
}

#[test]
fn table_is_read_from_its_text() {
    let records = read("Key,Title,Extra\nK1,First,a\nK2,Second,b\n").extract().unwrap();
    assert_eq!(records.len(), 2);
    assert_eq!(records[0].key(), "K1");
    assert_eq!(records[0].title(), "First");
    assert_eq!(records[0].extra(), "a");
    assert_eq!(records[1].key(), "K2");
    assert_eq!(records[1].title(), "Second");
    assert_eq!(records[1].extra(), "b");
}

#[test]
fn quoted_fields_are_unquoted() {
    let records = read("Title,Key,Extra,Year\n\"War, and \"\"Peace\"\"\",K9,\"two\nlines\",1869\n")
        .extract()
        .unwrap();
    assert_eq!(records.len(), 1);
    assert_eq!(records[0].key(), "K9");
    assert_eq!(records[0].title(), "War, and \"Peace\"");
    assert_eq!(records[0].extra(), "two\nlines");
}

#[test]
fn table_without_data_rows_has_no_records() {
    assert_eq!(read("").extract().unwrap().len(), 0);
    assert_eq!(read("Key,Title,Extra\n").extract().unwrap().len(), 0);
    assert_eq!(read("Key,Extra\n").extract().unwrap().len(), 0);
}

#[test]
fn ragged_table_is_no_table() {
    let found = read("Key,Title,Extra\nK1,First,a\nK2,Second\n").extract();
    assert!(matches!(found, Err(ExtractError::Table(_))));
}

#[test]
fn text_that_is_not_utf8_is_no_table() {
    let found = CsvReader::new(b"Key,Title,Extra\nK1,\xff\xfe,a\n".to_vec()).extract();
    assert!(matches!(found, Err(ExtractError::Table(_))));
}

#[test]
fn many_rows_are_all_read() {
    let mut content = String::from("Key,Title,Extra\n");
    for i in 0..120 {
        content.push_str(&format!("K{},Title {},extra {}\n", i, i, i));
    }
    let records = read(&content).extract().unwrap();
    assert_eq!(records.len(), 120);
    assert_eq!(records[119].key(), "K119");
    assert_eq!(records[57].title(), "Title 57");
}

#[test]
fn first_row_of_a_table_names_the_columns() {
    let table = vec![
        strings(&["Extra", "Key", "Title"]),
        strings(&["a", "K1", "First"]),
        strings(&["b", "K2", "Second"]),
    ];
    let records = map_table(&table).unwrap();
    assert_eq!(records.len(), 2);
    assert_eq!(records[0].key(), "K1");
    assert_eq!(records[0].title(), "First");
    assert_eq!(records[0].extra(), "a");
    assert_eq!(records[1].key(), "K2");
}

#[test]
fn table_without_any_row_gives_no_records() {
    assert_eq!(map_table(&Vec::new()).unwrap().len(), 0);
}

#[test]
fn table_of_a_header_row_alone_gives_no_records() {
    assert_eq!(map_table(&vec![strings(&["Key", "Title", "Extra"])]).unwrap().len(), 0);
    assert_eq!(map_table(&vec![strings(&["Author"])]).unwrap().len(), 0);
}

#[test]
fn table_reports_the_row_that_holds_no_record() {
    let table = vec![
        strings(&["Key", "Title", "Extra"]),
        strings(&["K1", "First", "a"]),
        strings(&["K2", "Second"]),
    ];
    assert!(matches!(
        map_table(&table),
        Err(ExtractError::Row(RowError { row: 1, kind: RowErrorKind::Length }))
    ));
    let table = vec![strings(&["Key", "Extra"]), strings(&["K1", "a"])];
    assert!(matches!(
        map_table(&table),
        Err(ExtractError::Row(RowError { row: 0, kind: RowErrorKind::Missing(Field::Title) }))
    ));
}
