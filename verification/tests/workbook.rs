use comsys::participants::{Performance, SheetError};
use comsys::proto::Timestamp;
use comsys::sheet::{compet_reader_bytes, read_packaged_table_bytes, try_compet_reader_bytes, try_read_packaged_table_bytes};

fn book_bytes(sheets: &[(&str, &[(u32, u32, &str)], &[&str])]) -> Vec<u8> {
    let mut book = umya_spreadsheet::new_file();
    for (k, (name, cells, merges)) in sheets.iter().enumerate() {
        let ws = if k == 0 {
            let ws = book.get_sheet_mut(&0).unwrap();
            ws.set_name(*name);
            ws
        } else {
            book.new_sheet(*name).unwrap()
        };
        for (c, r, v) in cells.iter() {
            if let Ok(n) = v.parse::<f64>() {
                ws.get_cell_mut((*c, *r)).set_value_number(n);
            } else {
                ws.get_cell_mut((*c, *r)).set_value(*v);
            }
        }
        for m in merges.iter() {
            ws.add_merge_cells(*m);
        }
    }
    let mut out = std::io::Cursor::new(Vec::new());
    umya_spreadsheet::writer::xlsx::write_writer(&book, &mut out).unwrap();
    out.into_inner()
}

#[test]
fn competition_files_are_read_from_bytes() {
    let parts: &[(u32, u32, &str)] = &[
        (1, 1, "ID"), (2, 1, "ФИО"), (3, 1, "Пол"), (4, 1, "Дата рождения"),
        (1, 2, "7"), (2, 2, "Анна"), (3, 2, "ж"), (4, 2, "25568"),
        (1, 3, "8"), (2, 3, "Олег"), (3, 3, "м"),
    ];
    let perfs: &[(u32, u32, &str)] = &[
        (1, 1, "Команда"), (2, 1, "Участник"), (3, 1, "Номинация"),
        (1, 2, "1"), (2, 2, "7"), (3, 2, "Solo"),
        (1, 3, "1"), (2, 3, "8"),
    ];
    let data = book_bytes(&[("Участники", parts, &["D2:D3"]), ("Выступления", perfs, &["C2:C3"])]);
    let (ps, ts) = compet_reader_bytes(&data).unwrap();
    assert_eq!(ps.len(), 2);
    assert_eq!(ps[0].uid, 7);
    assert_eq!(ps[1].birthdate, Some(Timestamp { seconds: 86400, nanos: 0 }));
    assert_eq!(ts, vec![Performance { tid: 1, nom: "Solo".to_string(), participants: vec![7, 8] }]);
    let missing = book_bytes(&[("Участники", parts, &[])]);
    assert_eq!(try_compet_reader_bytes(&missing), Some(Err(SheetError::MissingSheet)));
    assert_eq!(compet_reader_bytes(b"not a spreadsheet"), Err(SheetError::Unreadable));
    let gap = book_bytes(&[("Участники", parts, &[]), ("Выступления", perfs, &[])]);
    assert_eq!(try_compet_reader_bytes(&gap), None);
}

#[test]
fn packaged_tables_are_read_from_bytes() {
    let cells: &[(u32, u32, &str)] = &[
        (1, 1, "Solo"), (2, 1, "x"), (3, 1, "x"),
        (1, 2, "1"), (2, 2, "Anna"), (3, 2, "Club"),
        (1, 3, "2"), (2, 3, "Oleg"), (3, 3, "Club"),
        (1, 4, "Duo"), (2, 4, "x"), (3, 4, "x"),
        (1, 5, "3"), (2, 5, "Pair"), (3, 5, "Club"),
    ];
    let data = book_bytes(&[("Sheet1", cells, &[])]);
    let blocks = read_packaged_table_bytes(&data, 1, 3, 1).unwrap();
    assert_eq!(blocks.len(), 1);
    let titles: Vec<String> = blocks[0].iter().map(|n| n.title.clone()).collect();
    assert_eq!(titles, vec!["Solo".to_string(), "Duo".to_string()]);
    assert_eq!(blocks[0][0].teams.len(), 2);
    assert_eq!(read_packaged_table_bytes(b"junk", 1, 3, 1), Ok(vec![]));
    assert_eq!(try_read_packaged_table_bytes(&data, 1, 0, 1), None);
    assert_eq!(try_read_packaged_table_bytes(&data, 2, u32::MAX, 1), None);
    assert_eq!(try_read_packaged_table_bytes(&data, 0, 0, 1), Some(Ok(vec![])));
}
