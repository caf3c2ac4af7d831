use comsys::csv_table::{clear_convert, csv_convertible, fill_down};
use comsys::file_reader::{parse_to_table, try_parse_to_table, FileDetails, FileLoadStatus};
use comsys::nominations::{gender_from_flag, TeamVecToNominations};
use comsys::participants::{compet_reader, fill_sheet_rows, group_performances, Performance, SheetError};
use comsys::proto::{CompDeclaration, DatePair, EasyParticipant, Gender, NominationDeclaration, Participant, Team, Timestamp};
use comsys::sheet::read_column;
use comsys::table::{GenericTable, GenericValue};

const SAMPLE: &str = "id;участники;субъект;;номинация\n\
                      1;Боба Бибович;Су ;Бъе;Расстрелы\n\
                      ;Бобина Бобикова;;;\n\
                      ;Бобстер Бонберович;;;\n\
                      2;Дементий Дементиевич;К;Т;Расстрелы2";

fn strings(v: &[&str]) -> Vec<String> {
    v.iter().map(|s| s.to_string()).collect()
}

#[test]
fn empty_cells_repeat_the_cell_above() {
    let (heads, rows) = clear_convert(SAMPLE.as_bytes(), b';').unwrap();
    assert_eq!(heads, strings(&["id", "участники", "субъект", "", "номинация"]));
    assert_eq!(
        rows,
        vec![
            strings(&["1", "Боба Бибович", "Су ", "Бъе", "Расстрелы"]),
            strings(&["1", "Бобина Бобикова", "Су ", "Бъе", "Расстрелы"]),
            strings(&["1", "Бобстер Бонберович", "Су ", "Бъе", "Расстрелы"]),
            strings(&["2", "Дементий Дементиевич", "К", "Т", "Расстрелы2"]),
        ]
    );
}

#[test]
fn a_short_row_is_reported_by_index() {
    assert!(csv_convertible(b"id;a\n1;2\n3", b';'));
    assert_eq!(clear_convert(b"id;a\n1;2\n3", b';'), Err(1));
    assert_eq!(clear_convert(b"id,a\n1,2\n3,4", b','), Ok((strings(&["id", "a"]), vec![strings(&["1", "2"]), strings(&["3", "4"])])));
    assert_eq!(clear_convert(b"", b';'), Ok((vec![], vec![])));
}

#[test]
fn unreadable_inputs_are_not_converted() {
    assert!(!csv_convertible(b"a;b\n;x\n", b';'));
    assert!(!csv_convertible(b"\xff;a\n1;2\n", b';'));
    assert!(try_parse_to_table("f".to_string(), b"a;b\n;x\n", b';').is_none());
    let file = FileDetails { name: "bad.csv".to_string(), file_type: "text/csv".to_string(), data: b"\xff;a\n1;2\n".to_vec() };
    assert!(file.try_parse_to_table(b';').is_none());
}

#[test]
fn files_are_read_as_named_tables() {
    let t = parse_to_table("teams.csv".to_string(), SAMPLE.as_bytes(), b';').unwrap();
    assert_eq!(t.name, "teams.csv");
    assert_eq!(t.headers.len(), 5);
    assert_eq!(t.value.len(), 4);
    let file = FileDetails { name: "x.csv".to_string(), file_type: "text/csv".to_string(), data: b"n;m\n1;2\n".to_vec() };
    let parsed = file.parse_to_table(b';').unwrap();
    assert_eq!(parsed.name, "x.csv");
    assert_eq!(parsed.value, vec![strings(&["1", "2"])]);
    assert_eq!(file.try_parse_to_table(b';').unwrap().unwrap().headers, strings(&["n", "m"]));
    assert_eq!(FileLoadStatus::Finished("x".to_string()), FileLoadStatus::Finished("x".to_string()));
}

#[test]
fn fill_down_fills_from_the_filled_row() {
    let heads = strings(&["a", "b"]);
    let rows = vec![Some(strings(&["1", "2"])), Some(strings(&["", "3"])), Some(strings(&["", ""]))];
    assert_eq!(fill_down(heads.clone(), rows), Ok((heads.clone(), vec![strings(&["1", "2"]), strings(&["1", "3"]), strings(&["1", "3"])])));
    assert_eq!(fill_down(heads.clone(), vec![Some(strings(&["1", "2"])), None]), Err(1));
    assert_eq!(fill_down(heads, vec![Some(strings(&["1", "2"])), Some(strings(&["1"]))]), Err(1));
}

#[test]
fn generic_table_columns() {
    let mut t = GenericTable::default();
    assert_eq!(t.size(), 0);
    assert_eq!(t.add_col("a".to_string()), Ok(()));
    assert_eq!(t.add_col("b".to_string()), Ok(()));
    assert_eq!(t.add_col("a".to_string()), Err(()));
    assert_eq!(t.remove_col("a").map(|v| v.len()), Ok(0));
    assert!(t.remove_col("a").is_err());
    assert!(t.remove_col("c").is_err());
    assert!(t.remove_col("b").is_ok());
    assert!(GenericValue::default().values.is_empty());
}

#[test]
fn teams_are_read_from_rows() {
    let t = Team::try_from((5, strings(&["A,B", "Org", "e1", "e2"]))).unwrap();
    assert_eq!(t.tid, 5);
    assert_eq!(t.nom, "None");
    assert_eq!(t.organisation, "Org");
    assert_eq!(
        t.participants,
        vec![
            EasyParticipant { name: "A".to_string(), extra_personal: strings(&["e1", "e2"]) },
            EasyParticipant { name: "B".to_string(), extra_personal: strings(&["e1", "e2"]) },
        ]
    );
    assert!(Team::try_from((5, strings(&["A"]))).is_err());
}

fn team(tid: i32, nom: &str) -> Team {
    Team { tid, nom: nom.to_string(), organisation: "O".to_string(), participants: vec![] }
}

#[test]
fn nominations_keep_the_order_of_teams() {
    let mut late = team(5, "x");
    late.organisation = "Late".to_string();
    let n = NominationDeclaration::from(("Title".to_string(), vec![team(5, "x"), team(6, "y"), late]));
    assert_eq!(n.title, "Title");
    assert_eq!(n.inner_queue, vec![5, 6, 5]);
    assert_eq!(n.teams.len(), 2);
    assert_eq!(n.teams[&5].organisation, "Late");
    assert_eq!(n.teams[&6].nom, "Title");
}

#[test]
fn teams_group_by_nomination() {
    let noms = TeamVecToNominations(vec![team(1, "A"), team(2, "B"), team(3, "A")]).convert();
    assert_eq!(noms.len(), 2);
    assert_eq!(noms[0].title, "A");
    assert_eq!(noms[0].inner_queue, vec![1, 3]);
    assert_eq!(noms[0].teams.len(), 2);
    assert_eq!(noms[1].title, "B");
    assert_eq!(noms[1].inner_queue, vec![2]);
    assert_eq!(noms[1].teams[&2].nom, "B");
    assert!(TeamVecToNominations(vec![]).convert().is_empty());
}

#[test]
fn genders_are_read_from_their_first_letter() {
    assert_eq!(Gender::from(" Female ".to_string()), Gender::Female);
    assert_eq!(Gender::from("Мужской".to_string()), Gender::Male);
    assert_eq!(Gender::from("Д".to_string()), Gender::Female);
    assert_eq!(Gender::from("W".to_string()), Gender::Female);
    assert_eq!(Gender::from("".to_string()), Gender::Unknown);
    assert_eq!(Gender::from("x".to_string()), Gender::Unknown);
    assert_eq!(gender_from_flag("m"), Gender::Male);
    assert_eq!(gender_from_flag("M"), Gender::Unknown);
}

#[test]
fn declarations_need_title_and_dates() {
    let mut d = CompDeclaration::default();
    assert!(!d.is_valid());
    d.title = "Cup".to_string();
    assert!(!d.is_valid());
    d.dates = Some(DatePair::default());
    assert!(d.is_valid());
}

#[test]
fn sheet_columns_become_nominations() {
    let rows = vec![
        (None, strings(&["Nom A", "", ""])),
        (Some(1), strings(&["1", "Ivan, Petr", " Club ", "x"])),
        (None, strings(&["", " ", ""])),
        (Some(2), strings(&["2", "Olga", "Club2"])),
        (None, strings(&["Nom B"])),
        (None, strings(&[" Nom C "])),
        (Some(3), strings(&["3", "Anna", "C3"])),
    ];
    let noms = read_column(&rows).unwrap();
    assert_eq!(noms.len(), 2);
    assert_eq!(noms[0].title, "Nom A");
    assert_eq!(noms[0].inner_queue, vec![1, 2]);
    let t1 = &noms[0].teams[&1];
    assert_eq!(t1.nom, "Nom A");
    assert_eq!(t1.organisation, "Club");
    let names: Vec<&str> = t1.participants.iter().map(|p| p.name.as_str()).collect();
    assert_eq!(names, vec!["Ivan", " Petr"]);
    assert_eq!(t1.participants[0].extra_personal, strings(&["x"]));
    assert_eq!(noms[1].title, "Nom C");
    assert_eq!(noms[1].inner_queue, vec![3]);
    let untitled = read_column(&vec![(Some(9), strings(&["9", "Solo", "O"]))]).unwrap();
    assert_eq!(untitled[0].title, "DEBUG");
    let short = vec![(None, strings(&["N"])), (Some(4), strings(&["4", "OnlyOne"]))];
    assert_eq!(read_column(&short).map(|v| v.len()), Err(1));
}

fn head() -> Vec<String> {
    strings(&["ID", " ФИО ", "Пол", "Дата рождения", "Клуб"])
}

#[test]
fn participants_are_read_under_their_header() {
    let p = Participant::try_from((head(), strings(&["7", "Анна", " Ж ", "36526", "Клуб"]))).unwrap();
    assert_eq!(p.uid, 7);
    assert_eq!(p.name, "Анна");
    assert_eq!(p.gender, 2);
    assert_eq!(p.birthdate, Some(Timestamp { seconds: 946857600, nanos: 0 }));
    assert_eq!(p.extra_personal, strings(&[" Ж ", "36526", "Клуб"]));
    let bad_head = strings(&["num", "name", "sex", "birthday"]);
    assert_eq!(Participant::try_from((bad_head, strings(&["1", "a", "m", "1"]))), Err(SheetError::BadStructure));
    assert_eq!(Participant::try_from((head(), strings(&["x", "a", "m", "1"]))), Err(SheetError::BadNumber));
    assert_eq!(Participant::try_from((head(), strings(&["1", "a", "m", "-1"]))), Err(SheetError::BadNumber));
    assert_eq!(Participant::try_from((head(), strings(&["1", "a", "m", "99999999"]))), Err(SheetError::DateOutOfRange));
    assert_eq!(Participant::try_from((head(), strings(&["1", "a", "m"]))), Err(SheetError::ShortRow));
    let english = strings(&["Номер участника", "name", "GENDER", "birthdate"]);
    assert_eq!(Participant::try_from((english, strings(&["1", "a", "m", "25567"]))).unwrap().birthdate, Some(Timestamp { seconds: 0, nanos: 0 }));
}

fn cells(v: &[Option<&str>]) -> Vec<Option<String>> {
    v.iter().map(|c| c.map(|s| s.to_string())).collect()
}

#[test]
fn missing_sheet_cells_are_filled_from_above() {
    let rows = vec![cells(&[None, Some("b")]), cells(&[Some("a"), None]), cells(&[None, None])];
    assert_eq!(fill_sheet_rows(&rows), vec![strings(&["", "b"]), strings(&["a", "b"]), strings(&["a", "b"])]);
}

#[test]
fn performances_group_consecutive_rows() {
    let rows = vec![
        cells(&[Some("1"), Some("10"), Some("A")]),
        cells(&[Some("1"), Some("11"), Some("A")]),
        cells(&[Some("2"), Some("12"), Some("B")]),
        cells(&[Some("1"), Some("13"), Some("A")]),
    ];
    assert_eq!(
        group_performances(&rows),
        Ok(vec![
            Performance { tid: 1, nom: "A".to_string(), participants: vec![10, 11] },
            Performance { tid: 2, nom: "B".to_string(), participants: vec![12] },
            Performance { tid: 1, nom: "A".to_string(), participants: vec![13] },
        ])
    );
    let mixed = vec![cells(&[Some("1"), Some("10"), Some("A")]), cells(&[Some("1"), Some("11"), Some("B")])];
    assert_eq!(group_performances(&mixed), Err(SheetError::MixedNominations));
    let bad = vec![cells(&[Some("x"), None])];
    assert_eq!(group_performances(&bad), Err(SheetError::BadNumber));
}

#[test]
fn competition_files_give_participants_then_teams() {
    let part_rows = vec![cells(&[Some("7"), Some("Анна"), Some("ж"), Some("25568"), Some("Клуб")])];
    let perf_rows = vec![cells(&[Some("1"), Some("7"), Some("Solo")])];
    let (ps, ts) = compet_reader(&head(), &part_rows, &perf_rows).unwrap();
    assert_eq!(ps.len(), 1);
    assert_eq!(ps[0].birthdate, Some(Timestamp { seconds: 86400, nanos: 0 }));
    assert_eq!(ts, vec![Performance { tid: 1, nom: "Solo".to_string(), participants: vec![7] }]);
    let bad_parts = vec![cells(&[Some("q"), Some("Анна"), Some("ж"), Some("1"), Some("Клуб")])];
    assert_eq!(compet_reader(&head(), &bad_parts, &perf_rows), Err(SheetError::BadNumber));
}

#[test]
fn birth_days_reach_the_last_date_chrono_has() {
    let last = Participant::try_from((head(), strings(&["1", "a", "m", "95051803"]))).unwrap();
    assert_eq!(last.birthdate, Some(Timestamp { seconds: 8210266790400, nanos: 0 }));
    assert_eq!(Participant::try_from((head(), strings(&["1", "a", "m", "95051804"]))), Err(SheetError::DateOutOfRange));
    let start = chrono::NaiveDate::from_ymd_opt(1900, 1, 1).unwrap();
    assert!(start.checked_add_days(chrono::Days::new(95051803)).is_some());
    assert!(start.checked_add_days(chrono::Days::new(95051804)).is_none());
}

#[test]
fn header_cells_are_trimmed_of_unicode_white_space() {
    let head = strings(&["\u{3000}ID\u{00A0}", "\u{2003}ФИО\t", "Пол\u{205F}", "\u{85}Дата рождения"]);
    let p = Participant::try_from((head, strings(&["4", "a", "m", "25567"]))).unwrap();
    assert_eq!(p.uid, 4);
    let zero_width = strings(&["\u{200B}ID", "ФИО", "Пол", "Дата рождения"]);
    assert_eq!(Participant::try_from((zero_width, strings(&["4", "a", "m", "25567"]))), Err(SheetError::BadStructure));
}
