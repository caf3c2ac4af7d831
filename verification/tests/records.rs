use comsys::proto::{CompDeclaration, CompView, CompetitionQueue, DatePair, Timestamp};
use comsys::records::{into_naive, into_timestamp, Competition, CompetitionPrototype};

fn ts(seconds: i64) -> Timestamp {
    Timestamp { seconds, nanos: 0 }
}

#[test]
fn stored_dates_keep_their_seconds() {
    assert_eq!(into_naive(Some(Timestamp { seconds: 86400, nanos: 5 })), Some(86400));
    assert_eq!(into_naive(None), None);
    assert_eq!(into_naive(Some(ts(-8334601228800))), Some(-8334601228800));
    assert_eq!(into_naive(Some(ts(8210266876799))), Some(8210266876799));
    assert_eq!(into_timestamp(Some(17)), Some(ts(17)));
    assert_eq!(into_timestamp(None), None);
}

#[test]
fn chrono_range_ends_where_stated() {
    assert!(chrono::DateTime::from_timestamp(-8334601228800, 0).is_some());
    assert!(chrono::DateTime::from_timestamp(-8334601228801, 0).is_none());
    assert!(chrono::DateTime::from_timestamp(8210266876799, 0).is_some());
    assert!(chrono::DateTime::from_timestamp(8210266876800, 0).is_none());
    assert_eq!(chrono::DateTime::<chrono::Utc>::MIN_UTC.timestamp(), -8334601228800);
    assert_eq!(chrono::DateTime::<chrono::Utc>::MAX_UTC.timestamp(), 8210266876799);
}

#[test]
fn declarations_become_rows_and_back() {
    let decl = CompDeclaration {
        title: "Cup".to_string(),
        public: true,
        related_organisation_id: 4,
        dates: Some(DatePair { begins: Some(ts(100)), ends: None }),
        place: Some("Hall".to_string()),
        descr: None,
        scheme: 2,
        queues: vec![CompetitionQueue::default(), CompetitionQueue::default()],
    };
    let row = CompetitionPrototype::from(&decl);
    assert_eq!(
        row,
        CompetitionPrototype {
            title: "Cup".to_string(),
            public: true,
            organisation: 4,
            start_date: Some(100),
            ends_date: None,
            place: Some("Hall".to_string()),
            descr: None,
            scheme: 2,
            queues: 2,
            status: 0,
        }
    );
    let stored = Competition {
        id: 9,
        title: row.title.clone(),
        public: row.public,
        organisation: row.organisation,
        start_date: row.start_date,
        ends_date: row.ends_date,
        place: row.place.clone(),
        descr: row.descr.clone(),
        scheme: row.scheme,
        queues: row.queues,
        status: row.status,
    };
    let back = CompDeclaration::from(&stored);
    assert_eq!(back.dates, Some(DatePair { begins: Some(ts(100)), ends: None }));
    assert_eq!(back.queues, vec![CompetitionQueue::default(), CompetitionQueue::default()]);
    assert_eq!(back.title, "Cup");
    let view = CompView::from(&stored);
    assert_eq!(view.id, 9);
    assert_eq!(view.declaration, Some(back));
    let undated = CompetitionPrototype::from(&CompDeclaration { dates: None, ..decl });
    assert_eq!((undated.start_date, undated.ends_date), (None, None));
}
