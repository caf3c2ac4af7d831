use comsys::proto::{
    ActiveActionState, Empty, EqHistoryMessage, EqMessage, FinesSetup, Id, Judge, JudgeScheme, Message,
    Role, TryNext, UserView, Verification, VoteList, VoteMessage, VoteView,
};
use comsys::message_text::message_text;
use comsys::screens::{
    marks_grid, queue_panel, queue_panels, screen_for, unverified_votes, vote_controls, vote_status, QueuePanel, Screen,
    VoteStatus,
};

fn hist(id: i32, m: Message) -> EqHistoryMessage {
    let author = Some(UserView { uid: 1, login: String::new(), selfname: String::new() });
    EqHistoryMessage { message_id: id, message: Some(EqMessage { comp_id: 1, author, signature: String::new(), message: Some(m) }) }
}

fn vv(message_id: i32, verifyed: i32, mark: i32) -> VoteView {
    VoteView { message_id, verifyed, mark }
}

fn active(qid: i32) -> ActiveActionState {
    ActiveActionState {
        qid,
        aid: 5,
        team: None,
        marks: vec![
            ("Исполнение".to_string(), VoteList { votes: vec![vv(11, 1, 7), vv(12, 0, 5), vv(-1, 0, 0)] }),
            ("Сложность".to_string(), VoteList { votes: vec![vv(13, 2, 3), vv(14, 9, 4)] }),
        ],
    }
}

fn vote(q: i32) -> Message {
    Message::VoteMessage(VoteMessage { author: None, queue_id: q, action_id: 5, mark_type: "Сложность".to_string(), mark: 1 })
}

#[test]
fn judges_see_the_verdict_on_their_mark() {
    let scheme = JudgeScheme::FourFourTwo;
    let exec = Judge { queue: 0, mark_group: 0 };
    let diff = Judge { queue: 0, mark_group: 2 };
    let a = Some(active(0));
    assert_eq!(vote_status(&scheme, &exec, Some(11), &a), Some(VoteStatus::Accepted));
    assert_eq!(vote_status(&scheme, &exec, Some(12), &a), Some(VoteStatus::Waiting));
    assert_eq!(vote_status(&scheme, &exec, Some(99), &a), Some(VoteStatus::Waiting));
    assert_eq!(vote_status(&scheme, &diff, Some(13), &a), Some(VoteStatus::Rejected));
    assert_eq!(vote_status(&scheme, &diff, Some(14), &a), Some(VoteStatus::Waiting));
    assert_eq!(vote_status(&scheme, &exec, None, &a), None);
    assert_eq!(vote_status(&scheme, &exec, Some(11), &None), None);
}

#[test]
fn arbitors_approve_the_waiting_votes() {
    let scheme = JudgeScheme::FourFourTwo;
    assert_eq!(unverified_votes(&scheme, &Some(active(0))), vec![12, 14]);
    assert_eq!(unverified_votes(&scheme, &None), Vec::<i32>::new());
}

#[test]
fn marks_grids_pad_each_group_to_its_judges() {
    let grid = marks_grid(&JudgeScheme::FourFourOne, &Some(active(0)));
    assert_eq!(grid.len(), 3);
    assert_eq!(
        grid[0],
        vec![Some((7, Verification::Approve)), Some((5, Verification::NotChecked)), Some((0, Verification::NotChecked)), None]
    );
    assert_eq!(grid[1], vec![None, None, None, None]);
    assert_eq!(grid[2], vec![Some((3, Verification::Block)), Some((4, Verification::NotChecked))]);
    let idle = marks_grid(&JudgeScheme::SixSixTwo, &None);
    assert_eq!(idle, vec![vec![], vec![], vec![]]);
}

#[test]
fn verdict_buttons_follow_the_role() {
    let m = hist(3, vote(1));
    assert_eq!(vote_controls(&Some(Role::Moderator(Empty {})), &m), Some(1));
    assert_eq!(vote_controls(&Some(Role::Arbitor(Id { id: 1 })), &m), Some(1));
    assert_eq!(vote_controls(&Some(Role::Arbitor(Id { id: 0 })), &m), None);
    assert_eq!(vote_controls(&Some(Role::Secretary(Empty {})), &m), None);
    assert_eq!(vote_controls(&None, &m), None);
    let other = hist(4, Message::TryNext(TryNext { queue_id: 1 }));
    assert_eq!(vote_controls(&Some(Role::Moderator(Empty {})), &other), None);
}

#[test]
fn pages_show_the_screen_of_the_main_role() {
    let judge = Judge { queue: 1, mark_group: 2 };
    assert_eq!(screen_for(false, &Some(vec![Role::Secretary(Empty {})])), Screen::Loading);
    assert_eq!(screen_for(true, &None), Screen::Loading);
    assert_eq!(screen_for(true, &Some(vec![])), Screen::Blank);
    assert_eq!(screen_for(true, &Some(vec![Role::Judge(judge), Role::Arbitor(Id { id: 2 })])), Screen::Verification(2));
    assert_eq!(screen_for(true, &Some(vec![Role::Judge(judge)])), Screen::Judging(judge));
    assert_eq!(screen_for(true, &Some(vec![Role::Moderator(Empty {}), Role::Judge(judge)])), Screen::Secretary);
    assert_eq!(screen_for(true, &Some(vec![Role::Watcher(Empty {})])), Screen::Unsupported);
}

#[test]
fn queues_show_their_latest_update() {
    let msgs = vec![
        hist(0, Message::SetActiveAction(active(0))),
        hist(1, vote(0)),
        hist(2, Message::SetActiveAction(active(1))),
        hist(3, Message::ClearQueueAction(Id { id: 0 })),
    ];
    assert_eq!(queue_panel(&msgs, 0), QueuePanel::Idle);
    assert_eq!(queue_panel(&msgs, 1), QueuePanel::Active(active(1)));
    assert_eq!(queue_panel(&msgs, 2), QueuePanel::NotStarted);
    assert_eq!(queue_panels(&msgs, 3), vec![QueuePanel::Idle, QueuePanel::Active(active(1)), QueuePanel::NotStarted]);
    assert_eq!(queue_panels(&msgs, 0), vec![]);
    assert_eq!(queue_panels(&msgs[..1].to_vec(), 1), vec![QueuePanel::Active(active(0))]);
}

use comsys::forms::{form_declaration, staff_sheet};
use comsys::proto::{AuthRequest, DatePair, NominationDeclaration, Pack, PasswordPackage, Timestamp};

fn ts(s: i64) -> Timestamp {
    Timestamp { seconds: s, nanos: 0 }
}

fn nom(title: &str) -> NominationDeclaration {
    NominationDeclaration { title: title.to_string(), ..Default::default() }
}

#[test]
fn the_form_declares_a_competition() {
    let lists = Some(vec![vec![nom("A"), nom("B")], vec![nom("C")]]);
    let d = form_declaration(true, "Cup".to_string(), "".to_string(), "Open".to_string(), "2", Some(ts(10)), Some(ts(20)), lists)
        .unwrap();
    assert_eq!(d.title, "Cup");
    assert!(!d.public);
    assert_eq!(d.related_organisation_id, 1);
    assert_eq!(d.scheme, 2);
    assert_eq!(d.dates, Some(DatePair { begins: Some(ts(10)), ends: Some(ts(20)) }));
    assert_eq!(d.place, None);
    assert_eq!(d.descr, Some("Open".to_string()));
    assert_eq!(d.queues.len(), 2);
    assert_eq!(d.queues[1].id, 1);
    assert_eq!(d.queues[1].nomination_list, vec![nom("C")]);
    let plain = form_declaration(true, "Cup".to_string(), "Hall".to_string(), "".to_string(), "x", Some(ts(1)), Some(ts(2)), None)
        .unwrap();
    assert_eq!(plain.scheme, 0);
    assert_eq!(plain.place, Some("Hall".to_string()));
    assert!(plain.queues.is_empty());
    assert_eq!(form_declaration(false, "Cup".to_string(), "".to_string(), "".to_string(), "1", Some(ts(1)), Some(ts(2)), None), None);
    assert_eq!(form_declaration(true, "".to_string(), "".to_string(), "".to_string(), "1", Some(ts(1)), Some(ts(2)), None), None);
    assert_eq!(form_declaration(true, "Cup".to_string(), "".to_string(), "".to_string(), "1", None, Some(ts(2)), None), None);
}

#[test]
fn staff_sheets_list_every_login() {
    let login = |l: &str, p: &str| AuthRequest { login: l.to_string(), password: p.to_string() };
    let package = PasswordPackage {
        scheme: 0,
        passwords: vec![
            Pack { mark: "Q1".to_string(), logins: vec![login("a", "1"), login("b", "2")] },
            Pack { mark: "Q2".to_string(), logins: vec![] },
        ],
    };
    assert_eq!(
        staff_sheet(&package),
        "Блок: Q1\n\t <Логин>:<Пароль>\n\ta : 1\n\tb : 2\n-----=====-----\nБлок: Q2\n\t <Логин>:<Пароль>\n"
    );
    assert_eq!(staff_sheet(&PasswordPackage { scheme: 0, passwords: vec![] }), "");
}

use comsys::proto::{FixVotingMessage, VerifyVoteMessage};
use comsys::screens::{message_lines, panel_action, ScreenRequest};

fn me() -> UserView {
    UserView { uid: 4, login: "sec".to_string(), selfname: "S".to_string() }
}

fn sent(e: &EqMessage, coid: i32, m: Message) -> bool {
    e.comp_id == coid && e.author == Some(me()) && e.signature == "SIGNATURE" && e.message == Some(m)
}

#[test]
fn secretary_buttons_send_the_queue_requests() {
    match panel_action(&QueuePanel::Active(active(2)), 2, 9, &me()) {
        ScreenRequest::Push(e) => assert!(sent(&e, 9, Message::FixVoting(FixVotingMessage { queue_id: 2, verdict: 1 }))),
        ScreenRequest::Run(_) => panic!("expected a message"),
    }
    match panel_action(&QueuePanel::Idle, 1, 9, &me()) {
        ScreenRequest::Push(e) => assert!(sent(&e, 9, Message::TryNext(TryNext { queue_id: 1 }))),
        ScreenRequest::Run(_) => panic!("expected a message"),
    }
    match panel_action(&QueuePanel::NotStarted, 1, 9, &me()) {
        ScreenRequest::Run(id) => assert_eq!(id, Id { id: 9 }),
        ScreenRequest::Push(_) => panic!("expected a start"),
    }
}

#[test]
fn message_lists_run_newest_first_with_verdicts() {
    let msgs = vec![hist(3, vote(1)), hist(4, Message::TryNext(TryNext { queue_id: 1 })), hist(5, vote(0))];
    let lines = message_lines(&msgs, &Some(Role::Arbitor(Id { id: 1 })), 9, &me());
    assert_eq!(lines.iter().map(|l| l.message.message_id).collect::<Vec<_>>(), vec![5, 4, 3]);
    assert!(lines[0].verdicts.is_none());
    assert!(lines[1].verdicts.is_none());
    let (yes, no) = lines[2].verdicts.as_ref().unwrap();
    assert!(sent(yes, 9, Message::VerifyMessage(VerifyVoteMessage { target_message_id: 3, verdict: 1 })));
    assert!(sent(no, 9, Message::VerifyMessage(VerifyVoteMessage { target_message_id: 3, verdict: 2 })));
    let moderated = message_lines(&msgs, &Some(Role::Moderator(Empty {})), 9, &me());
    assert!(moderated[0].verdicts.is_some() && moderated[2].verdicts.is_some());
    assert!(message_lines(&msgs, &None, 9, &me()).iter().all(|l| l.verdicts.is_none()));
}

fn signed(id: i32, m: Message) -> EqHistoryMessage {
    let author = Some(UserView { uid: 1, login: "judge1".to_string(), selfname: String::new() });
    EqHistoryMessage { message_id: id, message: Some(EqMessage { comp_id: 1, author, signature: String::new(), message: Some(m) }) }
}

#[test]
fn message_texts_name_queues_from_one() {
    let v = signed(7, vote(0));
    assert_eq!(
        message_text(&v),
        vec!["#7", "Оценка", " от: judge1", "очередь: 1;", "выступление: 5;", "характеристика: Сложность;", "оценка: 1"]
    );
    let f = signed(8, Message::FinesSetup(FinesSetup { queue_id: 2, action_id: -3, fines: vec![1, -2, 30] }));
    assert_eq!(
        message_text(&f),
        vec!["#8", "Сбавки", " от: judge1", "очередь: 3;", "выступление: -3;", "сбавки: [1, -2, 30];"]
    );
    let e = signed(9, Message::FinesSetup(FinesSetup { queue_id: 0, action_id: 0, fines: vec![] }));
    assert_eq!(message_text(&e)[5], "сбавки: [];");
}

#[test]
fn message_texts_give_the_verdict() {
    let ok = signed(10, Message::VerifyMessage(VerifyVoteMessage { target_message_id: 7, verdict: 1 }));
    assert_eq!(
        message_text(&ok),
        vec!["#10", "Подтверждение оценки", " от: judge1", "Подтверждение для: #7;", "Вердикт: Принято;"]
    );
    let no = signed(11, Message::FixVoting(FixVotingMessage { queue_id: 1, verdict: 2 }));
    assert_eq!(message_text(&no)[3..], ["очередь: 2;", "Вердикт: Отказано;"]);
    let odd = signed(12, Message::VerifyMessage(VerifyVoteMessage { target_message_id: 7, verdict: 9 }));
    assert_eq!(message_text(&odd)[4], "Вердикт: Ожидает проверки;");
    let next = signed(13, Message::TryNext(TryNext { queue_id: 0 }));
    assert_eq!(message_text(&next)[1..], ["Переход к следеющему участнику", " от: judge1", "очередь: 1;"]);
    let block = signed(14, Message::Block(Empty {}));
    assert_eq!(message_text(&block)[3..], ["События приостановлены администратором"]);
    let clear = signed(15, Message::ClearQueueAction(Id { id: 0 }));
    assert_eq!(message_text(&clear)[3..], ["Clear"]);
}

use comsys::forms::{midnight_timestamp, parse_dateinput};

#[test]
fn date_fields_read_as_the_local_midnight() {
    for (text, utc_midnight) in [("2024-03-05", 1709596800i64), ("1900-01-01", -2208988800), ("1969-12-31", -86400)] {
        let t = parse_dateinput(text.to_string()).expect("a date");
        assert_eq!(t.nanos, 0);
        assert!((t.seconds - utc_midnight).abs() < 86400);
    }
    assert!(parse_dateinput("05.03.2024".to_string()).is_none());
    assert!(parse_dateinput("2024-02-30".to_string()).is_none());
    assert!(parse_dateinput(String::new()).is_none());
}

#[test]
fn a_local_midnight_becomes_a_whole_second_timestamp() {
    let t = midnight_timestamp(Some(-3600)).unwrap();
    assert_eq!((t.seconds, t.nanos), (-3600, 0));
    assert!(midnight_timestamp(None).is_none());
}
