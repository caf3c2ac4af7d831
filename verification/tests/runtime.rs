use std::collections::HashMap;

use comsys::access::{comp_roles, competition_perms, message_permitted};
use comsys::delivery::Delivery;
use comsys::errors::CompError;
use comsys::message_pool::MessagePool;
use comsys::proto::{
    ActiveActionState, CompDeclaration, CompetitionQueue, Empty, EqMessage, FixVotingMessage, Id,
    Judge, JudgeScheme, Message, NominationDeclaration, Role, Team, TryNext, UserView,
    VerifyVoteMessage, VoteMessage,
};
use comsys::runtime::CompetitionRuntime;
use comsys::tokens::{AccessType, PermissionComparator, Permissions};

const COID: i32 = 5;
const ORG: i32 = 3;
const RUNNING: i32 = 3;
const WAITING: i32 = 2;

fn declaration() -> CompDeclaration {
    let mut teams = HashMap::new();
    teams.insert(10, Team { tid: 10, nom: "Solo".to_string(), organisation: "Club".to_string(), participants: vec![] });
    CompDeclaration {
        title: "Cup".to_string(),
        public: true,
        related_organisation_id: ORG,
        dates: None,
        place: None,
        descr: None,
        scheme: 0,
        queues: vec![CompetitionQueue {
            id: 0,
            nomination_list: vec![NominationDeclaration { title: "Solo".to_string(), teams, inner_queue: vec![10] }],
        }],
    }
}

fn user(uid: i32) -> UserView {
    UserView { uid, login: format!("u{}", uid), selfname: String::new() }
}

fn msg(uid: i32, m: Message) -> EqMessage {
    EqMessage { comp_id: COID, author: Some(user(uid)), signature: String::new(), message: Some(m) }
}

fn vote(uid: i32, group: &str) -> Message {
    Message::VoteMessage(VoteMessage { author: Some(user(uid)), queue_id: 0, action_id: 10, mark_type: group.to_string(), mark: 6 })
}

fn perms(p: Permissions) -> Vec<(i32, Vec<Permissions>)> {
    vec![(ORG, vec![p])]
}

fn started() -> CompetitionRuntime<u8> {
    let mut rt: CompetitionRuntime<u8> = CompetitionRuntime::new();
    assert_eq!(rt.run(COID, WAITING, declaration()), Ok(()));
    rt
}

#[test]
fn competitions_start_once() {
    let mut rt: CompetitionRuntime<u8> = CompetitionRuntime::new();
    assert_eq!(rt.run_check(COID, RUNNING), Err(CompError::AlreadyRunned));
    assert_eq!(rt.run_check(COID, 4), Err(CompError::InvalidStatus));
    assert_eq!(rt.run_check(COID, 77), Err(CompError::InvalidStatus));
    assert_eq!(rt.run_check(COID, 0), Ok(()));
    assert_eq!(rt.run(COID, WAITING, declaration()), Ok(()));
    assert_eq!(rt.run_check(COID, 1), Err(CompError::AlreadyRunned));
    assert_eq!(rt.run(COID, WAITING, declaration()), Err(CompError::AlreadyRunned));
    assert!(rt.pool(COID).is_some());
    assert_eq!(rt.state(COID).unwrap().queue_count(), 1);
    assert!(rt.pool(6).is_none());
    assert!(rt.state(6).is_none());
}

#[test]
fn only_running_competitions_take_messages() {
    let mut rt = started();
    let sec = perms(Permissions::Secretary(COID));
    let next = msg(50, Message::TryNext(TryNext { queue_id: 0 }));
    assert_eq!(rt.push_eq_message(next.clone(), 50, &sec, ORG, WAITING, 0), Err(CompError::Waiting));
    assert_eq!(rt.push_eq_message(next.clone(), 50, &sec, ORG, 0, 0), Err(CompError::NotRunnedYet));
    assert_eq!(rt.push_eq_message(next.clone(), 50, &sec, ORG, 4, 0), Err(CompError::AlreadyCompleted));
    assert_eq!(rt.push_eq_message(next.clone(), 50, &sec, ORG, 9, 0), Err(CompError::StatusUnknown));
    assert_eq!(rt.push_eq_message(next.clone(), 50, &sec, ORG, RUNNING, 8), Err(CompError::SchemeMismatch));
    assert_eq!(rt.pool(COID).unwrap().history_clone().len(), 0);
    assert_eq!(rt.push_eq_message(next, 50, &sec, ORG, RUNNING, 0), Ok(0));
}

#[test]
fn a_vote_waits_for_its_verdict() {
    let mut rt = started();
    let sec = perms(Permissions::Secretary(COID));
    let judge = perms(Permissions::Judge(COID, 0, 0));
    let sup = perms(Permissions::Arbitor(COID, 0));
    let stranger = vec![(ORG + 1, vec![Permissions::Administrate])];

    rt.push_eq_message(msg(50, Message::TryNext(TryNext { queue_id: 0 })), 50, &sec, ORG, RUNNING, 0).unwrap();
    assert_eq!(rt.push_eq_message(msg(60, vote(60, "Сложность")), 60, &judge, ORG, RUNNING, 0), Err(CompError::PermissionDenied));
    assert_eq!(rt.push_eq_message(msg(60, vote(60, "Исполнение")), 60, &stranger, ORG, RUNNING, 0), Err(CompError::PermissionDenied));
    assert_eq!(rt.push_eq_message(msg(60, vote(60, "Исполнение")), 60, &judge, ORG, RUNNING, 0), Ok(1));
    assert!(rt.pool(COID).unwrap().not_verified(1));
    assert!(!rt.state(COID).unwrap().voted(60, 0));

    let verdict = |v: i32| msg(70, Message::VerifyMessage(VerifyVoteMessage { target_message_id: 1, verdict: v }));
    assert_eq!(rt.push_eq_message(verdict(1), 70, &judge, ORG, RUNNING, 0), Err(CompError::PermissionDenied));
    assert_eq!(rt.push_eq_message(verdict(1), 70, &sup, ORG, RUNNING, 0), Ok(2));
    assert!(!rt.pool(COID).unwrap().not_verified(1));
    assert!(rt.state(COID).unwrap().voted(60, 0));
    assert_eq!(rt.push_eq_message(verdict(1), 70, &sup, ORG, RUNNING, 0), Err(CompError::UnableToVerify));
    assert_eq!(rt.push_eq_message(verdict(2), 70, &sup, ORG, RUNNING, 0), Err(CompError::UnableToVerify));

    let fix = |v: i32| msg(50, Message::FixVoting(FixVotingMessage { queue_id: 0, verdict: v }));
    assert_eq!(rt.push_eq_message(fix(1), 50, &sec, ORG, RUNNING, 0), Err(CompError::NotFinished));
    assert_eq!(rt.push_eq_message(fix(2), 50, &sec, ORG, RUNNING, 0), Ok(3));
    assert_eq!(rt.pool(COID).unwrap().last_id(), 3);
}

#[test]
fn a_blocked_vote_is_not_recorded() {
    let mut rt = started();
    let sec = perms(Permissions::Secretary(COID));
    let judge = perms(Permissions::Judge(COID, 0, 0));
    let sup = perms(Permissions::Arbitor(COID, 0));
    rt.push_eq_message(msg(50, Message::TryNext(TryNext { queue_id: 0 })), 50, &sec, ORG, RUNNING, 0).unwrap();
    rt.push_eq_message(msg(60, vote(60, "Исполнение")), 60, &judge, ORG, RUNNING, 0).unwrap();
    let block = msg(70, Message::VerifyMessage(VerifyVoteMessage { target_message_id: 1, verdict: 2 }));
    assert_eq!(rt.push_eq_message(block, 70, &sup, ORG, RUNNING, 0), Ok(2));
    assert!(!rt.pool(COID).unwrap().not_verified(1));
    assert!(!rt.state(COID).unwrap().voted(60, 0));
}

#[test]
fn messages_need_a_started_competition_and_known_kind() {
    let mut rt = started();
    let admin = perms(Permissions::Administrate);
    let mut other = msg(1, Message::TryNext(TryNext { queue_id: 0 }));
    other.comp_id = 9;
    assert_eq!(rt.push_eq_message(other, 1, &admin, ORG, RUNNING, 0), Err(CompError::NotStarted));
    let clear = msg(1, Message::ClearQueueAction(Id { id: 0 }));
    assert_eq!(rt.push_eq_message(clear.clone(), 1, &admin, ORG, RUNNING, 0), Err(CompError::UnsupportedMessage));
    assert_eq!(rt.push_eq_message(clear, 1, &perms(Permissions::Secretary(COID)), ORG, RUNNING, 0), Err(CompError::PermissionDenied));
    let set = msg(1, Message::SetActiveAction(ActiveActionState::default()));
    assert_eq!(rt.push_eq_message(set, 1, &admin, ORG, RUNNING, 0), Err(CompError::UnsupportedMessage));
    let mut empty = msg(1, Message::TryNext(TryNext { queue_id: 0 }));
    empty.message = None;
    assert_eq!(rt.push_eq_message(empty, 1, &admin, ORG, RUNNING, 0), Err(CompError::NoMessageInRequest));
    let moderator = perms(Permissions::Moderator(AccessType::List(vec![COID])));
    assert_eq!(rt.push_eq_message(msg(2, Message::TryNext(TryNext { queue_id: 4 })), 2, &moderator, ORG, RUNNING, 0), Err(CompError::QueueNotFound));
}

#[test]
fn followers_subscribe_to_the_event_queue() {
    let mut rt = started();
    let watcher = perms(Permissions::Watch(AccessType::List(vec![COID])));
    assert_eq!(rt.start_eq_message_stream(COID, &watcher, ORG, false, 1), Ok(()));
    assert_eq!(rt.start_eq_message_stream(COID, &vec![], ORG, false, 2), Err(CompError::PermissionDenied));
    assert_eq!(rt.start_eq_message_stream(COID, &vec![], ORG, true, 3), Ok(()));
    assert_eq!(rt.start_eq_message_stream(9, &vec![], ORG, true, 4), Err(CompError::CompNotFound));
    assert_eq!(rt.pool(COID).unwrap().senders(), &vec![1u8, 3u8]);
    rt.drop_senders(COID, &vec![0]);
    assert_eq!(rt.pool(COID).unwrap().senders(), &vec![3u8]);
}

#[test]
fn the_pool_keeps_every_message_in_order() {
    let mut pool: MessagePool<u8> = MessagePool::new();
    assert_eq!(pool.last_id(), -1);
    assert!(pool.last_msg().is_none());
    let mut none = msg(1, Message::TryNext(TryNext { queue_id: 0 }));
    none.message = None;
    assert_eq!(pool.send(none), Err(CompError::NoMessageData));
    assert_eq!(pool.send(msg(60, vote(60, "Исполнение"))), Ok(0));
    assert_eq!(pool.send(msg(50, Message::TryNext(TryNext { queue_id: 0 }))), Ok(1));
    assert_eq!(pool.send(msg(61, vote(61, "Сложность"))), Ok(2));
    assert_eq!(pool.last_id(), 2);
    assert_eq!(pool.last_msg().unwrap().message_id, 2);
    assert!(pool.not_verified(0));
    assert!(!pool.not_verified(1));
    assert_eq!(pool.select_unverified_with_author(61), vec![2]);
    assert_eq!(pool.select_unverified_with_query(0), vec![0, 2]);
    assert_eq!(pool.select_unverified_with_query(1), Vec::<i32>::new());
    assert_eq!(pool.remove_from_unverifyed(0), Ok(0));
    assert_eq!(pool.remove_from_unverifyed(0), Err(CompError::MessageNotFound));
    assert_eq!(pool.index(1).unwrap().message_id, 1);
    assert!(pool.index(3).is_none());
    assert_eq!(pool.history_clone().len(), 3);
    let ids: Vec<i32> = pool.nth_history_clone(3).iter().map(|h| h.message_id).collect();
    assert_eq!(ids, vec![0, 1]);
    pool.subscribe(7);
    pool.subscribe(8);
    pool.drop_senders(&vec![1]);
    assert_eq!(pool.senders(), &vec![7u8]);
}

#[test]
fn permissions_of_a_competition() {
    let all = vec![
        (ORG, vec![Permissions::Judge(COID, 0, 1), Permissions::Judge(COID + 1, 0, 1), Permissions::Watch(AccessType::All), Permissions::Create]),
        (ORG + 1, vec![Permissions::Administrate]),
        (ORG, vec![Permissions::Arbitor(COID, 2), Permissions::Moderator(AccessType::List(vec![COID + 1]))]),
    ];
    assert_eq!(
        competition_perms(&all, ORG, COID, false),
        vec![Permissions::Judge(COID, 0, 1), Permissions::Arbitor(COID, 2)]
    );
    assert_eq!(
        competition_perms(&all, ORG, COID, true),
        vec![Permissions::Judge(COID, 0, 1), Permissions::Watch(AccessType::All), Permissions::Arbitor(COID, 2)]
    );
    let held = PermissionComparator(competition_perms(&all, ORG, COID, false));
    let judged = Message::VoteMessage(VoteMessage { author: None, queue_id: 0, action_id: 1, mark_type: "Артистичность".to_string(), mark: 3 });
    assert!(message_permitted(&held, COID, JudgeScheme::FourFourOne, &judged));
    assert!(message_permitted(&held, COID, JudgeScheme::FourFourOne, &Message::VerifyMessage(VerifyVoteMessage { target_message_id: 0, verdict: 1 })));
    assert!(!message_permitted(&held, COID, JudgeScheme::FourFourOne, &Message::TryNext(TryNext { queue_id: 0 })));
    assert!(!message_permitted(&held, COID, JudgeScheme::FourFourOne, &Message::Block(Empty {})));
}

#[test]
fn roles_in_a_competition() {
    let staff = vec![(ORG, vec![Permissions::Judge(COID, 1, 2), Permissions::Secretary(COID), Permissions::Arbitor(COID, 0), Permissions::Secretary(COID + 1)])];
    assert_eq!(
        comp_roles(&staff, ORG, COID, false),
        vec![Role::Judge(Judge { queue: 1, mark_group: 2 }), Role::Secretary(Empty {}), Role::Arbitor(Id { id: 0 })]
    );
    assert_eq!(comp_roles(&staff, ORG, COID, true), vec![Role::Moderator(Empty {})]);
    let moderator = vec![(ORG, vec![Permissions::Judge(COID, 1, 2), Permissions::Moderator(AccessType::All)])];
    assert_eq!(comp_roles(&moderator, ORG, COID, false), vec![Role::Moderator(Empty {})]);
    let elsewhere = vec![(ORG, vec![Permissions::Moderator(AccessType::List(vec![COID + 1]))])];
    assert_eq!(comp_roles(&elsewhere, ORG, COID, false), Vec::<Role>::new());
    assert_eq!(comp_roles(&staff, ORG + 1, COID, false), Vec::<Role>::new());
}

#[test]
fn blocks_are_refused_before_they_are_handled() {
    let mut rt = started();
    let sec = perms(Permissions::Secretary(COID));
    let judge = perms(Permissions::Judge(COID, 0, 0));
    let block = msg(50, Message::Block(Empty {}));
    assert!(!rt.reaches_handling(&block, &sec, ORG, WAITING, 0));
    assert_eq!(rt.push_eq_message(block.clone(), 50, &sec, ORG, WAITING, 0), Err(CompError::Waiting));
    assert!(!rt.reaches_handling(&block, &judge, ORG, RUNNING, 0));
    assert_eq!(rt.push_eq_message(block.clone(), 50, &judge, ORG, RUNNING, 0), Err(CompError::PermissionDenied));
    assert!(rt.reaches_handling(&block, &sec, ORG, RUNNING, 0));
    let next = msg(50, Message::TryNext(TryNext { queue_id: 0 }));
    assert!(rt.reaches_handling(&next, &sec, ORG, RUNNING, 0));
    assert!(!rt.reaches_handling(&msg(50, Message::TryNext(TryNext { queue_id: 0 })), &sec, ORG, RUNNING, 7));
}

#[test]
fn failed_subscribers_are_dropped_and_the_others_kept_in_order() {
    let mut pool: MessagePool<u8> = MessagePool::new();
    for s in [10u8, 11, 12, 13, 14] {
        pool.subscribe(s);
    }
    pool.drop_senders(&vec![0, 2, 4]);
    assert_eq!(pool.senders(), &vec![11u8, 13]);
}

#[test]
fn deliveries_go_to_each_subscriber_once_in_order() {
    let outcomes = [true, false, true, false];
    let mut pool: MessagePool<char> = MessagePool::new();
    for c in ['a', 'b', 'c', 'd'] {
        pool.subscribe(c);
    }
    let mut delivery = Delivery::new(pool.senders().len());
    let mut offered = vec![];
    while let Some(k) = delivery.target() {
        offered.push(k);
        delivery.record(outcomes[k]);
    }
    assert_eq!(offered, vec![0, 1, 2, 3]);
    assert_eq!(delivery.failed(), &vec![1, 3]);
    pool.drop_senders(delivery.failed());
    assert_eq!(pool.senders(), &vec!['a', 'c']);
    assert_eq!(Delivery::new(0).target(), None);
}
