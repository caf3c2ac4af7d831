use std::collections::HashMap;

use comsys::comp_state::CompState;
use comsys::errors::CompError;
use comsys::marks::NominationMarks;
use comsys::proto::{
    CompDeclaration, CompetitionQueue, FinesSetup, JudgeScheme, NominationDeclaration, Team,
    UserView, Verification, VoteMessage,
};

fn team(tid: i32) -> Team {
    Team { tid, nom: "Solo".to_string(), organisation: "Club".to_string(), participants: vec![] }
}

fn declaration(tids: &[i32]) -> CompDeclaration {
    let mut teams = HashMap::new();
    for &t in tids {
        teams.insert(t, team(t));
    }
    CompDeclaration {
        title: "Cup".to_string(),
        public: true,
        related_organisation_id: 3,
        dates: None,
        place: None,
        descr: None,
        scheme: 0,
        queues: vec![CompetitionQueue {
            id: 0,
            nomination_list: vec![NominationDeclaration {
                title: "Solo".to_string(),
                teams,
                inner_queue: tids.to_vec(),
            }],
        }],
    }
}

fn vote(group: &str, action: i32, mark: i32, uid: i32) -> VoteMessage {
    VoteMessage {
        author: Some(UserView { uid, login: format!("j{}", uid), selfname: String::new() }),
        queue_id: 0,
        action_id: action,
        mark_type: group.to_string(),
        mark,
    }
}

/// Every slot of the FourFourOne scheme filled, by nine different judges.
fn fill_all(state: &mut CompState, action: i32) {
    let mut uid = 100;
    for (group, n) in [("Исполнение", 4), ("Артистичность", 4), ("Сложность", 1)] {
        for _ in 0..n {
            uid += 1;
            assert_eq!(state.try_to_add_vote(uid, uid, uid, vote(group, action, 5, uid)), Ok(()));
        }
    }
}

#[test]
fn marks_follow_the_scheme() {
    let m = NominationMarks::with_scheme(&JudgeScheme::SixSixTwo);
    assert_eq!(m.active_action, -1);
    assert!(!m.in_progress);
    let sizes: Vec<usize> = m.get_marks().iter().map(|g| g.len()).collect();
    assert_eq!(sizes, vec![6, 6, 2]);
    assert!(!m.ready());
    assert!(m.get_fines().is_empty());
    let mut b = NominationMarks::blank();
    assert!(b.ready());
    b.voted_users.push(4);
    b.clean_marks_with_scheme(&JudgeScheme::FourFourOne);
    assert!(b.voted_users.is_empty());
    assert_eq!(b.get_marks().len(), 3);
}

#[test]
fn a_competition_starts_idle() {
    let state = CompState::new_clean(declaration(&[10, 11]));
    assert_eq!(state.queue_count(), 1);
    assert_eq!(state.scheme(), JudgeScheme::FourFourOne);
    assert!(!state.voted(1, 0));
    assert!(!state.voted(1, 5));
    assert_eq!(state.able_to_add_vote(1, &vote("Исполнение", 10, 5, 1)), Err(CompError::VoteRejected));
    let mut q = vote("Исполнение", 10, 5, 1);
    q.queue_id = 4;
    assert_eq!(state.able_to_add_vote(1, &q), Err(CompError::QueueNotFound));
}

#[test]
fn next_action_takes_the_first_team() {
    let mut state = CompState::new_clean(declaration(&[10, 11]));
    assert_eq!(state.try_next_action(3), Err(CompError::QueueNotFound));
    assert_eq!(state.try_next_action(0), Ok(()));
    assert_eq!(state.try_next_action(0), Err(CompError::VotingInProgress));
    let active = state.get_queue_active_action(0).unwrap();
    assert_eq!(active.qid, 0);
    assert_eq!(active.aid, 10);
    assert_eq!(active.team.as_ref().unwrap().tid, 10);
    let names: Vec<String> = active.marks.iter().map(|m| m.0.clone()).collect();
    assert_eq!(names, vec!["Исполнение", "Артистичность", "Сложность"]);
    let counts: Vec<usize> = active.marks.iter().map(|m| m.1.votes.len()).collect();
    assert_eq!(counts, vec![4, 4, 1]);
    assert!(active.marks[0].1.votes.iter().all(|v| v.message_id == -1 && v.verifyed == 2));
}

#[test]
fn votes_fill_slots_once_per_judge() {
    let mut state = CompState::new_clean(declaration(&[10]));
    state.try_next_action(0).unwrap();
    assert_eq!(state.able_to_add_vote(7, &vote("Исполнение", 10, 5, 7)), Ok(()));
    assert_eq!(state.able_to_add_vote(7, &vote("Исполнение", 11, 5, 7)), Err(CompError::VoteRejected));
    assert_eq!(state.try_to_add_vote(7, 7, 40, vote("Исполнение", 10, 8, 7)), Ok(()));
    assert!(state.voted(7, 0));
    assert_eq!(state.try_to_add_vote(7, 7, 41, vote("Сложность", 10, 8, 7)), Err(CompError::VotingBlocked));
    assert_eq!(state.try_to_add_vote(8, 8, 42, vote("Нечто", 10, 8, 8)), Err(CompError::InvalidMarkType));
    assert_eq!(state.try_to_add_vote(8, 8, 42, vote("Сложность", 11, 8, 8)), Err(CompError::InvalidActionId));
    assert_eq!(state.try_to_add_vote(8, 8, 42, vote("Сложность", 10, 9, 8)), Ok(()));
    assert_eq!(state.try_to_add_vote(9, 9, 43, vote("Сложность", 10, 9, 9)), Err(CompError::VotingFull));
    let active = state.get_queue_active_action(0).unwrap();
    assert_eq!(active.marks[0].1.votes[0].message_id, 40);
    assert_eq!(active.marks[0].1.votes[0].mark, 8);
    assert_eq!(active.marks[0].1.votes[0].verifyed, 1);
    assert_eq!(active.marks[2].1.votes[0].message_id, 42);
}

#[test]
fn fines_go_to_the_active_action() {
    let mut state = CompState::new_clean(declaration(&[10]));
    let fines = FinesSetup { queue_id: 0, action_id: 10, fines: vec![1, 2] };
    assert_eq!(state.try_to_add_fines(fines.clone()), Err(CompError::VotingBlocked));
    state.try_next_action(0).unwrap();
    assert_eq!(state.try_to_add_fines(FinesSetup { action_id: 3, ..fines.clone() }), Err(CompError::InvalidActionId));
    assert_eq!(state.try_to_add_fines(FinesSetup { queue_id: 2, ..fines.clone() }), Err(CompError::QueueNotFound));
    assert_eq!(state.try_to_add_fines(fines), Ok(()));
}

#[test]
fn blocked_action_is_judged_again() {
    let mut state = CompState::new_clean(declaration(&[10, 11]));
    state.try_next_action(0).unwrap();
    assert_eq!(state.try_finish_action(0, Verification::NotChecked), Err(CompError::InvalidVerdict));
    assert_eq!(state.try_finish_action(0, Verification::Approve).unwrap_err(), CompError::NotFinished);
    let closed = state.try_finish_action(0, Verification::Block).unwrap();
    assert!(!closed.in_progress);
    assert_eq!(state.try_finish_action(0, Verification::Block).unwrap_err(), CompError::NoActiveAction);
    state.try_next_action(0).unwrap();
    assert_eq!(state.get_queue_active_action(0).unwrap().aid, 10);
}

#[test]
fn approved_actions_are_collected_by_nomination() {
    let mut state = CompState::new_clean(declaration(&[10, 11]));
    state.try_next_action(0).unwrap();
    assert_eq!(state.try_collect().unwrap_err(), CompError::ActionsNotFinished);
    fill_all(&mut state, 10);
    let marks = state.try_finish_action(0, Verification::Approve).unwrap();
    assert!(marks.ready());
    assert_eq!(marks.active_action, 10);
    state.try_next_action(0).unwrap();
    assert_eq!(state.get_queue_active_action(0).unwrap().aid, 11);
    fill_all(&mut state, 11);
    state.try_finish_action(0, Verification::Approve).unwrap();
    assert_eq!(state.try_next_action(0), Err(CompError::QueueEmpty));
    let results = state.try_collect().unwrap();
    assert_eq!(results.len(), 1);
    assert_eq!(results[0].0, 0);
    assert_eq!(results[0].1.len(), 1);
    assert_eq!(results[0].1[0].0, "Solo");
    let aids: Vec<i32> = results[0].1[0].1.iter().map(|m| m.active_action).collect();
    assert_eq!(aids, vec![10, 11]);
}
