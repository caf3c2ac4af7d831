use std::collections::HashMap;

use comsys::auth::{
    auth_result_token, authorize_reply, drop_clears_cookie, get_auth_reply, hex_upper, password_accepted,
    user_rows, AuthOutcome, AuthResult, TokenPrototype,
};
use comsys::claims::{TokenClaim, TokenGenerator, ACCESS_TOKEN_TTL, AUTH_TOKEN_TTL};
use comsys::event_context::{queue_context_filter, DropSetAction, EQMContext, EqmContextAction, IdListContext};
use comsys::proto::{
    AuthRequest, CompDeclaration, CompetitionQueue, Empty, EqHistoryMessage, EqMessage, Id, Judge, Message,
    Role, Token, TryNext, UserView, VerifyVoteMessage, VoteMessage, ActiveActionState,
};
use comsys::staff::{secretary_account, staff_accounts, staff_package};
use comsys::tokens::Permissions;
use comsys::user_context::{
    CompetitionDeclarationWrapper, CompetitionDeclarationWrapperContextAction, Context, ContextAction,
    NominationFormModel, UserContext, UserData,
};
use comsys::views::{last_queue_action, last_vote_of, main_role};

fn declaration(queues: usize) -> CompDeclaration {
    CompDeclaration {
        title: "Cup".to_string(),
        related_organisation_id: 3,
        scheme: 0,
        queues: (0..queues).map(|i| CompetitionQueue { id: i as i32, nomination_list: vec![] }).collect(),
        ..Default::default()
    }
}

fn random_tail_ok(login: &str, prefix: &str, n: usize) -> bool {
    login.starts_with(prefix)
        && login.len() == prefix.len() + n
        && login[prefix.len()..].chars().all(|c| c.is_ascii_alphanumeric())
}

fn password_ok(p: &str) -> bool {
    p.len() == 15 && p.chars().all(|c| c.is_ascii_uppercase() || c.is_ascii_digit())
}

#[test]
fn staff_packages_follow_queues_and_groups() {
    let pkg = staff_package(9, &declaration(2));
    assert_eq!(pkg.scheme, 0);
    assert_eq!(pkg.passwords.len(), 9);
    let marks: Vec<&str> = pkg.passwords.iter().map(|p| p.mark.as_str()).collect();
    assert_eq!(
        marks,
        vec![
            "Judges-queue0-group-0", "Judges-queue0-group-1", "Judges-queue0-group-2", "Arbitor-queue-0",
            "Judges-queue1-group-0", "Judges-queue1-group-1", "Judges-queue1-group-2", "Arbitor-queue-1",
            "secretary",
        ]
    );
    let sizes: Vec<usize> = pkg.passwords.iter().map(|p| p.logins.len()).collect();
    assert_eq!(sizes, vec![4, 4, 1, 1, 4, 4, 1, 1, 1]);
    for (u, l) in pkg.passwords[1].logins.iter().enumerate() {
        assert!(random_tail_ok(&l.login, &format!("o3c9q0judge1u{}", u), 5), "{}", l.login);
        assert!(password_ok(&l.password), "{}", l.password);
    }
    assert!(random_tail_ok(&pkg.passwords[7].logins[0].login, "o3c9q1sup", 5));
    assert!(random_tail_ok(&pkg.passwords[8].logins[0].login, "o3c9sec", 7));
    assert!(password_ok(&pkg.passwords[8].logins[0].password));
    assert_ne!(pkg.passwords[0].logins[0].password, pkg.passwords[0].logins[1].password);
}

#[test]
fn staff_accounts_get_their_posts() {
    let pkg = staff_package(9, &declaration(2));
    let accounts = staff_accounts(9, &pkg);
    assert_eq!(accounts.len(), 20);
    assert_eq!(accounts[0].1, Permissions::Judge(9, 0, 0));
    assert_eq!(accounts[4].1, Permissions::Judge(9, 0, 1));
    assert_eq!(accounts[8].1, Permissions::Judge(9, 0, 2));
    assert_eq!(accounts[9].1, Permissions::Arbitor(9, 0));
    assert_eq!(accounts[10].1, Permissions::Judge(9, 1, 0));
    assert_eq!(accounts[19].1, Permissions::Arbitor(9, 1));
    assert_eq!(accounts[9].0, pkg.passwords[3].logins[0]);
    assert!(accounts.iter().all(|a| a.0.login != pkg.passwords[8].logins[0].login));
    let empty = staff_package(1, &declaration(0));
    assert_eq!(empty.passwords.len(), 1);
    assert!(staff_accounts(1, &empty).is_empty());
    let (sec, perm) = secretary_account(9, &pkg);
    assert_eq!(sec, pkg.passwords[8].logins[0]);
    assert_eq!(perm, Permissions::Secretary(9));
}

#[test]
fn stored_hashes_accept_their_password() {
    let rows = user_rows(&vec![AuthRequest { login: "judge".to_string(), password: "SECRET15CHARS00".to_string() }]);
    assert_eq!(rows.len(), 1);
    assert_eq!(rows[0].login, "judge");
    assert_eq!(rows[0].selfname, "judge");
    assert!(rows[0].hash.starts_with("$argon2id$"));
    assert!(password_accepted("SECRET15CHARS00", &rows[0].hash));
    assert!(!password_accepted("SECRET15CHARS01", &rows[0].hash));
    assert!(!password_accepted("SECRET15CHARS00", "not a hash"));
}

#[test]
fn argon_test() {
    let rows = user_rows(&vec![AuthRequest { login: "staff".to_string(), password: "69N2GRDB3CSE".to_string() }]);
    assert!(rows[0].hash.starts_with("$argon2id$v=19$"));
    assert!(password_accepted("69N2GRDB3CSE", &rows[0].hash));
}

#[test]
fn sign_in_answers() {
    let refused = authorize_reply(false, Ok(("tok".to_string(), 0)), false);
    assert_eq!(refused, (AuthResult { result: Some(AuthOutcome::Error(0)) }, None));
    let plain = authorize_reply(true, Ok(("tok".to_string(), 0)), false);
    assert_eq!(plain.0.result, Some(AuthOutcome::Token(Token { value: "tok".to_string(), token_type: Some(0) })));
    assert_eq!(plain.1, None);
    let web = authorize_reply(true, Ok(("tok".to_string(), 0)), true);
    assert_eq!(web.0.result, Some(AuthOutcome::Token(Token { value: "grpc-web-uses-cookies".to_string(), token_type: Some(0) })));
    assert_eq!(web.1, Some("tok".to_string()));
    let failed = authorize_reply(true, Err(()), false);
    assert_eq!(failed.0.result, Some(AuthOutcome::Token(Token { value: "generation_error".to_string(), token_type: Some(0) })));
}

#[test]
fn auth_token_answers() {
    assert_eq!(get_auth_reply(false, Ok(("a".to_string(), 1))).result, Some(AuthOutcome::Error(0)));
    assert_eq!(get_auth_reply(true, Ok(("a".to_string(), 1))).result, Some(AuthOutcome::Token(Token { value: "a".to_string(), token_type: Some(1) })));
    assert_eq!(get_auth_reply(true, Err(())).result, None);
    assert!(drop_clears_cookie(true, &Some(Token { value: String::new(), token_type: Some(0) })));
    assert!(!drop_clears_cookie(false, &Some(Token { value: String::new(), token_type: Some(0) })));
    assert!(!drop_clears_cookie(true, &Some(Token { value: String::new(), token_type: Some(1) })));
    assert!(!drop_clears_cookie(true, &None));
    let t = Token { value: "v".to_string(), token_type: Some(1) };
    assert_eq!(auth_result_token(AuthResult { result: Some(AuthOutcome::Token(t.clone())) }), Ok(t));
    assert_eq!(auth_result_token(AuthResult { result: Some(AuthOutcome::Error(0)) }), Err(Some(0)));
    assert_eq!(auth_result_token(AuthResult { result: None }), Err(None));
}

#[test]
fn hexadecimal_as_format_writes_it() {
    for n in [0u128, 9, 10, 15, 16, 255, 4096, u64::MAX as u128, u128::MAX] {
        assert_eq!(hex_upper(n), format!("{:X}", n));
    }
}

#[test]
fn stored_tokens_hash_their_value() {
    let mut claim = TokenClaim::with_data(1, "me".to_string(), "value".to_string(), 4, vec![]);
    claim.setup_time(100, 50);
    let proto = TokenPrototype::from(&claim);
    assert_eq!(proto.hash, format!("{:X}", fastmurmur3::hash(b"value")));
    assert_ne!(proto.hash, "value");
    assert_eq!(proto.ttype, 1);
    assert_eq!(proto.owner, 4);
    assert_eq!(proto.sub, "me");
    assert_eq!(proto.created_at, 50);
    assert_eq!(proto.expire_at, 150);
}

#[test]
fn claims_and_lifetimes() {
    let c = TokenClaim::new(5, 1, 0, "s".to_string(), "v".to_string(), 3, vec![(1, vec![Permissions::Create])]);
    assert_eq!(c.view_tuple(), (5, 1, 0, "s".to_string(), "v".to_string()));
    let r = TokenClaim::random(1, "s".to_string(), 2, vec![]);
    assert_eq!(r.value.len(), 64);
    assert!(r.value.chars().all(|ch| ch.is_ascii_alphanumeric()));
    assert_eq!((r.exp, r.iat), (0, 0));
    let g = TokenGenerator::with_secet(b"abc");
    assert_eq!(g.secret(), &b"abc".to_vec());
    assert_eq!(TokenGenerator::new().secret().len(), 1024);
    assert_eq!(g.get_acc_ttl(), ACCESS_TOKEN_TTL);
    assert_eq!(g.get_auth_ttl(), 14_400);
    let mut auth = TokenClaim::with_data(1, "s".to_string(), "v".to_string(), 2, vec![]);
    assert_eq!(g.stamp(&mut auth, 1000), Ok(1));
    assert_eq!((auth.iat, auth.exp), (1000, 1000 + AUTH_TOKEN_TTL));
    let mut access = TokenClaim::with_data(0, "s".to_string(), "v".to_string(), 2, vec![]);
    assert_eq!(g.stamp(&mut access, 7), Ok(0));
    assert_eq!(access.exp, 7 + 2_678_400);
    let mut odd = TokenClaim::with_data(5, "s".to_string(), "v".to_string(), 2, vec![]);
    assert_eq!(g.stamp(&mut odd, 7), Err(()));
    assert_eq!((odd.iat, odd.exp), (0, 0));
    assert_eq!(g.preset_type(&odd), Err(()));
    assert_eq!(g.preset_type(&access), Ok(0));
    let mut now = TokenClaim::with_data(1, "s".to_string(), "v".to_string(), 2, vec![]);
    assert_eq!(g.stamp_now(&mut now), Ok(1));
    assert_eq!(now.exp - now.iat, AUTH_TOKEN_TTL);
    assert!(now.iat > 1_600_000_000);
}

fn data(uid: i32) -> UserData {
    UserData { uid, username: format!("user{}", uid), selfname: "Me".to_string() }
}

#[test]
fn user_context_takes_only_auth_tokens() {
    let mut ctx = UserContext::empty();
    assert!(!ctx.ready());
    assert_eq!(ctx.set_token(Token { value: "acc".to_string(), token_type: Some(0) }), Err(()));
    assert!(ctx.get_token().is_none());
    assert_eq!(ctx.set_token(Token { value: "auth".to_string(), token_type: Some(1) }), Ok(()));
    assert_eq!(ctx.set_data(data(3)), Ok(()));
    assert!(ctx.ready());
    assert_eq!(ctx.get_token().as_ref().unwrap().value, "auth");
    assert_eq!(**ctx.get_token_arc(), Some(Token { value: "auth".to_string(), token_type: Some(1) }));
    assert_eq!(ctx.get_user_data().as_ref().unwrap().get_name(), "user3");
    assert_eq!(ctx.get_user_data().as_ref().unwrap().get_selfname(), "Me");
    let copy = ctx.clone();
    assert!(ctx.same_state(&copy));
    ctx.drop_token();
    assert!(!ctx.same_state(&copy));
    assert!(!ctx.ready());
    ctx.clear();
    assert!(ctx.get_user_data().is_none());
    let view = data(4).into_user_view();
    assert_eq!(view, UserView { uid: 4, login: "user4".to_string(), selfname: "Me".to_string() });
}

#[test]
fn global_context_reduces_actions() {
    let ctx = Context::default();
    let ctx = ctx.reduce(ContextAction::SetupAuth(Token { value: "a".to_string(), token_type: Some(1) }));
    let ctx = ctx.reduce(ContextAction::SetupData(data(1)));
    assert!(ctx.user.ready());
    let ctx = ctx.reduce(ContextAction::SetupAuth(Token { value: "b".to_string(), token_type: Some(0) }));
    assert_eq!(ctx.user.get_token().as_ref().unwrap().value, "a");
    let ctx = ctx.reduce(ContextAction::DropAuth);
    assert!(ctx.user.get_token().is_none());
    assert!(ctx.user.get_user_data().is_none());
    let w = CompetitionDeclarationWrapper::default();
    let w = w.reduce(CompetitionDeclarationWrapperContextAction::Setup(declaration(1)));
    assert_eq!(w.declaration, Some(declaration(1)));
    let w = w.reduce(CompetitionDeclarationWrapperContextAction::Drop);
    assert!(w.declaration.is_none());
    let form = NominationFormModel::empty();
    assert_eq!(form.title, "Новая номинация");
    assert_eq!(form.descr, "Без описания");
    assert!(form.participants.is_empty());
}

fn hist(id: i32, m: Message) -> EqHistoryMessage {
    let author = Some(UserView { uid: id % 3, login: String::new(), selfname: String::new() });
    EqHistoryMessage { message_id: id, message: Some(EqMessage { comp_id: 1, author, signature: String::new(), message: Some(m) }) }
}

fn next(q: i32) -> Message {
    Message::TryNext(TryNext { queue_id: q })
}

fn ids(v: &[EqHistoryMessage]) -> Vec<i32> {
    v.iter().map(|h| h.message_id).collect()
}

#[test]
fn id_lists_are_replaced_or_dropped() {
    let l = IdListContext(vec![1, 2]);
    let l = l.reduce(DropSetAction::Replace(IdListContext(vec![7])));
    assert_eq!(l.0, vec![7]);
    assert_eq!(l.reduce(DropSetAction::Drop).0, Vec::<i32>::new());
}

#[test]
fn event_queue_places_messages_by_id() {
    let ctx = EQMContext(vec![hist(1, next(0)), hist(3, next(0))], HashMap::new());
    let ctx = ctx.reduce(EqmContextAction::Add(hist(5, next(1))));
    assert_eq!(ids(&ctx.0), vec![1, 3, 5]);
    let ctx = ctx.reduce(EqmContextAction::Add(hist(3, next(2))));
    assert_eq!(ids(&ctx.0), vec![1, 3, 5]);
    assert_eq!(ctx.0[1].message.as_ref().unwrap().message, Some(next(2)));
    let ctx = ctx.reduce(EqmContextAction::Connect(vec![hist(2, next(0)), hist(0, next(0)), hist(5, next(4))]));
    assert_eq!(ids(&ctx.0), vec![0, 1, 2, 3, 5]);
    assert_eq!(ctx.0[4].message.as_ref().unwrap().message, Some(next(4)));
    let ctx = ctx.reduce(EqmContextAction::Remove(0));
    assert_eq!(ids(&ctx.0), vec![1, 2, 3, 5]);
    let ctx = ctx.reduce(EqmContextAction::Replace(vec![hist(9, next(0))]));
    assert_eq!(ids(&ctx.0), vec![9]);
    let ctx = ctx.reduce(EqmContextAction::Drop);
    assert!(ctx.0.is_empty());
}

#[test]
fn connecting_keeps_the_last_message_of_each_id() {
    let ctx = EQMContext(vec![hist(1, next(0)), hist(3, next(0))], HashMap::new());
    let ctx = ctx.reduce(EqmContextAction::Connect(vec![hist(3, next(1)), hist(2, next(2)), hist(3, next(3))]));
    assert_eq!(ids(&ctx.0), vec![1, 2, 3]);
    assert_eq!(ctx.0[0].message.as_ref().unwrap().message, Some(next(0)));
    assert_eq!(ctx.0[2].message.as_ref().unwrap().message, Some(next(3)));
}

fn vote(q: i32, uid: i32) -> Message {
    Message::VoteMessage(VoteMessage { author: None, queue_id: q, action_id: 1, mark_type: "Сложность".to_string(), mark: uid })
}

#[test]
fn queue_screens_see_their_messages() {
    let msgs = vec![
        hist(0, vote(0, 1)),
        hist(1, vote(1, 2)),
        hist(2, Message::VerifyMessage(VerifyVoteMessage { target_message_id: 0, verdict: 1 })),
        hist(3, Message::VerifyMessage(VerifyVoteMessage { target_message_id: 1, verdict: 1 })),
        hist(4, Message::Block(Empty {})),
        hist(5, next(1)),
    ];
    assert_eq!(ids(&queue_context_filter(&msgs, 0)), vec![0, 2, 4]);
    assert_eq!(ids(&queue_context_filter(&msgs, 1)), vec![1, 3, 4, 5]);
    assert_eq!(msgs[2].generate_view_id(), "eqhmessage-view-2");
}

#[test]
fn screens_pick_the_latest_relevant_message() {
    let set = |q: i32| Message::SetActiveAction(ActiveActionState { qid: q, ..Default::default() });
    let msgs = vec![
        hist(0, set(0)),
        hist(1, vote(0, 1)),
        hist(2, set(1)),
        hist(3, Message::ClearQueueAction(Id { id: 0 })),
        hist(4, vote(0, 1)),
    ];
    assert_eq!(last_queue_action(&msgs, 0), Some(3));
    assert_eq!(last_queue_action(&msgs, 1), Some(2));
    assert_eq!(last_queue_action(&msgs, 2), None);
    assert_eq!(last_vote_of(&msgs, 1), Some(4));
    assert_eq!(last_vote_of(&msgs, 2), None);
    let roles = vec![Role::Judge(Judge { queue: 0, mark_group: 0 }), Role::Secretary(Empty {}), Role::Watcher(Empty {}), Role::Judge(Judge { queue: 1, mark_group: 1 })];
    assert_eq!(main_role(&roles), Some(Role::Secretary(Empty {})));
    let judges = vec![Role::Judge(Judge { queue: 0, mark_group: 0 }), Role::Judge(Judge { queue: 1, mark_group: 1 })];
    assert_eq!(main_role(&judges), Some(Role::Judge(Judge { queue: 1, mark_group: 1 })));
    assert_eq!(main_role(&vec![]), None);
}
