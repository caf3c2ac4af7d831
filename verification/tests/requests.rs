use comsys::errors::CompError;
use comsys::participants::{parce_naive_struct, SheetError};
use comsys::proto::{CompDeclaration, ModDeclarationCommand, Token};
use comsys::requests::{
    auth_header_value, authentication_outcome, merge_ids, registration_allowed, requested_modification, AuthCheckError, Command,
    ModCompDeclarationRequest,
};
use comsys::sheet::merged_cleaner;
use comsys::user_context::{Context, ContextAction};

#[test]
fn id_lists_merge_without_repeats() {
    assert_eq!(merge_ids(&vec![3, 1, 3], &vec![2, 1, 4, 2]), vec![3, 1, 2, 4]);
    assert_eq!(merge_ids(&vec![], &vec![]), Vec::<i32>::new());
    assert_eq!(merge_ids(&vec![], &vec![5, 5]), vec![5]);
    assert_eq!(merge_ids(&vec![7, 8], &vec![]), vec![7, 8]);
}

#[test]
fn only_deletion_is_carried_out() {
    let req = |command| ModCompDeclarationRequest { comp_id: 1, command };
    assert_eq!(requested_modification(&req(Some(Command::SingleCommand(0)))), Ok(ModDeclarationCommand::Delete));
    assert_eq!(requested_modification(&req(Some(Command::SingleCommand(1)))), Err(CompError::UnsupportedMessage));
    assert_eq!(requested_modification(&req(Some(Command::SingleCommand(9)))), Err(CompError::UnsupportedMessage));
    assert_eq!(requested_modification(&req(None)), Err(CompError::UnsupportedMessage));
    assert_eq!(
        requested_modification(&req(Some(Command::Redeclare(CompDeclaration::default())))),
        Err(CompError::UnsupportedMessage)
    );
}

#[test]
fn clients_send_their_auth_token_or_zero() {
    let ctx = Context::default();
    assert_eq!(auth_header_value(&ctx), "0");
    let ctx = ctx.reduce(ContextAction::SetupAuth(Token { value: "tok".to_string(), token_type: Some(1) }));
    assert_eq!(auth_header_value(&ctx), "tok");
    let ctx = ctx.reduce(ContextAction::DropAuth);
    assert_eq!(auth_header_value(&ctx), "0");
}

#[test]
fn authentication_checks_in_order() {
    assert_eq!(authentication_outcome(false, false, false), Err(AuthCheckError::NeedAuth));
    assert_eq!(authentication_outcome(false, true, true), Err(AuthCheckError::NeedAuth));
    assert_eq!(authentication_outcome(true, false, true), Err(AuthCheckError::InvalidHeader));
    assert_eq!(authentication_outcome(true, true, false), Err(AuthCheckError::WrongToken));
    assert_eq!(authentication_outcome(true, true, true), Ok(()));
}

#[test]
fn merged_ranges_copy_their_top_left_cell() {
    assert_eq!(
        merged_cleaner(&vec![(2, 5, 3, 6)]),
        vec![(2, 5, 2, 5), (2, 6, 2, 5), (3, 5, 2, 5), (3, 6, 2, 5)]
    );
    assert_eq!(merged_cleaner(&vec![(1, 1, 1, 1), (4, 2, 4, 3)]), vec![(1, 1, 1, 1), (4, 2, 4, 2), (4, 3, 4, 2)]);
    assert_eq!(merged_cleaner(&vec![(3, 3, 2, 2)]), vec![]);
    assert_eq!(merged_cleaner(&vec![]), vec![]);
}

fn strings(v: &[&str]) -> Vec<String> {
    v.iter().map(|s| s.to_string()).collect()
}

fn cells(v: &[Option<&str>]) -> Vec<Option<String>> {
    v.iter().map(|c| c.map(|s| s.to_string())).collect()
}

#[test]
fn naive_rows_become_participants() {
    let head = strings(&["ID", "ФИО", "Пол", "Дата рождения"]);
    let rows = vec![
        cells(&[Some("1"), Some("Анна"), Some("ж"), Some("25567")]),
        cells(&[Some("2"), Some("Олег"), Some("м"), None]),
    ];
    let ps = parce_naive_struct(&head, &rows).unwrap();
    assert_eq!(ps.len(), 2);
    assert_eq!(ps[1].uid, 2);
    assert_eq!(ps[1].gender, 1);
    assert_eq!(ps[1].birthdate, ps[0].birthdate);
    let bad = vec![cells(&[Some("1"), Some("a"), Some("ж"), Some("1")]), cells(&[Some("z"), None, None, None])];
    assert_eq!(parce_naive_struct(&head, &bad), Err(SheetError::BadNumber));
    assert_eq!(parce_naive_struct(&head, &vec![cells(&[Some("1"), Some("a")])]), Err(SheetError::ShortRow));
    assert_eq!(parce_naive_struct(&head, &vec![]), Ok(vec![]));
}

#[test]
fn registration_needs_the_password_twice() {
    assert!(registration_allowed("secret", "secret"));
    assert!(!registration_allowed("secret", "Secret"));
    assert!(!registration_allowed("secret", "secret "));
    assert!(registration_allowed("", ""));
}
