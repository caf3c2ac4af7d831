use comsys::errors::{Code, CompError};
use comsys::parse::{parse_i32, parse_u64};
use comsys::proto::{
    CompStatus, Empty, Gender, Id, Judge, JudgeScheme, Message, ModDeclarationCommand, Role,
    TryNext, Verification,
};
use comsys::text::{i64_to_string, split_char, str_eq, string_eq_str, trim_text};
use comsys::tokens::{holds_id, same_ids, AccessType, PermissionComparator, Permissions};

#[test]
fn split_keeps_empty_pieces() {
    assert_eq!(split_char("a,b,,c", ','), vec!["a", "b", "", "c"]);
    assert_eq!(split_char("", ','), vec![""]);
    assert_eq!(split_char("abc", ','), vec!["abc"]);
    assert_eq!(split_char(",", ','), vec!["", ""]);
}

#[test]
fn integers_are_written_in_decimal() {
    assert_eq!(i64_to_string(0), "0");
    assert_eq!(i64_to_string(1024), "1024");
    assert_eq!(i64_to_string(-17), "-17");
    assert_eq!(i64_to_string(i64::MIN), "-9223372036854775808");
}

#[test]
fn string_comparisons() {
    assert!(str_eq("abc", "abc"));
    assert!(!str_eq("abc", "abd"));
    assert!(string_eq_str(&"x".to_string(), "x"));
    assert!(!string_eq_str(&"x".to_string(), "xy"));
}

#[test]
fn parse_reads_like_std() {
    for s in ["0", "42", "-42", "+7", "2147483647", "-2147483648", "2147483648", "", "-", "+", "1a", " 1", "--1"] {
        assert_eq!(parse_i32(s), s.parse::<i32>().ok(), "{}", s);
    }
    for s in ["0", "18446744073709551615", "18446744073709551616", "+5", "-5", "", "12x"] {
        assert_eq!(parse_u64(s), s.parse::<u64>().ok(), "{}", s);
    }
}

#[test]
fn judge_schemes() {
    assert_eq!(JudgeScheme::try_from_code(0), Some(JudgeScheme::FourFourOne));
    assert_eq!(JudgeScheme::try_from_code(1), Some(JudgeScheme::FourFourTwo));
    assert_eq!(JudgeScheme::try_from_code(2), Some(JudgeScheme::SixSixTwo));
    assert_eq!(JudgeScheme::try_from_code(3), None);
    assert_eq!(JudgeScheme::from_code_or_default(9), JudgeScheme::FourFourOne);
    assert_eq!(JudgeScheme::SixSixTwo.code(), 2);
    assert_eq!(JudgeScheme::SixSixTwo.sizes(), vec![6, 6, 2]);
    assert_eq!(JudgeScheme::FourFourTwo.get_lens(), vec![4, 4, 2]);
    assert_eq!(JudgeScheme::FourFourOne.get_vec(), vec![vec![0; 4], vec![0; 4], vec![0; 1]]);
    assert_eq!(JudgeScheme::FourFourOne.get_judgement_group_name(0), Ok("Исполнение".to_string()));
    assert_eq!(JudgeScheme::FourFourOne.get_judgement_group_name(1), Ok("Артистичность".to_string()));
    assert_eq!(JudgeScheme::FourFourOne.get_judgement_group_name(2), Ok("Сложность".to_string()));
    assert_eq!(JudgeScheme::FourFourOne.get_judgement_group_name(3), Err(()));
    assert_eq!(JudgeScheme::SixSixTwo.get_judgement_group_id("Сложность".to_string()), Ok(2));
    assert_eq!(JudgeScheme::SixSixTwo.get_judgement_group_id("Другое".to_string()), Err(()));
    assert_eq!(JudgeScheme::SixSixTwo.as_str_name(), "SixSixTwo");
    assert_eq!(JudgeScheme::from_str_name("FourFourTwo"), Some(JudgeScheme::FourFourTwo));
    assert_eq!(JudgeScheme::from_str_name("four"), None);
}

#[test]
fn enum_names_and_codes() {
    assert_eq!(Gender::Female.as_str_name(), "Female");
    assert_eq!(Gender::from_str_name("Male"), Some(Gender::Male));
    assert_eq!(Gender::Male.into_rus_flag(), "м");
    assert_eq!(Gender::Unknown.into_rus_flag(), "?");
    assert_eq!(CompStatus::Running.as_str_name(), "Running");
    assert_eq!(CompStatus::from_str_name("Completed"), Some(CompStatus::Completed));
    assert_eq!(CompStatus::try_from_code(3), Some(CompStatus::Running));
    assert_eq!(CompStatus::try_from_code(6), None);
    assert_eq!(ModDeclarationCommand::RemakeTempPwds.as_str_name(), "Remake_temp_pwds");
    assert_eq!(ModDeclarationCommand::try_from_code(0), Some(ModDeclarationCommand::Delete));
    assert_eq!(Verification::from_code_or_default(1), Verification::Approve);
    assert_eq!(Verification::from_code_or_default(7), Verification::NotChecked);
    assert_eq!(Verification::Block.code(), 2);
}

#[test]
fn messages_and_roles_read_as_text_and_rank() {
    assert_eq!(Message::TryNext(TryNext { queue_id: 0 }).represent(), "Переход к следеющему участнику");
    assert_eq!(Message::Block(Empty {}).represent(), "Перевод соревнования в режим ожидания");
    assert_eq!(Role::Moderator(Empty {}).weight(), 4);
    assert_eq!(Role::Secretary(Empty {}).weight(), 3);
    assert_eq!(Role::Arbitor(Id { id: 1 }).weight(), 2);
    assert_eq!(Role::Judge(Judge { queue: 0, mark_group: 1 }).weight(), 1);
    assert_eq!(Role::Watcher(Empty {}).weight(), 0);
}

#[test]
fn errors_carry_status_codes() {
    assert_eq!(CompError::AlreadyRunned.code(), Code::AlreadyExists);
    assert_eq!(CompError::PermissionDenied.code(), Code::PermissionDenied);
    assert_eq!(CompError::VotingFull.message(), "Voting is full");
    assert_eq!(CompError::UnsupportedMessage.code(), Code::Unimplemented);
}

#[test]
fn access_lists_cover_their_subsets() {
    let all: AccessType<i32> = AccessType::All;
    let l12 = AccessType::List(vec![1, 2]);
    let l2 = AccessType::List(vec![2]);
    let l3 = AccessType::List(vec![3]);
    assert!(all.contains(&l12));
    assert!(all.contains(&AccessType::All));
    assert!(!l12.contains(&AccessType::All));
    assert!(l12.contains(&l2));
    assert!(!l12.contains(&l3));
    assert!(l12.contains(&AccessType::List(vec![])));
    assert!(l2.same_as(&AccessType::List(vec![2])));
    assert!(!l2.same_as(&l12));
    assert!(same_ids(&vec![1, 2], &vec![1, 2]));
    assert!(!same_ids(&vec![1, 2], &vec![2, 1]));
    assert!(holds_id(&vec![5, 6], 6));
}

#[test]
fn permission_comparator_grants() {
    let held = PermissionComparator(vec![
        Permissions::Moderator(AccessType::List(vec![4, 5])),
        Permissions::Judge(4, 0, 1),
        Permissions::Secretary(7),
    ]);
    assert!(held.contains(&Permissions::Moderator(AccessType::List(vec![5]))));
    assert!(!held.contains(&Permissions::Moderator(AccessType::List(vec![6]))));
    assert!(!held.contains(&Permissions::Moderator(AccessType::All)));
    assert!(held.contains(&Permissions::Judge(4, 0, 1)));
    assert!(!held.contains(&Permissions::Judge(4, 0, 2)));
    assert!(held.contains(&Permissions::Secretary(7)));
    assert!(!held.contains(&Permissions::Administrate));
    assert!(!held.contains(&Permissions::Create));
    assert_eq!(Permissions::Secretary(1).to_string(), "Secreatary");
    assert_eq!(Permissions::Arbitor(1, 2).to_string(), "Arbitor");
    assert!(Permissions::Judge(1, 2, 3).same_as(&Permissions::Judge(1, 2, 3)));
    assert!(!Permissions::Judge(1, 2, 3).same_as(&Permissions::Arbitor(1, 2)));
}

#[test]
fn trimming_drops_white_space_at_both_ends() {
    for s in ["  a b  ", "\t\n x\u{3000}", "\u{85}\u{a0}y\u{2028}", "", "   ", "no-space", " \u{200b}z "] {
        assert_eq!(trim_text(s), s.trim());
    }
    assert_eq!(trim_text(" Иван Петров \n"), "Иван Петров");
}
