//! Judgement schemes and the names of the protocol enumerations.
use vstd::prelude::*;

use crate::proto::{CompStatus, Gender, JudgeScheme, Message, ModDeclarationCommand, Role, Verification};
use crate::text::{str_eq, string_eq_str};

verus! {

/// Name of judgement group 0 (execution).
pub open spec fn execution_name() -> Seq<char> {
    "Исполнение"@
}

/// Name of judgement group 1 (artistry).
pub open spec fn artistry_name() -> Seq<char> {
    "Артистичность"@
}

/// Name of judgement group 2 (difficulty).
pub open spec fn difficulty_name() -> Seq<char> {
    "Сложность"@
}

/// The name of judgement group `g`, when `g` is one of the three groups.
pub open spec fn group_name(g: int) -> Option<Seq<char>> {
    if g == 0 {
        Some(execution_name())
    } else if g == 1 {
        Some(artistry_name())
    } else if g == 2 {
        Some(difficulty_name())
    } else {
        None
    }
}

/// The judgement group that a name denotes.
pub open spec fn group_id(name: Seq<char>) -> Option<i32> {
    if name == execution_name() {
        Some(0i32)
    } else if name == artistry_name() {
        Some(1i32)
    } else if name == difficulty_name() {
        Some(2i32)
    } else {
        None
    }
}

/// The three group names are pairwise distinct.
pub proof fn lemma_group_names_distinct()
    ensures
        execution_name() != artistry_name(),
        execution_name() != difficulty_name(),
        artistry_name() != difficulty_name(),
{
    reveal_strlit("Исполнение");
    reveal_strlit("Артистичность");
    reveal_strlit("Сложность");
    assert(execution_name().len() != artistry_name().len());
    assert(execution_name()[0] != difficulty_name()[0]);
    assert(artistry_name().len() != difficulty_name().len());
}

/// Naming a group and reading the name back gives the group again, and every
/// recognised name is the name of the group it denotes.
pub proof fn lemma_group_name_id_roundtrip(g: int, name: Seq<char>)
    ensures
        group_name(g) matches Some(n) ==> group_id(n) == Some(g as i32),
        group_id(name) matches Some(i) ==> group_name(i as int) == Some(name),
{
    lemma_group_names_distinct();
}

/// Group sizes of a scheme: how many judges mark in each of the three groups.
pub open spec fn scheme_sizes(s: JudgeScheme) -> Seq<i32> {
    match s {
        JudgeScheme::FourFourTwo => seq![4i32, 4i32, 2i32],
        JudgeScheme::SixSixTwo => seq![6i32, 6i32, 2i32],
        JudgeScheme::FourFourOne => seq![4i32, 4i32, 1i32],
    }
}

/// The scheme with the given wire number.
pub open spec fn scheme_from_code(code: i32) -> Option<JudgeScheme> {
    if code == 0 {
        Some(JudgeScheme::FourFourOne)
    } else if code == 1 {
        Some(JudgeScheme::FourFourTwo)
    } else if code == 2 {
        Some(JudgeScheme::SixSixTwo)
    } else {
        None
    }
}

pub open spec fn scheme_code(s: JudgeScheme) -> i32 {
    match s {
        JudgeScheme::FourFourOne => 0,
        JudgeScheme::FourFourTwo => 1,
        JudgeScheme::SixSixTwo => 2,
    }
}

fn zeros(n: usize) -> (r: Vec<i32>)
    ensures
        r@ == Seq::new(n as nat, |i: int| 0i32),
{
    let mut v: Vec<i32> = Vec::new();
    while v.len() < n
        invariant
            v@.len() <= n,
            forall|i: int| 0 <= i < v@.len() ==> v@[i] == 0i32,
        decreases n - v@.len(),
    {
        v.push(0);
    }
    assert(v@ =~= Seq::new(n as nat, |i: int| 0i32));
    v
}

impl JudgeScheme {
    /// The scheme with the given wire number, if there is one.
    pub fn try_from_code(code: i32) -> (r: Option<JudgeScheme>)
        ensures
            r == scheme_from_code(code),
    {
        if code == 0 {
            Some(JudgeScheme::FourFourOne)
        } else if code == 1 {
            Some(JudgeScheme::FourFourTwo)
        } else if code == 2 {
            Some(JudgeScheme::SixSixTwo)
        } else {
            None
        }
    }

    /// The scheme with the given wire number; an unknown number reads as the
    /// default scheme.
    pub fn from_code_or_default(code: i32) -> (r: JudgeScheme)
        ensures
            r == (match scheme_from_code(code) {
                Some(s) => s,
                None => JudgeScheme::FourFourOne,
            }),
    {
        match JudgeScheme::try_from_code(code) {
            Some(s) => s,
            None => JudgeScheme::FourFourOne,
        }
    }

    /// The wire number of the scheme.
    pub fn code(&self) -> (r: i32)
        ensures
            r == scheme_code(*self),
    {
        match self {
            JudgeScheme::FourFourOne => 0,
            JudgeScheme::FourFourTwo => 1,
            JudgeScheme::SixSixTwo => 2,
        }
    }

    /// The name of judgement group `quid`; groups are the same in every scheme.
    pub fn get_judgement_group_name(&self, quid: i32) -> (r: Result<String, ()>)
        ensures
            match group_name(quid as int) {
                Some(n) => r matches Ok(s) && s@ == n,
                None => r is Err,
            },
    {
        if quid == 0 {
            Ok("Исполнение".to_owned())
        } else if quid == 1 {
            Ok("Артистичность".to_owned())
        } else if quid == 2 {
            Ok("Сложность".to_owned())
        } else {
            Err(())
        }
    }

    /// The judgement group that `quid` names.
    pub fn get_judgement_group_id(&self, quid: String) -> (r: Result<i32, ()>)
        ensures
            match group_id(quid@) {
                Some(i) => r == Ok::<i32, ()>(i),
                None => r is Err,
            },
    {
        if string_eq_str(&quid, "Исполнение") {
            Ok(0)
        } else if string_eq_str(&quid, "Артистичность") {
            Ok(1)
        } else if string_eq_str(&quid, "Сложность") {
            Ok(2)
        } else {
            Err(())
        }
    }

    /// One zero per judge, grouped by judgement group.
    pub fn get_vec(&self) -> (r: Vec<Vec<i32>>)
        ensures
            r@.len() == 3,
            forall|g: int|
                0 <= g < 3 ==> #[trigger] r@[g]@ == Seq::new(
                    scheme_sizes(*self)[g] as nat,
                    |i: int| 0i32,
                ),
    {
        let sizes = self.get_lens();
        let mut out: Vec<Vec<i32>> = Vec::new();
        let mut g: usize = 0;
        while g < 3
            invariant
                g <= 3,
                sizes@ == scheme_sizes(*self),
                out@.len() == g,
                forall|k: int|
                    0 <= k < g ==> #[trigger] out@[k]@ == Seq::new(
                        scheme_sizes(*self)[k] as nat,
                        |i: int| 0i32,
                    ),
            decreases 3 - g,
        {
            out.push(zeros(sizes[g] as usize));
            g = g + 1;
        }
        out
    }

    /// The number of judges in each judgement group.
    pub fn get_lens(&self) -> (r: Vec<i32>)
        ensures
            r@ == scheme_sizes(*self),
    {
        let r = match self {
            JudgeScheme::FourFourTwo => vec![4, 4, 2],
            JudgeScheme::SixSixTwo => vec![6, 6, 2],
            JudgeScheme::FourFourOne => vec![4, 4, 1],
        };
        assert(r@ =~= scheme_sizes(*self));
        r
    }

    /// The number of judges in each judgement group.
    pub fn sizes(&self) -> (r: Vec<i32>)
        ensures
            r@ == scheme_sizes(*self),
    {
        self.get_lens()
    }

    /// The name of the scheme in the protocol definition.
    pub fn as_str_name(&self) -> (r: &'static str)
        ensures
            r@ == (match *self {
                JudgeScheme::FourFourOne => "FourFourOne"@,
                JudgeScheme::FourFourTwo => "FourFourTwo"@,
                JudgeScheme::SixSixTwo => "SixSixTwo"@,
            }),
    {
        match self {
            JudgeScheme::FourFourOne => "FourFourOne",
            JudgeScheme::FourFourTwo => "FourFourTwo",
            JudgeScheme::SixSixTwo => "SixSixTwo",
        }
    }

    /// The scheme that a protocol name denotes.
    pub fn from_str_name(value: &str) -> (r: Option<JudgeScheme>)
        ensures
            r == (if value@ == "FourFourOne"@ {
                Some(JudgeScheme::FourFourOne)
            } else if value@ == "FourFourTwo"@ {
                Some(JudgeScheme::FourFourTwo)
            } else if value@ == "SixSixTwo"@ {
                Some(JudgeScheme::SixSixTwo)
            } else {
                None
            }),
    {
        if str_eq(value, "FourFourOne") {
            Some(JudgeScheme::FourFourOne)
        } else if str_eq(value, "FourFourTwo") {
            Some(JudgeScheme::FourFourTwo)
        } else if str_eq(value, "SixSixTwo") {
            Some(JudgeScheme::SixSixTwo)
        } else {
            None
        }
    }
}

impl Gender {
    /// The name of the gender in the protocol definition.
    pub fn as_str_name(&self) -> (r: &'static str)
        ensures
            r@ == (match *self {
                Gender::Unknown => "Unknown"@,
                Gender::Male => "Male"@,
                Gender::Female => "Female"@,
            }),
    {
        match self {
            Gender::Unknown => "Unknown",
            Gender::Male => "Male",
            Gender::Female => "Female",
        }
    }

    /// The gender that a protocol name denotes.
    pub fn from_str_name(value: &str) -> (r: Option<Gender>)
        ensures
            r == (if value@ == "Unknown"@ {
                Some(Gender::Unknown)
            } else if value@ == "Male"@ {
                Some(Gender::Male)
            } else if value@ == "Female"@ {
                Some(Gender::Female)
            } else {
                None
            }),
    {
        if str_eq(value, "Unknown") {
            Some(Gender::Unknown)
        } else if str_eq(value, "Male") {
            Some(Gender::Male)
        } else if str_eq(value, "Female") {
            Some(Gender::Female)
        } else {
            None
        }
    }

    /// The wire number of the gender.
    pub fn code(&self) -> (r: i32)
        ensures
            r == (match *self {
                Gender::Unknown => 0i32,
                Gender::Male => 1i32,
                Gender::Female => 2i32,
            }),
    {
        match self {
            Gender::Unknown => 0,
            Gender::Male => 1,
            Gender::Female => 2,
        }
    }

    /// One-letter Russian abbreviation of the gender.
    pub fn into_rus_flag(&self) -> (r: &'static str)
        ensures
            r@ == (match *self {
                Gender::Unknown => "?"@,
                Gender::Male => "м"@,
                Gender::Female => "ж"@,
            }),
    {
        match self {
            Gender::Unknown => "?",
            Gender::Male => "м",
            Gender::Female => "ж",
        }
    }
}

impl ModDeclarationCommand {
    /// The name of the command in the protocol definition.
    pub fn as_str_name(&self) -> (r: &'static str)
        ensures
            r@ == (match *self {
                ModDeclarationCommand::Delete => "Delete"@,
                ModDeclarationCommand::RemakeTempPwds => "Remake_temp_pwds"@,
            }),
    {
        match self {
            ModDeclarationCommand::Delete => "Delete",
            ModDeclarationCommand::RemakeTempPwds => "Remake_temp_pwds",
        }
    }

    /// The command that a protocol name denotes.
    pub fn from_str_name(value: &str) -> (r: Option<ModDeclarationCommand>)
        ensures
            r == (if value@ == "Delete"@ {
                Some(ModDeclarationCommand::Delete)
            } else if value@ == "Remake_temp_pwds"@ {
                Some(ModDeclarationCommand::RemakeTempPwds)
            } else {
                None
            }),
    {
        if str_eq(value, "Delete") {
            Some(ModDeclarationCommand::Delete)
        } else if str_eq(value, "Remake_temp_pwds") {
            Some(ModDeclarationCommand::RemakeTempPwds)
        } else {
            None
        }
    }

    /// The command with the given wire number.
    pub fn try_from_code(code: i32) -> (r: Option<ModDeclarationCommand>)
        ensures
            r == (if code == 0 {
                Some(ModDeclarationCommand::Delete)
            } else if code == 1 {
                Some(ModDeclarationCommand::RemakeTempPwds)
            } else {
                None
            }),
    {
        if code == 0 {
            Some(ModDeclarationCommand::Delete)
        } else if code == 1 {
            Some(ModDeclarationCommand::RemakeTempPwds)
        } else {
            None
        }
    }
}

pub open spec fn status_from_code(code: i32) -> Option<CompStatus> {
    if code == 0 {
        Some(CompStatus::Declaration)
    } else if code == 1 {
        Some(CompStatus::Registration)
    } else if code == 2 {
        Some(CompStatus::Waiting)
    } else if code == 3 {
        Some(CompStatus::Running)
    } else if code == 4 {
        Some(CompStatus::Completed)
    } else if code == 5 {
        Some(CompStatus::Unknown)
    } else {
        None
    }
}

impl CompStatus {
    /// The name of the status in the protocol definition.
    pub fn as_str_name(&self) -> (r: &'static str)
        ensures
            r@ == (match *self {
                CompStatus::Declaration => "Declaration"@,
                CompStatus::Registration => "Registration"@,
                CompStatus::Waiting => "Waiting"@,
                CompStatus::Running => "Running"@,
                CompStatus::Completed => "Completed"@,
                CompStatus::Unknown => "Unknown"@,
            }),
    {
        match self {
            CompStatus::Declaration => "Declaration",
            CompStatus::Registration => "Registration",
            CompStatus::Waiting => "Waiting",
            CompStatus::Running => "Running",
            CompStatus::Completed => "Completed",
            CompStatus::Unknown => "Unknown",
        }
    }

    /// The status that a protocol name denotes.
    pub fn from_str_name(value: &str) -> (r: Option<CompStatus>)
        ensures
            r == (if value@ == "Declaration"@ {
                Some(CompStatus::Declaration)
            } else if value@ == "Registration"@ {
                Some(CompStatus::Registration)
            } else if value@ == "Waiting"@ {
                Some(CompStatus::Waiting)
            } else if value@ == "Running"@ {
                Some(CompStatus::Running)
            } else if value@ == "Completed"@ {
                Some(CompStatus::Completed)
            } else if value@ == "Unknown"@ {
                Some(CompStatus::Unknown)
            } else {
                None
            }),
    {
        if str_eq(value, "Declaration") {
            Some(CompStatus::Declaration)
        } else if str_eq(value, "Registration") {
            Some(CompStatus::Registration)
        } else if str_eq(value, "Waiting") {
            Some(CompStatus::Waiting)
        } else if str_eq(value, "Running") {
            Some(CompStatus::Running)
        } else if str_eq(value, "Completed") {
            Some(CompStatus::Completed)
        } else if str_eq(value, "Unknown") {
            Some(CompStatus::Unknown)
        } else {
            None
        }
    }

    /// The status with the given wire number.
    pub fn try_from_code(code: i32) -> (r: Option<CompStatus>)
        ensures
            r == status_from_code(code),
    {
        if code == 0 {
            Some(CompStatus::Declaration)
        } else if code == 1 {
            Some(CompStatus::Registration)
        } else if code == 2 {
            Some(CompStatus::Waiting)
        } else if code == 3 {
            Some(CompStatus::Running)
        } else if code == 4 {
            Some(CompStatus::Completed)
        } else if code == 5 {
            Some(CompStatus::Unknown)
        } else {
            None
        }
    }

    /// The wire number of the status.
    pub fn code(&self) -> (r: i32)
        ensures
            status_from_code(r) == Some(*self),
    {
        match self {
            CompStatus::Declaration => 0,
            CompStatus::Registration => 1,
            CompStatus::Waiting => 2,
            CompStatus::Running => 3,
            CompStatus::Completed => 4,
            CompStatus::Unknown => 5,
        }
    }
}

pub open spec fn verification_from_code(code: i32) -> Option<Verification> {
    if code == 0 {
        Some(Verification::NotChecked)
    } else if code == 1 {
        Some(Verification::Approve)
    } else if code == 2 {
        Some(Verification::Block)
    } else {
        None
    }
}

pub open spec fn verification_code(v: Verification) -> i32 {
    match v {
        Verification::NotChecked => 0,
        Verification::Approve => 1,
        Verification::Block => 2,
    }
}

impl Verification {
    /// The wire number of the verdict.
    pub fn code(&self) -> (r: i32)
        ensures
            r == verification_code(*self),
    {
        match self {
            Verification::NotChecked => 0,
            Verification::Approve => 1,
            Verification::Block => 2,
        }
    }

    /// The verdict with the given wire number; an unknown number reads as the
    /// default verdict, `NotChecked`.
    pub fn from_code_or_default(code: i32) -> (r: Verification)
        ensures
            r == (match verification_from_code(code) {
                Some(v) => v,
                None => Verification::NotChecked,
            }),
    {
        if code == 1 {
            Verification::Approve
        } else if code == 2 {
            Verification::Block
        } else {
            Verification::NotChecked
        }
    }
}

impl Message {
    /// A short Russian description of the kind of message.
    pub fn represent(&self) -> (r: &'static str)
        ensures
            r@ == (match *self {
                Message::VoteMessage(_) => "Оценка"@,
                Message::VerifyMessage(_) => "Подтверждение оценки"@,
                Message::FixVoting(_) => "Закрытие голосования за участника"@,
                Message::TryNext(_) => "Переход к следеющему участнику"@,
                Message::Block(_) => "Перевод соревнования в режим ожидания"@,
                Message::SetActiveAction(_) => "Обновление активного выступления"@,
                Message::ClearQueueAction(_) => "Очистка активного выступления"@,
                Message::FinesSetup(_) => "Сбавки"@,
            }),
    {
        match self {
            Message::VoteMessage(_) => "Оценка",
            Message::VerifyMessage(_) => "Подтверждение оценки",
            Message::FixVoting(_) => "Закрытие голосования за участника",
            Message::TryNext(_) => "Переход к следеющему участнику",
            Message::Block(_) => "Перевод соревнования в режим ожидания",
            Message::SetActiveAction(_) => "Обновление активного выступления",
            Message::ClearQueueAction(_) => "Очистка активного выступления",
            Message::FinesSetup(_) => "Сбавки",
        }
    }
}

pub open spec fn role_weight(r: Role) -> i32 {
    match r {
        Role::Moderator(_) => 4,
        Role::Secretary(_) => 3,
        Role::Arbitor(_) => 2,
        Role::Judge(_) => 1,
        Role::Watcher(_) => 0,
    }
}

impl Role {
    /// Rank of the role: the higher, the more the role may do.
    pub fn weight(&self) -> (r: i32)
        ensures
            r == role_weight(*self),
    {
        match self {
            Role::Moderator(_) => 4,
            Role::Secretary(_) => 3,
            Role::Arbitor(_) => 2,
            Role::Judge(_) => 1,
            Role::Watcher(_) => 0,
        }
    }
}

} // verus!
