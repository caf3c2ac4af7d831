//! Plain data types exchanged between the competition server and its clients.
use std::collections::HashMap;
use vstd::prelude::*;

use crate::replicate::Replicate;

verus! {

// ---------------------------------------------------------------------------
// generic
// ---------------------------------------------------------------------------

/// A point in time: seconds and nanoseconds since the Unix epoch.
#[derive(Clone, Copy, Debug, PartialEq, Eq, Structural, Default)]
pub struct Timestamp {
    pub seconds: i64,
    pub nanos: i32,
}

#[derive(Clone, Copy, Debug, PartialEq, Eq, Structural, Default)]
pub struct DatePair {
    pub begins: Option<Timestamp>,
    pub ends: Option<Timestamp>,
}

#[derive(Clone, Copy, Debug, PartialEq, Eq, Structural, Default)]
pub struct Id {
    pub id: i32,
}

#[derive(Clone, Copy, Debug, PartialEq, Eq, Structural, Default)]
pub struct Empty {}

// ---------------------------------------------------------------------------
// auth
// ---------------------------------------------------------------------------

#[derive(Clone, Copy, Debug, PartialEq, Eq, Structural)]
pub enum TokenType {
    Access,
    Auth,
}

impl TokenType {
    pub open spec fn spec_code(self) -> i32 {
        match self {
            TokenType::Access => 0,
            TokenType::Auth => 1,
        }
    }

    /// The wire number of the token type.
    pub fn code(&self) -> (r: i32)
        ensures
            r == self.spec_code(),
    {
        match self {
            TokenType::Access => 0,
            TokenType::Auth => 1,
        }
    }
}

#[derive(Clone, Debug, PartialEq, Default)]
pub struct Token {
    pub value: String,
    pub token_type: Option<i32>,
}

#[derive(Clone, Debug, PartialEq, Default)]
pub struct AuthRequest {
    pub login: String,
    pub password: String,
}

#[derive(Clone, Debug, PartialEq, Default)]
pub struct UserView {
    pub uid: i32,
    pub login: String,
    pub selfname: String,
}

pub struct UserViewModel {
    pub uid: i32,
    pub login: Seq<char>,
    pub selfname: Seq<char>,
}

impl DeepView for UserView {
    type V = UserViewModel;

    open spec fn deep_view(&self) -> UserViewModel {
        UserViewModel { uid: self.uid, login: self.login@, selfname: self.selfname@ }
    }
}

impl Replicate for UserView {
    fn replicate(&self) -> (r: Self) {
        UserView { uid: self.uid, login: self.login.clone(), selfname: self.selfname.clone() }
    }
}

// ---------------------------------------------------------------------------
// comp
// ---------------------------------------------------------------------------

#[derive(Clone, Copy, Debug, PartialEq, Eq, Structural, Default)]
pub enum Gender {
    #[default]
    Unknown,
    Male,
    Female,
}

#[derive(Clone, Debug, PartialEq, Default)]
pub struct Participant {
    pub uid: i32,
    pub name: String,
    pub gender: i32,
    pub birthdate: Option<Timestamp>,
    pub extra_personal: Vec<String>,
}

#[derive(Clone, Debug, PartialEq, Default)]
pub struct EasyParticipant {
    pub name: String,
    pub extra_personal: Vec<String>,
}

pub struct EasyParticipantModel {
    pub name: Seq<char>,
    pub extra_personal: Seq<Seq<char>>,
}

impl DeepView for EasyParticipant {
    type V = EasyParticipantModel;

    open spec fn deep_view(&self) -> EasyParticipantModel {
        EasyParticipantModel { name: self.name@, extra_personal: self.extra_personal.deep_view() }
    }
}

impl Replicate for EasyParticipant {
    fn replicate(&self) -> (r: Self) {
        EasyParticipant { name: self.name.clone(), extra_personal: self.extra_personal.replicate() }
    }
}

#[derive(Clone, Debug, PartialEq, Default)]
pub struct Team {
    /// team id, local to a competition
    pub tid: i32,
    /// nomination title
    pub nom: String,
    /// organisation presenting the team
    pub organisation: String,
    pub participants: Vec<EasyParticipant>,
}

pub struct TeamModel {
    pub tid: i32,
    pub nom: Seq<char>,
    pub organisation: Seq<char>,
    pub participants: Seq<EasyParticipantModel>,
}

impl DeepView for Team {
    type V = TeamModel;

    open spec fn deep_view(&self) -> TeamModel {
        TeamModel {
            tid: self.tid,
            nom: self.nom@,
            organisation: self.organisation@,
            participants: self.participants.deep_view(),
        }
    }
}

impl Replicate for Team {
    fn replicate(&self) -> (r: Self) {
        Team {
            tid: self.tid,
            nom: self.nom.clone(),
            organisation: self.organisation.clone(),
            participants: self.participants.replicate(),
        }
    }
}

#[derive(Clone, Debug, PartialEq, Default)]
pub struct NominationDeclaration {
    pub title: String,
    /// action id -> team
    pub teams: HashMap<i32, Team>,
    /// order of performances, by team id
    pub inner_queue: Vec<i32>,
}

pub struct NominationDeclarationModel {
    pub title: Seq<char>,
    pub teams: Map<i32, TeamModel>,
    pub inner_queue: Seq<i32>,
}

pub open spec fn teams_model(m: Map<i32, Team>) -> Map<i32, TeamModel> {
    m.map_values(|t: Team| t.deep_view())
}

impl DeepView for NominationDeclaration {
    type V = NominationDeclarationModel;

    open spec fn deep_view(&self) -> NominationDeclarationModel {
        NominationDeclarationModel {
            title: self.title@,
            teams: teams_model(self.teams@),
            inner_queue: self.inner_queue@,
        }
    }
}

#[derive(Clone, Debug, PartialEq, Default)]
pub struct CompetitionQueue {
    pub id: i32,
    pub nomination_list: Vec<NominationDeclaration>,
}

pub struct CompetitionQueueModel {
    pub id: i32,
    pub nomination_list: Seq<NominationDeclarationModel>,
}

impl DeepView for CompetitionQueue {
    type V = CompetitionQueueModel;

    open spec fn deep_view(&self) -> CompetitionQueueModel {
        CompetitionQueueModel { id: self.id, nomination_list: self.nomination_list.deep_view() }
    }
}

#[derive(Clone, Debug, PartialEq, Default)]
pub struct CompDeclaration {
    pub title: String,
    pub public: bool,
    pub related_organisation_id: i32,
    pub dates: Option<DatePair>,
    pub place: Option<String>,
    pub descr: Option<String>,
    pub scheme: i32,
    pub queues: Vec<CompetitionQueue>,
}

#[derive(Clone, Debug, PartialEq, Default)]
pub struct Pack {
    pub mark: String,
    pub logins: Vec<AuthRequest>,
}

#[derive(Clone, Debug, PartialEq, Default)]
pub struct PasswordPackage {
    pub scheme: i32,
    pub passwords: Vec<Pack>,
}

#[derive(Clone, Copy, Debug, PartialEq, Eq, Structural)]
pub enum ModDeclarationCommand {
    Delete,
    RemakeTempPwds,
}

/// Life cycle of a competition:
/// Declaration -> Waiting -> Registration -> Waiting -> Running -> Completed
#[derive(Clone, Copy, Debug, PartialEq, Eq, Structural)]
pub enum CompStatus {
    Declaration,
    Registration,
    Waiting,
    Running,
    Completed,
    Unknown,
}

#[derive(Clone, Copy, Debug, PartialEq, Eq, Structural, Default)]
pub enum JudgeScheme {
    #[default]
    FourFourOne,
    FourFourTwo,
    SixSixTwo,
}

#[derive(Clone, Debug, PartialEq, Default)]
pub struct CompView {
    pub id: i32,
    pub declaration: Option<CompDeclaration>,
}

// ---------------------------------------------------------------------------
// comp_handler
// ---------------------------------------------------------------------------

#[derive(Clone, Copy, Debug, PartialEq, Eq, Structural, Default)]
pub enum Verification {
    #[default]
    NotChecked,
    Approve,
    Block,
}

#[derive(Clone, Debug, PartialEq, Default)]
pub struct VoteMessage {
    pub author: Option<UserView>,
    pub queue_id: i32,
    pub action_id: i32,
    pub mark_type: String,
    pub mark: i32,
}

pub struct VoteMessageModel {
    pub author: Option<UserViewModel>,
    pub queue_id: i32,
    pub action_id: i32,
    pub mark_type: Seq<char>,
    pub mark: i32,
}

impl DeepView for VoteMessage {
    type V = VoteMessageModel;

    open spec fn deep_view(&self) -> VoteMessageModel {
        VoteMessageModel {
            author: self.author.deep_view(),
            queue_id: self.queue_id,
            action_id: self.action_id,
            mark_type: self.mark_type@,
            mark: self.mark,
        }
    }
}

impl Replicate for VoteMessage {
    fn replicate(&self) -> (r: Self) {
        VoteMessage {
            author: self.author.replicate(),
            queue_id: self.queue_id,
            action_id: self.action_id,
            mark_type: self.mark_type.clone(),
            mark: self.mark,
        }
    }
}

#[derive(Clone, Copy, Debug, PartialEq, Eq, Structural, Default)]
pub struct VerifyVoteMessage {
    pub target_message_id: i32,
    pub verdict: i32,
}

#[derive(Clone, Copy, Debug, PartialEq, Eq, Structural, Default)]
pub struct FixVotingMessage {
    pub queue_id: i32,
    pub verdict: i32,
}

#[derive(Clone, Copy, Debug, PartialEq, Eq, Structural, Default)]
pub struct TryNext {
    pub queue_id: i32,
}

#[derive(Clone, Debug, PartialEq, Default)]
pub struct FinesSetup {
    pub queue_id: i32,
    pub action_id: i32,
    pub fines: Vec<i32>,
}

#[derive(Clone, Copy, Debug, PartialEq, Eq, Structural, Default)]
pub struct VoteView {
    pub message_id: i32,
    pub verifyed: i32,
    pub mark: i32,
}

impl DeepView for VoteView {
    type V = VoteView;

    open spec fn deep_view(&self) -> VoteView {
        *self
    }
}

impl Replicate for VoteView {
    fn replicate(&self) -> (r: Self) {
        *self
    }
}

#[derive(Clone, Debug, PartialEq, Default)]
pub struct VoteList {
    pub votes: Vec<VoteView>,
}

impl DeepView for VoteList {
    type V = Seq<VoteView>;

    open spec fn deep_view(&self) -> Seq<VoteView> {
        self.votes@
    }
}

impl Replicate for VoteList {
    fn replicate(&self) -> (r: Self) {
        let votes = self.votes.replicate();
        assert(votes@ =~= self.votes@) by {
            assert(votes.deep_view() =~= votes@);
            assert(self.votes.deep_view() =~= self.votes@);
        }
        VoteList { votes }
    }
}

/// The state of the action that a queue is judging at the moment.
/// `marks` holds one entry per judgement group, in group order.
#[derive(Clone, Debug, PartialEq, Default)]
pub struct ActiveActionState {
    pub qid: i32,
    pub aid: i32,
    pub team: Option<Team>,
    pub marks: Vec<(String, VoteList)>,
}

pub struct ActiveActionModel {
    pub qid: i32,
    pub aid: i32,
    pub team: Option<TeamModel>,
    pub marks: Seq<(Seq<char>, Seq<VoteView>)>,
}

impl DeepView for ActiveActionState {
    type V = ActiveActionModel;

    open spec fn deep_view(&self) -> ActiveActionModel {
        ActiveActionModel {
            qid: self.qid,
            aid: self.aid,
            team: self.team.deep_view(),
            marks: self.marks.deep_view(),
        }
    }
}

impl Replicate for ActiveActionState {
    fn replicate(&self) -> (r: Self) {
        ActiveActionState {
            qid: self.qid,
            aid: self.aid,
            team: self.team.replicate(),
            marks: self.marks.replicate(),
        }
    }
}

impl FinesSetup {
    pub open spec fn model(&self) -> (i32, i32, Seq<i32>) {
        (self.queue_id, self.action_id, self.fines@)
    }

    pub fn replicate(&self) -> (r: Self)
        ensures
            r.model() == self.model(),
    {
        let fines = self.fines.replicate();
        assert(fines@ =~= self.fines@) by {
            assert(fines.deep_view() =~= fines@);
            assert(self.fines.deep_view() =~= self.fines@);
        }
        FinesSetup { queue_id: self.queue_id, action_id: self.action_id, fines }
    }
}

/// The payload of an event queue message.
#[derive(Clone, Debug, PartialEq)]
pub enum Message {
    VoteMessage(VoteMessage),
    VerifyMessage(VerifyVoteMessage),
    FixVoting(FixVotingMessage),
    TryNext(TryNext),
    Block(Empty),
    SetActiveAction(ActiveActionState),
    ClearQueueAction(Id),
    FinesSetup(FinesSetup),
}

pub enum MessageModel {
    VoteMessage(VoteMessageModel),
    VerifyMessage(VerifyVoteMessage),
    FixVoting(FixVotingMessage),
    TryNext(TryNext),
    Block(Empty),
    SetActiveAction(ActiveActionModel),
    ClearQueueAction(Id),
    FinesSetup((i32, i32, Seq<i32>)),
}

impl DeepView for Message {
    type V = MessageModel;

    open spec fn deep_view(&self) -> MessageModel {
        match self {
            Message::VoteMessage(v) => MessageModel::VoteMessage(v.deep_view()),
            Message::VerifyMessage(v) => MessageModel::VerifyMessage(*v),
            Message::FixVoting(v) => MessageModel::FixVoting(*v),
            Message::TryNext(v) => MessageModel::TryNext(*v),
            Message::Block(v) => MessageModel::Block(*v),
            Message::SetActiveAction(v) => MessageModel::SetActiveAction(v.deep_view()),
            Message::ClearQueueAction(v) => MessageModel::ClearQueueAction(*v),
            Message::FinesSetup(v) => MessageModel::FinesSetup(v.model()),
        }
    }
}

impl Replicate for Message {
    fn replicate(&self) -> (r: Self) {
        match self {
            Message::VoteMessage(v) => Message::VoteMessage(v.replicate()),
            Message::VerifyMessage(v) => Message::VerifyMessage(*v),
            Message::FixVoting(v) => Message::FixVoting(*v),
            Message::TryNext(v) => Message::TryNext(*v),
            Message::Block(v) => Message::Block(*v),
            Message::SetActiveAction(v) => Message::SetActiveAction(v.replicate()),
            Message::ClearQueueAction(v) => Message::ClearQueueAction(*v),
            Message::FinesSetup(v) => Message::FinesSetup(v.replicate()),
        }
    }
}

#[derive(Clone, Debug, PartialEq, Default)]
pub struct EqMessage {
    pub comp_id: i32,
    pub author: Option<UserView>,
    pub signature: String,
    pub message: Option<Message>,
}

pub struct EqMessageModel {
    pub comp_id: i32,
    pub author: Option<UserViewModel>,
    pub signature: Seq<char>,
    pub message: Option<MessageModel>,
}

impl DeepView for EqMessage {
    type V = EqMessageModel;

    open spec fn deep_view(&self) -> EqMessageModel {
        EqMessageModel {
            comp_id: self.comp_id,
            author: self.author.deep_view(),
            signature: self.signature@,
            message: self.message.deep_view(),
        }
    }
}

impl Replicate for EqMessage {
    fn replicate(&self) -> (r: Self) {
        EqMessage {
            comp_id: self.comp_id,
            author: self.author.replicate(),
            signature: self.signature.clone(),
            message: self.message.replicate(),
        }
    }
}

#[derive(Clone, Debug, PartialEq, Default)]
pub struct EqHistoryMessage {
    pub message_id: i32,
    pub message: Option<EqMessage>,
}

pub struct EqHistoryModel {
    pub message_id: i32,
    pub message: Option<EqMessageModel>,
}

impl DeepView for EqHistoryMessage {
    type V = EqHistoryModel;

    open spec fn deep_view(&self) -> EqHistoryModel {
        EqHistoryModel { message_id: self.message_id, message: self.message.deep_view() }
    }
}

impl Replicate for EqHistoryMessage {
    fn replicate(&self) -> (r: Self) {
        EqHistoryMessage { message_id: self.message_id, message: self.message.replicate() }
    }
}

// ---------------------------------------------------------------------------
// users
// ---------------------------------------------------------------------------

#[derive(Clone, Copy, Debug, PartialEq, Eq, Structural, Default)]
pub struct Judge {
    pub queue: i32,
    pub mark_group: i32,
}

/// A role of a user inside a competition.
#[derive(Clone, Copy, Debug, PartialEq, Eq, Structural)]
pub enum Role {
    Moderator(Empty),
    Secretary(Empty),
    Arbitor(Id),
    Judge(Judge),
    Watcher(Empty),
}

} // verus!
