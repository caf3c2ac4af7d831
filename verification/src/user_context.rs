//! What the client knows of the signed-in user, and how it changes.
use std::collections::HashMap;
use std::sync::Arc;
use vstd::prelude::*;

use crate::proto::{CompDeclaration, Participant, Token, TokenType, UserView};

verus! {

/// The signed-in user.
#[derive(Clone, Debug, Default, PartialEq)]
pub struct UserData {
    pub uid: i32,
    pub username: String,
    pub selfname: String,
}

pub struct UserDataModel {
    pub uid: i32,
    pub username: Seq<char>,
    pub selfname: Seq<char>,
}

impl DeepView for UserData {
    type V = UserDataModel;

    open spec fn deep_view(&self) -> UserDataModel {
        UserDataModel { uid: self.uid, username: self.username@, selfname: self.selfname@ }
    }
}

pub struct TokenModel {
    pub value: Seq<char>,
    pub token_type: Option<i32>,
}

impl DeepView for Token {
    type V = TokenModel;

    open spec fn deep_view(&self) -> TokenModel {
        TokenModel { value: self.value@, token_type: self.token_type }
    }
}

impl UserData {
    /// The name the user gave themselves.
    pub fn get_selfname(&self) -> (r: &str)
        ensures
            r@ == self.selfname@,
    {
        self.selfname.as_str()
    }

    /// The login of the user.
    pub fn get_name(&self) -> (r: &str)
        ensures
            r@ == self.username@,
    {
        self.username.as_str()
    }

    /// The user as the server describes users.
    pub fn into_user_view(self) -> (r: UserView)
        ensures
            r.uid == self.uid,
            r.login == self.username,
            r.selfname == self.selfname,
    {
        UserView { uid: self.uid, login: self.username, selfname: self.selfname }
    }
}

/// The token and data of the signed-in user, as far as the client has them.
#[derive(Clone, Debug, Default)]
pub struct UserContext {
    auth_token: Option<Token>,
    user_data: Option<UserData>,
}

pub struct UserContextModel {
    pub auth_token: Option<TokenModel>,
    pub user_data: Option<UserDataModel>,
}

impl DeepView for UserContext {
    type V = UserContextModel;

    closed spec fn deep_view(&self) -> UserContextModel {
        UserContextModel { auth_token: self.auth_token.deep_view(), user_data: self.user_data.deep_view() }
    }
}

/// Whether two contexts hold the same token value and the same user data.
pub open spec fn same_user_state(a: UserContextModel, b: UserContextModel) -> bool {
    &&& match (a.auth_token, b.auth_token) {
        (Some(x), Some(y)) => x.value == y.value,
        (None, None) => true,
        _ => false,
    }
    &&& a.user_data == b.user_data
}

impl UserContext {
    /// A context with neither token nor data.
    pub fn empty() -> (r: UserContext)
        ensures
            r.deep_view().auth_token is None,
            r.deep_view().user_data is None,
    {
        UserContext { auth_token: None, user_data: None }
    }

    /// Whether both the token and the data are known.
    pub fn ready(&self) -> (r: bool)
        ensures
            r == (self.deep_view().auth_token is Some && self.deep_view().user_data is Some),
    {
        self.auth_token.is_some() && self.user_data.is_some()
    }

    /// Forgets the token and the data.
    pub fn clear(&mut self)
        ensures
            final(self).deep_view().auth_token is None,
            final(self).deep_view().user_data is None,
    {
        self.auth_token = None;
        self.user_data = None;
    }

    /// The user's data, if known.
    pub fn get_user_data(&self) -> (r: &Option<UserData>)
        ensures
            r.deep_view() == self.deep_view().user_data,
    {
        &self.user_data
    }

    /// Takes an authentication token; a token of another type is refused and
    /// the context is left as it is.
    pub fn set_token(&mut self, token: Token) -> (r: Result<(), ()>)
        ensures
            token.token_type == Some(TokenType::Auth.spec_code()) ==> r is Ok && final(self).deep_view()
                == (UserContextModel { auth_token: Some(token.deep_view()), ..old(self).deep_view() }),
            token.token_type != Some(TokenType::Auth.spec_code()) ==> r is Err && final(self).deep_view()
                == old(self).deep_view(),
    {
        let auth = TokenType::Auth.code();
        let is_auth = match token.token_type {
            Some(tt) => tt == auth,
            None => false,
        };
        if is_auth {
            self.auth_token = Some(token);
            Ok(())
        } else {
            Err(())
        }
    }

    /// Takes the user's data.
    pub fn set_data(&mut self, data: UserData) -> (r: Result<(), ()>)
        ensures
            r is Ok,
            final(self).deep_view() == (UserContextModel { user_data: Some(data.deep_view()), ..old(self).deep_view() }),
    {
        self.user_data = Some(data);
        Ok(())
    }

    /// Forgets the token.
    pub fn drop_token(&mut self)
        ensures
            final(self).deep_view() == (UserContextModel { auth_token: None, ..old(self).deep_view() }),
    {
        self.auth_token = None;
    }

    /// The token, if known, behind a shared pointer.
    pub fn get_token_arc(&self) -> (r: Arc<&Option<Token>>)
        ensures
            (**r).deep_view() == self.deep_view().auth_token,
    {
        Arc::new(&self.auth_token)
    }

    /// The token, if known.
    pub fn get_token(&self) -> (r: &Option<Token>)
        ensures
            r.deep_view() == self.deep_view().auth_token,
    {
        &self.auth_token
    }

    /// Whether the two contexts hold the same token value and user data.
    pub fn same_state(&self, other: &Self) -> (r: bool)
        ensures
            r == same_user_state(self.deep_view(), other.deep_view()),
    {
        let tokens = match (&self.auth_token, &other.auth_token) {
            (Some(x), Some(y)) => x.value == y.value,
            (None, None) => true,
            _ => false,
        };
        let data = match (&self.user_data, &other.user_data) {
            (Some(x), Some(y)) => x.uid == y.uid && x.username == y.username && x.selfname
                == y.selfname,
            (None, None) => true,
            _ => false,
        };
        tokens && data
    }
}

/// The client's global state.
#[derive(Clone, Debug, Default)]
pub struct Context {
    pub user: UserContext,
}

/// Changes to the client's global state.
pub enum ContextAction {
    SetupAuth(Token),
    SetupData(UserData),
    DropAuth,
}

impl Context {
    /// The state after `action`: a token is taken if it is an authentication
    /// token, data is taken, or everything is forgotten.
    pub fn reduce(self, action: ContextAction) -> (r: Context)
        ensures
            match action {
                ContextAction::SetupAuth(t) => t.token_type == Some(TokenType::Auth.spec_code())
                    ==> r.user.deep_view() == (UserContextModel {
                    auth_token: Some(t.deep_view()),
                    ..self.user.deep_view()
                }),
                ContextAction::SetupData(d) => r.user.deep_view() == (UserContextModel {
                    user_data: Some(d.deep_view()),
                    ..self.user.deep_view()
                }),
                ContextAction::DropAuth => r.user.deep_view().auth_token is None
                    && r.user.deep_view().user_data is None,
            },
            action matches ContextAction::SetupAuth(t) && t.token_type != Some(
                TokenType::Auth.spec_code(),
            ) ==> r.user.deep_view() == self.user.deep_view(),
    {
        let mut newc = self;
        match action {
            ContextAction::SetupAuth(t) => {
                let _ = newc.user.set_token(t);
            },
            ContextAction::DropAuth => {
                newc.user.clear();
            },
            ContextAction::SetupData(d) => {
                let _ = newc.user.set_data(UserData { username: d.username, uid: d.uid, selfname: d.selfname });
            },
        }
        newc
    }
}

/// The declaration that a competition screen edits.
#[derive(Clone, Debug, Default, PartialEq)]
pub struct CompetitionDeclarationWrapper {
    pub declaration: Option<CompDeclaration>,
}

/// Changes to the edited declaration.
pub enum CompetitionDeclarationWrapperContextAction {
    Setup(CompDeclaration),
    Drop,
}

impl CompetitionDeclarationWrapper {
    /// The wrapper after `action`: holding the new declaration, or none.
    pub fn reduce(self, action: CompetitionDeclarationWrapperContextAction) -> (r: Self)
        ensures
            match action {
                CompetitionDeclarationWrapperContextAction::Setup(t) => r.declaration == Some(t),
                CompetitionDeclarationWrapperContextAction::Drop => r.declaration is None,
            },
    {
        let mut newc = self;
        match action {
            CompetitionDeclarationWrapperContextAction::Setup(t) => {
                newc.declaration = Some(t);
            },
            CompetitionDeclarationWrapperContextAction::Drop => {
                newc.declaration = None;
            },
        }
        newc
    }
}

/// A nomination being filled in on the declaration form.
#[derive(Debug, PartialEq, Clone, Default)]
pub struct NominationFormModel {
    pub title: String,
    pub descr: String,
    pub participants: HashMap<i64, Vec<Participant>>,
}

impl NominationFormModel {
    /// A new nomination with placeholder title and description and nobody in
    /// it.
    pub fn empty() -> (r: Self)
        ensures
            r.title@ == "Новая номинация"@,
            r.descr@ == "Без описания"@,
            r.participants@ == Map::<i64, Vec<Participant>>::empty(),
    {
        NominationFormModel {
            title: "Новая номинация".to_owned(),
            descr: "Без описания".to_owned(),
            participants: HashMap::new(),
        }
    }
}

} // verus!
