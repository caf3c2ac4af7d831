//! Small decisions of the declaration service and the clients: which
//! competitions a user sees, which modification a request asks for, and
//! which token a client sends.
use vstd::prelude::*;

use crate::errors::CompError;
use crate::proto::{CompDeclaration, ModDeclarationCommand};
use crate::text::str_eq;
use crate::tokens::holds_id;
use crate::user_context::Context;

verus! {

/// The ids of `a` followed by those of `b`, each once, in the order in which
/// they first occur.
pub open spec fn merged_ids(a: Seq<i32>, b: Seq<i32>) -> Seq<i32>
    decreases b.len(),
{
    if b.len() == 0 {
        distinct_prefix(a, a.len() as int)
    } else {
        let m = merged_ids(a, b.drop_last());
        if m.contains(b.last()) {
            m
        } else {
            m.push(b.last())
        }
    }
}

/// The first `n` ids of `a`, each once, in the order in which they first
/// occur.
pub open spec fn distinct_prefix(a: Seq<i32>, n: int) -> Seq<i32>
    decreases n,
{
    if n <= 0 {
        Seq::empty()
    } else {
        let m = distinct_prefix(a, n - 1);
        if m.contains(a[n - 1]) {
            m
        } else {
            m.push(a[n - 1])
        }
    }
}

proof fn lemma_push_contains(s: Seq<i32>, y: i32, x: i32)
    ensures
        s.push(y).contains(x) <==> (s.contains(x) || x == y),
{
    if s.contains(x) {
        let k = choose|k: int| 0 <= k < s.len() && #[trigger] s[k] == x;
        assert(s.push(y)[k] == x);
    }
    if x == y {
        assert(s.push(y)[s.len() as int] == y);
    }
    if s.push(y).contains(x) && x != y {
        let t = s.push(y);
        let k = choose|k: int| 0 <= k < t.len() && #[trigger] t[k] == x;
        assert(k < s.len());
        assert(s[k] == x);
    }
}

proof fn lemma_push_no_duplicates(s: Seq<i32>, y: i32)
    requires
        s.no_duplicates(),
        !s.contains(y),
    ensures
        s.push(y).no_duplicates(),
{
    let t = s.push(y);
    assert forall|i: int, j: int| 0 <= i < t.len() && 0 <= j < t.len() && i != j implies t[i] != t[j] by {
        if i == s.len() {
            assert(s[j] == t[j]);
        } else if j == s.len() {
            assert(s[i] == t[i]);
        }
    }
}

proof fn lemma_distinct_prefix(a: Seq<i32>, n: int)
    requires
        0 <= n <= a.len(),
    ensures
        distinct_prefix(a, n).no_duplicates(),
        forall|x: i32| distinct_prefix(a, n).contains(x) <==> a.subrange(0, n).contains(x),
    decreases n,
{
    if n > 0 {
        lemma_distinct_prefix(a, n - 1);
        let m = distinct_prefix(a, n - 1);
        let y = a[n - 1];
        assert(a.subrange(0, n) =~= a.subrange(0, n - 1).push(y));
        if !m.contains(y) {
            lemma_push_no_duplicates(m, y);
        }
        assert forall|x: i32| distinct_prefix(a, n).contains(x) <==> a.subrange(0, n).contains(x) by {
            lemma_push_contains(m, y, x);
            lemma_push_contains(a.subrange(0, n - 1), y, x);
        }
    } else {
        assert(a.subrange(0, n) =~= Seq::<i32>::empty());
    }
}

proof fn lemma_merged_ids(a: Seq<i32>, b: Seq<i32>)
    ensures
        merged_ids(a, b).no_duplicates(),
        forall|x: i32| merged_ids(a, b).contains(x) <==> (a.contains(x) || b.contains(x)),
    decreases b.len(),
{
    if b.len() == 0 {
        lemma_distinct_prefix(a, a.len() as int);
        assert(a.subrange(0, a.len() as int) =~= a);
    } else {
        lemma_merged_ids(a, b.drop_last());
        let m = merged_ids(a, b.drop_last());
        let y = b.last();
        assert(b =~= b.drop_last().push(y));
        if !m.contains(y) {
            lemma_push_no_duplicates(m, y);
        }
        assert forall|x: i32| merged_ids(a, b).contains(x) <==> (a.contains(x) || b.contains(x)) by {
            lemma_push_contains(m, y, x);
            lemma_push_contains(b.drop_last(), y, x);
        }
    }
}

/// The ids of `a` and of `b`, each once: those of `a` in their order, then
/// those of `b` not seen before.
pub fn merge_ids(a: &Vec<i32>, b: &Vec<i32>) -> (r: Vec<i32>)
    ensures
        r@ == merged_ids(a@, b@),
        r@.no_duplicates(),
        forall|x: i32| r@.contains(x) <==> (a@.contains(x) || b@.contains(x)),
{
    let mut out: Vec<i32> = Vec::new();
    let mut i: usize = 0;
    while i < a.len()
        invariant
            i <= a@.len(),
            out@ == distinct_prefix(a@, i as int),
        decreases a@.len() - i,
    {
        if !holds_id(&out, a[i]) {
            out.push(a[i]);
        }
        i = i + 1;
    }
    let mut j: usize = 0;
    assert(b@.subrange(0, 0) =~= Seq::<i32>::empty());
    while j < b.len()
        invariant
            j <= b@.len(),
            i == a@.len(),
            out@ == merged_ids(a@, b@.subrange(0, j as int)),
        decreases b@.len() - j,
    {
        assert(b@.subrange(0, j + 1).drop_last() =~= b@.subrange(0, j as int));
        assert(b@.subrange(0, j + 1).last() == b@[j as int]);
        if !holds_id(&out, b[j]) {
            out.push(b[j]);
        }
        j = j + 1;
    }
    assert(b@.subrange(0, b@.len() as int) =~= b@);
    proof {
        lemma_merged_ids(a@, b@);
    }
    out
}

/// What a modification request asks for: a new declaration, or a single
/// command by its wire number.
pub enum Command {
    Redeclare(CompDeclaration),
    SingleCommand(i32),
}

/// A request to modify competition `comp_id`.
pub struct ModCompDeclarationRequest {
    pub comp_id: i32,
    pub command: Option<Command>,
}

/// Which modification is carried out: only deleting the competition is; a
/// missing command, a redeclaration, remaking passwords and unknown commands
/// are not implemented.
pub open spec fn modification_of(command: Option<Command>) -> Result<ModDeclarationCommand, CompError> {
    match command {
        Some(Command::SingleCommand(0)) => Ok(ModDeclarationCommand::Delete),
        _ => Err(CompError::UnsupportedMessage),
    }
}

/// The modification that `req` asks for, where it is one that is carried
/// out.
pub fn requested_modification(req: &ModCompDeclarationRequest) -> (r: Result<ModDeclarationCommand, CompError>)
    ensures
        r == modification_of(req.command),
{
    match &req.command {
        None => Err(CompError::UnsupportedMessage),
        Some(Command::Redeclare(_)) => Err(CompError::UnsupportedMessage),
        Some(Command::SingleCommand(code)) => match ModDeclarationCommand::try_from_code(*code) {
            Some(ModDeclarationCommand::Delete) => Ok(ModDeclarationCommand::Delete),
            _ => Err(CompError::UnsupportedMessage),
        },
    }
}

/// The token a client sends with its requests: the value of its
/// authentication token, or `0` where it has none.
pub fn auth_header_value(context: &Context) -> (r: String)
    ensures
        r@ == (match context.user.deep_view().auth_token {
            Some(t) => t.value,
            None => "0"@,
        }),
{
    match context.user.get_token() {
        Some(t) => t.value.clone(),
        None => "0".to_owned(),
    }
}

/// Why a request is refused before it reaches a service.
#[derive(Clone, Copy, Debug, PartialEq, Eq, Structural)]
pub enum AuthCheckError {
    /// No `auth-token` header.
    NeedAuth,
    /// A header that is not visible ASCII.
    InvalidHeader,
    /// A token that does not decode for the caller.
    WrongToken,
}

/// The decision of the authentication check, given whether the request
/// carries an `auth-token` header, whether the header is visible ASCII, and
/// whether its token decodes for the caller.
pub fn authentication_outcome(present: bool, readable: bool, decoded: bool) -> (r: Result<(), AuthCheckError>)
    ensures
        !present ==> r == Err::<(), AuthCheckError>(AuthCheckError::NeedAuth),
        present && !readable ==> r == Err::<(), AuthCheckError>(AuthCheckError::InvalidHeader),
        present && readable && !decoded ==> r == Err::<(), AuthCheckError>(AuthCheckError::WrongToken),
        present && readable && decoded ==> r is Ok,
{
    if !present {
        Err(AuthCheckError::NeedAuth)
    } else if !readable {
        Err(AuthCheckError::InvalidHeader)
    } else if !decoded {
        Err(AuthCheckError::WrongToken)
    } else {
        Ok(())
    }
}

/// Whether the registration form may be sent: only when the password was
/// typed the same way twice.
pub fn registration_allowed(password: &str, repeat: &str) -> (r: bool)
    ensures
        r == (password@ == repeat@),
{
    str_eq(password, repeat)
}

} // verus!
