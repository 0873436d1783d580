//! Authentication: which keys to offer to a server, in which order, and when to
//! give up.

use crate::text::{copy, copy_all, texts};
use vstd::prelude::*;
use vstd::string::*;

verus! {

/// What the next thing to do is.
#[derive(Debug, Clone, PartialEq, Eq)]
pub enum AuthAction {
    /// Load the key in this file, and offer it to the server.
    TryKey(String),
    /// Ask the agent for its identities.
    AskAgent,
    /// Offer the agent's identity with this position to the server.
    TryIdentity(usize),
    /// Nothing: the server has accepted the user.
    Succeed,
    /// Nothing: the server has not, and the text says so in words.
    Fail(String),
}

/// The model of an `AuthAction`.
pub enum AuthActionView {
    TryKey(Seq<char>),
    AskAgent,
    TryIdentity(nat),
    Succeed,
    Fail(Seq<char>),
}

impl View for AuthAction {
    type V = AuthActionView;

    open spec fn view(&self) -> AuthActionView {
        match self {
            AuthAction::TryKey(s) => AuthActionView::TryKey(s@),
            AuthAction::AskAgent => AuthActionView::AskAgent,
            AuthAction::TryIdentity(k) => AuthActionView::TryIdentity(*k as nat),
            AuthAction::Succeed => AuthActionView::Succeed,
            AuthAction::Fail(s) => AuthActionView::Fail(s@),
        }
    }
}

/// How an action went.
#[derive(Debug, Clone, Copy, PartialEq, Eq, Structural)]
pub enum AuthOutcome {
    /// The server accepted what was offered.
    Accepted,
    /// It did not, or there was nothing to offer.
    Refused,
    /// The agent has so many identities.
    Identities(usize),
}

/// How far an authentication has come.
#[derive(Debug, Clone, Copy, PartialEq, Eq, Structural)]
pub enum AuthStage {
    /// So many keys have been refused.
    Keys(usize),
    /// So many of so many identities of the agent have been refused.
    Agent(usize, usize),
    /// The server has accepted the user.
    Accepted,
}

/// An authentication.
pub struct Auth {
    user: String,
    keys: Vec<String>,
    stage: AuthStage,
}

/// The model of an `Auth`.
pub struct AuthView {
    pub user: Seq<char>,
    pub keys: Seq<Seq<char>>,
    pub stage: AuthStage,
}

impl View for Auth {
    type V = AuthView;

    closed spec fn view(&self) -> AuthView {
        AuthView { user: self.user@, keys: texts(self.keys@), stage: self.stage }
    }
}

/// How an authentication starts.
pub open spec fn auth_start(user: Seq<char>, keys: Seq<Seq<char>>) -> AuthView {
    AuthView { user, keys, stage: AuthStage::Keys(0) }
}

/// The words for a user that no key helps.
pub open spec fn auth_failure(user: Seq<char>) -> Seq<char> {
    "Failed to authenticate SSH user '"@ + user
        + "'. No valid identity keys or agent auth succeeded."@
}

/// What to do next.
pub open spec fn auth_action(s: AuthView) -> AuthActionView {
    match s.stage {
        AuthStage::Keys(i) => if i < s.keys.len() {
            AuthActionView::TryKey(s.keys[i as int])
        } else {
            AuthActionView::AskAgent
        },
        AuthStage::Agent(k, n) => if k < n {
            AuthActionView::TryIdentity(k as nat)
        } else {
            AuthActionView::Fail(auth_failure(s.user))
        },
        AuthStage::Accepted => AuthActionView::Succeed,
    }
}

/// The stage that follows an outcome. An agent that has no answer has no
/// identities.
pub open spec fn auth_stage_after(s: AuthView, o: AuthOutcome) -> AuthStage {
    match auth_action(s) {
        AuthActionView::TryKey(_) => if o == AuthOutcome::Accepted {
            AuthStage::Accepted
        } else {
            AuthStage::Keys((s.stage->Keys_0 + 1) as usize)
        },
        AuthActionView::AskAgent => match o {
            AuthOutcome::Identities(n) => AuthStage::Agent(0, n),
            _ => AuthStage::Agent(0, 0),
        },
        AuthActionView::TryIdentity(_) => if o == AuthOutcome::Accepted {
            AuthStage::Accepted
        } else {
            AuthStage::Agent((s.stage->Agent_0 + 1) as usize, s.stage->Agent_1)
        },
        _ => s.stage,
    }
}

/// The state that follows an outcome.
pub open spec fn auth_next(s: AuthView, o: AuthOutcome) -> AuthView {
    AuthView { stage: auth_stage_after(s, o), ..s }
}

/// The state that follows several outcomes.
pub open spec fn auth_run(s: AuthView, outcomes: Seq<AuthOutcome>) -> AuthView
    decreases outcomes.len(),
{
    if outcomes.len() == 0 {
        s
    } else {
        auth_next(auth_run(s, outcomes.drop_last()), outcomes.last())
    }
}

impl Auth {
    /// Starts to authenticate a user with the keys in some files.
    pub fn start(user: &str, identity_files: &Vec<String>) -> (r: Auth)
        ensures
            r@ == auth_start(user@, texts(identity_files@)),
    {
        Auth { user: copy(user), keys: copy_all(identity_files), stage: AuthStage::Keys(0) }
    }

    /// What to do next.
    pub fn action(&self) -> (r: AuthAction)
        ensures
            r@ == auth_action(self@),
    {
        match self.stage {
            AuthStage::Keys(i) => if i < self.keys.len() {
                AuthAction::TryKey(copy(self.keys[i].as_str()))
            } else {
                AuthAction::AskAgent
            },
            AuthStage::Agent(k, n) => if k < n {
                AuthAction::TryIdentity(k)
            } else {
                let mut text = copy("Failed to authenticate SSH user '");
                text.append(self.user.as_str());
                text.append("'. No valid identity keys or agent auth succeeded.");
                AuthAction::Fail(text)
            },
            AuthStage::Accepted => AuthAction::Succeed,
        }
    }

    /// Goes on after the action that was to be done next.
    pub fn advance(&mut self, outcome: AuthOutcome)
        ensures
            final(self)@ == auth_next(old(self)@, outcome),
    {
        let accepted = match outcome {
            AuthOutcome::Accepted => true,
            _ => false,
        };
        match self.stage {
            AuthStage::Keys(i) => if i < self.keys.len() {
                if accepted {
                    self.stage = AuthStage::Accepted;
                } else {
                    self.stage = AuthStage::Keys(i + 1);
                }
            } else {
                match outcome {
                    AuthOutcome::Identities(n) => {
                        self.stage = AuthStage::Agent(0, n);
                    },
                    _ => {
                        self.stage = AuthStage::Agent(0, 0);
                    },
                }
            },
            AuthStage::Agent(k, n) => if k < n {
                if accepted {
                    self.stage = AuthStage::Accepted;
                } else {
                    self.stage = AuthStage::Agent(k + 1, n);
                }
            },
            AuthStage::Accepted => {},
        }
    }
}

/// The keys are offered in order, each only after all before it were refused.
pub proof fn keys_are_tried_in_order(
    user: Seq<char>,
    keys: Seq<Seq<char>>,
    outcomes: Seq<AuthOutcome>,
)
    requires
        outcomes.len() <= keys.len() <= usize::MAX,
        forall|i: int|
            0 <= i < outcomes.len() ==> #[trigger] outcomes[i] != AuthOutcome::Accepted,
    ensures
        auth_run(auth_start(user, keys), outcomes) == (AuthView {
            user,
            keys,
            stage: AuthStage::Keys(outcomes.len() as usize),
        }),
    decreases outcomes.len(),
{
    if outcomes.len() > 0 {
        let head = outcomes.drop_last();
        assert forall|i: int| 0 <= i < head.len() implies #[trigger] head[i]
            != AuthOutcome::Accepted by {
            assert(head[i] == outcomes[i]);
        }
        keys_are_tried_in_order(user, keys, head);
        assert(outcomes.last() == outcomes[outcomes.len() - 1]);
    }
}

/// The first key that the server accepts ends the authentication, and nothing
/// is tried after it.
pub proof fn first_accepted_key_wins(
    user: Seq<char>,
    keys: Seq<Seq<char>>,
    refused: Seq<AuthOutcome>,
    later: Seq<AuthOutcome>,
)
    requires
        refused.len() < keys.len() <= usize::MAX,
        forall|i: int| 0 <= i < refused.len() ==> #[trigger] refused[i] != AuthOutcome::Accepted,
    ensures
        auth_action(auth_run(auth_start(user, keys), refused)) == AuthActionView::TryKey(
            keys[refused.len() as int],
        ),
        auth_action(
            auth_run(auth_start(user, keys), refused.push(AuthOutcome::Accepted) + later),
        ) == AuthActionView::Succeed,
    decreases later.len(),
{
    keys_are_tried_in_order(user, keys, refused);
    let accepted = refused.push(AuthOutcome::Accepted);
    if later.len() == 0 {
        assert(accepted + later == accepted);
        assert(accepted.drop_last() == refused);
    } else {
        first_accepted_key_wins(user, keys, refused, later.drop_last());
        assert((accepted + later).drop_last() == accepted + later.drop_last());
    }
}

/// When every key was refused, the agent is asked; when each of its identities
/// was refused too, or it has none, the authentication fails.
pub proof fn all_refused_fails(
    user: Seq<char>,
    keys: Seq<Seq<char>>,
    refused: Seq<AuthOutcome>,
    count: usize,
    again: Seq<AuthOutcome>,
)
    requires
        refused.len() == keys.len() <= usize::MAX,
        again.len() <= count,
        forall|i: int| 0 <= i < refused.len() ==> #[trigger] refused[i] != AuthOutcome::Accepted,
        forall|i: int| 0 <= i < again.len() ==> #[trigger] again[i] != AuthOutcome::Accepted,
    ensures
        auth_action(auth_run(auth_start(user, keys), refused)) == AuthActionView::AskAgent,
        auth_action(
            auth_run(
                auth_start(user, keys),
                refused.push(AuthOutcome::Identities(count)) + again,
            ),
        ) == if again.len() < count {
            AuthActionView::TryIdentity(again.len())
        } else {
            AuthActionView::Fail(auth_failure(user))
        },
{
    keys_are_tried_in_order(user, keys, refused);
    lemma_identities(user, keys, refused, count, again);
}

proof fn lemma_identities(
    user: Seq<char>,
    keys: Seq<Seq<char>>,
    refused: Seq<AuthOutcome>,
    count: usize,
    again: Seq<AuthOutcome>,
)
    requires
        refused.len() == keys.len() <= usize::MAX,
        again.len() <= count,
        forall|i: int| 0 <= i < refused.len() ==> #[trigger] refused[i] != AuthOutcome::Accepted,
        forall|i: int| 0 <= i < again.len() ==> #[trigger] again[i] != AuthOutcome::Accepted,
    ensures
        auth_run(
            auth_start(user, keys),
            refused.push(AuthOutcome::Identities(count)) + again,
        ) == (AuthView { user, keys, stage: AuthStage::Agent(again.len() as usize, count) }),
    decreases again.len(),
{
    keys_are_tried_in_order(user, keys, refused);
    let asked = refused.push(AuthOutcome::Identities(count));
    if again.len() == 0 {
        assert(asked + again == asked);
        assert(asked.drop_last() == refused);
    } else {
        let head = again.drop_last();
        assert forall|i: int| 0 <= i < head.len() implies #[trigger] head[i]
            != AuthOutcome::Accepted by {
            assert(head[i] == again[i]);
        }
        lemma_identities(user, keys, refused, count, head);
        assert((asked + again).drop_last() == asked + head);
        assert(again.last() == again[again.len() - 1]);
    }
}

} // verus!
