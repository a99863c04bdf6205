//! The session that makes sure the remote project exists before use.
//!
//! The caller performs the remote calls; this machine decides, from what
//! each call answered, what comes next.
use vstd::prelude::*;

verus! {

/// Where the session stands.
#[derive(PartialEq, Eq, Structural, Debug, Clone, Copy)]
pub enum ProjectState {
    /// Nothing is known yet: the lookup is due.
    Unknown,
    /// The lookup found no project: its creation is due.
    AwaitingCreation,
    /// The lookup found the project.
    Verified,
    /// The project was created.
    Created,
    /// The lookup reported an error that cannot be recovered from.
    Fatal,
    /// The creation call failed.
    Failed,
}

/// What the caller is to do next.
#[derive(PartialEq, Eq, Structural, Debug, Clone, Copy)]
pub enum ProjectAction {
    /// Look the project up.
    Lookup,
    /// Create the project.
    Create,
    /// The session is usable.
    Proceed,
    /// Stop the process: the remote error is not one this tool handles.
    Terminate,
    /// Report the failed creation as an error.
    Fail,
    /// The event does not fit the state: nothing to do.
    Ignore,
}

/// What a remote call answered.
pub enum ProjectEvent {
    /// The lookup answered, with the code of its embedded error if it held one.
    Lookup(Option<Vec<u8>>),
    /// The creation call answered; `true` where it succeeded.
    Creation(bool),
}

/// The session over the fixed project.
pub struct ProjectSession {
    pub state: ProjectState,
}

/// The error code by which the lookup says that the project does not exist.
pub open spec fn not_found_code() -> Seq<u8> {
    seq![111u8, 98, 106, 101, 99, 116, 95, 110, 111, 116, 95, 102, 111, 117, 110, 100]
}

/// The transition from `state` on `event`: the next state and the action.
pub open spec fn next(state: ProjectState, event: ProjectEvent) -> (ProjectState, ProjectAction) {
    match (state, event) {
        (ProjectState::Unknown, ProjectEvent::Lookup(None)) => (
            ProjectState::Verified,
            ProjectAction::Proceed,
        ),
        (ProjectState::Unknown, ProjectEvent::Lookup(Some(code))) => if code@ == not_found_code() {
            (ProjectState::AwaitingCreation, ProjectAction::Create)
        } else {
            (ProjectState::Fatal, ProjectAction::Terminate)
        },
        (ProjectState::AwaitingCreation, ProjectEvent::Creation(true)) => (
            ProjectState::Created,
            ProjectAction::Proceed,
        ),
        (ProjectState::AwaitingCreation, ProjectEvent::Creation(false)) => (
            ProjectState::Failed,
            ProjectAction::Fail,
        ),
        (s, _) => (s, ProjectAction::Ignore),
    }
}

fn is_not_found(code: &Vec<u8>) -> (r: bool)
    ensures
        r == (code@ == not_found_code()),
{
    let expected: Vec<u8> = vec![
        111u8, 98, 106, 101, 99, 116, 95, 110, 111, 116, 95, 102, 111, 117, 110, 100,
    ];
    assert(expected@ =~= not_found_code());
    if code.len() != expected.len() {
        return false;
    }
    let mut i: usize = 0;
    while i < code.len()
        invariant
            code@.len() == expected@.len(),
            expected@ == not_found_code(),
            i <= code@.len(),
            forall|j: int| 0 <= j < i ==> code@[j] == expected@[j],
        decreases code@.len() - i,
    {
        if code[i] != expected[i] {
            return false;
        }
        i = i + 1;
    }
    assert(code@ =~= expected@);
    true
}

impl ProjectSession {
    /// A session that knows nothing yet, and the first action: the lookup.
    pub fn new() -> (r: (ProjectSession, ProjectAction))
        ensures
            r.0.state == ProjectState::Unknown,
            r.1 == ProjectAction::Lookup,
    {
        (ProjectSession { state: ProjectState::Unknown }, ProjectAction::Lookup)
    }

    /// Takes in what a remote call answered and says what to do next.
    pub fn on_event(&mut self, event: ProjectEvent) -> (r: ProjectAction)
        ensures
            (final(self).state, r) == next(old(self).state, event),
    {
        let (state, action) = match (self.state, &event) {
            (ProjectState::Unknown, ProjectEvent::Lookup(None)) => (
                ProjectState::Verified,
                ProjectAction::Proceed,
            ),
            (ProjectState::Unknown, ProjectEvent::Lookup(Some(code))) => if is_not_found(code) {
                (ProjectState::AwaitingCreation, ProjectAction::Create)
            } else {
                (ProjectState::Fatal, ProjectAction::Terminate)
            },
            (ProjectState::AwaitingCreation, ProjectEvent::Creation(ok)) => if *ok {
                (ProjectState::Created, ProjectAction::Proceed)
            } else {
                (ProjectState::Failed, ProjectAction::Fail)
            },
            (s, _) => (s, ProjectAction::Ignore),
        };
        self.state = state;
        action
    }

    /// The session has reached a state in which it can be used.
    pub fn is_usable(&self) -> (r: bool)
        ensures
            r == (self.state == ProjectState::Verified || self.state == ProjectState::Created),
    {
        match self.state {
            ProjectState::Verified | ProjectState::Created => true,
            _ => false,
        }
    }
}

/// The lookup decides how many creation calls a session makes: an answer
/// without error leads straight to a usable, verified session; a
/// not-found answer asks for exactly one creation, whose success makes the
/// session created; any other error code stops the session without creation.
pub proof fn lemma_lookup_decides_creation(code: Vec<u8>)
    ensures
        next(ProjectState::Unknown, ProjectEvent::Lookup(None)) == (
            ProjectState::Verified,
            ProjectAction::Proceed,
        ),
        code@ == not_found_code() ==> {
            &&& next(ProjectState::Unknown, ProjectEvent::Lookup(Some(code))) == (
                ProjectState::AwaitingCreation,
                ProjectAction::Create,
            )
            &&& next(ProjectState::AwaitingCreation, ProjectEvent::Creation(true)) == (
                ProjectState::Created,
                ProjectAction::Proceed,
            )
        },
        code@ != not_found_code() ==> next(
            ProjectState::Unknown,
            ProjectEvent::Lookup(Some(code)),
        ) == (ProjectState::Fatal, ProjectAction::Terminate),
        forall|s: ProjectState, e: ProjectEvent|
            (s == ProjectState::Fatal || s == ProjectState::Verified || s == ProjectState::Created)
                ==> #[trigger] next(s, e) == (s, ProjectAction::Ignore),
{
}

} // verus!
