//! The creation of a project, as a state machine: the project row is
//! stored, then its author is recorded as its first editor. The caller
//! performs each action and hands back what came of it.

use vstd::prelude::*;
use crate::model::{Project, NewProject, ProjectID, UserID};
use crate::errors::ProjectError;
use crate::services::new_project_row;

verus! {

/// Where a project creation stands.
pub enum ProjectCreationState {
    /// Waiting for the project row to be stored.
    AwaitingInsert { project: Project },
    /// Waiting for the author to be recorded as an editor.
    AwaitingEditor { project: Project },
    /// Nothing more to do.
    Finished,
}

/// What came of the last action.
pub enum ProjectCreationEvent {
    ProjectInserted(Result<(), ProjectError>),
    /// The editor was recorded, or could not be (with the failure's
    /// description).
    EditorAdded(Result<(), String>),
}

/// What the caller is to do next.
pub enum ProjectCreationAction {
    /// Store the project row.
    InsertProject { project: Project },
    /// Record `user_id` as an editor of project `project_id`.
    AddEditor { project_id: ProjectID, user_id: UserID },
    /// Stop with the error. A project row already stored stays.
    Fail(ProjectError),
    /// Stop: the project was created.
    Succeed(Project),
}

/// The row a new project is stored as.
pub open spec fn project_row(new_project: NewProject, id: ProjectID) -> Project {
    Project {
        id,
        title: new_project.title,
        brief: new_project.brief,
        author_id: new_project.author_id,
        visibility: new_project.visibility,
    }
}

/// The first step: store the row of the new project.
pub open spec fn project_creation_start_is(
    new_project: NewProject,
    id: ProjectID,
    state: ProjectCreationState,
    action: ProjectCreationAction,
) -> bool {
    &&& state == ProjectCreationState::AwaitingInsert { project: project_row(new_project, id) }
    &&& action == ProjectCreationAction::InsertProject { project: project_row(new_project, id) }
}

/// The event answers the action that led to the state.
pub open spec fn project_creation_expects(state: ProjectCreationState, event: ProjectCreationEvent) -> bool {
    match state {
        ProjectCreationState::AwaitingInsert { .. } => event is ProjectInserted,
        ProjectCreationState::AwaitingEditor { .. } => event is EditorAdded,
        ProjectCreationState::Finished => false,
    }
}

/// The next state and action. A failed insert is the result as it is (a
/// taken title, or an unexpected error). Once the row is stored, the author
/// is recorded as the project's editor; if that fails, the result is an
/// unexpected error with the failure's description, and the row stays.
pub open spec fn project_creation_next_is(
    state: ProjectCreationState,
    event: ProjectCreationEvent,
    next: ProjectCreationState,
    action: ProjectCreationAction,
) -> bool {
    match (state, event) {
        (
            ProjectCreationState::AwaitingInsert { project },
            ProjectCreationEvent::ProjectInserted(res),
        ) => match res {
            Err(e) => next is Finished && action == ProjectCreationAction::Fail(e),
            Ok(_) => next == ProjectCreationState::AwaitingEditor { project } && action
                == ProjectCreationAction::AddEditor {
                project_id: project.id,
                user_id: project.author_id,
            },
        },
        (ProjectCreationState::AwaitingEditor { project }, ProjectCreationEvent::EditorAdded(res)) => {
            match res {
                Err(m) => next is Finished && action == ProjectCreationAction::Fail(
                    ProjectError::UnexpectedError(m),
                ),
                Ok(_) => next is Finished && action == ProjectCreationAction::Succeed(project),
            }
        },
        _ => false,
    }
}

/// Starts the creation of a project from what was submitted, under the
/// fresh id `id`.
pub fn start_project_creation(new_project: &NewProject, id: ProjectID) -> (r: (
    ProjectCreationState,
    ProjectCreationAction,
))
    ensures
        project_creation_start_is(*new_project, id, r.0, r.1),
{
    let project = new_project_row(new_project, id);
    let row = project.clone();
    (ProjectCreationState::AwaitingInsert { project }, ProjectCreationAction::InsertProject {
        project: row,
    })
}

/// Takes what came of the last action and decides the next one.
pub fn project_creation_step(state: ProjectCreationState, event: ProjectCreationEvent) -> (r: (
    ProjectCreationState,
    ProjectCreationAction,
))
    requires
        project_creation_expects(state, event),
    ensures
        project_creation_next_is(state, event, r.0, r.1),
{
    match state {
        ProjectCreationState::AwaitingInsert { project } => match event {
            ProjectCreationEvent::ProjectInserted(Err(e)) => (
                ProjectCreationState::Finished,
                ProjectCreationAction::Fail(e),
            ),
            _ => {
                let project_id = project.id.clone();
                let user_id = project.author_id.clone();
                (
                    ProjectCreationState::AwaitingEditor { project },
                    ProjectCreationAction::AddEditor { project_id, user_id },
                )
            },
        },
        ProjectCreationState::AwaitingEditor { project } => match event {
            ProjectCreationEvent::EditorAdded(Err(m)) => (
                ProjectCreationState::Finished,
                ProjectCreationAction::Fail(ProjectError::UnexpectedError(m)),
            ),
            _ => (ProjectCreationState::Finished, ProjectCreationAction::Succeed(project)),
        },
        ProjectCreationState::Finished => (
            ProjectCreationState::Finished,
            ProjectCreationAction::Fail(ProjectError::UnexpectedError(String::new())),
        ),
    }
}

/// `states`, `events` and `actions` form a run of a project creation.
pub open spec fn is_project_creation_run(
    new_project: NewProject,
    id: ProjectID,
    states: Seq<ProjectCreationState>,
    events: Seq<ProjectCreationEvent>,
    actions: Seq<ProjectCreationAction>,
) -> bool {
    &&& states.len() == events.len() + 1
    &&& actions.len() == events.len() + 1
    &&& project_creation_start_is(new_project, id, states[0], actions[0])
    &&& forall|i: int|
        0 <= i < events.len() ==> {
            &&& project_creation_expects(states[i], #[trigger] events[i])
            &&& project_creation_next_is(states[i], events[i], states[i + 1], actions[i + 1])
        }
}

/// A project creation succeeds only as its third action, with the row made
/// from what was submitted, once that row was stored and its author was
/// recorded as its editor.
pub proof fn lemma_project_created_with_its_author_as_editor(
    new_project: NewProject,
    id: ProjectID,
    states: Seq<ProjectCreationState>,
    events: Seq<ProjectCreationEvent>,
    actions: Seq<ProjectCreationAction>,
    k: int,
)
    requires
        is_project_creation_run(new_project, id, states, events, actions),
        0 <= k < actions.len(),
        actions[k] is Succeed,
    ensures
        k == 2,
        actions[0] == (ProjectCreationAction::InsertProject {
            project: project_row(new_project, id),
        }),
        events[0] matches ProjectCreationEvent::ProjectInserted(Ok(_)),
        actions[1] == (ProjectCreationAction::AddEditor {
            project_id: id,
            user_id: new_project.author_id,
        }),
        events[1] matches ProjectCreationEvent::EditorAdded(Ok(_)),
        actions[2] == ProjectCreationAction::Succeed(project_row(new_project, id)),
{
    assert(k > 0);
    assert(project_creation_expects(states[k - 1], events[k - 1]));
    assert(states[k - 1] is AwaitingEditor);
    assert(k - 1 > 0);
    assert(project_creation_expects(states[k - 2], events[k - 2]));
    assert(states[k - 2] is AwaitingInsert);
    if k - 2 > 0 {
        assert(project_creation_expects(states[k - 3], events[k - 3]));
        assert(false);
    }
}

} // verus!
