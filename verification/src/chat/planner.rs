//! Plans: a goal cut into subtasks with an order of execution.

use vstd::prelude::*;

verus! {

/// Where the execution of a subtask stands.
#[derive(Debug, Clone, PartialEq)]
pub enum SubTaskStatus {
    Pending,
    InProgress,
    Completed,
    Failed(String),
    Skipped,
}

/// A tool, as it is described to the model.
#[derive(Debug, Clone)]
pub struct ToolDescription {
    pub name: String,
    pub description: String,
}

/// A part of a plan.
#[derive(Debug, Clone)]
pub struct SubTask {
    /// Identifier.
    pub id: usize,
    /// What is to be done.
    pub description: String,
    /// Identifiers of the subtasks whose results it needs.
    pub dependencies: Vec<usize>,
    /// Tools that it needs.
    pub required_tools: Vec<String>,
    /// Where its execution stands.
    pub status: SubTaskStatus,
    /// Its result, once completed.
    pub result: Option<String>,
}

impl SubTask {
    /// A subtask that waits, without dependencies or tools.
    pub fn new(id: usize, description: String) -> (r: SubTask)
        ensures
            r.id == id,
            r.description == description,
            r.dependencies@ == Seq::<usize>::empty(),
            r.required_tools@ == Seq::<String>::empty(),
            r.status == SubTaskStatus::Pending,
            r.result is None,
    {
        SubTask {
            id,
            description,
            dependencies: Vec::new(),
            required_tools: Vec::new(),
            status: SubTaskStatus::Pending,
            result: None,
        }
    }

    /// The same subtask with these dependencies.
    pub fn with_dependencies(self, dependencies: Vec<usize>) -> (r: SubTask)
        ensures
            r == (SubTask { dependencies, ..self }),
    {
        SubTask { dependencies, ..self }
    }

    /// Every dependency is among `completed`.
    pub open spec fn ready(self, completed: Seq<usize>) -> bool {
        forall|i: int|
            0 <= i < self.dependencies@.len() ==> completed.contains(
                #[trigger] self.dependencies@[i],
            )
    }

    /// Whether every dependency is among `completed`.
    pub fn is_ready(&self, completed: &Vec<usize>) -> (r: bool)
        ensures
            r == self.ready(completed@),
    {
        let mut i: usize = 0;
        while i < self.dependencies.len()
            invariant
                i <= self.dependencies@.len(),
                forall|j: int|
                    0 <= j < i ==> completed@.contains(#[trigger] self.dependencies@[j]),
            decreases self.dependencies@.len() - i,
        {
            if !has_id(completed, self.dependencies[i]) {
                assert(!completed@.contains(self.dependencies@[i as int]));
                return false;
            }
            i = i + 1;
        }
        true
    }

    /// Execution begins.
    pub fn start(&mut self)
        ensures
            *final(self) == (SubTask { status: SubTaskStatus::InProgress, ..*old(self) }),
    {
        self.status = SubTaskStatus::InProgress;
    }

    /// Execution ends with a result.
    pub fn complete(&mut self, result: String)
        ensures
            *final(self) == (SubTask {
                status: SubTaskStatus::Completed,
                result: Some(result),
                ..*old(self)
            }),
    {
        self.status = SubTaskStatus::Completed;
        self.result = Some(result);
    }

    /// Execution fails.
    pub fn fail(&mut self, error: String)
        ensures
            *final(self) == (SubTask { status: SubTaskStatus::Failed(error), ..*old(self) }),
    {
        self.status = SubTaskStatus::Failed(error);
    }

    /// Execution is not tried.
    pub fn skip(&mut self)
        ensures
            *final(self) == (SubTask { status: SubTaskStatus::Skipped, ..*old(self) }),
    {
        self.status = SubTaskStatus::Skipped;
    }
}

/// Whether `id` is among `ids`.
pub fn has_id(ids: &Vec<usize>, id: usize) -> (r: bool)
    ensures
        r == ids@.contains(id),
{
    let mut i: usize = 0;
    while i < ids.len()
        invariant
            i <= ids@.len(),
            forall|j: int| 0 <= j < i ==> ids@[j] != id,
        decreases ids@.len() - i,
    {
        if ids[i] == id {
            assert(ids@[i as int] == id);
            return true;
        }
        i = i + 1;
    }
    false
}

/// A goal cut into subtasks.
#[derive(Debug, Clone)]
pub struct TaskPlan {
    /// What is to be reached.
    pub original_goal: String,
    /// The parts.
    pub subtasks: Vec<SubTask>,
    /// Positions in `subtasks`, in the order of execution.
    pub execution_order: Vec<usize>,
}

} // verus!
