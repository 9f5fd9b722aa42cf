//! In-memory store of ingestion task records, keyed by task id. Reads
//! report the stored record; writes are guarded by the lifecycle rules: a
//! terminal record never changes, and a failing transition freezes the
//! progress reached so far. The unverified shell wraps a store instance in
//! a process-wide lock; every rule about its contents is enforced here.

use vstd::prelude::*;
use vstd::string::*;
use crate::clock::now_rfc3339;
use crate::models::{clone_opt_string, TaskStatus, TaskStatusType, TaskStatusView};

verus! {

/// Index of the first record in `tasks` with the given id.
pub open spec fn spec_find_id(tasks: Seq<TaskStatus>, id: Seq<char>) -> Option<int>
    decreases tasks.len(),
{
    if tasks.len() == 0 {
        Option::None
    } else if tasks[0]@.id == id {
        Option::Some(0int)
    } else {
        match spec_find_id(tasks.drop_first(), id) {
            Option::Some(j) => Option::Some(j + 1),
            Option::None => Option::None,
        }
    }
}

proof fn lemma_find_id_char(tasks: Seq<TaskStatus>, id: Seq<char>)
    ensures
        match spec_find_id(tasks, id) {
            Option::Some(j) => 0 <= j < tasks.len() && tasks[j]@.id == id && forall|k: int|
                0 <= k < j ==> (#[trigger] tasks[k])@.id != id,
            Option::None => forall|k: int| 0 <= k < tasks.len() ==> (#[trigger] tasks[k])@.id != id,
        },
    decreases tasks.len(),
{
    if tasks.len() > 0 && tasks[0]@.id != id {
        let rest = tasks.drop_first();
        lemma_find_id_char(rest, id);
        match spec_find_id(rest, id) {
            Option::Some(j) => {
                assert(tasks[j + 1] == rest[j]);
                assert forall|k: int| 0 <= k < j + 1 implies (#[trigger] tasks[k])@.id != id by {
                    if k > 0 {
                        assert(tasks[k] == rest[k - 1]);
                    }
                }
            },
            Option::None => {
                assert forall|k: int|
                    0 <= k < tasks.len() implies (#[trigger] tasks[k])@.id != id by {
                    if k > 0 {
                        assert(tasks[k] == rest[k - 1]);
                    }
                }
            },
        }
    }
}

proof fn lemma_find_id_unique(tasks: Seq<TaskStatus>, id: Seq<char>, k: int)
    requires
        0 <= k < tasks.len(),
        tasks[k]@.id == id,
        forall|j: int| 0 <= j < k ==> (#[trigger] tasks[j])@.id != id,
    ensures
        spec_find_id(tasks, id) == Option::Some(k),
    decreases tasks.len(),
{
    if k > 0 {
        lemma_find_id_unique(tasks.drop_first(), id, k - 1);
    }
}

proof fn lemma_find_id_none(tasks: Seq<TaskStatus>, id: Seq<char>)
    requires
        forall|k: int| 0 <= k < tasks.len() ==> (#[trigger] tasks[k])@.id != id,
    ensures
        spec_find_id(tasks, id) is None,
    decreases tasks.len(),
{
    if tasks.len() > 0 {
        lemma_find_id_none(tasks.drop_first(), id);
    }
}

proof fn lemma_find_id_same_ids(a: Seq<TaskStatus>, b: Seq<TaskStatus>, id: Seq<char>)
    requires
        a.len() == b.len(),
        forall|k: int| 0 <= k < a.len() ==> (#[trigger] a[k])@.id == b[k]@.id,
    ensures
        spec_find_id(a, id) == spec_find_id(b, id),
    decreases a.len(),
{
    if a.len() > 0 {
        lemma_find_id_same_ids(a.drop_first(), b.drop_first(), id);
        assert(forall|k: int|
            0 <= k < a.drop_first().len() ==> (#[trigger] a.drop_first()[k]) == a[k + 1]
                && b.drop_first()[k] == b[k + 1]);
    }
}

/// The task records of one process, keyed by id.
pub struct TaskStore {
    tasks: Vec<TaskStatus>,
}

impl TaskStore {
    /// Store invariant: ids are unique and every record is well formed.
    pub closed spec fn wf(self) -> bool {
        &&& forall|i: int, j: int|
            0 <= i < j < self.tasks@.len() ==> (#[trigger] self.tasks@[i])@.id != (
            #[trigger] self.tasks@[j])@.id
        &&& forall|i: int| 0 <= i < self.tasks@.len() ==> (#[trigger] self.tasks@[i])@.wf()
    }

    /// The record stored under `id`, if any.
    pub closed spec fn spec_task(self, id: Seq<char>) -> Option<TaskStatusView> {
        match spec_find_id(self.tasks@, id) {
            Option::Some(i) => Option::Some(self.tasks@[i]@),
            Option::None => Option::None,
        }
    }

    /// A stored record is well formed and carries its own key.
    pub proof fn lemma_stored_wf(self, id: Seq<char>)
        requires
            self.wf(),
            self.spec_task(id) is Some,
        ensures
            self.spec_task(id)->0.wf(),
            self.spec_task(id)->0.id == id,
    {
        lemma_find_id_char(self.tasks@, id);
    }

    /// Index of the record stored under `id`, if any.
    fn find_index(&self, id: &str) -> (r: Option<usize>)
        ensures
            match r {
                Option::Some(i) => i < self.tasks@.len() && self.tasks@[i as int]@.id == id@
                    && spec_find_id(self.tasks@, id@) == Option::Some(i as int),
                Option::None => spec_find_id(self.tasks@, id@) is None && self.spec_task(id@)
                    is None,
            },
    {
        let n: usize = self.tasks.len();
        let mut i: usize = 0;
        while i < n
            invariant
                0 <= i <= n,
                n == self.tasks@.len(),
                forall|k: int| 0 <= k < i ==> (#[trigger] self.tasks@[k])@.id != id@,
            decreases n - i,
        {
            if str_eq_string(&self.tasks[i].id, id) {
                proof {
                    lemma_find_id_unique(self.tasks@, id@, i as int);
                }
                return Option::Some(i);
            }
            i = i + 1;
        }
        proof {
            lemma_find_id_none(self.tasks@, id@);
        }
        Option::None
    }

    /// Creates (or replaces) the record for a task: `Pending`, zero
    /// progress, no error, both timestamps set to the same moment of
    /// creation. Records under other ids are untouched.
    pub fn create_task(&mut self, task_id: String)
        requires
            old(self).wf(),
        ensures
            final(self).wf(),
            final(self).spec_task(task_id@) is Some,
            ({
                let t = final(self).spec_task(task_id@)->0;
                &&& t.id == task_id@
                &&& t.status == TaskStatusType::Pending
                &&& t.progress_permille == Option::Some(0u32)
                &&& t.error is None
                &&& t.created_at == t.updated_at
            }),
            forall|other: Seq<char>|
                other != task_id@ ==> #[trigger] final(self).spec_task(other) == old(
                    self,
                ).spec_task(other),
    {
        let now = now_rfc3339();
        let record = TaskStatus {
            id: task_id.clone(),
            status: TaskStatusType::Pending,
            progress_permille: Option::Some(0),
            error: Option::None,
            created_at: now.clone(),
            updated_at: now,
        };
        let ghost before = self.tasks@;
        match self.find_index(task_id.as_str()) {
            Option::Some(i) => {
                self.tasks.set(i, record);
                proof {
                    assert(self.tasks@ =~= before.update(i as int, self.tasks@[i as int]));
                    lemma_find_id_same_ids(before, self.tasks@, task_id@);
                    assert forall|other: Seq<char>| other != task_id@ implies #[trigger] self.spec_task(
                        other,
                    ) == old(self).spec_task(other) by {
                        lemma_find_id_same_ids(before, self.tasks@, other);
                        lemma_find_id_char(before, other);
                    }
                }
            },
            Option::None => {
                self.tasks.push(record);
                proof {
                    lemma_find_id_char(before, task_id@);
                    lemma_find_id_unique(self.tasks@, task_id@, before.len() as int);
                    assert forall|other: Seq<char>| other != task_id@ implies #[trigger] self.spec_task(
                        other,
                    ) == old(self).spec_task(other) by {
                        lemma_find_id_char(before, other);
                        match spec_find_id(before, other) {
                            Option::Some(j) => {
                                lemma_find_id_unique(self.tasks@, other, j);
                            },
                            Option::None => {
                                lemma_find_id_none(self.tasks@, other);
                            },
                        }
                    }
                }
            },
        }
    }

    /// The record stored under `task_id`, reported as stored.
    pub fn get_task_status(&self, task_id: &str) -> (r: Option<TaskStatus>)
        ensures
            match r {
                Option::Some(t) => self.spec_task(task_id@) == Option::Some(t@),
                Option::None => self.spec_task(task_id@) is None,
            },
    {
        match self.find_index(task_id) {
            Option::Some(i) => Option::Some(self.tasks[i].clone()),
            Option::None => Option::None,
        }
    }

    /// Applies one lifecycle transition to the record under `task_id`.
    /// A missing record and a record already terminal are left untouched.
    /// A transition to `Failed` keeps the progress reached so far and
    /// records the error; any other transition clears the error and takes
    /// the given progress where one is given.
    pub fn update_task_status(
        &mut self,
        task_id: &str,
        status: TaskStatusType,
        progress: Option<u32>,
        error: Option<String>,
    )
        requires
            old(self).wf(),
            progress is Some ==> progress->0 <= 1000,
            (status == TaskStatusType::Failed) <==> (error is Some),
        ensures
            final(self).wf(),
            forall|other: Seq<char>|
                other != task_id@ ==> #[trigger] final(self).spec_task(other) == old(
                    self,
                ).spec_task(other),
            old(self).spec_task(task_id@) is None ==> final(self).spec_task(task_id@) is None,
            ({
                let before = old(self).spec_task(task_id@);
                before matches Option::Some(t) ==> {
                    &&& t.status.spec_is_terminal() ==> final(self).spec_task(task_id@)
                        == Option::Some(t)
                    &&& !t.status.spec_is_terminal() ==> ({
                        let after = final(self).spec_task(task_id@);
                        &&& after is Some
                        &&& after->0.id == t.id
                        &&& after->0.status == status
                        &&& after->0.created_at == t.created_at
                        &&& after->0.progress_permille == (if status == TaskStatusType::Failed {
                            t.progress_permille
                        } else if progress is Some {
                            progress
                        } else {
                            t.progress_permille
                        })
                        &&& after->0.error == (if status == TaskStatusType::Failed {
                            error.deep_view()
                        } else {
                            Option::<Seq<char>>::None
                        })
                    })
                }
            }),
    {
        let ghost before = self.tasks@;
        let i: usize = match self.find_index(task_id) {
            Option::Some(i) => i,
            Option::None => {
                return ;
            },
        };
        if self.tasks[i].status.is_terminal() {
            return ;
        }
        let old_record = &self.tasks[i];
        let new_progress: Option<u32> = if status == TaskStatusType::Failed {
            old_record.progress_permille
        } else {
            match progress {
                Option::Some(p) => Option::Some(p),
                Option::None => old_record.progress_permille,
            }
        };
        let new_error: Option<String> = if status == TaskStatusType::Failed {
            clone_opt_string(&error)
        } else {
            Option::None
        };
        let record = TaskStatus {
            id: old_record.id.clone(),
            status,
            progress_permille: new_progress,
            error: new_error,
            created_at: old_record.created_at.clone(),
            updated_at: now_rfc3339(),
        };
        self.tasks.set(i, record);
        proof {
            assert(before[i as int]@.wf());
            assert(self.tasks@[i as int]@.wf());
            lemma_find_id_same_ids(before, self.tasks@, task_id@);
            assert forall|other: Seq<char>| other != task_id@ implies #[trigger] self.spec_task(
                other,
            ) == old(self).spec_task(other) by {
                lemma_find_id_same_ids(before, self.tasks@, other);
                lemma_find_id_char(before, other);
            }
        }
    }
}

/// A fresh, empty task store.
pub fn create_task_store() -> (r: TaskStore)
    ensures
        r.wf(),
        forall|id: Seq<char>| #[trigger] r.spec_task(id) is None,
{
    TaskStore { tasks: Vec::new() }
}

/// Character-wise equality between a stored id and a queried one.
fn str_eq_string(a: &String, b: &str) -> (r: bool)
    ensures
        r == (a@ == b@),
{
    crate::text::str_eq(a.as_str(), b)
}

} // verus!
