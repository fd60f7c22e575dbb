//! The task registry: a concurrency-agnostic mapping from task id to the
//! task's status, shared state of the upload handler and the background
//! write. The registry itself is a plain value; callers that share it
//! across threads put it behind a lock of their own.
//!
//! Once an id is inserted it is never removed: updates change only the
//! status of the entry, so the domain of the mapping only grows, and only
//! through `insert_fresh`.

use crate::ids::fresh_task_id;
use crate::status::StatusSpec;
use crate::status::TaskStatus;
use vstd::prelude::*;

verus! {

/// One upload task: its id, its current status, the client-supplied
/// filename, and the destination path derived from it.
pub struct UploadTask {
    pub id: String,
    pub status: TaskStatus,
    pub filename: String,
    pub dest_path: String,
}

/// The mathematical value of an `UploadTask`.
pub struct TaskSpec {
    pub id: Seq<char>,
    pub status: StatusSpec,
    pub filename: Seq<char>,
    pub dest_path: Seq<char>,
}

impl View for UploadTask {
    type V = TaskSpec;

    open spec fn view(&self) -> TaskSpec {
        TaskSpec {
            id: self.id@,
            status: self.status@,
            filename: self.filename@,
            dest_path: self.dest_path@,
        }
    }
}

/// The mapping described by a sequence of tasks: later entries win, though
/// a well-formed registry never holds two entries with one id.
pub open spec fn map_of(s: Seq<UploadTask>) -> Map<Seq<char>, TaskSpec>
    decreases s.len(),
{
    if s.len() == 0 {
        Map::empty()
    } else {
        map_of(s.drop_last()).insert(s.last().id@, s.last()@)
    }
}

/// No two entries share an id.
pub open spec fn distinct_ids(s: Seq<UploadTask>) -> bool {
    forall|i: int, j: int| 0 <= i < j < s.len() ==> s[i].id@ != s[j].id@
}

/// The registry: a mapping from task id to task, stored as a vector of
/// entries with pairwise distinct ids.
pub struct TaskRegistry {
    tasks: Vec<UploadTask>,
}

impl View for TaskRegistry {
    type V = Map<Seq<char>, TaskSpec>;

    closed spec fn view(&self) -> Map<Seq<char>, TaskSpec> {
        map_of(self.tasks@)
    }
}

/// What a status query answers: the status of the task, or nothing where
/// the id was never issued.
pub open spec fn spec_status_of(m: Map<Seq<char>, TaskSpec>, id: Seq<char>) -> Option<StatusSpec> {
    if m.contains_key(id) {
        Some(m[id].status)
    } else {
        None
    }
}

proof fn lemma_map_of_contains(s: Seq<UploadTask>, k: Seq<char>)
    ensures
        map_of(s).contains_key(k) <==> exists|i: int| 0 <= i < s.len() && s[i].id@ == k,
    decreases s.len(),
{
    if s.len() > 0 {
        let prefix = s.drop_last();
        lemma_map_of_contains(prefix, k);
        if s.last().id@ == k {
            assert(s[s.len() - 1].id@ == k);
        } else {
            if map_of(s).contains_key(k) {
                let i = choose|i: int| 0 <= i < prefix.len() && prefix[i].id@ == k;
                assert(s[i].id@ == k);
            }
            if exists|i: int| 0 <= i < s.len() && s[i].id@ == k {
                let i = choose|i: int| 0 <= i < s.len() && s[i].id@ == k;
                assert(i < s.len() - 1);
                assert(prefix[i].id@ == k);
            }
        }
    }
}

proof fn lemma_map_of_index(s: Seq<UploadTask>, i: int)
    requires
        distinct_ids(s),
        0 <= i < s.len(),
    ensures
        map_of(s).contains_key(s[i].id@),
        map_of(s)[s[i].id@] == s[i]@,
    decreases s.len(),
{
    let prefix = s.drop_last();
    if i == s.len() - 1 {
        assert(s.last() == s[i]);
    } else {
        assert(distinct_ids(prefix)) by {
            assert(forall|p: int, q: int|
                0 <= p < q < prefix.len() ==> prefix[p].id@ != prefix[q].id@);
        }
        assert(prefix[i] == s[i]);
        lemma_map_of_index(prefix, i);
        assert(s.last().id@ != s[i].id@);
    }
}

proof fn lemma_map_of_push(s: Seq<UploadTask>, t: UploadTask)
    ensures
        map_of(s.push(t)) == map_of(s).insert(t.id@, t@),
{
    assert(s.push(t).drop_last() =~= s);
    assert(s.push(t).last() == t);
}

proof fn lemma_map_of_update(s: Seq<UploadTask>, i: int, t: UploadTask)
    requires
        distinct_ids(s),
        0 <= i < s.len(),
        t.id@ == s[i].id@,
    ensures
        map_of(s.update(i, t)) =~= map_of(s).insert(t.id@, t@),
    decreases s.len(),
{
    let prefix = s.drop_last();
    if i == s.len() - 1 {
        assert(s.update(i, t).drop_last() =~= prefix);
        assert(s.update(i, t).last() == t);
    } else {
        assert(distinct_ids(prefix)) by {
            assert(forall|p: int, q: int|
                0 <= p < q < prefix.len() ==> prefix[p].id@ != prefix[q].id@);
        }
        assert(prefix[i] == s[i]);
        lemma_map_of_update(prefix, i, t);
        assert(s.update(i, t).drop_last() =~= prefix.update(i, t));
        assert(s.update(i, t).last() == s.last());
        assert(s.last().id@ != t.id@);
    }
}

proof fn lemma_distinct_after_update(s: Seq<UploadTask>, i: int, t: UploadTask)
    requires
        distinct_ids(s),
        0 <= i < s.len(),
        t.id@ == s[i].id@,
    ensures
        distinct_ids(s.update(i, t)),
{
}

impl TaskRegistry {
    /// The registry's invariant: entry ids are pairwise distinct.
    pub closed spec fn wf(&self) -> bool {
        distinct_ids(self.tasks@)
    }

    /// An empty registry.
    pub fn new() -> (r: TaskRegistry)
        ensures
            r.wf(),
            r@ == Map::<Seq<char>, TaskSpec>::empty(),
    {
        TaskRegistry { tasks: Vec::new() }
    }

    /// The index of the entry with the given id, if one exists.
    fn find_index(&self, id: &String) -> (r: Option<usize>)
        requires
            self.wf(),
        ensures
            r matches Some(i) ==> i < self.tasks@.len() && self.tasks@[i as int].id@ == id@,
            r is None ==> !self@.contains_key(id@),
    {
        let n = self.tasks.len();
        let mut i: usize = 0;
        while i < n
            invariant
                i <= n,
                n == self.tasks@.len(),
                forall|j: int| 0 <= j < i ==> self.tasks@[j].id@ != id@,
            decreases n - i,
        {
            if self.tasks[i].id.eq(id) {
                return Some(i);
            }
            i = i + 1;
        }
        proof {
            lemma_map_of_contains(self.tasks@, id@);
        }
        None
    }

    /// Whether the given id is already registered.
    pub fn contains(&self, id: &String) -> (r: bool)
        requires
            self.wf(),
        ensures
            r == self@.contains_key(id@),
    {
        let found = self.find_index(id);
        match found {
            Some(i) => {
                proof {
                    lemma_map_of_index(self.tasks@, i as int);
                }
                true
            },
            None => false,
        }
    }

    /// Inserts a new task under the given id with status `Processing`.
    /// Returns whether the id was fresh; a colliding id leaves the
    /// registry unchanged.
    pub fn insert_fresh(&mut self, id: String, filename: String, dest_path: String) -> (fresh:
        bool)
        requires
            old(self).wf(),
        ensures
            final(self).wf(),
            fresh == !old(self)@.contains_key(id@),
            fresh ==> final(self)@ == old(self)@.insert(
                id@,
                (TaskSpec {
                    id: id@,
                    status: StatusSpec::Processing,
                    filename: filename@,
                    dest_path: dest_path@,
                }),
            ),
            !fresh ==> final(self)@ == old(self)@,
    {
        if self.contains(&id) {
            return false;
        }
        let task = UploadTask { id, status: TaskStatus::Processing, filename, dest_path };
        proof {
            lemma_map_of_push(self.tasks@, task);
            lemma_map_of_contains(self.tasks@, task.id@);
            assert(distinct_ids(self.tasks@.push(task))) by {
                assert(forall|j: int|
                    0 <= j < self.tasks@.len() ==> self.tasks@[j].id@ != task.id@);
                assert(forall|p: int, q: int|
                    0 <= p < q < self.tasks@.push(task).len() ==> self.tasks@.push(task)[p].id@
                        != self.tasks@.push(task)[q].id@);
            }
        }
        self.tasks.push(task);
        true
    }

    /// Allocates a fresh random task id and inserts an entry with status
    /// `Processing`. Returns the id, or nothing in the negligible case
    /// that the drawn id collides with an issued one; then the registry is
    /// unchanged and the caller may simply retry.
    pub fn create(&mut self, filename: String, dest_path: String) -> (r: Option<String>)
        requires
            old(self).wf(),
        ensures
            final(self).wf(),
            r matches Some(id) ==> !old(self)@.contains_key(id@) && final(self)@ == old(
                self,
            )@.insert(
                id@,
                (TaskSpec {
                    id: id@,
                    status: StatusSpec::Processing,
                    filename: filename@,
                    dest_path: dest_path@,
                }),
            ),
            r is None ==> final(self)@ == old(self)@,
    {
        let id = fresh_task_id();
        let returned = id.clone();
        if self.insert_fresh(id, filename, dest_path) {
            Some(returned)
        } else {
            None
        }
    }

    /// Overwrites the status of an existing entry; an unknown id is
    /// ignored, as the registry is best-effort bookkeeping. The set of
    /// issued ids never changes here.
    pub fn set_status(&mut self, id: &String, status: TaskStatus)
        requires
            old(self).wf(),
        ensures
            final(self).wf(),
            old(self)@.contains_key(id@) ==> final(self)@ == old(self)@.insert(
                id@,
                (TaskSpec {
                    id: old(self)@[id@].id,
                    status: status@,
                    filename: old(self)@[id@].filename,
                    dest_path: old(self)@[id@].dest_path,
                }),
            ),
            !old(self)@.contains_key(id@) ==> final(self)@ == old(self)@,
            final(self)@.dom() == old(self)@.dom(),
    {
        let found = self.find_index(id);
        match found {
            Some(i) => {
                proof {
                    lemma_map_of_index(self.tasks@, i as int);
                }
                let ghost old_tasks = self.tasks@;
                self.tasks[i].status = status;
                proof {
                    let t = self.tasks@[i as int];
                    assert(old_tasks.update(i as int, t) =~= self.tasks@);
                    lemma_map_of_update(old_tasks, i as int, t);
                    lemma_distinct_after_update(old_tasks, i as int, t);
                    assert(final(self)@.dom() =~= old(self)@.dom());
                }
            },
            None => {
                proof {
                    assert(final(self)@.dom() =~= old(self)@.dom());
                }
            },
        }
    }

    /// The status of the task with the given id, or nothing where the id
    /// was never issued: a normal outcome, not an error.
    pub fn get_status(&self, id: &String) -> (r: Option<&TaskStatus>)
        requires
            self.wf(),
        ensures
            (match r {
                Some(status) => Some(status@),
                None => None,
            }) == spec_status_of(self@, id@),
    {
        let found = self.find_index(id);
        match found {
            Some(i) => {
                proof {
                    lemma_map_of_index(self.tasks@, i as int);
                }
                Some(&self.tasks[i].status)
            },
            None => None,
        }
    }

    /// The number of issued ids.
    pub fn len(&self) -> (n: usize)
        requires
            self.wf(),
        ensures
            n == self@.dom().len(),
    {
        proof {
            lemma_map_of_dom_len(self.tasks@);
        }
        self.tasks.len()
    }
}

proof fn lemma_map_of_dom_len(s: Seq<UploadTask>)
    requires
        distinct_ids(s),
    ensures
        map_of(s).dom().finite(),
        map_of(s).dom().len() == s.len(),
    decreases s.len(),
{
    if s.len() > 0 {
        let prefix = s.drop_last();
        assert(distinct_ids(prefix)) by {
            assert(forall|p: int, q: int|
                0 <= p < q < prefix.len() ==> prefix[p].id@ != prefix[q].id@);
        }
        lemma_map_of_dom_len(prefix);
        lemma_map_of_contains(prefix, s.last().id@);
        assert(!map_of(prefix).contains_key(s.last().id@)) by {
            assert(forall|i: int| 0 <= i < prefix.len() ==> prefix[i] == s[i]);
        }
        assert(map_of(s).dom() =~= map_of(prefix).dom().insert(s.last().id@));
    } else {
        assert(map_of(s).dom() =~= Set::<Seq<char>>::empty());
    }
}

} // verus!
