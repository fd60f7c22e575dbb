//! The laws of the registry's lifecycle, stated over the mapping from task
//! id to task that the registry and the handler expose as their view.

use crate::registry::spec_status_of;
use crate::registry::TaskSpec;
use crate::status::is_terminal;
use crate::status::spec_terminal_status;
use crate::status::StatusSpec;
use vstd::prelude::*;

verus! {

/// Ids issued one after the other are distinct: each accepted insertion
/// requires an id fresh in a registry that already holds every id issued
/// before it, however many callers interleave between the two.
pub proof fn lemma_issued_ids_distinct(
    m0: Map<Seq<char>, TaskSpec>,
    m1: Map<Seq<char>, TaskSpec>,
    m2: Map<Seq<char>, TaskSpec>,
    id1: Seq<char>,
    t1: TaskSpec,
    id2: Seq<char>,
    t2: TaskSpec,
)
    requires
        !m0.contains_key(id1),
        m1 == m0.insert(id1, t1),
        m1.dom().subset_of(m2.dom()),
        !m2.contains_key(id2),
    ensures
        id1 != id2,
{
    assert(m1.contains_key(id1));
    assert(m2.contains_key(id1));
}

/// A status query right after an accepted upload answers `Processing`.
pub proof fn lemma_created_task_reads_processing(
    m0: Map<Seq<char>, TaskSpec>,
    id: Seq<char>,
    t: TaskSpec,
)
    requires
        t.status is Processing,
    ensures
        spec_status_of(m0.insert(id, t), id) == Some(StatusSpec::Processing),
{
}

/// Once the background write has been recorded, a status query answers the
/// terminal status: `Completed` after a successful write, `Failed`
/// otherwise.
pub proof fn lemma_finished_task_reads_terminal(
    m0: Map<Seq<char>, TaskSpec>,
    id: Seq<char>,
    t: TaskSpec,
    write_error: Option<Seq<char>>,
)
    requires
        t.status == spec_terminal_status(write_error),
    ensures
        spec_status_of(m0.insert(id, t), id) == Some(spec_terminal_status(write_error)),
        write_error is None ==> spec_status_of(m0.insert(id, t), id) == Some(
            StatusSpec::Completed,
        ),
        is_terminal(spec_terminal_status(write_error)),
{
}

/// A failed write always leaves a non-empty reason behind.
pub proof fn lemma_failed_reason_nonempty(write_error: Option<Seq<char>>)
    requires
        write_error is Some,
    ensures
        spec_terminal_status(write_error) matches StatusSpec::Failed(reason) && reason.len() > 0,
{
    reveal_strlit("write failed");
}

/// An id that was never issued answers not-found, and keeps answering
/// not-found across status updates, which never grow the set of issued
/// ids: never `Processing`.
pub proof fn lemma_unissued_id_reads_not_found(
    m0: Map<Seq<char>, TaskSpec>,
    m1: Map<Seq<char>, TaskSpec>,
    id: Seq<char>,
)
    requires
        !m0.contains_key(id),
        m1.dom() == m0.dom(),
    ensures
        spec_status_of(m0, id) is None,
        spec_status_of(m1, id) is None,
{
    assert(!m1.dom().contains(id));
}

} // verus!
