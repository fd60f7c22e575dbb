//! The upload handler: the decisions of `POST /upload` and of the status
//! route, over parts already read from the request body.
//!
//! A part is accepted exactly when it carries a safe, non-empty filename.
//! Each accepted part gets a fresh task id, a registry entry with status
//! `Processing`, and a scheduled write; the caller performs the writes out
//! of band and reports each outcome back through `complete_upload`.

use crate::ids::fresh_task_id;
use crate::registry::TaskRegistry;
use crate::registry::TaskSpec;
use crate::sanitize::destination_path;
use crate::sanitize::is_safe_filename;
use crate::sanitize::joined_path;
use crate::sanitize::sanitize_filename;
use crate::status::opt_chars;
use crate::status::spec_terminal_status;
use crate::status::status_label_chars;
use crate::status::terminal_status;
use crate::status::StatusSpec;
use crate::status::TaskStatus;
use vstd::prelude::*;
use vstd::string::StringExecFns;

verus! {

/// One part of a multipart upload body, as plain values: an optional field
/// name, an optional client-supplied filename, and the payload bytes.
pub struct PartInput {
    pub field_name: Option<String>,
    pub filename: Option<String>,
    pub data: Vec<u8>,
}

/// The mathematical value of a `PartInput`.
pub struct PartSpec {
    pub field_name: Option<Seq<char>>,
    pub filename: Option<Seq<char>>,
    pub data: Seq<u8>,
}

impl View for PartInput {
    type V = PartSpec;

    open spec fn view(&self) -> PartSpec {
        PartSpec {
            field_name: match self.field_name {
                None => None,
                Some(ref s) => Some(s@),
            },
            filename: match self.filename {
                None => None,
                Some(ref s) => Some(s@),
            },
            data: self.data@,
        }
    }
}

/// A part is accepted exactly when it carries a safe filename.
pub open spec fn spec_acceptable(part: PartSpec) -> bool {
    part.filename matches Some(name) && is_safe_filename(name)
}

/// A write the caller must perform out of band: the payload bytes go to
/// the destination path, and the outcome is reported back under the task
/// id.
pub struct ScheduledWrite {
    pub task_id: String,
    pub filename: String,
    pub dest_path: String,
    pub data: Vec<u8>,
}

/// The mathematical value of a `ScheduledWrite`.
pub struct ScheduledWriteSpec {
    pub task_id: Seq<char>,
    pub filename: Seq<char>,
    pub dest_path: Seq<char>,
    pub data: Seq<u8>,
}

impl View for ScheduledWrite {
    type V = ScheduledWriteSpec;

    open spec fn view(&self) -> ScheduledWriteSpec {
        ScheduledWriteSpec {
            task_id: self.task_id@,
            filename: self.filename@,
            dest_path: self.dest_path@,
            data: self.data@,
        }
    }
}

/// The write took its filename and bytes from the given part.
pub open spec fn from_part(w: ScheduledWriteSpec, part: PartSpec) -> bool {
    &&& part.filename matches Some(name) && w.filename == name
    &&& is_safe_filename(w.filename)
    &&& w.data == part.data
}

/// The write took its filename and bytes from one of the given parts.
pub open spec fn from_some_part(w: ScheduledWriteSpec, parts: Seq<PartInput>) -> bool {
    exists|p: int| 0 <= p < parts.len() && from_part(w, (#[trigger] parts[p])@)
}

/// The write's task is registered: its id maps to a `Processing` entry
/// carrying the write's filename and its destination path inside `dir`.
pub open spec fn write_registered(
    w: ScheduledWriteSpec,
    dir: Seq<char>,
    m: Map<Seq<char>, TaskSpec>,
) -> bool {
    &&& m.contains_key(w.task_id)
    &&& m[w.task_id] == (TaskSpec {
        id: w.task_id,
        status: StatusSpec::Processing,
        filename: w.filename,
        dest_path: w.dest_path,
    })
    &&& w.dest_path == joined_path(dir, w.filename)
}

/// The ids of a sequence of scheduled writes.
pub open spec fn ids_of(ws: Seq<ScheduledWrite>) -> Seq<Seq<char>> {
    ws.map_values(|w: ScheduledWrite| w.task_id@)
}

/// The JSON object reporting one accepted upload.
pub open spec fn task_json(id: Seq<char>) -> Seq<char> {
    "{\"task_id\":\""@ + id + "\",\"status\":\"processing\"}"@
}

/// The JSON object reporting that no part carried a usable file.
pub open spec fn no_file_json() -> Seq<char> {
    "{\"error\":\"no file uploaded\"}"@
}

/// The JSON objects of the accepted uploads, comma-separated.
pub open spec fn tasks_json_items(ids: Seq<Seq<char>>) -> Seq<char>
    decreases ids.len(),
{
    if ids.len() == 0 {
        Seq::empty()
    } else if ids.len() == 1 {
        task_json(ids[0])
    } else {
        tasks_json_items(ids.drop_last()) + ","@ + task_json(ids.last())
    }
}

/// The body answering `POST /upload`: one JSON object per accepted part,
/// or the no-file error where none was accepted.
pub open spec fn upload_response_chars(ids: Seq<Seq<char>>) -> Seq<char> {
    if ids.len() == 0 {
        no_file_json()
    } else {
        "["@ + tasks_json_items(ids) + "]"@
    }
}

/// The body answering a status query.
pub open spec fn status_json_chars(s: StatusSpec) -> Seq<char> {
    "{\"status\":\""@ + status_label_chars(s) + "\"}"@
}

/// The JSON object reporting one accepted upload.
fn task_json_of(id: &String) -> (r: String)
    ensures
        r@ == task_json(id@),
{
    let mut r = "{\"task_id\":\"".to_owned();
    r.append(id.as_str());
    r.append("\",\"status\":\"processing\"}");
    r
}

/// Renders the `POST /upload` response body for the accepted writes.
pub fn upload_response_json(writes: &Vec<ScheduledWrite>) -> (r: String)
    ensures
        r@ == upload_response_chars(ids_of(writes@)),
{
    if writes.len() == 0 {
        return "{\"error\":\"no file uploaded\"}".to_owned();
    }
    let mut r = "[".to_owned();
    let mut k: usize = 0;
    while k < writes.len()
        invariant
            k <= writes@.len(),
            writes@.len() > 0,
            r@ == "["@ + tasks_json_items(ids_of(writes@).subrange(0, k as int)),
        decreases writes@.len() - k,
    {
        if k > 0 {
            r.append(",");
        }
        let item = task_json_of(&writes[k].task_id);
        r.append(item.as_str());
        proof {
            let ids = ids_of(writes@);
            let prev = ids.subrange(0, k as int);
            let cur = ids.subrange(0, k + 1 as int);
            assert(cur.drop_last() =~= prev);
            assert(cur.last() == ids[k as int]);
            assert(ids[k as int] == writes@[k as int].task_id@);
            if k == 0 {
                assert(tasks_json_items(cur) == task_json(ids[0]));
                assert(r@ =~= "["@ + tasks_json_items(cur));
            } else {
                assert(tasks_json_items(cur) == tasks_json_items(prev) + ","@ + task_json(
                    ids[k as int],
                ));
                assert(r@ =~= "["@ + tasks_json_items(cur));
            }
        }
        k = k + 1;
    }
    r.append("]");
    proof {
        assert(ids_of(writes@).subrange(0, writes@.len() as int) =~= ids_of(writes@));
    }
    r
}

/// Renders the body answering a status query.
pub fn status_json(status: &TaskStatus) -> (r: String)
    ensures
        r@ == status_json_chars(status@),
{
    let mut r = "{\"status\":\"".to_owned();
    r.append(status.label());
    r.append("\"}");
    r
}

/// The upload handler: the upload directory it was constructed with, and
/// the task registry it maintains.
pub struct UploadHandler {
    upload_dir: String,
    registry: TaskRegistry,
}

impl View for UploadHandler {
    type V = Map<Seq<char>, TaskSpec>;

    closed spec fn view(&self) -> Map<Seq<char>, TaskSpec> {
        self.registry@
    }
}

impl UploadHandler {
    /// The handler's invariant: its registry is well formed.
    pub closed spec fn wf(&self) -> bool {
        self.registry.wf()
    }

    /// The upload directory all destination paths are joined onto.
    pub closed spec fn spec_dir(&self) -> Seq<char> {
        self.upload_dir@
    }

    /// A handler over an empty registry.
    pub fn new(upload_dir: String) -> (h: UploadHandler)
        ensures
            h.wf(),
            h.spec_dir() == upload_dir@,
            h@ == Map::<Seq<char>, TaskSpec>::empty(),
    {
        UploadHandler { upload_dir, registry: TaskRegistry::new() }
    }

    /// The upload directory.
    pub fn dir(&self) -> (d: &String)
        ensures
            d@ == self.spec_dir(),
    {
        &self.upload_dir
    }

    /// Admits one part under the given task id. The part is accepted, and
    /// a write returned, exactly when it carries a safe filename and the
    /// id is fresh; otherwise the registry is unchanged.
    pub fn admit_part_with_id(&mut self, part: PartInput, id: String) -> (r: Option<
        ScheduledWrite,
    >)
        requires
            old(self).wf(),
        ensures
            final(self).wf(),
            final(self).spec_dir() == old(self).spec_dir(),
            r is Some <==> (spec_acceptable(part@) && !old(self)@.contains_key(id@)),
            r matches Some(w) ==> w@.task_id == id@ && from_part(w@, part@) && write_registered(
                w@,
                old(self).spec_dir(),
                final(self)@,
            ) && final(self)@ == old(self)@.insert(
                id@,
                (TaskSpec {
                    id: id@,
                    status: StatusSpec::Processing,
                    filename: w@.filename,
                    dest_path: w@.dest_path,
                }),
            ),
            r is None ==> final(self)@ == old(self)@,
    {
        let PartInput { field_name: _, filename, data } = part;
        match filename {
            None => None,
            Some(name) => {
                if !sanitize_filename(name.as_str()) {
                    return None;
                }
                if self.registry.contains(&id) {
                    return None;
                }
                let dest_path = destination_path(self.upload_dir.as_str(), name.as_str());
                let fresh = self.registry.insert_fresh(
                    id.clone(),
                    name.clone(),
                    dest_path.clone(),
                );
                assert(fresh);
                Some(ScheduledWrite { task_id: id, filename: name, dest_path, data })
            },
        }
    }

    /// Admits one part under a fresh random task id. A rejected or
    /// ignored part, or the negligible case of a colliding random id,
    /// returns nothing and leaves the registry unchanged.
    pub fn admit_part(&mut self, part: PartInput) -> (r: Option<ScheduledWrite>)
        requires
            old(self).wf(),
        ensures
            final(self).wf(),
            final(self).spec_dir() == old(self).spec_dir(),
            r is Some ==> spec_acceptable(part@),
            r matches Some(w) ==> from_part(w@, part@) && !old(self)@.contains_key(w@.task_id)
                && write_registered(w@, old(self).spec_dir(), final(self)@) && final(self)@ == old(
                self,
            )@.insert(
                w@.task_id,
                (TaskSpec {
                    id: w@.task_id,
                    status: StatusSpec::Processing,
                    filename: w@.filename,
                    dest_path: w@.dest_path,
                }),
            ),
            r is None ==> final(self)@ == old(self)@,
    {
        let id = fresh_task_id();
        self.admit_part_with_id(part, id)
    }

    /// Handles a whole upload body: admits each part in order, and renders
    /// the response. Accepted writes carry pairwise distinct task ids, all
    /// registered as `Processing`; entries issued before the call are
    /// untouched; a body with no acceptable part changes nothing and is
    /// answered with the no-file error.
    pub fn handle_parts(&mut self, parts: Vec<PartInput>) -> (r: (Vec<ScheduledWrite>, String))
        requires
            old(self).wf(),
        ensures
            final(self).wf(),
            final(self).spec_dir() == old(self).spec_dir(),
            forall|k: int|
                0 <= k < r.0@.len() ==> from_some_part((#[trigger] r.0@[k])@, parts@)
                    && write_registered(r.0@[k]@, old(self).spec_dir(), final(self)@),
            forall|k1: int, k2: int|
                0 <= k1 < k2 < r.0@.len() ==> r.0@[k1]@.task_id != r.0@[k2]@.task_id,
            forall|id: Seq<char>|
                #[trigger] old(self)@.contains_key(id) ==> final(self)@.contains_key(id)
                    && final(self)@[id] == old(self)@[id],
            r.0@.len() == 0 ==> final(self)@ == old(self)@,
            (forall|p: int| 0 <= p < parts@.len() ==> !spec_acceptable((#[trigger] parts@[p])@))
                ==> r.0@.len() == 0,
            r.1@ == upload_response_chars(ids_of(r.0@)),
    {
        let ghost all_parts = parts@;
        let ghost m0 = old(self)@;
        let ghost dir0 = old(self).spec_dir();
        let mut parts = parts;
        let mut writes: Vec<ScheduledWrite> = Vec::new();
        let ghost done: int = 0;
        while parts.len() > 0
            invariant
                self.wf(),
                self.spec_dir() == dir0,
                0 <= done <= all_parts.len(),
                parts@ =~= all_parts.subrange(done, all_parts.len() as int),
                forall|k: int|
                    0 <= k < writes@.len() ==> from_some_part((#[trigger] writes@[k])@, all_parts)
                        && write_registered(writes@[k]@, dir0, self@),
                forall|k1: int, k2: int|
                    0 <= k1 < k2 < writes@.len() ==> writes@[k1]@.task_id != writes@[k2]@.task_id,
                forall|id: Seq<char>|
                    #[trigger] m0.contains_key(id) ==> self@.contains_key(id) && self@[id]
                        == m0[id],
                writes@.len() == 0 ==> self@ == m0,
            decreases parts@.len(),
        {
            let ghost prev_writes = writes@;
            let ghost prev_map = self@;
            let part = parts.remove(0);
            proof {
                assert(part == all_parts[done]);
            }
            let admitted = self.admit_part(part);
            match admitted {
                Some(w) => {
                    proof {
                        assert(from_part(w@, all_parts[done]@));
                        assert forall|k: int|
                            0 <= k < prev_writes.len() implies write_registered(
                            (#[trigger] prev_writes[k])@,
                            dir0,
                            self@,
                        ) by {
                            assert(prev_map.contains_key(prev_writes[k]@.task_id));
                            assert(prev_writes[k]@.task_id != w@.task_id);
                        }
                        assert forall|id2: Seq<char>| m0.contains_key(id2) implies self@.contains_key(
                            id2,
                        ) && self@[id2] == m0[id2] by {
                            assert(prev_map.contains_key(id2));
                            assert(id2 != w@.task_id);
                        }
                    }
                    writes.push(w);
                },
                None => {},
            }
            proof {
                done = done + 1;
            }
        }
        let response = upload_response_json(&writes);
        (writes, response)
    }

    /// Records the outcome of one background write: the task moves to
    /// `Completed`, or to `Failed` with a non-empty reason. An unknown id
    /// changes nothing; no id is ever added or removed here.
    pub fn complete_upload(&mut self, id: &String, write_error: Option<String>)
        requires
            old(self).wf(),
        ensures
            final(self).wf(),
            final(self).spec_dir() == old(self).spec_dir(),
            final(self)@.dom() == old(self)@.dom(),
            old(self)@.contains_key(id@) ==> final(self)@ == old(self)@.insert(
                id@,
                (TaskSpec {
                    id: old(self)@[id@].id,
                    status: spec_terminal_status(opt_chars(write_error)),
                    filename: old(self)@[id@].filename,
                    dest_path: old(self)@[id@].dest_path,
                }),
            ),
            !old(self)@.contains_key(id@) ==> final(self)@ == old(self)@,
    {
        let status = terminal_status(write_error);
        self.registry.set_status(id, status);
    }

    /// The status of the task with the given id, or nothing where the id
    /// was never issued.
    pub fn status_of(&self, id: &String) -> (r: Option<&TaskStatus>)
        requires
            self.wf(),
        ensures
            (match r {
                Some(status) => Some(status@),
                None => None,
            }) == crate::registry::spec_status_of(self@, id@),
    {
        self.registry.get_status(id)
    }

    /// The body answering `GET /status/{id}`, or nothing — a not-found
    /// outcome — where the id was never issued.
    pub fn status_response_json(&self, id: &String) -> (r: Option<String>)
        requires
            self.wf(),
        ensures
            r is Some <==> self@.contains_key(id@),
            r matches Some(j) ==> j@ == status_json_chars(self@[id@].status),
    {
        match self.registry.get_status(id) {
            Some(status) => Some(status_json(status)),
            None => None,
        }
    }

    /// The number of issued ids.
    pub fn task_count(&self) -> (n: usize)
        requires
            self.wf(),
        ensures
            n == self@.dom().len(),
    {
        self.registry.len()
    }
}

} // verus!
