//! A verified core for a file-upload service: task identifiers, a task
//! registry mapping each identifier to an upload status, filename
//! sanitization, and the per-part decisions of the upload handler.
//! All network and disk I/O lives outside this crate.

mod handler;
mod ids;
mod laws;
mod registry;
mod sanitize;
mod status;

pub use handler::from_part;
pub use handler::from_some_part;
pub use handler::ids_of;
pub use handler::no_file_json;
pub use handler::PartInput;
pub use handler::PartSpec;
pub use handler::ScheduledWrite;
pub use handler::ScheduledWriteSpec;
pub use handler::spec_acceptable;
pub use handler::status_json;
pub use handler::status_json_chars;
pub use handler::task_json;
pub use handler::tasks_json_items;
pub use handler::upload_response_chars;
pub use handler::upload_response_json;
pub use handler::UploadHandler;
pub use handler::write_registered;
pub use ids::format_task_id;
pub use ids::fresh_task_id;
pub use ids::hex_char_of;
pub use ids::hex_chars_of;
pub use ids::hex_digits_rev;
pub use ids::lemma_task_id_chars_len;
pub use ids::task_id_chars;
pub use laws::lemma_created_task_reads_processing;
pub use laws::lemma_failed_reason_nonempty;
pub use laws::lemma_finished_task_reads_terminal;
pub use laws::lemma_issued_ids_distinct;
pub use laws::lemma_unissued_id_reads_not_found;
pub use registry::distinct_ids;
pub use registry::map_of;
pub use registry::spec_status_of;
pub use registry::TaskRegistry;
pub use registry::TaskSpec;
pub use registry::UploadTask;
pub use sanitize::destination_path;
pub use sanitize::is_forbidden_char;
pub use sanitize::is_safe_filename;
pub use sanitize::joined_path;
pub use sanitize::lemma_safe_path_within_dir;
pub use sanitize::sanitize_filename;
pub use status::is_terminal;
pub use status::opt_chars;
pub use status::spec_terminal_status;
pub use status::status_label_chars;
pub use status::StatusSpec;
pub use status::TaskStatus;
pub use status::terminal_status;
