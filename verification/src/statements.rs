//! The statements by which a SQLite store carries out the operations of
//! [`crate::queue`]. Each operation is one statement, so that the store
//! keeps it atomic whoever else has the file open. The crate's tests run
//! them in SQLite and hold what they do against [`crate::queue::QueueStore`].

use vstd::prelude::*;

verus! {

/// Creates the table unless it exists. A status is stored as its code
/// ([`crate::queue::status_code`]).
pub const CREATE_TABLE: &'static str =
    "CREATE TABLE IF NOT EXISTS sms_queue (id INTEGER PRIMARY KEY AUTOINCREMENT, phone_number TEXT NOT NULL, message TEXT NOT NULL, status INTEGER DEFAULT 0, retries INTEGER DEFAULT 0, last_attempt_at DATETIME, last_error TEXT, created_at DATETIME DEFAULT CURRENT_TIMESTAMP)";

/// Adds the time of the last attempt to a table that was made without it.
pub const ADD_ATTEMPT_COLUMN: &'static str =
    "ALTER TABLE sms_queue ADD COLUMN last_attempt_at DATETIME";

/// Adds the last error to a table that was made without it.
pub const ADD_ERROR_COLUMN: &'static str = "ALTER TABLE sms_queue ADD COLUMN last_error TEXT";

/// [`crate::queue::reset`]: fails every record that is in process.
pub const RESET_STUCK: &'static str =
    "UPDATE sms_queue SET status = 3, last_attempt_at = NULL, last_error = 'Interrupted by system restart' WHERE status = 1";

/// [`crate::queue::submitted`]: adds a queued row unless one for the same
/// recipient and text is queued, in process or failed. It binds the
/// recipient, the text, the recipient and the text.
pub const INSERT: &'static str =
    "INSERT INTO sms_queue (phone_number, message, status, retries) SELECT ?, ?, 0, 0 WHERE NOT EXISTS (SELECT 1 FROM sms_queue WHERE phone_number = ? AND message = ? AND status IN (0, 1, 3))";

/// [`crate::queue::claimed`] with a positive retry limit, which it binds:
/// puts into process the oldest row among the queued ones and those of the
/// newest retryable rows that have rested, and returns its identity,
/// recipient, text and count of failed attempts.
pub const CLAIM_WITH_RETRIES: &'static str =
    "UPDATE sms_queue SET status = 1, last_attempt_at = CURRENT_TIMESTAMP WHERE id = (SELECT id FROM sms_queue WHERE status = 0 OR (id IN (SELECT id FROM sms_queue WHERE status = 3 AND retries < 10 ORDER BY id DESC LIMIT ?) AND (last_attempt_at IS NULL OR last_attempt_at < datetime('now', '-5 minutes'))) ORDER BY created_at, id LIMIT 1) RETURNING id, phone_number, message, retries";

/// [`crate::queue::claimed`] with a retry limit of zero or less: puts the
/// oldest queued row into process and returns its identity, recipient, text
/// and count of failed attempts.
pub const CLAIM_QUEUED: &'static str =
    "UPDATE sms_queue SET status = 1, last_attempt_at = CURRENT_TIMESTAMP WHERE id = (SELECT id FROM sms_queue WHERE status = 0 ORDER BY created_at, id LIMIT 1) RETURNING id, phone_number, message, retries";

/// [`crate::queue::marked_sent`]. It binds the identity.
pub const MARK_SENT: &'static str =
    "UPDATE sms_queue SET status = 2, last_error = NULL WHERE id = ?";

/// [`crate::queue::marked_failed`]. It binds the error and the identity.
pub const MARK_FAILED: &'static str =
    "UPDATE sms_queue SET status = 3, retries = retries + 1, last_error = ? WHERE id = ?";

} // verus!
