//! Verified core of a temporary file host: file-name hygiene, storage
//! bookkeeping, upload decisions, link formatting and expiry.

pub mod clock;
pub mod error;
pub mod gc;
pub mod routes;
pub mod state;
pub mod template;
pub mod text;
pub mod utils;

pub use clock::{timestamp_now, timestamp_of, ClockReading, Timestamp};
pub use error::BumAhhError;
pub use gc::{expired_keys, file_expired};
pub use routes::{
    accepts_field, accepts_html, delete_file, serve_file, DeleteKey, FileEnd, PendingFile, Rejection,
    UploadLimits, UploadSession,
};
pub use state::{hash_one, DBEntry, DataBase};
pub use template::{HtmlTemplate, IndexTemplate, Stat, UrlListRawTemplate, UrlListTemplate};
pub use text::decimal;
pub use utils::{
    clean_filename, delete_key_for, make_del_url, make_url_from_key, make_url_list_raw, random, safe_chars,
    site_origin, storage_name, SiteAddress,
};
