//! The administration endpoints: what each of them decides and answers, once
//! the caller is known to be an administrator.

pub mod accounts;
pub mod batch;
pub mod expiry;
pub mod joining;
pub mod keys;
pub mod media;
pub mod settings;
pub mod signing;
pub mod stats;

pub use accounts::{activate_account, delete_account, list_accounts, register_account};
pub use batch::{resign_all, verify_all};
pub use expiry::accounts_exp_summary;
pub use joining::add_account;
pub use keys::{create_key, create_user, delete_key, get_keys, list_users};
pub use media::{media_submit, media_tasks};
pub use settings::{get_settings, status, update_settings};
pub use signing::{resign_account, verify_account};
pub use stats::{stats, stats_recent};
