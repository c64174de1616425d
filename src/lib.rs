//! An owner-scoped store of repositories, branches and files, with accounts and
//! token checks in front of every operation.
//!
//! Users own repositories, repositories hold branches, branches hold files.
//! Every operation on an account's data names the account and its token; a
//! repository that is archived keeps its contents but refuses every change
//! below it. Names at every level are unique within their parent.
pub mod error;
pub mod kv;
pub mod laws;
pub mod model;
pub mod names;
pub mod ops;
pub mod store;
pub mod token;

pub use error::StoreError;
pub use model::RepoSummary;
pub use names::is_valid_name;
pub use store::{
    add_file, archive_check, archive_repo, auth_user, create_branch, create_repo, delete_branch,
    delete_repo, list_branch, list_files, list_repo, login, remove_file, rename_repo, restore_repo,
    signup, signup_setup, token_taken, update_file, view_file, Store,
};
pub use token::{generate_token, token_from_indices, TOKEN_LEN};
