//! What each operation of the store does, stated on the store's model.
//!
//! Each operation checks in a fixed order and fails with the first check that
//! does not hold; a failed operation leaves the store as it was.
use crate::error::StoreError;
use crate::model::{main_branch_name, seed_files, FilesModel, RepoModel, StoreModel, UserModel};
use crate::model::{string_views, summary_names, RepoSummary};
use crate::names::valid_name;
use vstd::prelude::*;

verus! {

/// `u` names an account whose token is `t`.
pub open spec fn authorized(m: StoreModel, u: Seq<char>, t: Seq<char>) -> bool {
    m.contains_key(u) && m[u].token == t
}

/// Some account holds the token `t`.
pub open spec fn token_in_use(m: StoreModel, t: Seq<char>) -> bool {
    exists|k: Seq<char>| #[trigger] m.contains_key(k) && m[k].token == t
}

/// The account `u` with its repositories replaced.
pub open spec fn with_repos(m: StoreModel, u: Seq<char>, repos: Map<Seq<char>, RepoModel>) -> StoreModel {
    m.insert(u, UserModel { password: m[u].password, token: m[u].token, repos })
}

/// The repository `repo` of `u` set to `r`.
pub open spec fn with_repo(m: StoreModel, u: Seq<char>, repo: Seq<char>, r: RepoModel) -> StoreModel {
    with_repos(m, u, m[u].repos.insert(repo, r))
}

/// The branches of repository `repo` of `u` replaced.
pub open spec fn with_branches(
    m: StoreModel,
    u: Seq<char>,
    repo: Seq<char>,
    branches: Map<Seq<char>, FilesModel>,
) -> StoreModel {
    let r = m[u].repos[repo];
    with_repo(m, u, repo, RepoModel { kind: r.kind, archived: r.archived, branches })
}

/// The files of branch `branch` of repository `repo` of `u` replaced.
pub open spec fn with_files(
    m: StoreModel,
    u: Seq<char>,
    repo: Seq<char>,
    branch: Seq<char>,
    files: FilesModel,
) -> StoreModel {
    with_branches(m, u, repo, m[u].repos[repo].branches.insert(branch, files))
}

/// A new repository: not archived, with a `main` branch holding the placeholder file.
pub open spec fn fresh_repo(kind: Seq<char>) -> RepoModel {
    RepoModel { kind, archived: false, branches: map![main_branch_name() => seed_files()] }
}

/// The operation `r` came out as `s` says: on success the store became the
/// model that `s` gives, on failure it stayed and the error is the one of `s`.
pub open spec fn applied(
    r: Result<(), StoreError>,
    before: StoreModel,
    after: StoreModel,
    s: Result<StoreModel, StoreError>,
) -> bool {
    match s {
        Ok(m) => r is Ok && after == m,
        Err(e) => r == Err::<(), StoreError>(e) && after == before,
    }
}

/// Opening an account with a given token: the name must be valid, and neither
/// the name nor the token may be taken.
pub open spec fn signup_spec(m: StoreModel, u: Seq<char>, p: Seq<char>, t: Seq<char>) -> Result<
    StoreModel,
    StoreError,
> {
    if !valid_name(u) {
        Err(StoreError::InvalidName)
    } else if m.contains_key(u) || token_in_use(m, t) {
        Err(StoreError::Conflict)
    } else {
        Ok(m.insert(u, UserModel { password: p, token: t, repos: Map::empty() }))
    }
}

/// Logging in: the account's token, if the password matches.
pub open spec fn login_spec(m: StoreModel, u: Seq<char>, p: Seq<char>) -> Result<Seq<char>, StoreError> {
    if !m.contains_key(u) {
        Err(StoreError::NotFound)
    } else if m[u].password != p {
        Err(StoreError::Unauthorized)
    } else {
        Ok(m[u].token)
    }
}

/// The repository exists and may be changed.
pub open spec fn archive_check_spec(m: StoreModel, u: Seq<char>, repo: Seq<char>) -> Result<
    (),
    StoreError,
> {
    if !m.contains_key(u) || !m[u].repos.contains_key(repo) {
        Err(StoreError::NotFound)
    } else if m[u].repos[repo].archived {
        Err(StoreError::Forbidden)
    } else {
        Ok(())
    }
}

/// Creating a repository under a free, valid name.
pub open spec fn create_repo_spec(
    m: StoreModel,
    u: Seq<char>,
    t: Seq<char>,
    name: Seq<char>,
    kind: Seq<char>,
) -> Result<StoreModel, StoreError> {
    if !authorized(m, u, t) {
        Err(StoreError::Unauthorized)
    } else if !valid_name(name) {
        Err(StoreError::InvalidName)
    } else if m[u].repos.contains_key(name) {
        Err(StoreError::Conflict)
    } else {
        Ok(with_repo(m, u, name, fresh_repo(kind)))
    }
}

/// Deleting a repository, with everything below it.
pub open spec fn delete_repo_spec(m: StoreModel, u: Seq<char>, t: Seq<char>, name: Seq<char>) -> Result<
    StoreModel,
    StoreError,
> {
    if !authorized(m, u, t) {
        Err(StoreError::Unauthorized)
    } else if !m[u].repos.contains_key(name) {
        Err(StoreError::NotFound)
    } else {
        Ok(with_repos(m, u, m[u].repos.remove(name)))
    }
}

/// The account's repositories.
pub open spec fn list_repo_spec(m: StoreModel, u: Seq<char>, t: Seq<char>) -> Result<
    Map<Seq<char>, RepoModel>,
    StoreError,
> {
    if !authorized(m, u, t) {
        Err(StoreError::Unauthorized)
    } else {
        Ok(m[u].repos)
    }
}

/// Renaming a repository to a free, valid name; what it holds moves along.
pub open spec fn rename_repo_spec(
    m: StoreModel,
    u: Seq<char>,
    t: Seq<char>,
    name: Seq<char>,
    new_name: Seq<char>,
) -> Result<StoreModel, StoreError> {
    if !authorized(m, u, t) {
        Err(StoreError::Unauthorized)
    } else if !m[u].repos.contains_key(name) {
        Err(StoreError::NotFound)
    } else if !valid_name(new_name) {
        Err(StoreError::InvalidName)
    } else if m[u].repos.contains_key(new_name) {
        Err(StoreError::Conflict)
    } else {
        Ok(with_repos(m, u, m[u].repos.remove(name).insert(new_name, m[u].repos[name])))
    }
}

/// Archiving (`archived` true) or restoring (false); either is idempotent.
pub open spec fn set_archived_spec(
    m: StoreModel,
    u: Seq<char>,
    t: Seq<char>,
    name: Seq<char>,
    archived: bool,
) -> Result<StoreModel, StoreError> {
    if !authorized(m, u, t) {
        Err(StoreError::Unauthorized)
    } else if !m[u].repos.contains_key(name) {
        Err(StoreError::NotFound)
    } else {
        let r = m[u].repos[name];
        Ok(with_repo(m, u, name, RepoModel { kind: r.kind, archived, branches: r.branches }))
    }
}

/// The checks that every change inside a repository passes first.
pub open spec fn writable(m: StoreModel, u: Seq<char>, t: Seq<char>, repo: Seq<char>) -> Result<
    (),
    StoreError,
> {
    if !authorized(m, u, t) {
        Err(StoreError::Unauthorized)
    } else {
        archive_check_spec(m, u, repo)
    }
}

/// Creating a branch, seeded with the placeholder file, in a repository that may be changed.
pub open spec fn create_branch_spec(
    m: StoreModel,
    u: Seq<char>,
    t: Seq<char>,
    repo: Seq<char>,
    branch: Seq<char>,
) -> Result<StoreModel, StoreError> {
    if writable(m, u, t, repo) is Err {
        Err(writable(m, u, t, repo)->Err_0)
    } else if !valid_name(branch) {
        Err(StoreError::InvalidName)
    } else if m[u].repos[repo].branches.contains_key(branch) {
        Err(StoreError::Conflict)
    } else {
        Ok(with_files(m, u, repo, branch, seed_files()))
    }
}

/// Deleting a branch, with its files, in a repository that may be changed.
pub open spec fn delete_branch_spec(
    m: StoreModel,
    u: Seq<char>,
    t: Seq<char>,
    repo: Seq<char>,
    branch: Seq<char>,
) -> Result<StoreModel, StoreError> {
    if writable(m, u, t, repo) is Err {
        Err(writable(m, u, t, repo)->Err_0)
    } else if !m[u].repos[repo].branches.contains_key(branch) {
        Err(StoreError::NotFound)
    } else {
        Ok(with_branches(m, u, repo, m[u].repos[repo].branches.remove(branch)))
    }
}

/// The names of a repository's branches, archived or not.
pub open spec fn list_branch_spec(m: StoreModel, u: Seq<char>, t: Seq<char>, repo: Seq<char>) -> Result<
    Set<Seq<char>>,
    StoreError,
> {
    if !authorized(m, u, t) {
        Err(StoreError::Unauthorized)
    } else if !m[u].repos.contains_key(repo) {
        Err(StoreError::NotFound)
    } else {
        Ok(m[u].repos[repo].branches.dom())
    }
}

/// The files of an existing branch, or why they cannot be reached.
pub open spec fn branch_files(
    m: StoreModel,
    u: Seq<char>,
    t: Seq<char>,
    repo: Seq<char>,
    branch: Seq<char>,
) -> Result<FilesModel, StoreError> {
    if !authorized(m, u, t) {
        Err(StoreError::Unauthorized)
    } else if !m[u].repos.contains_key(repo) || !m[u].repos[repo].branches.contains_key(branch) {
        Err(StoreError::NotFound)
    } else {
        Ok(m[u].repos[repo].branches[branch])
    }
}

/// Adding a file under a free, valid name.
pub open spec fn add_file_spec(
    m: StoreModel,
    u: Seq<char>,
    t: Seq<char>,
    repo: Seq<char>,
    branch: Seq<char>,
    name: Seq<char>,
    contents: Seq<char>,
) -> Result<StoreModel, StoreError> {
    if writable(m, u, t, repo) is Err {
        Err(writable(m, u, t, repo)->Err_0)
    } else if !valid_name(name) {
        Err(StoreError::InvalidName)
    } else if !m[u].repos[repo].branches.contains_key(branch) {
        Err(StoreError::NotFound)
    } else if m[u].repos[repo].branches[branch].contains_key(name) {
        Err(StoreError::Conflict)
    } else {
        Ok(with_files(m, u, repo, branch, m[u].repos[repo].branches[branch].insert(name, contents)))
    }
}

/// Overwriting an existing file; nothing is created.
pub open spec fn update_file_spec(
    m: StoreModel,
    u: Seq<char>,
    t: Seq<char>,
    repo: Seq<char>,
    branch: Seq<char>,
    name: Seq<char>,
    contents: Seq<char>,
) -> Result<StoreModel, StoreError> {
    if writable(m, u, t, repo) is Err {
        Err(writable(m, u, t, repo)->Err_0)
    } else if !m[u].repos[repo].branches.contains_key(branch)
        || !m[u].repos[repo].branches[branch].contains_key(name) {
        Err(StoreError::NotFound)
    } else {
        Ok(with_files(m, u, repo, branch, m[u].repos[repo].branches[branch].insert(name, contents)))
    }
}

/// Removing an existing file.
pub open spec fn remove_file_spec(
    m: StoreModel,
    u: Seq<char>,
    t: Seq<char>,
    repo: Seq<char>,
    branch: Seq<char>,
    name: Seq<char>,
) -> Result<StoreModel, StoreError> {
    if writable(m, u, t, repo) is Err {
        Err(writable(m, u, t, repo)->Err_0)
    } else if !m[u].repos[repo].branches.contains_key(branch)
        || !m[u].repos[repo].branches[branch].contains_key(name) {
        Err(StoreError::NotFound)
    } else {
        Ok(with_files(m, u, repo, branch, m[u].repos[repo].branches[branch].remove(name)))
    }
}

/// The contents of an existing file, archived or not.
pub open spec fn view_file_spec(
    m: StoreModel,
    u: Seq<char>,
    t: Seq<char>,
    repo: Seq<char>,
    branch: Seq<char>,
    name: Seq<char>,
) -> Result<Seq<char>, StoreError> {
    match branch_files(m, u, t, repo, branch) {
        Err(e) => Err(e),
        Ok(f) => if f.contains_key(name) {
            Ok(f[name])
        } else {
            Err(StoreError::NotFound)
        },
    }
}

/// The names of a branch's files, archived or not.
pub open spec fn list_files_spec(
    m: StoreModel,
    u: Seq<char>,
    t: Seq<char>,
    repo: Seq<char>,
    branch: Seq<char>,
) -> Result<Set<Seq<char>>, StoreError> {
    match branch_files(m, u, t, repo, branch) {
        Err(e) => Err(e),
        Ok(f) => Ok(f.dom()),
    }
}

/// `v` lists each name of `names` once.
pub open spec fn lists(v: Seq<String>, names: Set<Seq<char>>) -> bool {
    &&& string_views(v).no_duplicates()
    &&& string_views(v).to_set() == names
}

/// A listing came out as `s` says.
pub open spec fn listed(r: Result<Vec<String>, StoreError>, s: Result<Set<Seq<char>>, StoreError>) -> bool {
    match s {
        Ok(names) => r is Ok && lists(r->Ok_0@, names),
        Err(e) => r is Err && r->Err_0 == e,
    }
}

/// `v` summarises each repository of `repos` once, with its kind and its
/// archived flag.
pub open spec fn summarizes(v: Seq<RepoSummary>, repos: Map<Seq<char>, RepoModel>) -> bool {
    &&& summary_names(v).no_duplicates()
    &&& summary_names(v).to_set() == repos.dom()
    &&& forall|i: int|
        0 <= i < v.len() ==> repos[(#[trigger] v[i]).name@].kind == v[i].kind@
            && repos[v[i].name@].archived == v[i].archived
}

} // verus!
