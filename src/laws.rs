//! Properties that hold across operations of the store.
use crate::error::StoreError;
use crate::model::{main_branch_name, RepoModel, StoreModel};
use crate::names::valid_name;
use crate::ops::{
    add_file_spec, authorized, create_branch_spec, create_repo_spec, delete_branch_spec,
    delete_repo_spec, fresh_repo, list_branch_spec, list_files_spec, list_repo_spec, login_spec,
    remove_file_spec, set_archived_spec, signup_spec, update_file_spec, view_file_spec,
};
use vstd::prelude::*;

verus! {

/// A repository that was just created shows up in the owner's listing, fresh
/// and with its `main` branch; creation succeeds whenever the name is free.
pub proof fn create_then_list(
    m: StoreModel,
    u: Seq<char>,
    t: Seq<char>,
    name: Seq<char>,
    kind: Seq<char>,
)
    requires
        authorized(m, u, t),
        valid_name(name),
    ensures
        !m[u].repos.contains_key(name) ==> create_repo_spec(m, u, t, name, kind) is Ok,
        create_repo_spec(m, u, t, name, kind) is Ok ==> {
            let m2 = create_repo_spec(m, u, t, name, kind)->Ok_0;
            &&& list_repo_spec(m2, u, t) is Ok
            &&& list_repo_spec(m2, u, t)->Ok_0.contains_key(name)
            &&& list_repo_spec(m2, u, t)->Ok_0[name] == fresh_repo(kind)
            &&& !list_repo_spec(m2, u, t)->Ok_0[name].archived
            &&& list_repo_spec(m2, u, t)->Ok_0[name].kind == kind
            &&& list_branch_spec(m2, u, t, name) == Ok::<Set<Seq<char>>, StoreError>(
                set![main_branch_name()],
            )
        },
{
    if create_repo_spec(m, u, t, name, kind) is Ok {
        let m2 = create_repo_spec(m, u, t, name, kind)->Ok_0;
        assert(m2[u].repos[name].branches.dom() =~= set![main_branch_name()]);
    }
}

/// Creating a repository under a name that the owner already uses fails with
/// `Conflict`, and leaves the first repository as it was.
pub proof fn create_twice_conflicts(
    m: StoreModel,
    u: Seq<char>,
    t: Seq<char>,
    name: Seq<char>,
    kind: Seq<char>,
    kind2: Seq<char>,
)
    requires
        create_repo_spec(m, u, t, name, kind) is Ok,
    ensures
        create_repo_spec(create_repo_spec(m, u, t, name, kind)->Ok_0, u, t, name, kind2) == Err::<
            StoreModel,
            StoreError,
        >(StoreError::Conflict),
{
}

/// Once a repository is archived, no branch or file in it can be created,
/// changed or removed: each such operation fails with `Forbidden`.
pub proof fn archived_refuses_changes(
    m: StoreModel,
    u: Seq<char>,
    t: Seq<char>,
    repo: Seq<char>,
    branch: Seq<char>,
    file: Seq<char>,
    contents: Seq<char>,
)
    requires
        authorized(m, u, t),
        m[u].repos.contains_key(repo),
    ensures
        set_archived_spec(m, u, t, repo, true) is Ok,
        ({
            let a = set_archived_spec(m, u, t, repo, true)->Ok_0;
            let forbidden = Err::<StoreModel, StoreError>(StoreError::Forbidden);
            &&& add_file_spec(a, u, t, repo, branch, file, contents) == forbidden
            &&& update_file_spec(a, u, t, repo, branch, file, contents) == forbidden
            &&& remove_file_spec(a, u, t, repo, branch, file) == forbidden
            &&& create_branch_spec(a, u, t, repo, branch) == forbidden
            &&& delete_branch_spec(a, u, t, repo, branch) == forbidden
        }),
{
}

/// Archiving and then restoring a repository gives back the store as it was,
/// so that an addition that would have succeeded succeeds alike.
pub proof fn archive_restore_round_trip(
    m: StoreModel,
    u: Seq<char>,
    t: Seq<char>,
    repo: Seq<char>,
    branch: Seq<char>,
    file: Seq<char>,
    contents: Seq<char>,
)
    requires
        add_file_spec(m, u, t, repo, branch, file, contents) is Ok,
    ensures
        set_archived_spec(m, u, t, repo, true) is Ok,
        set_archived_spec(set_archived_spec(m, u, t, repo, true)->Ok_0, u, t, repo, false) is Ok,
        ({
            let r = set_archived_spec(
                set_archived_spec(m, u, t, repo, true)->Ok_0,
                u,
                t,
                repo,
                false,
            )->Ok_0;
            r == m && add_file_spec(r, u, t, repo, branch, file, contents) == add_file_spec(
                m,
                u,
                t,
                repo,
                branch,
                file,
                contents,
            )
        }),
{
    let a = set_archived_spec(m, u, t, repo, true)->Ok_0;
    let r = set_archived_spec(a, u, t, repo, false)->Ok_0;
    let r0 = m[u].repos[repo];
    assert(r[u].repos[repo] == RepoModel { kind: r0.kind, archived: false, branches: r0.branches });
    assert(r[u].repos =~= m[u].repos);
    assert(r =~= m);
}

/// A file reads back as what was last written to it.
pub proof fn written_file_reads_back(
    m: StoreModel,
    u: Seq<char>,
    t: Seq<char>,
    repo: Seq<char>,
    branch: Seq<char>,
    file: Seq<char>,
    contents: Seq<char>,
)
    ensures
        add_file_spec(m, u, t, repo, branch, file, contents) is Ok ==> view_file_spec(
            add_file_spec(m, u, t, repo, branch, file, contents)->Ok_0,
            u,
            t,
            repo,
            branch,
            file,
        ) == Ok::<Seq<char>, StoreError>(contents),
        update_file_spec(m, u, t, repo, branch, file, contents) is Ok ==> view_file_spec(
            update_file_spec(m, u, t, repo, branch, file, contents)->Ok_0,
            u,
            t,
            repo,
            branch,
            file,
        ) == Ok::<Seq<char>, StoreError>(contents),
{
}

/// After a file is removed, reading it and removing it again both fail with
/// `NotFound`.
pub proof fn removed_file_is_gone(
    m: StoreModel,
    u: Seq<char>,
    t: Seq<char>,
    repo: Seq<char>,
    branch: Seq<char>,
    file: Seq<char>,
)
    requires
        remove_file_spec(m, u, t, repo, branch, file) is Ok,
    ensures
        ({
            let m2 = remove_file_spec(m, u, t, repo, branch, file)->Ok_0;
            &&& view_file_spec(m2, u, t, repo, branch, file) == Err::<Seq<char>, StoreError>(
                StoreError::NotFound,
            )
            &&& remove_file_spec(m2, u, t, repo, branch, file) == Err::<StoreModel, StoreError>(
                StoreError::NotFound,
            )
        }),
{
}

/// Of two additions of the same file name, one after the other, the second
/// fails with `Conflict` and the file keeps the first one's contents.
pub proof fn second_add_conflicts(
    m: StoreModel,
    u: Seq<char>,
    t: Seq<char>,
    repo: Seq<char>,
    branch: Seq<char>,
    file: Seq<char>,
    first: Seq<char>,
    second: Seq<char>,
)
    requires
        add_file_spec(m, u, t, repo, branch, file, first) is Ok,
    ensures
        ({
            let m2 = add_file_spec(m, u, t, repo, branch, file, first)->Ok_0;
            &&& add_file_spec(m2, u, t, repo, branch, file, second) == Err::<StoreModel, StoreError>(
                StoreError::Conflict,
            )
            &&& view_file_spec(m2, u, t, repo, branch, file) == Ok::<Seq<char>, StoreError>(first)
        }),
{
}

/// After signing up: a second signup under the name fails, a login with
/// another password fails with `Unauthorized`, and a login with the password
/// returns the token, which then passes the token check.
pub proof fn signup_then_login(
    m: StoreModel,
    u: Seq<char>,
    p: Seq<char>,
    t: Seq<char>,
    p2: Seq<char>,
    t2: Seq<char>,
)
    requires
        signup_spec(m, u, p, t) is Ok,
    ensures
        ({
            let m2 = signup_spec(m, u, p, t)->Ok_0;
            &&& signup_spec(m2, u, p2, t2) == Err::<StoreModel, StoreError>(StoreError::Conflict)
            &&& p2 != p ==> login_spec(m2, u, p2) == Err::<Seq<char>, StoreError>(
                StoreError::Unauthorized,
            )
            &&& login_spec(m2, u, p) == Ok::<Seq<char>, StoreError>(t)
            &&& authorized(m2, u, t)
        }),
{
}

/// Below a deleted repository nothing can be listed: listing its branches, or
/// the files of any branch of it, fails with `NotFound`.
pub proof fn deleted_repo_lists_nothing(
    m: StoreModel,
    u: Seq<char>,
    t: Seq<char>,
    repo: Seq<char>,
    branch: Seq<char>,
)
    requires
        delete_repo_spec(m, u, t, repo) is Ok,
    ensures
        ({
            let m2 = delete_repo_spec(m, u, t, repo)->Ok_0;
            &&& list_branch_spec(m2, u, t, repo) == Err::<Set<Seq<char>>, StoreError>(
                StoreError::NotFound,
            )
            &&& list_files_spec(m2, u, t, repo, branch) == Err::<Set<Seq<char>>, StoreError>(
                StoreError::NotFound,
            )
        }),
{
}

} // verus!
