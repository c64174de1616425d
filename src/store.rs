//! The store and its operations. Every operation that reads or changes an
//! account's data checks the account's token first.
use crate::error::StoreError;
use crate::kv::{keys_of, lemma_kv_index, lemma_kv_keys};
use crate::model::{
    branch_entries, branch_names, branches_model, file_entries, file_names, find_branch, find_file,
    find_repo, find_user, insert_file, lemma_branch_set, lemma_repo_set, lemma_user_set,
    push_branch, push_repo, push_user, remove_branch_at, remove_file_at, remove_repo_at,
    repo_entries, repo_model, repo_summaries, summary_names, RepoSummary, seeded_branch, set_file_contents, user_entries,
    user_model, users_model, users_wf, files_model, FilesModel, Branch, Repository, StoreModel, User,
};
use crate::names::{is_valid_name, valid_name};
use crate::token::{generate_token, token_shape};
use crate::ops::{
    add_file_spec, applied, archive_check_spec, authorized, create_branch_spec, create_repo_spec,
    delete_branch_spec, delete_repo_spec, list_branch_spec, list_files_spec, list_repo_spec, listed, summarizes,
    login_spec, remove_file_spec, rename_repo_spec, set_archived_spec, signup_spec, token_in_use,
    update_file_spec, view_file_spec, branch_files,
};
use vstd::string::StringExecFns;
use vstd::prelude::*;

verus! {

/// All accounts, each with its repositories, branches and files.
pub struct Store {
    users: Vec<User>,
}

impl View for Store {
    type V = StoreModel;

    closed spec fn view(&self) -> StoreModel {
        users_model(self.users@)
    }
}

impl Store {
    /// Names are unique at every level.
    pub closed spec fn wf(&self) -> bool {
        users_wf(self.users@)
    }

    /// Every account name is valid, and a token names at most one account.
    pub proof fn lemma_accounts(&self)
        requires
            self.wf(),
        ensures
            forall|k: Seq<char>| #[trigger] self@.contains_key(k) ==> valid_name(k),
            forall|k1: Seq<char>, k2: Seq<char>|
                #[trigger] self@.contains_key(k1) && #[trigger] self@.contains_key(k2)
                    && self@[k1].token == self@[k2].token ==> k1 == k2,
    {
        let e = user_entries(self.users@);
        assert forall|k: Seq<char>| #[trigger] self@.contains_key(k) implies valid_name(k) by {
            let j = choose|j: int| 0 <= j < e.len() && #[trigger] e[j].0 == k;
            assert(valid_name(self.users@[j].name@));
        }
        assert forall|k1: Seq<char>, k2: Seq<char>|
            #[trigger] self@.contains_key(k1) && #[trigger] self@.contains_key(k2)
                && self@[k1].token == self@[k2].token implies k1 == k2 by {
            let a = choose|j: int| 0 <= j < e.len() && #[trigger] e[j].0 == k1;
            let b = choose|j: int| 0 <= j < e.len() && #[trigger] e[j].0 == k2;
            lemma_kv_index(e, a);
            lemma_kv_index(e, b);
            assert(self.users@[a].token@ == self.users@[b].token@);
        }
    }

    /// A store without accounts.
    pub fn new() -> (s: Store)
        ensures
            s.wf(),
            s@ == StoreModel::empty(),
    {
        let s = Store { users: Vec::new() };
        assert(s@ =~= StoreModel::empty());
        s
    }
}

/// Finds the account `user_name` and checks its token.
fn authorize(store: &Store, user_name: &String, user_token: &String) -> (r: Result<usize, StoreError>)
    requires
        store.wf(),
    ensures
        match r {
            Ok(i) => {
                &&& i < store.users@.len()
                &&& store.users@[i as int].name@ == user_name@
                &&& authorized(store@, user_name@, user_token@)
                &&& store@[user_name@] == user_model(store.users@[i as int])
            },
            Err(e) => e == StoreError::Unauthorized && !authorized(store@, user_name@, user_token@),
        },
{
    match find_user(&store.users, user_name) {
        None => Err(StoreError::Unauthorized),
        Some(i) => {
            if store.users[i].token == *user_token {
                Ok(i)
            } else {
                Err(StoreError::Unauthorized)
            }
        },
    }
}

/// Tells whether `user_token` is the token of the account `user_name`.
pub fn auth_user(store: &Store, user_name: &String, user_token: &String) -> (r: bool)
    requires
        store.wf(),
    ensures
        r == authorized(store@, user_name@, user_token@),
{
    authorize(store, user_name, user_token).is_ok()
}

/// Finds repository `repo_name` of the account `user_name`, after the token check.
fn locate_repo(store: &Store, user_name: &String, user_token: &String, repo_name: &String) -> (r:
    Result<(usize, usize), StoreError>)
    requires
        store.wf(),
    ensures
        match r {
            Ok((ui, ri)) => {
                &&& ui < store.users@.len()
                &&& store.users@[ui as int].name@ == user_name@
                &&& authorized(store@, user_name@, user_token@)
                &&& store@[user_name@] == user_model(store.users@[ui as int])
                &&& ri < store.users@[ui as int].repos@.len()
                &&& store.users@[ui as int].repos@[ri as int].name@ == repo_name@
                &&& store@[user_name@].repos.contains_key(repo_name@)
                &&& store@[user_name@].repos[repo_name@] == repo_model(
                    store.users@[ui as int].repos@[ri as int],
                )
            },
            Err(e) => if !authorized(store@, user_name@, user_token@) {
                e == StoreError::Unauthorized
            } else {
                e == StoreError::NotFound && !store@[user_name@].repos.contains_key(repo_name@)
            },
        },
{
    let ui = match authorize(store, user_name, user_token) {
        Ok(i) => i,
        Err(e) => return Err(e),
    };
    match find_repo(&store.users[ui].repos, repo_name) {
        Some(ri) => Ok((ui, ri)),
        None => Err(StoreError::NotFound),
    }
}

/// Tells whether repository `repo_name` of the account `user_name` exists and
/// may be changed: `NotFound` if it does not exist, `Forbidden` if it is archived.
pub fn archive_check(store: &Store, user_name: &String, repo_name: &String) -> (r: Result<
    (),
    StoreError,
>)
    requires
        store.wf(),
    ensures
        r == archive_check_spec(store@, user_name@, repo_name@),
{
    let ui = match find_user(&store.users, user_name) {
        Some(i) => i,
        None => return Err(StoreError::NotFound),
    };
    match find_repo(&store.users[ui].repos, repo_name) {
        None => Err(StoreError::NotFound),
        Some(ri) => {
            if store.users[ui].repos[ri].archived {
                Err(StoreError::Forbidden)
            } else {
                Ok(())
            }
        },
    }
}

/// Finds a repository that may be changed: the token check, then `archive_check`.
fn writable_repo(store: &Store, user_name: &String, user_token: &String, repo_name: &String) -> (r:
    Result<(usize, usize), StoreError>)
    requires
        store.wf(),
    ensures
        match r {
            Ok((ui, ri)) => {
                &&& ui < store.users@.len()
                &&& store.users@[ui as int].name@ == user_name@
                &&& authorized(store@, user_name@, user_token@)
                &&& store@[user_name@] == user_model(store.users@[ui as int])
                &&& ri < store.users@[ui as int].repos@.len()
                &&& store.users@[ui as int].repos@[ri as int].name@ == repo_name@
                &&& store@[user_name@].repos.contains_key(repo_name@)
                &&& store@[user_name@].repos[repo_name@] == repo_model(
                    store.users@[ui as int].repos@[ri as int],
                )
                &&& !store@[user_name@].repos[repo_name@].archived
            },
            Err(e) => if !authorized(store@, user_name@, user_token@) {
                e == StoreError::Unauthorized
            } else {
                archive_check_spec(store@, user_name@, repo_name@) == Err::<(), StoreError>(e)
            },
        },
{
    if let Err(e) = authorize(store, user_name, user_token) {
        return Err(e);
    }
    if let Err(e) = archive_check(store, user_name, repo_name) {
        return Err(e);
    }
    locate_repo(store, user_name, user_token, repo_name)
}

/// Creates a repository of kind `repo_type` with a `main` branch that holds
/// the placeholder file. Fails if the account has a repository of that name.
pub fn create_repo(
    store: &mut Store,
    user_token: &String,
    user_name: &String,
    name: &String,
    repo_type: &String,
) -> (r: Result<(), StoreError>)
    requires
        old(store).wf(),
    ensures
        final(store).wf(),
        applied(
            r,
            old(store)@,
            final(store)@,
            create_repo_spec(old(store)@, user_name@, user_token@, name@, repo_type@),
        ),
{
    let ui = match authorize(store, user_name, user_token) {
        Ok(i) => i,
        Err(e) => return Err(e),
    };
    if !is_valid_name(name.as_str()) {
        return Err(StoreError::InvalidName);
    }
    if find_repo(&store.users[ui].repos, name).is_some() {
        return Err(StoreError::Conflict);
    }
    let mut branches: Vec<Branch> = Vec::new();
    proof {
        assert(branches_model(branches@) =~= Map::empty());
    }
    push_branch(&mut branches, seeded_branch(String::from_str("main")));
    let repo = Repository { name: name.clone(), kind: repo_type.clone(), archived: false, branches };
    let ghost s0 = *old(store);
    push_repo(&mut store.users[ui].repos, repo);
    proof {
        assert(branches_model(repo.branches@) =~= crate::ops::fresh_repo(repo_type@).branches);
        let u1 = store.users@[ui as int];
        lemma_user_set(s0.users@, ui as int, u1);
    }
    Ok(())
}

/// Deletes a repository with all its branches and files.
pub fn delete_repo(store: &mut Store, user_token: &String, user_name: &String, name: &String) -> (r:
    Result<(), StoreError>)
    requires
        old(store).wf(),
    ensures
        final(store).wf(),
        applied(
            r,
            old(store)@,
            final(store)@,
            delete_repo_spec(old(store)@, user_name@, user_token@, name@),
        ),
{
    let (ui, ri) = match locate_repo(store, user_name, user_token, name) {
        Ok(p) => p,
        Err(e) => return Err(e),
    };
    let ghost s0 = *old(store);
    remove_repo_at(&mut store.users[ui].repos, ri);
    proof {
        lemma_user_set(s0.users@, ui as int, store.users@[ui as int]);
    }
    Ok(())
}

/// A summary of each of the account's repositories: name, kind and archived flag.
pub fn list_repo(store: &Store, user_token: &String, user_name: &String) -> (r: Result<
    Vec<RepoSummary>,
    StoreError,
>)
    requires
        store.wf(),
    ensures
        match list_repo_spec(store@, user_name@, user_token@) {
            Ok(repos) => r is Ok && summarizes(r->Ok_0@, repos),
            Err(e) => r is Err && r->Err_0 == e,
        },
{
    let ui = match authorize(store, user_name, user_token) {
        Ok(i) => i,
        Err(e) => return Err(e),
    };
    let list = repo_summaries(&store.users[ui].repos);
    proof {
        let rs = store.users@[ui as int].repos@;
        let e = repo_entries(rs);
        lemma_kv_keys(e);
        assert(summary_names(list@) == keys_of(e));
        assert forall|i: int| 0 <= i < list@.len() implies store@[user_name@].repos[(
        #[trigger] list@[i]).name@].kind == list@[i].kind@ && store@[user_name@].repos[list@[
            i].name@].archived == list@[i].archived by {
            assert(summary_names(list@)[i] == list@[i].name@);
            assert(keys_of(e)[i] == e[i].0);
            lemma_kv_index(e, i);
        }
    }
    Ok(list)
}

/// Gives repository `repo_name` the name `new_name`, with all it holds.
pub fn rename_repo(
    store: &mut Store,
    user_token: &String,
    user_name: &String,
    repo_name: &String,
    new_name: &String,
) -> (r: Result<(), StoreError>)
    requires
        old(store).wf(),
    ensures
        final(store).wf(),
        applied(
            r,
            old(store)@,
            final(store)@,
            rename_repo_spec(old(store)@, user_name@, user_token@, repo_name@, new_name@),
        ),
{
    let (ui, ri) = match locate_repo(store, user_name, user_token, repo_name) {
        Ok(p) => p,
        Err(e) => return Err(e),
    };
    if !is_valid_name(new_name.as_str()) {
        return Err(StoreError::InvalidName);
    }
    if find_repo(&store.users[ui].repos, new_name).is_some() {
        return Err(StoreError::Conflict);
    }
    let ghost s0 = *old(store);
    store.users[ui].repos[ri].name = new_name.clone();
    proof {
        let u0 = s0.users@[ui as int];
        let u1 = store.users@[ui as int];
        lemma_repo_set(u0.repos@, ri as int, u1.repos@[ri as int]);
        lemma_user_set(s0.users@, ui as int, u1);
    }
    Ok(())
}

/// Sets the archived flag of a repository.
fn set_archived(
    store: &mut Store,
    user_token: &String,
    user_name: &String,
    name: &String,
    archived: bool,
) -> (r: Result<(), StoreError>)
    requires
        old(store).wf(),
    ensures
        final(store).wf(),
        applied(
            r,
            old(store)@,
            final(store)@,
            set_archived_spec(old(store)@, user_name@, user_token@, name@, archived),
        ),
{
    let (ui, ri) = match locate_repo(store, user_name, user_token, name) {
        Ok(p) => p,
        Err(e) => return Err(e),
    };
    let ghost s0 = *old(store);
    store.users[ui].repos[ri].archived = archived;
    proof {
        let u0 = s0.users@[ui as int];
        let u1 = store.users@[ui as int];
        lemma_repo_set(u0.repos@, ri as int, u1.repos@[ri as int]);
        lemma_user_set(s0.users@, ui as int, u1);
    }
    Ok(())
}

/// Archives a repository: its branches and files can no longer be changed.
pub fn archive_repo(store: &mut Store, user_token: &String, user_name: &String, name: &String) -> (r:
    Result<(), StoreError>)
    requires
        old(store).wf(),
    ensures
        final(store).wf(),
        applied(
            r,
            old(store)@,
            final(store)@,
            set_archived_spec(old(store)@, user_name@, user_token@, name@, true),
        ),
{
    set_archived(store, user_token, user_name, name, true)
}

/// Restores an archived repository, so that it can be changed again.
pub fn restore_repo(store: &mut Store, user_token: &String, user_name: &String, name: &String) -> (r:
    Result<(), StoreError>)
    requires
        old(store).wf(),
    ensures
        final(store).wf(),
        applied(
            r,
            old(store)@,
            final(store)@,
            set_archived_spec(old(store)@, user_name@, user_token@, name@, false),
        ),
{
    set_archived(store, user_token, user_name, name, false)
}

/// Creates a branch that holds the placeholder file.
pub fn create_branch(
    store: &mut Store,
    user_token: &String,
    user_name: &String,
    name: &String,
    repo_name: &String,
) -> (r: Result<(), StoreError>)
    requires
        old(store).wf(),
    ensures
        final(store).wf(),
        applied(
            r,
            old(store)@,
            final(store)@,
            create_branch_spec(old(store)@, user_name@, user_token@, repo_name@, name@),
        ),
{
    let (ui, ri) = match writable_repo(store, user_name, user_token, repo_name) {
        Ok(p) => p,
        Err(e) => return Err(e),
    };
    if !is_valid_name(name.as_str()) {
        return Err(StoreError::InvalidName);
    }
    if find_branch(&store.users[ui].repos[ri].branches, name).is_some() {
        return Err(StoreError::Conflict);
    }
    let ghost s0 = *old(store);
    push_branch(&mut store.users[ui].repos[ri].branches, seeded_branch(name.clone()));
    proof {
        let u0 = s0.users@[ui as int];
        let u1 = store.users@[ui as int];
        lemma_repo_set(u0.repos@, ri as int, u1.repos@[ri as int]);
        lemma_user_set(s0.users@, ui as int, u1);
    }
    Ok(())
}

/// Deletes a branch with all its files.
pub fn delete_branch(
    store: &mut Store,
    user_token: &String,
    user_name: &String,
    name: &String,
    repo_name: &String,
) -> (r: Result<(), StoreError>)
    requires
        old(store).wf(),
    ensures
        final(store).wf(),
        applied(
            r,
            old(store)@,
            final(store)@,
            delete_branch_spec(old(store)@, user_name@, user_token@, repo_name@, name@),
        ),
{
    let (ui, ri) = match writable_repo(store, user_name, user_token, repo_name) {
        Ok(p) => p,
        Err(e) => return Err(e),
    };
    let bi = match find_branch(&store.users[ui].repos[ri].branches, name) {
        Some(i) => i,
        None => return Err(StoreError::NotFound),
    };
    let ghost s0 = *old(store);
    remove_branch_at(&mut store.users[ui].repos[ri].branches, bi);
    proof {
        let u0 = s0.users@[ui as int];
        let u1 = store.users@[ui as int];
        lemma_repo_set(u0.repos@, ri as int, u1.repos@[ri as int]);
        lemma_user_set(s0.users@, ui as int, u1);
    }
    Ok(())
}

/// The names of the branches of a repository, each once; archived or not.
pub fn list_branch(store: &Store, user_token: &String, user_name: &String, repo_name: &String) -> (r:
    Result<Vec<String>, StoreError>)
    requires
        store.wf(),
    ensures
        listed(r, list_branch_spec(store@, user_name@, user_token@, repo_name@)),
{
    let (ui, ri) = match locate_repo(store, user_name, user_token, repo_name) {
        Ok(p) => p,
        Err(e) => return Err(e),
    };
    let names = branch_names(&store.users[ui].repos[ri].branches);
    proof {
        lemma_kv_keys(branch_entries(store.users@[ui as int].repos@[ri as int].branches@));
    }
    Ok(names)
}

/// Finds branch `branch_name` of repository `repo_name`, after the token check.
fn locate_branch(
    store: &Store,
    user_name: &String,
    user_token: &String,
    repo_name: &String,
    branch_name: &String,
) -> (r: Result<(usize, usize, usize), StoreError>)
    requires
        store.wf(),
    ensures
        match r {
            Ok((ui, ri, bi)) => {
                &&& ui < store.users@.len()
                &&& ri < store.users@[ui as int].repos@.len()
                &&& bi < store.users@[ui as int].repos@[ri as int].branches@.len()
                &&& branch_files(store@, user_name@, user_token@, repo_name@, branch_name@) == Ok::<
                    FilesModel,
                    StoreError,
                >(files_model(store.users@[ui as int].repos@[ri as int].branches@[bi as int].files@))
            },
            Err(e) => branch_files(store@, user_name@, user_token@, repo_name@, branch_name@)
                == Err::<FilesModel, StoreError>(e),
        },
{
    let (ui, ri) = match locate_repo(store, user_name, user_token, repo_name) {
        Ok(p) => p,
        Err(e) => return Err(e),
    };
    match find_branch(&store.users[ui].repos[ri].branches, branch_name) {
        Some(bi) => Ok((ui, ri, bi)),
        None => Err(StoreError::NotFound),
    }
}

/// The contents of a file; archived or not.
pub fn view_file(
    store: &Store,
    user_token: &String,
    user_name: &String,
    name: &String,
    repo_name: &String,
    branch_name: &String,
) -> (r: Result<String, StoreError>)
    requires
        store.wf(),
    ensures
        match view_file_spec(store@, user_name@, user_token@, repo_name@, branch_name@, name@) {
            Ok(c) => r is Ok && r->Ok_0@ == c,
            Err(e) => r is Err && r->Err_0 == e,
        },
{
    let (ui, ri, bi) = match locate_branch(store, user_name, user_token, repo_name, branch_name) {
        Ok(p) => p,
        Err(e) => return Err(e),
    };
    match find_file(&store.users[ui].repos[ri].branches[bi].files, name) {
        Some(fi) => Ok(store.users[ui].repos[ri].branches[bi].files[fi].contents.clone()),
        None => Err(StoreError::NotFound),
    }
}

/// The names of the files of a branch, each once; archived or not.
pub fn list_files(
    store: &Store,
    user_token: &String,
    user_name: &String,
    repo_name: &String,
    branch_name: &String,
) -> (r: Result<Vec<String>, StoreError>)
    requires
        store.wf(),
    ensures
        listed(r, list_files_spec(store@, user_name@, user_token@, repo_name@, branch_name@)),
{
    let (ui, ri, bi) = match locate_branch(store, user_name, user_token, repo_name, branch_name) {
        Ok(p) => p,
        Err(e) => return Err(e),
    };
    let names = file_names(&store.users[ui].repos[ri].branches[bi].files);
    proof {
        lemma_kv_keys(file_entries(store.users@[ui as int].repos@[ri as int].branches@[bi as int].files@));
    }
    Ok(names)
}

/// Adds a file to a branch. Fails if the name is taken there.
pub fn add_file(
    store: &mut Store,
    user_token: &String,
    user_name: &String,
    name: &String,
    contents: &String,
    repo_name: &String,
    branch_name: &String,
) -> (r: Result<(), StoreError>)
    requires
        old(store).wf(),
    ensures
        final(store).wf(),
        applied(
            r,
            old(store)@,
            final(store)@,
            add_file_spec(
                old(store)@,
                user_name@,
                user_token@,
                repo_name@,
                branch_name@,
                name@,
                contents@,
            ),
        ),
{
    let (ui, ri) = match writable_repo(store, user_name, user_token, repo_name) {
        Ok(p) => p,
        Err(e) => return Err(e),
    };
    if !is_valid_name(name.as_str()) {
        return Err(StoreError::InvalidName);
    }
    let bi = match find_branch(&store.users[ui].repos[ri].branches, branch_name) {
        Some(i) => i,
        None => return Err(StoreError::NotFound),
    };
    if find_file(&store.users[ui].repos[ri].branches[bi].files, name).is_some() {
        return Err(StoreError::Conflict);
    }
    let ghost s0 = *old(store);
    insert_file(&mut store.users[ui].repos[ri].branches[bi].files, name.clone(), contents.clone());
    proof {
        let u0 = s0.users@[ui as int];
        let r0 = u0.repos@[ri as int];
        let u1 = store.users@[ui as int];
        let r1 = u1.repos@[ri as int];
        lemma_branch_set(r0.branches@, bi as int, r1.branches@[bi as int]);
        lemma_repo_set(u0.repos@, ri as int, r1);
        lemma_user_set(s0.users@, ui as int, u1);
        assert(store@ == add_file_spec(s0@, user_name@, user_token@, repo_name@, branch_name@, name@, contents@)->Ok_0);
    }
    Ok(())
}


/// Overwrites the contents of an existing file.
pub fn update_file(
    store: &mut Store,
    user_token: &String,
    user_name: &String,
    name: &String,
    contents: &String,
    repo_name: &String,
    branch_name: &String,
) -> (r: Result<(), StoreError>)
    requires
        old(store).wf(),
    ensures
        final(store).wf(),
        applied(
            r,
            old(store)@,
            final(store)@,
            update_file_spec(
                old(store)@,
                user_name@,
                user_token@,
                repo_name@,
                branch_name@,
                name@,
                contents@,
            ),
        ),
{
    let (ui, ri) = match writable_repo(store, user_name, user_token, repo_name) {
        Ok(p) => p,
        Err(e) => return Err(e),
    };
    let bi = match find_branch(&store.users[ui].repos[ri].branches, branch_name) {
        Some(i) => i,
        None => return Err(StoreError::NotFound),
    };
    let fi = match find_file(&store.users[ui].repos[ri].branches[bi].files, name) {
        Some(i) => i,
        None => return Err(StoreError::NotFound),
    };
    let ghost s0 = *old(store);
    set_file_contents(&mut store.users[ui].repos[ri].branches[bi].files, fi, contents.clone());
    proof {
        let u0 = s0.users@[ui as int];
        let r0 = u0.repos@[ri as int];
        let u1 = store.users@[ui as int];
        let r1 = u1.repos@[ri as int];
        lemma_branch_set(r0.branches@, bi as int, r1.branches@[bi as int]);
        lemma_repo_set(u0.repos@, ri as int, r1);
        lemma_user_set(s0.users@, ui as int, u1);
    }
    Ok(())
}

/// Removes an existing file.
pub fn remove_file(
    store: &mut Store,
    user_token: &String,
    user_name: &String,
    name: &String,
    repo_name: &String,
    branch_name: &String,
) -> (r: Result<(), StoreError>)
    requires
        old(store).wf(),
    ensures
        final(store).wf(),
        applied(
            r,
            old(store)@,
            final(store)@,
            remove_file_spec(old(store)@, user_name@, user_token@, repo_name@, branch_name@, name@),
        ),
{
    let (ui, ri) = match writable_repo(store, user_name, user_token, repo_name) {
        Ok(p) => p,
        Err(e) => return Err(e),
    };
    let bi = match find_branch(&store.users[ui].repos[ri].branches, branch_name) {
        Some(i) => i,
        None => return Err(StoreError::NotFound),
    };
    let fi = match find_file(&store.users[ui].repos[ri].branches[bi].files, name) {
        Some(i) => i,
        None => return Err(StoreError::NotFound),
    };
    let ghost s0 = *old(store);
    remove_file_at(&mut store.users[ui].repos[ri].branches[bi].files, fi);
    proof {
        let u0 = s0.users@[ui as int];
        let r0 = u0.repos@[ri as int];
        let u1 = store.users@[ui as int];
        let r1 = u1.repos@[ri as int];
        lemma_branch_set(r0.branches@, bi as int, r1.branches@[bi as int]);
        lemma_repo_set(u0.repos@, ri as int, r1);
        lemma_user_set(s0.users@, ui as int, u1);
    }
    Ok(())
}

/// How many tokens `signup` draws before it gives up on finding an unused one.
const TOKEN_ATTEMPTS: usize = 8;

/// Tells whether some account holds `token`.
pub fn token_taken(store: &Store, token: &String) -> (r: bool)
    requires
        store.wf(),
    ensures
        r == token_in_use(store@, token@),
{
    let mut i: usize = 0;
    while i < store.users.len()
        invariant
            store.wf(),
            i <= store.users@.len(),
            forall|j: int| 0 <= j < i ==> store.users@[j].token@ != token@,
        decreases store.users@.len() - i,
    {
        if store.users[i].token == *token {
            proof {
                lemma_kv_index(user_entries(store.users@), i as int);
                assert(store@.contains_key(store.users@[i as int].name@));
            }
            return true;
        }
        i = i + 1;
    }
    proof {
        if token_in_use(store@, token@) {
            let k = choose|k: Seq<char>| #[trigger] store@.contains_key(k) && store@[k].token == token@;
            let e = user_entries(store.users@);
            let j = choose|j: int| 0 <= j < e.len() && #[trigger] e[j].0 == k;
            lemma_kv_index(e, j);
            assert(store.users@[j].token@ == token@);
        }
    }
    false
}

/// Records the account `user_name` with password `pwd` and session token `token`.
/// Fails if the name is not valid, or if the name or the token is taken.
pub fn signup_setup(store: &mut Store, user_name: &String, pwd: &String, token: &String) -> (r:
    Result<(), StoreError>)
    requires
        old(store).wf(),
    ensures
        final(store).wf(),
        applied(r, old(store)@, final(store)@, signup_spec(old(store)@, user_name@, pwd@, token@)),
{
    if !is_valid_name(user_name.as_str()) {
        return Err(StoreError::InvalidName);
    }
    if find_user(&store.users, user_name).is_some() || token_taken(store, token) {
        return Err(StoreError::Conflict);
    }
    let user = User {
        name: user_name.clone(),
        password: pwd.clone(),
        token: token.clone(),
        repos: Vec::new(),
    };
    proof {
        assert(crate::model::repos_model(user.repos@) =~= Map::empty());
        assert forall|j: int| 0 <= j < store.users@.len() implies #[trigger] store.users@[j].token@
            != token@ by {
            lemma_kv_index(user_entries(store.users@), j);
            assert(store@.contains_key(store.users@[j].name@));
        }
    }
    push_user(&mut store.users, user);
    Ok(())
}

/// Opens an account and returns its session token, drawn at random and held by
/// no other account. Fails with `InvalidName` on a name that is not valid, and
/// with `Conflict` if the name is taken or no unused token was drawn.
/// Succeeds whenever the name is valid and free and no account holds a token
/// of the shape that `generate_token` draws: then every draw is unused.
pub fn signup(store: &mut Store, user: &String, pwd: &String) -> (r: Result<String, StoreError>)
    requires
        old(store).wf(),
    ensures
        final(store).wf(),
        match r {
            Ok(t) => token_shape(t@) && signup_spec(old(store)@, user@, pwd@, t@) == Ok::<
                StoreModel,
                StoreError,
            >(final(store)@),
            Err(e) => final(store)@ == old(store)@ && (if !valid_name(user@) {
                e == StoreError::InvalidName
            } else {
                e == StoreError::Conflict
            }),
        },
        valid_name(user@) && !old(store)@.contains_key(user@) && (forall|k: Seq<char>|
            #[trigger] old(store)@.contains_key(k) ==> !token_shape(old(store)@[k].token))
            ==> r is Ok,
{
    if !is_valid_name(user.as_str()) {
        return Err(StoreError::InvalidName);
    }
    if find_user(&store.users, user).is_some() {
        return Err(StoreError::Conflict);
    }
    let mut attempts: usize = 0;
    while attempts < TOKEN_ATTEMPTS
        invariant
            store == old(store),
            store.wf(),
            valid_name(user@),
            !store@.contains_key(user@),
            (forall|k: Seq<char>| #[trigger] store@.contains_key(k) ==> !token_shape(store@[k].token))
                ==> attempts == 0,
        decreases TOKEN_ATTEMPTS - attempts,
    {
        let token = generate_token();
        if !token_taken(store, &token) {
            let r = signup_setup(store, user, pwd, &token);
            match r {
                Ok(()) => return Ok(token),
                Err(e) => return Err(e),
            }
        }
        attempts = attempts + 1;
    }
    Err(StoreError::Conflict)
}

/// The session token of the account, if `pwd` is its password: `NotFound` if
/// there is no such account, `Unauthorized` if the password does not match.
pub fn login(store: &Store, user_name: &String, pwd: &String) -> (r: Result<String, StoreError>)
    requires
        store.wf(),
    ensures
        match login_spec(store@, user_name@, pwd@) {
            Ok(t) => r is Ok && r->Ok_0@ == t,
            Err(e) => r is Err && r->Err_0 == e,
        },
{
    match find_user(&store.users, user_name) {
        None => Err(StoreError::NotFound),
        Some(i) => {
            if store.users[i].password == *pwd {
                Ok(store.users[i].token.clone())
            } else {
                Err(StoreError::Unauthorized)
            }
        },
    }
}

} // verus!
