//! The entities of the store, each with the mathematical value it stands for.
use crate::names::valid_name;
use crate::kv::{
    has_key, keys_of, keys_unique, kv_map, lemma_kv_equal, lemma_kv_index, lemma_kv_push, lemma_kv_remove,
    lemma_kv_update,
};
use vstd::prelude::*;
use vstd::string::StringExecFns;

verus! {

/// The files of a branch: file name to contents.
pub type FilesModel = Map<Seq<char>, Seq<char>>;

/// A repository: its kind, whether it is archived, and its branches.
pub struct RepoModel {
    pub kind: Seq<char>,
    pub archived: bool,
    pub branches: Map<Seq<char>, FilesModel>,
}

/// An account: its password, its token and its repositories.
pub struct UserModel {
    pub password: Seq<char>,
    pub token: Seq<char>,
    pub repos: Map<Seq<char>, RepoModel>,
}

/// The whole store: user name to account.
pub type StoreModel = Map<Seq<char>, UserModel>;

/// The name of the branch that every repository starts with.
pub open spec fn main_branch_name() -> Seq<char> {
    "main"@
}

/// The files that a new branch starts with: one placeholder page.
pub open spec fn seed_files() -> FilesModel {
    map!["index.md"@ => "<h1>Hello, World!</h1>"@]
}

/// A file: its name and its contents.
pub struct FileEntry {
    pub name: String,
    pub contents: String,
}

/// A branch: its name and its files, no two of one name.
pub struct Branch {
    pub name: String,
    pub files: Vec<FileEntry>,
}

/// A repository: its name, its kind, whether it is archived, and its branches.
pub struct Repository {
    pub name: String,
    pub kind: String,
    pub archived: bool,
    pub branches: Vec<Branch>,
}

/// An account: its name, password and session token, and its repositories.
pub struct User {
    pub name: String,
    pub password: String,
    pub token: String,
    pub repos: Vec<Repository>,
}

/// Each file as a name/contents pair.
pub open spec fn file_entries(s: Seq<FileEntry>) -> Seq<(Seq<char>, Seq<char>)> {
    s.map_values(|f: FileEntry| (f.name@, f.contents@))
}

/// Each branch as a name/files pair.
pub open spec fn branch_entries(s: Seq<Branch>) -> Seq<(Seq<char>, FilesModel)> {
    s.map_values(|b: Branch| (b.name@, files_model(b.files@)))
}

/// Each repository as a name/model pair.
pub open spec fn repo_entries(s: Seq<Repository>) -> Seq<(Seq<char>, RepoModel)> {
    s.map_values(|r: Repository| (r.name@, repo_model(r)))
}

/// Each account as a name/model pair.
pub open spec fn user_entries(s: Seq<User>) -> Seq<(Seq<char>, UserModel)> {
    s.map_values(|u: User| (u.name@, user_model(u)))
}

/// What a repository stands for.
pub open spec fn repo_model(r: Repository) -> RepoModel {
    RepoModel { kind: r.kind@, archived: r.archived, branches: branches_model(r.branches@) }
}

/// What an account stands for.
pub open spec fn user_model(u: User) -> UserModel {
    UserModel { password: u.password@, token: u.token@, repos: repos_model(u.repos@) }
}

/// The files of a branch, by name.
pub open spec fn files_model(s: Seq<FileEntry>) -> FilesModel {
    kv_map(file_entries(s))
}

/// The branches of a repository, by name.
pub open spec fn branches_model(s: Seq<Branch>) -> Map<Seq<char>, FilesModel> {
    kv_map(branch_entries(s))
}

/// The repositories of an account, by name.
pub open spec fn repos_model(s: Seq<Repository>) -> Map<Seq<char>, RepoModel> {
    kv_map(repo_entries(s))
}

/// The accounts, by name.
pub open spec fn users_model(s: Seq<User>) -> StoreModel {
    kv_map(user_entries(s))
}

/// No two files of a branch share a name.
pub open spec fn files_wf(s: Seq<FileEntry>) -> bool {
    keys_unique(file_entries(s))
}

/// Branch names are unique, and so are file names within each branch.
pub open spec fn branches_wf(s: Seq<Branch>) -> bool {
    &&& keys_unique(branch_entries(s))
    &&& forall|i: int| 0 <= i < s.len() ==> files_wf(#[trigger] s[i].files@)
}

/// Repository names are unique, and each repository is well formed.
pub open spec fn repos_wf(s: Seq<Repository>) -> bool {
    &&& keys_unique(repo_entries(s))
    &&& forall|i: int| 0 <= i < s.len() ==> branches_wf(#[trigger] s[i].branches@)
}

/// Account names are valid and unique, no two accounts share a token, and
/// each account's repositories are well formed.
pub open spec fn users_wf(s: Seq<User>) -> bool {
    &&& keys_unique(user_entries(s))
    &&& forall|i: int| 0 <= i < s.len() ==> valid_name(#[trigger] s[i].name@)
    &&& forall|i: int, j: int|
        0 <= i < s.len() && 0 <= j < s.len() && #[trigger] s[i].token@ == #[trigger] s[j].token@
            ==> i == j
    &&& forall|i: int| 0 <= i < s.len() ==> repos_wf(#[trigger] s[i].repos@)
}

/// A branch with the placeholder file only.
pub fn seeded_branch(name: String) -> (b: Branch)
    ensures
        b.name@ == name@,
        files_wf(b.files@),
        files_model(b.files@) == seed_files(),
{
    let f = FileEntry {
        name: String::from_str("index.md"),
        contents: String::from_str("<h1>Hello, World!</h1>"),
    };
    let mut files: Vec<FileEntry> = Vec::new();
    files.push(f);
    let b = Branch { name, files };
    proof {
        let e = file_entries(b.files@);
        assert(e.len() == 1);
        assert(e[0] == ("index.md"@, "<h1>Hello, World!</h1>"@));
        assert forall|k: Seq<char>| seed_files().contains_key(k) <==> has_key(e, k) by {
            if k == "index.md"@ {
                assert(e[0].0 == k);
            }
        }
        lemma_kv_equal(e, seed_files());
    }
    b
}

/// The position of the file called `name`, if there is one.
pub fn find_file(files: &Vec<FileEntry>, name: &String) -> (r: Option<usize>)
    requires
        files_wf(files@),
    ensures
        match r {
            Some(i) => i < files@.len() && files@[i as int].name@ == name@
                && files_model(files@).contains_key(name@)
                && files_model(files@)[name@] == file_entries(files@)[i as int].1,
            None => !files_model(files@).contains_key(name@),
        },
{
    let mut i: usize = 0;
    while i < files.len()
        invariant
            i <= files@.len(),
            files_wf(files@),
            forall|j: int| 0 <= j < i ==> files@[j].name@ != name@,
        decreases files@.len() - i,
    {
        if files[i].name == *name {
            proof {
                lemma_kv_index(file_entries(files@), i as int);
            }
            return Some(i);
        }
        i = i + 1;
    }
    proof {
        let e = file_entries(files@);
        if has_key(e, name@) {
            let j = choose|j: int| 0 <= j < e.len() && #[trigger] e[j].0 == name@;
            assert(files@[j].name@ == name@);
        }
    }
    None
}

/// The position of the branch called `name`, if there is one.
pub fn find_branch(branches: &Vec<Branch>, name: &String) -> (r: Option<usize>)
    requires
        branches_wf(branches@),
    ensures
        match r {
            Some(i) => i < branches@.len() && branches@[i as int].name@ == name@
                && branches_model(branches@).contains_key(name@)
                && branches_model(branches@)[name@] == branch_entries(branches@)[i as int].1,
            None => !branches_model(branches@).contains_key(name@),
        },
{
    let mut i: usize = 0;
    while i < branches.len()
        invariant
            i <= branches@.len(),
            branches_wf(branches@),
            forall|j: int| 0 <= j < i ==> branches@[j].name@ != name@,
        decreases branches@.len() - i,
    {
        if branches[i].name == *name {
            proof {
                lemma_kv_index(branch_entries(branches@), i as int);
            }
            return Some(i);
        }
        i = i + 1;
    }
    proof {
        let e = branch_entries(branches@);
        if has_key(e, name@) {
            let j = choose|j: int| 0 <= j < e.len() && #[trigger] e[j].0 == name@;
            assert(branches@[j].name@ == name@);
        }
    }
    None
}

/// The position of the repository called `name`, if there is one.
pub fn find_repo(repos: &Vec<Repository>, name: &String) -> (r: Option<usize>)
    requires
        repos_wf(repos@),
    ensures
        match r {
            Some(i) => i < repos@.len() && repos@[i as int].name@ == name@
                && repos_model(repos@).contains_key(name@)
                && repos_model(repos@)[name@] == repo_entries(repos@)[i as int].1,
            None => !repos_model(repos@).contains_key(name@),
        },
{
    let mut i: usize = 0;
    while i < repos.len()
        invariant
            i <= repos@.len(),
            repos_wf(repos@),
            forall|j: int| 0 <= j < i ==> repos@[j].name@ != name@,
        decreases repos@.len() - i,
    {
        if repos[i].name == *name {
            proof {
                lemma_kv_index(repo_entries(repos@), i as int);
            }
            return Some(i);
        }
        i = i + 1;
    }
    proof {
        let e = repo_entries(repos@);
        if has_key(e, name@) {
            let j = choose|j: int| 0 <= j < e.len() && #[trigger] e[j].0 == name@;
            assert(repos@[j].name@ == name@);
        }
    }
    None
}

/// The position of the user called `name`, if there is one.
pub fn find_user(users: &Vec<User>, name: &String) -> (r: Option<usize>)
    requires
        users_wf(users@),
    ensures
        match r {
            Some(i) => i < users@.len() && users@[i as int].name@ == name@
                && users_model(users@).contains_key(name@)
                && users_model(users@)[name@] == user_entries(users@)[i as int].1,
            None => !users_model(users@).contains_key(name@),
        },
{
    let mut i: usize = 0;
    while i < users.len()
        invariant
            i <= users@.len(),
            users_wf(users@),
            forall|j: int| 0 <= j < i ==> users@[j].name@ != name@,
        decreases users@.len() - i,
    {
        if users[i].name == *name {
            proof {
                lemma_kv_index(user_entries(users@), i as int);
            }
            return Some(i);
        }
        i = i + 1;
    }
    proof {
        let e = user_entries(users@);
        if has_key(e, name@) {
            let j = choose|j: int| 0 <= j < e.len() && #[trigger] e[j].0 == name@;
            assert(users@[j].name@ == name@);
        }
    }
    None
}

/// Adds a file that the branch does not hold yet.
pub fn insert_file(files: &mut Vec<FileEntry>, name: String, contents: String)
    requires
        files_wf(old(files)@),
        !files_model(old(files)@).contains_key(name@),
    ensures
        files_wf(final(files)@),
        files_model(final(files)@) == files_model(old(files)@).insert(name@, contents@),
{
    let ghost k = name@;
    let ghost v = contents@;
    files.push(FileEntry { name, contents });
    proof {
        assert(file_entries(files@) =~= file_entries(old(files)@).push((k, v)));
        lemma_kv_push(file_entries(old(files)@), k, v);
    }
}

/// Overwrites the contents of the file at position `i`.
pub fn set_file_contents(files: &mut Vec<FileEntry>, i: usize, contents: String)
    requires
        files_wf(old(files)@),
        i < old(files)@.len(),
    ensures
        files_wf(final(files)@),
        files_model(final(files)@) == files_model(old(files)@).insert(
            old(files)@[i as int].name@,
            contents@,
        ),
{
    let ghost k = files@[i as int].name@;
    let ghost v = contents@;
    files[i].contents = contents;
    proof {
        assert(file_entries(files@) =~= file_entries(old(files)@).update(i as int, (k, v)));
        lemma_kv_update(file_entries(old(files)@), i as int, k, v);
        assert(files_model(old(files)@).remove(k).insert(k, v) =~= files_model(
            old(files)@,
        ).insert(k, v));
    }
}

/// Removes the file at position `i`.
pub fn remove_file_at(files: &mut Vec<FileEntry>, i: usize)
    requires
        files_wf(old(files)@),
        i < old(files)@.len(),
    ensures
        files_wf(final(files)@),
        files_model(final(files)@) == files_model(old(files)@).remove(old(files)@[i as int].name@),
{
    files.remove(i);
    proof {
        assert(file_entries(files@) =~= file_entries(old(files)@).remove(i as int));
        lemma_kv_remove(file_entries(old(files)@), i as int);
    }
}

/// Adds a branch whose name is not taken yet.
pub fn push_branch(v: &mut Vec<Branch>, x: Branch)
    requires
        branches_wf(old(v)@),
        files_wf(x.files@),
        !branches_model(old(v)@).contains_key(x.name@),
    ensures
        branches_wf(final(v)@),
        branches_model(final(v)@) == branches_model(old(v)@).insert(x.name@, files_model(x.files@)),
{
    let ghost e = (x.name@, files_model(x.files@));
    v.push(x);
    proof {
        assert(branch_entries(v@) =~= branch_entries(old(v)@).push(e));
        lemma_kv_push(branch_entries(old(v)@), e.0, e.1);
        assert forall|j: int| 0 <= j < v@.len() implies files_wf(#[trigger] v@[j].files@) by {
            if j < old(v)@.len() {
                assert(v@[j] == old(v)@[j]);
                assert(files_wf(old(v)@[j].files@));
            }
        }
    }
}

/// Removes the branch at position `i`, with all it holds.
pub fn remove_branch_at(v: &mut Vec<Branch>, i: usize)
    requires
        branches_wf(old(v)@),
        i < old(v)@.len(),
    ensures
        branches_wf(final(v)@),
        branches_model(final(v)@) == branches_model(old(v)@).remove(old(v)@[i as int].name@),
{
    v.remove(i);
    proof {
        assert(branch_entries(v@) =~= branch_entries(old(v)@).remove(i as int));
        lemma_kv_remove(branch_entries(old(v)@), i as int);
        assert forall|j: int| 0 <= j < v@.len() implies files_wf(#[trigger] v@[j].files@) by {
            if j < i {
                assert(v@[j] == old(v)@[j]);
                assert(files_wf(old(v)@[j].files@));
            } else {
                assert(v@[j] == old(v)@[j + 1]);
                assert(files_wf(old(v)@[j + 1].files@));
            }
        }
    }
}

/// Entry `i` replaced by `x`, whose name is the entry's own or not taken.
pub proof fn lemma_branch_set(s: Seq<Branch>, i: int, x: Branch)
    requires
        branches_wf(s),
        0 <= i < s.len(),
        x.name@ == s[i].name@ || !branches_model(s).contains_key(x.name@),
        files_wf(x.files@),
    ensures
        branches_wf(s.update(i, x)),
        branches_model(s.update(i, x)) == branches_model(s).remove(s[i].name@).insert(x.name@, files_model(x.files@)),
        x.name@ == s[i].name@ ==> branches_model(s.update(i, x)) == branches_model(s).insert(x.name@, files_model(x.files@)),
{
    let t = s.update(i, x);
    assert(branch_entries(t) =~= branch_entries(s).update(i, (x.name@, files_model(x.files@))));
    lemma_kv_update(branch_entries(s), i, x.name@, files_model(x.files@));
    assert(branches_model(s).remove(s[i].name@).insert(s[i].name@, files_model(x.files@)) =~= branches_model(s).insert(s[i].name@, files_model(x.files@)));
    assert forall|j: int| 0 <= j < t.len() implies files_wf(#[trigger] t[j].files@) by {
        if j != i {
            assert(t[j] == s[j]);
            assert(files_wf(s[j].files@));
        }
    }
}

/// Adds a repository whose name is not taken yet.
pub fn push_repo(v: &mut Vec<Repository>, x: Repository)
    requires
        repos_wf(old(v)@),
        branches_wf(x.branches@),
        !repos_model(old(v)@).contains_key(x.name@),
    ensures
        repos_wf(final(v)@),
        repos_model(final(v)@) == repos_model(old(v)@).insert(x.name@, repo_model(x)),
{
    let ghost e = (x.name@, repo_model(x));
    v.push(x);
    proof {
        assert(repo_entries(v@) =~= repo_entries(old(v)@).push(e));
        lemma_kv_push(repo_entries(old(v)@), e.0, e.1);
        assert forall|j: int| 0 <= j < v@.len() implies branches_wf(#[trigger] v@[j].branches@) by {
            if j < old(v)@.len() {
                assert(v@[j] == old(v)@[j]);
                assert(branches_wf(old(v)@[j].branches@));
            }
        }
    }
}

/// Removes the repository at position `i`, with all it holds.
pub fn remove_repo_at(v: &mut Vec<Repository>, i: usize)
    requires
        repos_wf(old(v)@),
        i < old(v)@.len(),
    ensures
        repos_wf(final(v)@),
        repos_model(final(v)@) == repos_model(old(v)@).remove(old(v)@[i as int].name@),
{
    v.remove(i);
    proof {
        assert(repo_entries(v@) =~= repo_entries(old(v)@).remove(i as int));
        lemma_kv_remove(repo_entries(old(v)@), i as int);
        assert forall|j: int| 0 <= j < v@.len() implies branches_wf(#[trigger] v@[j].branches@) by {
            if j < i {
                assert(v@[j] == old(v)@[j]);
                assert(branches_wf(old(v)@[j].branches@));
            } else {
                assert(v@[j] == old(v)@[j + 1]);
                assert(branches_wf(old(v)@[j + 1].branches@));
            }
        }
    }
}

/// Entry `i` replaced by `x`, whose name is the entry's own or not taken.
pub proof fn lemma_repo_set(s: Seq<Repository>, i: int, x: Repository)
    requires
        repos_wf(s),
        0 <= i < s.len(),
        x.name@ == s[i].name@ || !repos_model(s).contains_key(x.name@),
        branches_wf(x.branches@),
    ensures
        repos_wf(s.update(i, x)),
        repos_model(s.update(i, x)) == repos_model(s).remove(s[i].name@).insert(x.name@, repo_model(x)),
        x.name@ == s[i].name@ ==> repos_model(s.update(i, x)) == repos_model(s).insert(x.name@, repo_model(x)),
{
    let t = s.update(i, x);
    assert(repo_entries(t) =~= repo_entries(s).update(i, (x.name@, repo_model(x))));
    lemma_kv_update(repo_entries(s), i, x.name@, repo_model(x));
    assert(repos_model(s).remove(s[i].name@).insert(s[i].name@, repo_model(x)) =~= repos_model(s).insert(s[i].name@, repo_model(x)));
    assert forall|j: int| 0 <= j < t.len() implies branches_wf(#[trigger] t[j].branches@) by {
        if j != i {
            assert(t[j] == s[j]);
            assert(branches_wf(s[j].branches@));
        }
    }
}

/// Adds a user whose name is not taken yet.
pub fn push_user(v: &mut Vec<User>, x: User)
    requires
        users_wf(old(v)@),
        repos_wf(x.repos@),
        !users_model(old(v)@).contains_key(x.name@),
        valid_name(x.name@),
        forall|j: int| 0 <= j < old(v)@.len() ==> #[trigger] old(v)@[j].token@ != x.token@,
    ensures
        users_wf(final(v)@),
        users_model(final(v)@) == users_model(old(v)@).insert(x.name@, user_model(x)),
{
    let ghost e = (x.name@, user_model(x));
    v.push(x);
    proof {
        assert(user_entries(v@) =~= user_entries(old(v)@).push(e));
        lemma_kv_push(user_entries(old(v)@), e.0, e.1);
        assert forall|j: int| 0 <= j < v@.len() implies repos_wf(#[trigger] v@[j].repos@) by {
            if j < old(v)@.len() {
                assert(v@[j] == old(v)@[j]);
                assert(repos_wf(old(v)@[j].repos@));
            }
        }
        assert forall|j: int| 0 <= j < v@.len() implies valid_name(#[trigger] v@[j].name@) by {
            if j < old(v)@.len() {
                assert(v@[j] == old(v)@[j]);
                assert(valid_name(old(v)@[j].name@));
            }
        }
        assert forall|a: int, b: int|
            0 <= a < v@.len() && 0 <= b < v@.len() && #[trigger] v@[a].token@
                == #[trigger] v@[b].token@ implies a == b by {
            if a < old(v)@.len() && b < old(v)@.len() {
                assert(v@[a] == old(v)@[a]);
                assert(v@[b] == old(v)@[b]);
            } else if a < old(v)@.len() {
                assert(v@[a] == old(v)@[a]);
                assert(old(v)@[a].token@ != x.token@);
            } else if b < old(v)@.len() {
                assert(v@[b] == old(v)@[b]);
                assert(old(v)@[b].token@ != x.token@);
            }
        }
    }
}

/// Account `i` replaced by `x`, which keeps its name and token.
pub proof fn lemma_user_set(s: Seq<User>, i: int, x: User)
    requires
        users_wf(s),
        0 <= i < s.len(),
        x.name@ == s[i].name@,
        x.token@ == s[i].token@,
        repos_wf(x.repos@),
    ensures
        users_wf(s.update(i, x)),
        users_model(s.update(i, x)) == users_model(s).remove(s[i].name@).insert(x.name@, user_model(x)),
        x.name@ == s[i].name@ ==> users_model(s.update(i, x)) == users_model(s).insert(x.name@, user_model(x)),
{
    let t = s.update(i, x);
    assert(user_entries(t) =~= user_entries(s).update(i, (x.name@, user_model(x))));
    lemma_kv_update(user_entries(s), i, x.name@, user_model(x));
    assert(users_model(s).remove(s[i].name@).insert(s[i].name@, user_model(x)) =~= users_model(s).insert(s[i].name@, user_model(x)));
    assert forall|j: int| 0 <= j < t.len() implies repos_wf(#[trigger] t[j].repos@) by {
        if j != i {
            assert(t[j] == s[j]);
            assert(repos_wf(s[j].repos@));
        }
    }
    assert forall|j: int| 0 <= j < t.len() implies valid_name(#[trigger] t[j].name@) by {
        assert(valid_name(s[j].name@));
    }
    assert forall|a: int, b: int|
        0 <= a < t.len() && 0 <= b < t.len() && #[trigger] t[a].token@ == #[trigger] t[b].token@
            implies a == b by {
        assert(t[a].token@ == s[a].token@);
        assert(t[b].token@ == s[b].token@);
    }
}

/// The names of a sequence of strings.
pub open spec fn string_views(v: Seq<String>) -> Seq<Seq<char>> {
    v.map_values(|x: String| x@)
}

/// The names of the files, in the order in which they are held.
pub fn file_names(v: &Vec<FileEntry>) -> (r: Vec<String>)
    ensures
        string_views(r@) == keys_of(file_entries(v@)),
{
    let mut out: Vec<String> = Vec::new();
    let mut i: usize = 0;
    while i < v.len()
        invariant
            i <= v@.len(),
            string_views(out@) == keys_of(file_entries(v@)).take(i as int),
        decreases v@.len() - i,
    {
        out.push(v[i].name.clone());
        proof {
            assert(keys_of(file_entries(v@)).take(i + 1) =~= keys_of(file_entries(v@)).take(i as int).push(
                v@[i as int].name@,
            ));
        }
        i = i + 1;
        assert(string_views(out@) =~= keys_of(file_entries(v@)).take(i as int));
    }
    assert(keys_of(file_entries(v@)).take(i as int) =~= keys_of(file_entries(v@)));
    out
}

/// The names of the branches, in the order in which they are held.
pub fn branch_names(v: &Vec<Branch>) -> (r: Vec<String>)
    ensures
        string_views(r@) == keys_of(branch_entries(v@)),
{
    let mut out: Vec<String> = Vec::new();
    let mut i: usize = 0;
    while i < v.len()
        invariant
            i <= v@.len(),
            string_views(out@) == keys_of(branch_entries(v@)).take(i as int),
        decreases v@.len() - i,
    {
        out.push(v[i].name.clone());
        proof {
            assert(keys_of(branch_entries(v@)).take(i + 1) =~= keys_of(branch_entries(v@)).take(i as int).push(
                v@[i as int].name@,
            ));
        }
        i = i + 1;
        assert(string_views(out@) =~= keys_of(branch_entries(v@)).take(i as int));
    }
    assert(keys_of(branch_entries(v@)).take(i as int) =~= keys_of(branch_entries(v@)));
    out
}

/// What a listing tells of a repository: its name, its kind and whether it is archived.
#[derive(Debug, Clone, PartialEq, Eq)]
pub struct RepoSummary {
    pub name: String,
    pub kind: String,
    pub archived: bool,
}

/// The names of a sequence of summaries.
pub open spec fn summary_names(v: Seq<RepoSummary>) -> Seq<Seq<char>> {
    v.map_values(|x: RepoSummary| x.name@)
}

/// A summary of each repository, in the order in which they are held.
pub fn repo_summaries(v: &Vec<Repository>) -> (r: Vec<RepoSummary>)
    ensures
        summary_names(r@) == keys_of(repo_entries(v@)),
        r@.len() == v@.len(),
        forall|i: int|
            0 <= i < r@.len() ==> (#[trigger] r@[i]).kind@ == v@[i].kind@ && r@[i].archived
                == v@[i].archived,
{
    let mut out: Vec<RepoSummary> = Vec::new();
    let mut i: usize = 0;
    while i < v.len()
        invariant
            i <= v@.len(),
            out@.len() == i,
            summary_names(out@) == keys_of(repo_entries(v@)).take(i as int),
            forall|j: int|
                0 <= j < out@.len() ==> (#[trigger] out@[j]).kind@ == v@[j].kind@ && out@[j].archived
                    == v@[j].archived,
        decreases v@.len() - i,
    {
        let x = RepoSummary {
            name: v[i].name.clone(),
            kind: v[i].kind.clone(),
            archived: v[i].archived,
        };
        let ghost before = out@;
        out.push(x);
        proof {
            assert(keys_of(repo_entries(v@)).take(i + 1) =~= keys_of(repo_entries(v@)).take(
                i as int,
            ).push(v@[i as int].name@));
            assert(summary_names(out@) =~= summary_names(before).push(x.name@));
            assert forall|j: int| 0 <= j < out@.len() implies (#[trigger] out@[j]).kind@
                == v@[j].kind@ && out@[j].archived == v@[j].archived by {
                if j < i {
                    assert(out@[j] == before[j]);
                }
            }
        }
        i = i + 1;
    }
    assert(keys_of(repo_entries(v@)).take(i as int) =~= keys_of(repo_entries(v@)));
    out
}

} // verus!
