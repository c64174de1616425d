use repo_store::{
    add_file, archive_check, archive_repo, auth_user, create_branch, create_repo, delete_branch,
    delete_repo, generate_token, is_valid_name, list_branch, list_files, list_repo, login,
    remove_file, rename_repo, restore_repo, signup, signup_setup, token_taken, update_file,
    token_from_indices, view_file, RepoSummary, Store, StoreError, TOKEN_LEN,
};

fn s(x: &str) -> String {
    x.to_string()
}

fn sorted(mut v: Vec<String>) -> Vec<String> {
    v.sort();
    v
}

/// The names of the account's repositories, sorted.
fn repo_list(store: &Store, t: &String, u: &str) -> Result<Vec<String>, StoreError> {
    list_repo(store, t, &s(u)).map(|v| sorted(v.into_iter().map(|x| x.name).collect()))
}

/// A store with the account "alice" and her token.
fn with_alice() -> (Store, String) {
    let mut store = Store::new();
    let token = signup(&mut store, &s("alice"), &s("pw")).unwrap();
    (store, token)
}

/// A store with "alice" and her repository "proj".
fn with_repo() -> (Store, String) {
    let (mut store, t) = with_alice();
    create_repo(&mut store, &t, &s("alice"), &s("proj"), &s("public")).unwrap();
    (store, t)
}

#[test]
fn signup_gives_token_of_alphabet() {
    let (_, t) = with_alice();
    assert_eq!(t.chars().count(), TOKEN_LEN);
    assert!(t.chars().all(|c| c.is_ascii_alphanumeric()));
}

#[test]
fn generated_tokens_differ() {
    let a = generate_token();
    let b = generate_token();
    assert_eq!(a.len(), 32);
    assert_ne!(a, b);
}

#[test]
fn signup_twice_same_name_conflicts() {
    let (mut store, t) = with_alice();
    assert_eq!(signup(&mut store, &s("alice"), &s("other")), Err(StoreError::Conflict));
    assert_eq!(login(&store, &s("alice"), &s("pw")), Ok(t));
}

#[test]
fn signup_invalid_name() {
    let mut store = Store::new();
    assert_eq!(signup(&mut store, &s(""), &s("pw")), Err(StoreError::InvalidName));
    assert_eq!(signup(&mut store, &s("a/b"), &s("pw")), Err(StoreError::InvalidName));
    assert_eq!(signup(&mut store, &s(".."), &s("pw")), Err(StoreError::InvalidName));
}

#[test]
fn login_outcomes() {
    let (store, t) = with_alice();
    assert_eq!(login(&store, &s("alice"), &s("wrong")), Err(StoreError::Unauthorized));
    assert_eq!(login(&store, &s("bob"), &s("pw")), Err(StoreError::NotFound));
    let got = login(&store, &s("alice"), &s("pw")).unwrap();
    assert_eq!(got, t);
    assert!(auth_user(&store, &s("alice"), &got));
    assert!(!auth_user(&store, &s("alice"), &s("nope")));
    assert!(!auth_user(&store, &s("bob"), &got));
}

#[test]
fn signup_setup_refuses_taken_token() {
    let mut store = Store::new();
    assert_eq!(signup_setup(&mut store, &s("a"), &s("p"), &s("tok")), Ok(()));
    assert!(token_taken(&store, &s("tok")));
    assert!(!token_taken(&store, &s("other")));
    assert_eq!(signup_setup(&mut store, &s("b"), &s("p"), &s("tok")), Err(StoreError::Conflict));
    assert_eq!(signup_setup(&mut store, &s("a"), &s("p"), &s("tok2")), Err(StoreError::Conflict));
    assert_eq!(signup_setup(&mut store, &s("b"), &s("p"), &s("tok2")), Ok(()));
    assert!(auth_user(&store, &s("b"), &s("tok2")));
}

#[test]
fn create_then_list_includes_repo() {
    let (store, t) = with_repo();
    assert_eq!(
        list_repo(&store, &t, &s("alice")),
        Ok(vec![RepoSummary { name: s("proj"), kind: s("public"), archived: false }])
    );
    assert_eq!(list_branch(&store, &t, &s("alice"), &s("proj")), Ok(vec![s("main")]));
    assert_eq!(list_files(&store, &t, &s("alice"), &s("proj"), &s("main")), Ok(vec![s("index.md")]));
    assert_eq!(
        view_file(&store, &t, &s("alice"), &s("index.md"), &s("proj"), &s("main")),
        Ok(s("<h1>Hello, World!</h1>"))
    );
}

#[test]
fn list_repo_of_new_account_is_empty() {
    let (store, t) = with_alice();
    assert_eq!(repo_list(&store, &t, "alice"), Ok(vec![]));
}

#[test]
fn create_twice_conflicts() {
    let (mut store, t) = with_repo();
    assert_eq!(
        create_repo(&mut store, &t, &s("alice"), &s("proj"), &s("private")),
        Err(StoreError::Conflict)
    );
    create_repo(&mut store, &t, &s("alice"), &s("second"), &s("private")).unwrap();
    assert_eq!(repo_list(&store, &t, "alice"), Ok(vec![s("proj"), s("second")]));
}

#[test]
fn wrong_token_is_unauthorized() {
    let (mut store, _) = with_repo();
    let bad = s("bad");
    assert_eq!(create_repo(&mut store, &bad, &s("alice"), &s("x"), &s("k")), Err(StoreError::Unauthorized));
    assert_eq!(repo_list(&store, &bad, "alice"), Err(StoreError::Unauthorized));
    assert_eq!(delete_repo(&mut store, &bad, &s("alice"), &s("proj")), Err(StoreError::Unauthorized));
    assert_eq!(
        add_file(&mut store, &bad, &s("alice"), &s("f"), &s("c"), &s("proj"), &s("main")),
        Err(StoreError::Unauthorized)
    );
    assert_eq!(
        view_file(&store, &bad, &s("alice"), &s("index.md"), &s("proj"), &s("main")),
        Err(StoreError::Unauthorized)
    );
}

#[test]
fn repo_names_must_be_path_safe() {
    let (mut store, t) = with_alice();
    for bad in ["", ".", "..", "a/b", "a\\b", "a\0b"] {
        assert_eq!(create_repo(&mut store, &t, &s("alice"), &s(bad), &s("k")), Err(StoreError::InvalidName));
    }
    assert!(is_valid_name("..."));
    assert!(is_valid_name(".hidden"));
    assert!(!is_valid_name("x/.."));
}

#[test]
fn archive_blocks_changes() {
    let (mut store, t) = with_repo();
    let u = s("alice");
    let r = s("proj");
    assert_eq!(archive_repo(&mut store, &t, &u, &r), Ok(()));
    assert_eq!(archive_repo(&mut store, &t, &u, &r), Ok(()));
    let fb = Err(StoreError::Forbidden);
    assert_eq!(add_file(&mut store, &t, &u, &s("f"), &s("c"), &r, &s("main")), fb);
    assert_eq!(update_file(&mut store, &t, &u, &s("index.md"), &s("c"), &r, &s("main")), fb);
    assert_eq!(remove_file(&mut store, &t, &u, &s("index.md"), &r, &s("main")), fb);
    assert_eq!(create_branch(&mut store, &t, &u, &s("dev"), &r), fb);
    assert_eq!(delete_branch(&mut store, &t, &u, &s("main"), &r), fb);
    assert_eq!(archive_check(&store, &u, &r), fb);
    assert_eq!(list_branch(&store, &t, &u, &r), Ok(vec![s("main")]));
    assert_eq!(
        view_file(&store, &t, &u, &s("index.md"), &r, &s("main")),
        Ok(s("<h1>Hello, World!</h1>"))
    );
}

#[test]
fn restore_after_archive_allows_add() {
    let (mut store, t) = with_repo();
    let u = s("alice");
    let r = s("proj");
    archive_repo(&mut store, &t, &u, &r).unwrap();
    assert_eq!(restore_repo(&mut store, &t, &u, &r), Ok(()));
    assert_eq!(restore_repo(&mut store, &t, &u, &r), Ok(()));
    assert_eq!(archive_check(&store, &u, &r), Ok(()));
    assert_eq!(add_file(&mut store, &t, &u, &s("f"), &s("c"), &r, &s("main")), Ok(()));
}

#[test]
fn archive_unknown_repo_not_found() {
    let (mut store, t) = with_repo();
    assert_eq!(archive_repo(&mut store, &t, &s("alice"), &s("nope")), Err(StoreError::NotFound));
    assert_eq!(restore_repo(&mut store, &t, &s("alice"), &s("nope")), Err(StoreError::NotFound));
    assert_eq!(archive_check(&store, &s("alice"), &s("nope")), Err(StoreError::NotFound));
}

#[test]
fn add_update_view() {
    let (mut store, t) = with_repo();
    let (u, r, b) = (s("alice"), s("proj"), s("main"));
    assert_eq!(add_file(&mut store, &t, &u, &s("f"), &s("hello"), &r, &b), Ok(()));
    assert_eq!(view_file(&store, &t, &u, &s("f"), &r, &b), Ok(s("hello")));
    assert_eq!(update_file(&mut store, &t, &u, &s("f"), &s("world"), &r, &b), Ok(()));
    assert_eq!(view_file(&store, &t, &u, &s("f"), &r, &b), Ok(s("world")));
    assert_eq!(sorted(list_files(&store, &t, &u, &r, &b).unwrap()), vec![s("f"), s("index.md")]);
}

#[test]
fn update_missing_file_not_found() {
    let (mut store, t) = with_repo();
    assert_eq!(
        update_file(&mut store, &t, &s("alice"), &s("nope"), &s("x"), &s("proj"), &s("main")),
        Err(StoreError::NotFound)
    );
    assert_eq!(
        view_file(&store, &t, &s("alice"), &s("nope"), &s("proj"), &s("main")),
        Err(StoreError::NotFound)
    );
}

#[test]
fn remove_then_view_not_found() {
    let (mut store, t) = with_repo();
    let (u, r, b) = (s("alice"), s("proj"), s("main"));
    add_file(&mut store, &t, &u, &s("f"), &s("hello"), &r, &b).unwrap();
    assert_eq!(remove_file(&mut store, &t, &u, &s("f"), &r, &b), Ok(()));
    assert_eq!(view_file(&store, &t, &u, &s("f"), &r, &b), Err(StoreError::NotFound));
    assert_eq!(remove_file(&mut store, &t, &u, &s("f"), &r, &b), Err(StoreError::NotFound));
}

#[test]
fn second_add_of_same_name_conflicts() {
    let (mut store, t) = with_repo();
    let (u, r, b) = (s("alice"), s("proj"), s("main"));
    assert_eq!(add_file(&mut store, &t, &u, &s("f"), &s("one"), &r, &b), Ok(()));
    assert_eq!(add_file(&mut store, &t, &u, &s("f"), &s("two"), &r, &b), Err(StoreError::Conflict));
    assert_eq!(view_file(&store, &t, &u, &s("f"), &r, &b), Ok(s("one")));
}

#[test]
fn add_file_invalid_name() {
    let (mut store, t) = with_repo();
    assert_eq!(
        add_file(&mut store, &t, &s("alice"), &s("../x"), &s("c"), &s("proj"), &s("main")),
        Err(StoreError::InvalidName)
    );
}

#[test]
fn delete_repo_then_lists_not_found() {
    let (mut store, t) = with_repo();
    let (u, r) = (s("alice"), s("proj"));
    assert_eq!(delete_repo(&mut store, &t, &u, &r), Ok(()));
    assert_eq!(list_branch(&store, &t, &u, &r), Err(StoreError::NotFound));
    assert_eq!(list_files(&store, &t, &u, &r, &s("main")), Err(StoreError::NotFound));
    assert_eq!(delete_repo(&mut store, &t, &u, &r), Err(StoreError::NotFound));
    assert_eq!(repo_list(&store, &t, "alice"), Ok(vec![]));
}

#[test]
fn rename_repo_outcomes() {
    let (mut store, t) = with_repo();
    let u = s("alice");
    create_repo(&mut store, &t, &u, &s("other"), &s("k")).unwrap();
    assert_eq!(rename_repo(&mut store, &t, &u, &s("proj"), &s("other")), Err(StoreError::Conflict));
    assert_eq!(rename_repo(&mut store, &t, &u, &s("nope"), &s("x")), Err(StoreError::NotFound));
    assert_eq!(rename_repo(&mut store, &t, &u, &s("proj"), &s("a/b")), Err(StoreError::InvalidName));
    assert_eq!(rename_repo(&mut store, &t, &u, &s("proj"), &s("renamed")), Ok(()));
    assert_eq!(repo_list(&store, &t, "alice"), Ok(vec![s("other"), s("renamed")]));
    assert_eq!(
        view_file(&store, &t, &u, &s("index.md"), &s("renamed"), &s("main")),
        Ok(s("<h1>Hello, World!</h1>"))
    );
    assert_eq!(list_branch(&store, &t, &u, &s("proj")), Err(StoreError::NotFound));
}

#[test]
fn branch_create_and_delete() {
    let (mut store, t) = with_repo();
    let (u, r) = (s("alice"), s("proj"));
    assert_eq!(create_branch(&mut store, &t, &u, &s("dev"), &r), Ok(()));
    assert_eq!(create_branch(&mut store, &t, &u, &s("dev"), &r), Err(StoreError::Conflict));
    assert_eq!(create_branch(&mut store, &t, &u, &s("x"), &s("nope")), Err(StoreError::NotFound));
    assert_eq!(sorted(list_branch(&store, &t, &u, &r).unwrap()), vec![s("dev"), s("main")]);
    assert_eq!(list_files(&store, &t, &u, &r, &s("dev")), Ok(vec![s("index.md")]));
    assert_eq!(delete_branch(&mut store, &t, &u, &s("dev"), &r), Ok(()));
    assert_eq!(delete_branch(&mut store, &t, &u, &s("dev"), &r), Err(StoreError::NotFound));
    assert_eq!(list_files(&store, &t, &u, &r, &s("dev")), Err(StoreError::NotFound));
    assert_eq!(list_branch(&store, &t, &u, &r), Ok(vec![s("main")]));
}

#[test]
fn accounts_are_separate() {
    let (mut store, t) = with_repo();
    let t2 = signup(&mut store, &s("bob"), &s("pw2")).unwrap();
    assert_ne!(t, t2);
    assert_eq!(repo_list(&store, &t2, "bob"), Ok(vec![]));
    assert_eq!(repo_list(&store, &t2, "alice"), Err(StoreError::Unauthorized));
    assert_eq!(create_repo(&mut store, &t2, &s("bob"), &s("proj"), &s("k")), Ok(()));
}

#[test]
fn listing_shows_archived_flag() {
    let (mut store, t) = with_repo();
    archive_repo(&mut store, &t, &s("alice"), &s("proj")).unwrap();
    assert_eq!(
        list_repo(&store, &t, &s("alice")),
        Ok(vec![RepoSummary { name: s("proj"), kind: s("public"), archived: true }])
    );
    restore_repo(&mut store, &t, &s("alice"), &s("proj")).unwrap();
    assert_eq!(list_repo(&store, &t, &s("alice")).unwrap()[0].archived, false);
}

#[test]
fn token_from_indices_picks_alphabet_characters() {
    let mut idx: Vec<usize> = vec![0; TOKEN_LEN];
    idx[0] = 1;
    idx[1] = 26;
    idx[2] = 52;
    idx[3] = 61;
    let t = token_from_indices(&idx);
    assert_eq!(t.chars().count(), TOKEN_LEN);
    assert!(t.starts_with("bA09a"));
    assert!(t[4..].chars().all(|c| c == 'a'));
}

#[test]
fn signup_on_empty_store_succeeds_with_distinct_tokens() {
    let mut store = Store::new();
    let a = signup(&mut store, &s("a"), &s("p")).unwrap();
    let b = signup(&mut store, &s("b"), &s("p")).unwrap();
    assert_ne!(a, b);
    assert!(auth_user(&store, &s("a"), &a));
    assert!(!auth_user(&store, &s("a"), &b));
}
