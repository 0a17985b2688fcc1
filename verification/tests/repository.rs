use record_repo::{
    Account, InMemoryRepo, RepoError, Repository, Todo, ACCOUNT_PREFIX, TODO_PREFIX,
};

#[test]
fn inmemory_repo_account_delete_exists() {
    let mut base_repo = InMemoryRepo::new();
    base_repo.insert_raw(format!("{}{}", ACCOUNT_PREFIX, "1234"), vec![1]);
    let repo = &mut base_repo as &mut dyn Repository<Account>;

    let actual = repo.delete("1234");

    assert!(actual.is_ok());
    assert_eq!(actual.unwrap(), true);
}

#[test]
fn inmemory_repo_account_delete_doesnt_exist() {
    let repo = &mut InMemoryRepo::new() as &mut dyn Repository<Account>;

    let actual = repo.delete("1234");

    assert!(actual.is_ok());
    assert_eq!(actual.unwrap(), false);
}

#[test]
fn inmemory_repo_todo_delete_exists() {
    let mut base_repo = InMemoryRepo::new();
    base_repo.insert_raw(format!("{}{}", TODO_PREFIX, "1234"), vec![1]);
    let repo = &mut base_repo as &mut dyn Repository<Todo>;

    let actual = repo.delete("1234");

    assert!(actual.is_ok());
    assert_eq!(actual.unwrap(), true);
}

#[test]
fn inmemory_repo_todo_delete_doesnt_exist() {
    let repo = &mut InMemoryRepo::new() as &mut dyn Repository<Todo>;

    let actual = repo.delete("1234");

    assert!(actual.is_ok());
    assert_eq!(actual.unwrap(), false);
}

fn account(name: &str) -> Account {
    Account { name: name.to_string() }
}

fn todo(id: &str, title: &str, description: &str) -> Todo {
    Todo { id: id.to_string(), title: title.to_string(), description: description.to_string() }
}

#[test]
fn new_repo_holds_nothing() {
    let mut repo = InMemoryRepo::new();
    assert_eq!(Repository::<Account>::get_by_id(&repo, "alice"), Ok(None));
    assert_eq!(Repository::<Todo>::get_by_id(&repo, "t1"), Ok(None));
    assert_eq!(Repository::<Account>::delete(&mut repo, "alice"), Ok(false));
    assert_eq!(Repository::<Todo>::delete(&mut repo, "t1"), Ok(false));
}

#[test]
fn account_store_then_get_returns_it() {
    let mut repo = InMemoryRepo::new();
    let alice = account("alice");
    assert_eq!(repo.store(&alice), Ok(()));
    assert_eq!(Repository::<Account>::get_by_id(&repo, "alice"), Ok(Some(account("alice"))));
}

#[test]
fn todo_store_then_get_returns_every_field() {
    let mut repo = InMemoryRepo::new();
    let item = todo("t1", "buy milk", "two litres, semi-skimmed");
    assert_eq!(repo.store(&item), Ok(()));
    let found = Repository::<Todo>::get_by_id(&repo, "t1").unwrap().unwrap();
    assert_eq!(found.id, "t1");
    assert_eq!(found.title, "buy milk");
    assert_eq!(found.description, "two litres, semi-skimmed");
}

#[test]
fn never_stored_key_is_absent_beside_other_records() {
    let mut repo = InMemoryRepo::new();
    repo.store(&account("alice")).unwrap();
    repo.store(&todo("t1", "buy milk", "")).unwrap();
    assert_eq!(Repository::<Account>::get_by_id(&repo, "bob"), Ok(None));
    assert_eq!(Repository::<Account>::delete(&mut repo, "bob"), Ok(false));
    assert_eq!(Repository::<Todo>::get_by_id(&repo, "t2"), Ok(None));
    assert_eq!(Repository::<Todo>::delete(&mut repo, "t2"), Ok(false));
    assert_eq!(Repository::<Account>::get_by_id(&repo, "alice"), Ok(Some(account("alice"))));
    assert_eq!(
        Repository::<Todo>::get_by_id(&repo, "t1"),
        Ok(Some(todo("t1", "buy milk", "")))
    );
}

#[test]
fn store_then_delete_removes_the_record() {
    let mut repo = InMemoryRepo::new();
    repo.store(&todo("t1", "buy milk", "today")).unwrap();
    assert_eq!(Repository::<Todo>::delete(&mut repo, "t1"), Ok(true));
    assert_eq!(Repository::<Todo>::get_by_id(&repo, "t1"), Ok(None));
}

#[test]
fn account_scenario_store_get_delete_twice() {
    let mut repo = InMemoryRepo::new();
    repo.store(&account("alice")).unwrap();
    assert_eq!(Repository::<Account>::get_by_id(&repo, "alice"), Ok(Some(account("alice"))));
    assert_eq!(Repository::<Account>::delete(&mut repo, "alice"), Ok(true));
    assert_eq!(Repository::<Account>::get_by_id(&repo, "alice"), Ok(None));
    assert_eq!(Repository::<Account>::delete(&mut repo, "alice"), Ok(false));
}

#[test]
fn todo_scenario_second_store_wins() {
    let mut repo = InMemoryRepo::new();
    repo.store(&todo("t1", "buy milk", "two litres")).unwrap();
    repo.store(&todo("t1", "buy bread", "")).unwrap();
    assert_eq!(
        Repository::<Todo>::get_by_id(&repo, "t1"),
        Ok(Some(todo("t1", "buy bread", "")))
    );
    assert_eq!(Repository::<Todo>::delete(&mut repo, "t1"), Ok(true));
    assert_eq!(Repository::<Todo>::get_by_id(&repo, "t1"), Ok(None));
}

#[test]
fn account_and_todo_with_one_key_do_not_collide() {
    let mut repo = InMemoryRepo::new();
    repo.store(&account("1234")).unwrap();
    repo.store(&todo("1234", "call back", "before noon")).unwrap();
    assert_eq!(Repository::<Account>::get_by_id(&repo, "1234"), Ok(Some(account("1234"))));
    assert_eq!(
        Repository::<Todo>::get_by_id(&repo, "1234"),
        Ok(Some(todo("1234", "call back", "before noon")))
    );

    assert_eq!(Repository::<Account>::delete(&mut repo, "1234"), Ok(true));
    assert_eq!(Repository::<Account>::get_by_id(&repo, "1234"), Ok(None));
    assert_eq!(
        Repository::<Todo>::get_by_id(&repo, "1234"),
        Ok(Some(todo("1234", "call back", "before noon")))
    );

    repo.store(&account("1234")).unwrap();
    assert_eq!(Repository::<Todo>::delete(&mut repo, "1234"), Ok(true));
    assert_eq!(Repository::<Todo>::get_by_id(&repo, "1234"), Ok(None));
    assert_eq!(Repository::<Account>::get_by_id(&repo, "1234"), Ok(Some(account("1234"))));
}

#[test]
fn store_and_delete_leave_other_keys_of_the_type() {
    let mut repo = InMemoryRepo::new();
    repo.store(&todo("t1", "one", "")).unwrap();
    repo.store(&todo("t2", "two", "")).unwrap();
    repo.store(&todo("t1", "one again", "")).unwrap();
    assert_eq!(Repository::<Todo>::get_by_id(&repo, "t2"), Ok(Some(todo("t2", "two", ""))));
    assert_eq!(Repository::<Todo>::delete(&mut repo, "t1"), Ok(true));
    assert_eq!(Repository::<Todo>::get_by_id(&repo, "t2"), Ok(Some(todo("t2", "two", ""))));
}

#[test]
fn store_files_the_encoding_under_prefix_and_key() {
    let mut stored = InMemoryRepo::new();
    stored.store(&account("alice")).unwrap();
    let mut raw = InMemoryRepo::new();
    raw.insert_raw("account:alice".to_string(), vec![0x0a, 5, b'a', b'l', b'i', b'c', b'e']);
    assert_eq!(
        Repository::<Account>::get_by_id(&raw, "alice"),
        Repository::<Account>::get_by_id(&stored, "alice")
    );
    assert_eq!(Repository::<Account>::get_by_id(&raw, "alice"), Ok(Some(account("alice"))));
    assert_eq!(Repository::<Todo>::get_by_id(&raw, "alice"), Ok(None));
    assert_eq!(ACCOUNT_PREFIX, "account:");
    assert_eq!(TODO_PREFIX, "todo:");
}

#[test]
fn corrupt_entry_is_a_decode_error_not_an_absence() {
    let mut repo = InMemoryRepo::new();
    repo.insert_raw(format!("{}{}", ACCOUNT_PREFIX, "1234"), vec![1]);
    repo.insert_raw(format!("{}{}", TODO_PREFIX, "1234"), vec![0x0a, 0x01, 0xff]);
    let account = Repository::<Account>::get_by_id(&repo, "1234");
    assert!(matches!(account, Err(RepoError::Decode(_))));
    let todo = Repository::<Todo>::get_by_id(&repo, "1234");
    assert!(matches!(todo, Err(RepoError::Decode(_))));
    assert_eq!(Repository::<Account>::get_by_id(&repo, "12345"), Ok(None));
}

#[test]
fn empty_record_is_present_not_absent() {
    let mut repo = InMemoryRepo::new();
    assert_eq!(Repository::<Account>::get_by_id(&repo, ""), Ok(None));
    repo.store(&account("")).unwrap();
    assert_eq!(Repository::<Account>::get_by_id(&repo, ""), Ok(Some(account(""))));
    assert_eq!(Repository::<Account>::get_by_id(&repo, ""), Ok(Some(Account::default())));

    repo.insert_raw("todo:t9".to_string(), Vec::new());
    assert_eq!(Repository::<Todo>::get_by_id(&repo, "t9"), Ok(Some(Todo::default())));
    assert_eq!(Repository::<Todo>::get_by_id(&repo, "t8"), Ok(None));
}

#[test]
fn keys_are_looked_up_as_given() {
    let mut repo = InMemoryRepo::new();
    repo.store(&account("a:b c")).unwrap();
    assert_eq!(Repository::<Account>::get_by_id(&repo, "a:b c"), Ok(Some(account("a:b c"))));
    assert_eq!(Repository::<Account>::get_by_id(&repo, "a:b"), Ok(None));
    assert_eq!(Repository::<Account>::get_by_id(&repo, " a:b c"), Ok(None));
    repo.store(&todo("account:x", "shadow", "")).unwrap();
    assert_eq!(Repository::<Account>::get_by_id(&repo, "x"), Ok(None));
    assert_eq!(Repository::<Account>::get_by_id(&repo, "todo:account:x"), Ok(None));
}
