use room_directory::error::DirectoryError;
use room_directory::store::AliasStore;

fn hints() -> Vec<String> {
    vec!["example.org".to_string(), "mirror.example.org".to_string()]
}

#[test]
fn new_store_holds_nothing() {
    let store = AliasStore::new();
    assert_eq!(store.lookup("#my_room:example.org").unwrap_err(), DirectoryError::NotFound);
}

#[test]
fn create_returns_the_record_and_lookup_finds_it() {
    let mut store = AliasStore::new();
    let created = store
        .create("#my_room:example.org", "!abc123:example.org", &hints(), "@carl:example.org", 42)
        .unwrap();
    assert_eq!(created.alias, "#my_room:example.org");
    assert_eq!(created.room_id, "!abc123:example.org");
    assert_eq!(created.servers, hints());
    assert_eq!(created.creator, "@carl:example.org");
    assert_eq!(created.created_at, 42);

    let found = store.lookup("#my_room:example.org").unwrap();
    assert_eq!(found.alias, "#my_room:example.org");
    assert_eq!(found.room_id, "!abc123:example.org");
    assert_eq!(found.servers, hints());
    assert_eq!(found.creator, "@carl:example.org");
    assert_eq!(found.created_at, 42);
}

#[test]
fn create_does_not_overwrite() {
    let mut store = AliasStore::new();
    store.create("#my_room:example.org", "!first:example.org", &hints(), "@a:example.org", 1).unwrap();
    let second =
        store.create("#my_room:example.org", "!second:example.org", &hints(), "@b:example.org", 2);
    assert_eq!(second.unwrap_err(), DirectoryError::AliasAlreadyExists);

    let found = store.lookup("#my_room:example.org").unwrap();
    assert_eq!(found.room_id, "!first:example.org");
    assert_eq!(found.creator, "@a:example.org");
    assert_eq!(found.created_at, 1);
}

#[test]
fn records_are_kept_apart_by_alias() {
    let mut store = AliasStore::new();
    store.create("#one:example.org", "!1:example.org", &hints(), "@a:example.org", 1).unwrap();
    store.create("#two:example.org", "!2:example.org", &hints(), "@a:example.org", 2).unwrap();
    store.create("#three:example.org", "!3:example.org", &hints(), "@a:example.org", 3).unwrap();

    assert_eq!(store.delete("#two:example.org"), Ok(()));

    assert_eq!(store.lookup("#one:example.org").unwrap().room_id, "!1:example.org");
    assert_eq!(store.lookup("#two:example.org").unwrap_err(), DirectoryError::NotFound);
    assert_eq!(store.lookup("#three:example.org").unwrap().room_id, "!3:example.org");
    assert_eq!(store.lookup("#thre:example.org").unwrap_err(), DirectoryError::NotFound);
}

#[test]
fn delete_of_unknown_alias_is_not_found() {
    let mut store = AliasStore::new();
    store.create("#one:example.org", "!1:example.org", &hints(), "@a:example.org", 1).unwrap();
    assert_eq!(store.delete("#two:example.org"), Err(DirectoryError::NotFound));
    assert!(store.lookup("#one:example.org").is_ok());
}

#[test]
fn delete_twice_fails_the_second_time() {
    let mut store = AliasStore::new();
    store.create("#one:example.org", "!1:example.org", &hints(), "@a:example.org", 1).unwrap();
    assert_eq!(store.delete("#one:example.org"), Ok(()));
    assert_eq!(store.delete("#one:example.org"), Err(DirectoryError::NotFound));
}

#[test]
fn deleted_alias_can_be_created_again() {
    let mut store = AliasStore::new();
    store.create("#one:example.org", "!1:example.org", &hints(), "@a:example.org", 1).unwrap();
    store.delete("#one:example.org").unwrap();
    let again = store.create("#one:example.org", "!2:example.org", &hints(), "@b:example.org", 2);
    assert_eq!(again.unwrap().room_id, "!2:example.org");
    assert_eq!(store.lookup("#one:example.org").unwrap().room_id, "!2:example.org");
}

#[test]
fn of_many_creations_of_one_alias_the_first_wins() {
    let mut store = AliasStore::new();
    let mut succeeded = Vec::new();
    for n in 0..8 {
        let room_id = format!("!room{}:example.org", n);
        match store.create("#my_room:example.org", &room_id, &hints(), "@a:example.org", n) {
            Ok(created) => succeeded.push(created.room_id),
            Err(error) => assert_eq!(error, DirectoryError::AliasAlreadyExists),
        }
    }
    assert_eq!(succeeded, vec!["!room0:example.org".to_string()]);
    assert_eq!(store.lookup("#my_room:example.org").unwrap().room_id, "!room0:example.org");
}

#[test]
fn a_copy_of_a_record_holds_the_same_values() {
    let mut store = AliasStore::new();
    let created =
        store.create("#one:example.org", "!1:example.org", &hints(), "@a:example.org", 7).unwrap();
    let copy = created.duplicate();
    assert_eq!(copy.alias, created.alias);
    assert_eq!(copy.room_id, created.room_id);
    assert_eq!(copy.servers, created.servers);
    assert_eq!(copy.creator, created.creator);
    assert_eq!(copy.created_at, created.created_at);
}
