use room_directory::alias::Authority;
use room_directory::directory::{DeletePolicy, DirectoryService, Resolution};
use room_directory::endpoint::{BeforeFilter, DeleteDirectoryRoom, GetDirectoryRoom};
use room_directory::error::DirectoryError;
use room_directory::store::AliasStore;
use router::Params;

const DOMAIN: &str = "example.org";
const USER: &str = "@carl:example.org";

fn service() -> DirectoryService {
    DirectoryService::new(
        Authority::new(vec![DOMAIN.to_string()]),
        DeletePolicy::AnyAuthenticated,
        5_000,
        AliasStore::new(),
    )
}

/// Stands for the creation of a room with the alias name given: files the
/// alias on this server and returns the id of the room.
fn create_room(service: &mut DirectoryService, room_alias_name: &str) -> String {
    let room_id = format!("!{}_id:{}", room_alias_name, DOMAIN);
    let alias = format!("#{}:{}", room_alias_name, DOMAIN);
    let created = service.create_alias(&alias, &room_id, Some(USER), 1_470_000_000).unwrap();
    assert_eq!(created.alias, alias);
    room_id
}

fn path_params(room_alias_name: &str) -> Params {
    let mut params = Params::new();
    params.insert("room_alias".to_string(), format!("#{}:{}", room_alias_name, DOMAIN));
    params
}

#[test]
fn get_room_alias() {
    let mut service = service();
    let room_id = create_room(&mut service, "my_room");

    let response = GetDirectoryRoom.handle(&service, &path_params("my_room"));

    match response {
        Ok(Resolution::Local(found)) => {
            assert_eq!(found.room_id, room_id);
            assert!(!found.servers.is_empty());
        }
        other => panic!("unexpected response: {:?}", other),
    }
}

#[test]
fn get_unknown_room_alias() {
    let mut service = service();
    let _ = create_room(&mut service, "my_room");

    let response = GetDirectoryRoom.handle(&service, &path_params("no_room"));

    let error = response.unwrap_err();
    assert_eq!(error.status_code(), 404);
    assert_eq!(error.errcode(), "M_NOT_FOUND");
}

#[test]
fn delete_room_alias() {
    let mut service = service();
    create_room(&mut service, "my_room");

    let response = DeleteDirectoryRoom.handle(&mut service, &path_params("my_room"), Some(USER));

    assert_eq!(response, Ok(()));

    let response = GetDirectoryRoom.handle(&service, &path_params("my_room"));

    let error = response.unwrap_err();
    assert_eq!(error.status_code(), 404);
    assert_eq!(error.errcode(), "M_NOT_FOUND");
}

#[test]
fn get_reads_the_room_alias_parameter() {
    let mut service = service();
    let room_id = create_room(&mut service, "my_room");
    let mut params = Params::new();
    params.insert("other".to_string(), "#no_room:example.org".to_string());
    params.insert("room_alias".to_string(), "#my_room:example.org".to_string());
    params.insert("zz".to_string(), "#no_room:example.org".to_string());

    match GetDirectoryRoom.handle(&service, &params) {
        Ok(Resolution::Local(found)) => {
            assert_eq!(found.room_id, room_id);
            assert_eq!(found.servers, vec!["example.org".to_string()]);
        }
        other => panic!("unexpected response: {:?}", other),
    }
}

#[test]
fn get_without_parameter_is_not_found() {
    let mut service = service();
    create_room(&mut service, "my_room");
    let mut params = Params::new();
    params.insert("alias".to_string(), "#my_room:example.org".to_string());

    let error = GetDirectoryRoom.handle(&service, &Params::new()).unwrap_err();
    assert_eq!(error, DirectoryError::NotFound);
    let error = GetDirectoryRoom.handle(&service, &params).unwrap_err();
    assert_eq!(error, DirectoryError::NotFound);
}

#[test]
fn delete_without_parameter_is_not_found_and_keeps_the_store() {
    let mut service = service();
    create_room(&mut service, "my_room");

    let response = DeleteDirectoryRoom.handle(&mut service, &Params::new(), Some(USER));

    assert_eq!(response, Err(DirectoryError::NotFound));
    assert!(service.store.lookup("#my_room:example.org").is_ok());
}

#[test]
fn delete_without_identity_is_forbidden() {
    let mut service = service();
    create_room(&mut service, "my_room");

    let response = DeleteDirectoryRoom.handle(&mut service, &path_params("my_room"), None);

    assert_eq!(response, Err(DirectoryError::Forbidden));
    assert_eq!(response.unwrap_err().status_code(), 403);
    assert!(service.store.lookup("#my_room:example.org").is_ok());
}

#[test]
fn get_malformed_parameter_is_invalid() {
    let service = service();
    let mut params = Params::new();
    params.insert("room_alias".to_string(), "my_room".to_string());

    let error = GetDirectoryRoom.handle(&service, &params).unwrap_err();

    assert_eq!(error, DirectoryError::MalformedAlias);
    assert_eq!(error.status_code(), 400);
    assert_eq!(error.errcode(), "M_INVALID_PARAM");
}

#[test]
fn chains_name_the_filters_before_each_handler() {
    assert_eq!(GetDirectoryRoom::chain().before, Vec::<BeforeFilter>::new());
    assert_eq!(DeleteDirectoryRoom::chain().before, vec![BeforeFilter::AccessTokenAuth]);
}
