use movie_admin::movie_controller::add;
use movie_admin::movie_controller::all_list;
use movie_admin::movie_controller::delete;
use movie_admin::movie_controller::edit;
use movie_admin::movie_controller::insert;
use movie_admin::movie_controller::search;
use movie_admin::movie_controller::update;
use movie_admin::movie_controller::DeleteResponse;
use movie_admin::movie_controller::EditModel;
use movie_admin::movie_controller::ListModel;
use movie_admin::movie_controller::PageResponse;
use movie_admin::movie_repo::find_all;
use movie_admin::movie_repo::find_by_id;
use movie_admin::movie_repo::MovieTable;

fn form(name: &str, status: &str, description: &str) -> EditModel {
    EditModel {
        id: "".to_string(),
        name: name.to_string(),
        status: status.to_string(),
        description: description.to_string(),
    }
}

#[test]
fn add_form_defaults() {
    let page = add();
    assert_eq!(page.action, "A");
    assert!(page.message.is_empty());
    assert_eq!(page.movie.id, "");
    assert_eq!(page.movie.name, "");
    assert_eq!(page.movie.status, "0");
    assert_eq!(page.movie.description, "");
}

#[test]
fn insert_then_fetch_round_trip() {
    let mut table = MovieTable::new();
    let r = insert(&mut table, form("Dune", "0", "Sci-fi epic"), 1000);
    assert!(matches!(r, PageResponse::RedirectToList));
    let rows = find_all(&table);
    assert_eq!(rows.len(), 1);
    let id = rows[0].id.expect("a stored row carries an id");
    let row = find_by_id(&table, id).expect("the assigned id must be found again");
    assert_eq!(row.name.as_deref(), Some("Dune"));
    assert_eq!(row.status.as_deref(), Some("0"));
    assert_eq!(row.description.as_deref(), Some("Sci-fi epic"));
    assert_eq!(row.created_at, Some(1000));
    assert_eq!(row.updated_at, None);
}

#[test]
fn invalid_insert_not_persisted() {
    let mut table = MovieTable::new();
    let r = insert(&mut table, form("", "0", "fine"), 1000);
    match r {
        PageResponse::EditForm(page) => {
            assert_eq!(page.message, vec!["name is required".to_string()]);
        },
        _ => panic!("an invalid form must re-render, not redirect"),
    }
    assert_eq!(find_all(&table).len(), 0);

    let long_name = "n".repeat(11);
    let r = insert(&mut table, form(&long_name, "0", "fine"), 1000);
    assert!(matches!(r, PageResponse::EditForm(_)));
    assert_eq!(find_all(&table).len(), 0);

    let long_desc = "d".repeat(101);
    let r = insert(&mut table, form("ok", "0", &long_desc), 1000);
    assert!(matches!(r, PageResponse::EditForm(_)));
    assert_eq!(find_all(&table).len(), 0);
}

#[test]
fn delete_missing_id_idempotent() {
    let mut table = MovieTable::new();
    assert_eq!(delete(&mut table, "12".to_string()), DeleteResponse::NotFound);
    assert_eq!(delete(&mut table, "12".to_string()), DeleteResponse::NotFound);
    assert_eq!(find_all(&table).len(), 0);
}

#[test]
fn delete_malformed_id_not_found() {
    let mut table = MovieTable::new();
    insert(&mut table, form("Dune", "0", "Sci-fi epic"), 1000);
    assert_eq!(delete(&mut table, "abc".to_string()), DeleteResponse::NotFound);
    assert_eq!(delete(&mut table, "".to_string()), DeleteResponse::NotFound);
    assert_eq!(delete(&mut table, "1.5".to_string()), DeleteResponse::NotFound);
    assert_eq!(delete(&mut table, "2147483648".to_string()), DeleteResponse::NotFound);
    assert_eq!(find_all(&table).len(), 1);
}

#[test]
fn delete_existing_then_missing() {
    let mut table = MovieTable::new();
    insert(&mut table, form("Dune", "0", "Sci-fi epic"), 1000);
    let id = find_all(&table)[0].id.unwrap();
    assert_eq!(delete(&mut table, id.to_string()), DeleteResponse::Deleted);
    assert_eq!(delete(&mut table, id.to_string()), DeleteResponse::NotFound);
    assert_eq!(find_all(&table).len(), 0);
}

#[test]
fn delete_accepts_signed_numeral() {
    let mut table = MovieTable::new();
    insert(&mut table, form("Dune", "0", "Sci-fi epic"), 1000);
    assert_eq!(delete(&mut table, "+1".to_string()), DeleteResponse::Deleted);
    assert_eq!(find_all(&table).len(), 0);
}

#[test]
fn search_matches_prefix_only() {
    let mut table = MovieTable::new();
    insert(&mut table, form("Inception", "1", "A dream"), 1000);
    insert(&mut table, form("The Incept", "1", "Not the same"), 1001);
    let rows = search(&table, ListModel { name: "Inception".to_string() });
    assert_eq!(rows.len(), 1);
    assert_eq!(rows[0].name, "Inception");

    let rows = search(&table, ListModel { name: "The ".to_string() });
    assert_eq!(rows.len(), 1);
    assert_eq!(rows[0].name, "The Incept");

    let rows = search(&table, ListModel { name: "ception".to_string() });
    assert_eq!(rows.len(), 0);
}

#[test]
fn empty_search_prefix_matches_all() {
    let mut table = MovieTable::new();
    insert(&mut table, form("Alpha", "0", "first"), 1);
    insert(&mut table, form("Beta", "1", "second"), 2);
    let rows = search(&table, ListModel { name: "".to_string() });
    assert_eq!(rows.len(), 2);
}

#[test]
fn all_list_shows_labels_in_id_order() {
    let mut table = MovieTable::new();
    insert(&mut table, form("Alpha", "0", "first"), 1);
    insert(&mut table, form("Beta", "1", "second"), 2);
    insert(&mut table, form("Gamma", "7", "third"), 3);
    let rows = all_list(&table);
    assert_eq!(rows.len(), 3);
    assert!(rows[0].id < rows[1].id && rows[1].id < rows[2].id);
    assert_eq!(rows[0].name, "Alpha");
    assert_eq!(rows[0].status, "not yet released");
    assert_eq!(rows[1].status, "released");
    assert_eq!(rows[2].status, "7");
}

#[test]
fn update_overwrites_row() {
    let mut table = MovieTable::new();
    insert(&mut table, form("Dune", "0", "Sci-fi epic"), 1000);
    let id = find_all(&table)[0].id.unwrap();
    let r = update(&mut table, id.to_string(), form("Dune II", "1", "The sequel"), 2000);
    assert!(matches!(r, PageResponse::RedirectToList));
    let row = find_by_id(&table, id).expect("the updated row must still exist");
    assert_eq!(row.name.as_deref(), Some("Dune II"));
    assert_eq!(row.status.as_deref(), Some("1"));
    assert_eq!(row.description.as_deref(), Some("The sequel"));
    assert_eq!(row.created_at, Some(1000));
    assert_eq!(row.updated_at, Some(2000));
}

#[test]
fn update_missing_id_silent_noop() {
    let mut table = MovieTable::new();
    insert(&mut table, form("Dune", "0", "Sci-fi epic"), 1000);
    let r = update(&mut table, "999".to_string(), form("Other", "1", "changed"), 2000);
    assert!(matches!(r, PageResponse::RedirectToList));
    let rows = find_all(&table);
    assert_eq!(rows.len(), 1);
    assert_eq!(rows[0].name.as_deref(), Some("Dune"));
    assert_eq!(rows[0].updated_at, None);
}

#[test]
fn update_malformed_id_error_page() {
    let mut table = MovieTable::new();
    let r = update(&mut table, "abc".to_string(), form("ok", "0", "fine"), 2000);
    assert!(matches!(r, PageResponse::ErrorPage));
}

#[test]
fn invalid_update_not_persisted() {
    let mut table = MovieTable::new();
    insert(&mut table, form("Dune", "0", "Sci-fi epic"), 1000);
    let id = find_all(&table)[0].id.unwrap();
    let r = update(&mut table, id.to_string(), form("", "1", "changed"), 2000);
    match r {
        PageResponse::EditForm(page) => {
            assert_eq!(page.message, vec!["name is required".to_string()]);
            assert_eq!(page.movie.id, id.to_string());
            assert_eq!(page.action, "E");
        },
        _ => panic!("an invalid form must re-render, not redirect"),
    }
    let row = find_by_id(&table, id).unwrap();
    assert_eq!(row.name.as_deref(), Some("Dune"));
    assert_eq!(row.status.as_deref(), Some("0"));
}

#[test]
fn edit_shows_stored_values() {
    let mut table = MovieTable::new();
    insert(&mut table, form("Dune", "1", "Sci-fi epic"), 1000);
    let id = find_all(&table)[0].id.unwrap();
    let r = edit(&table, id.to_string());
    match r {
        PageResponse::EditForm(page) => {
            assert_eq!(page.action, "E");
            assert!(page.message.is_empty());
            assert_eq!(page.movie.id, id.to_string());
            assert_eq!(page.movie.name, "Dune");
            assert_eq!(page.movie.status, "1");
            assert_eq!(page.movie.description, "Sci-fi epic");
        },
        _ => panic!("a stored row must give the pre-filled form"),
    }
}

#[test]
fn edit_missing_or_malformed_id_not_found() {
    let table = MovieTable::new();
    assert!(matches!(edit(&table, "5".to_string()), PageResponse::NotFoundPage));
    assert!(matches!(edit(&table, "five".to_string()), PageResponse::NotFoundPage));
}

#[test]
fn insert_update_fetch_scenario() {
    let mut table = MovieTable::new();
    insert(&mut table, form("Old film", "99", "Was here first"), 500);
    let r = insert(&mut table, form("Dune", "0", "Sci-fi epic"), 1000);
    assert!(matches!(r, PageResponse::RedirectToList));

    let rows = find_all(&table);
    assert_eq!(rows.len(), 2);
    assert!(rows[0].id.unwrap() < rows[1].id.unwrap());
    assert_eq!(rows[1].name.as_deref(), Some("Dune"));
    let id = rows[1].id.unwrap();

    let r = update(&mut table, id.to_string(), form("Dune", "1", "Sci-fi epic"), 2000);
    assert!(matches!(r, PageResponse::RedirectToList));

    let row = find_by_id(&table, id).expect("the row must survive the update");
    assert_eq!(row.status.as_deref(), Some("1"));
    assert_eq!(row.created_at, Some(1000));
    assert_eq!(row.updated_at, Some(2000));
}

#[test]
fn ids_not_reused_after_delete() {
    let mut table = MovieTable::new();
    insert(&mut table, form("First", "0", "one"), 1);
    let id = find_all(&table)[0].id.unwrap();
    assert_eq!(delete(&mut table, id.to_string()), DeleteResponse::Deleted);
    insert(&mut table, form("Second", "0", "two"), 2);
    let id2 = find_all(&table)[0].id.unwrap();
    assert!(id2 > id);
}
