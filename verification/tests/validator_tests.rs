use movie_admin::movie_controller::validate_edit_model;
use movie_admin::movie_controller::EditModel;

fn form(name: &str, status: &str, description: &str) -> EditModel {
    EditModel {
        id: "".to_string(),
        name: name.to_string(),
        status: status.to_string(),
        description: description.to_string(),
    }
}

#[test]
fn empty_name_rejected() {
    let page = validate_edit_model(&form("", "0", "fine"), &"".to_string(), "A".to_string())
        .expect("an empty name must fail validation");
    assert_eq!(page.message, vec!["name is required".to_string()]);
    assert_eq!(page.action, "A");
}

#[test]
fn long_name_rejected() {
    let m = form("elevenchars", "0", "fine");
    assert_eq!(m.name.chars().count(), 11);
    let page = validate_edit_model(&m, &"".to_string(), "A".to_string())
        .expect("a name over ten characters must fail validation");
    assert_eq!(page.message, vec!["name must be at most 10 characters".to_string()]);
}

#[test]
fn name_boundaries_accepted() {
    assert!(validate_edit_model(&form("a", "0", "fine"), &"".to_string(), "A".to_string()).is_none());
    assert!(
        validate_edit_model(&form("abcdefghij", "0", "fine"), &"".to_string(), "A".to_string())
            .is_none()
    );
}

#[test]
fn empty_description_rejected() {
    let page = validate_edit_model(&form("ok", "0", ""), &"".to_string(), "A".to_string())
        .expect("an empty description must fail validation");
    assert_eq!(page.message, vec!["description is required".to_string()]);
}

#[test]
fn long_description_rejected() {
    let long = "d".repeat(101);
    let page = validate_edit_model(&form("ok", "0", &long), &"5".to_string(), "E".to_string())
        .expect("a description over a hundred characters must fail validation");
    assert_eq!(page.message, vec!["description must be at most 100 characters".to_string()]);
    assert_eq!(page.action, "E");
    assert_eq!(page.movie.id, "5");
}

#[test]
fn description_boundary_accepted() {
    let max = "d".repeat(100);
    assert!(validate_edit_model(&form("ok", "0", &max), &"".to_string(), "A".to_string()).is_none());
}

#[test]
fn messages_in_field_then_rule_order() {
    let page = validate_edit_model(&form("", "0", ""), &"".to_string(), "A".to_string())
        .expect("two violated rules must fail validation");
    assert_eq!(
        page.message,
        vec!["name is required".to_string(), "description is required".to_string()]
    );
}

#[test]
fn failing_form_redisplays_submitted_values() {
    let m = form("", "99", "keep this text");
    let page = validate_edit_model(&m, &"17".to_string(), "E".to_string())
        .expect("an empty name must fail validation");
    assert_eq!(page.movie.id, "17");
    assert_eq!(page.movie.name, "");
    assert_eq!(page.movie.status, "99");
    assert_eq!(page.movie.description, "keep this text");
}

#[test]
fn status_not_validated() {
    assert!(
        validate_edit_model(&form("ok", "no such code", "fine"), &"".to_string(), "A".to_string())
            .is_none()
    );
}
