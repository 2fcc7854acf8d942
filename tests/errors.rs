use zero2prod::errors::error_chain_fmt;
use zero2prod::utils::{see_login, see_other};

#[test]
fn an_error_without_causes_ends_with_a_blank_line() {
    assert_eq!(error_chain_fmt("boom", &vec![]), "boom\n\n");
}

#[test]
fn causes_are_listed_outermost_first() {
    let causes = vec!["db down".to_string(), "socket closed".to_string()];
    assert_eq!(
        error_chain_fmt("A database error was encountered.", &causes),
        "A database error was encountered.\n\nCaused by:\n\tdb down\nCaused by:\n\tsocket closed\n"
    );
}

#[test]
fn see_login_redirects_to_the_login_page() {
    let r = see_login();
    assert_eq!(r.status, 303);
    assert_eq!(r.headers.len(), 1);
    assert_eq!(r.headers[0].name, "location");
    assert_eq!(r.headers[0].value, b"/login".to_vec());
}

#[test]
fn see_other_redirects_to_the_location() {
    let r = see_other("/admin/password");
    assert_eq!(r.status, 303);
    assert_eq!(r.headers[0].value, b"/admin/password".to_vec());
    assert!(r.body.is_empty());
}
