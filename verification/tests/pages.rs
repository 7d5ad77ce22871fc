use microbin::auth::{
    auth_edit_private, auth_edit_private_with_status, auth_file, auth_file_with_status,
    auth_raw_pasta, auth_raw_pasta_with_status, auth_remove_private,
    auth_remove_private_with_status, auth_upload, auth_upload_with_status, render_auth_pasta,
};
use microbin::edit::{get_edit, get_edit_with_status};
use microbin::page::Page;
use microbin::pasta::Pasta;
use microbin::qr::getqr;

fn pasta(slug: &str) -> Pasta {
    Pasta {
        slug: slug.to_string(),
        content: String::from("hello"),
        file: None,
        attachments: None,
        pasta_type: String::from("text"),
        private: false,
        readonly: false,
        editable: true,
        encrypt_server: false,
        encrypt_client: false,
        encrypted_key: None,
    }
}

fn auth_form(page: Page) -> (String, String, String, bool, String) {
    match page {
        Page::AuthForm { id, status, encrypted_key, encrypt_client, path } => {
            (id, status, encrypted_key, encrypt_client, path)
        }
        other => panic!("expected the password form, got {:?}", other),
    }
}

fn redirect(page: Page) -> String {
    match page {
        Page::Redirect { location } => location,
        other => panic!("expected a redirect, got {:?}", other),
    }
}

#[test]
fn find_index_takes_the_first_match() {
    let store = vec![pasta("a"), pasta("b"), pasta("b")];
    assert_eq!(Pasta::find_index(&store, "b"), Some(1));
    assert_eq!(Pasta::find_index(&store, "a"), Some(0));
    assert_eq!(Pasta::find_index(&store, "c"), None);
    assert_eq!(Pasta::find_index(&Vec::new(), "a"), None);
}

#[test]
fn auth_form_carries_key_and_flags() {
    let mut p = pasta("cat-dog");
    p.encrypted_key = Some(String::from("KEY"));
    p.encrypt_client = true;
    let store = vec![pasta("x"), p];
    let (id, status, key, client, path) =
        auth_form(render_auth_pasta(&store, "cat-dog".into(), "incorrect".into(), "upload"));
    assert_eq!(id, "cat-dog");
    assert_eq!(status, "incorrect");
    assert_eq!(key, "KEY");
    assert!(client);
    assert_eq!(path, "upload");
}

#[test]
fn auth_form_without_key_is_empty() {
    let store = vec![pasta("x")];
    let (_, status, key, client, _) = auth_form(auth_upload(&store, "x".into()));
    assert_eq!(status, "");
    assert_eq!(key, "");
    assert!(!client);
}

#[test]
fn auth_form_for_unknown_pasta_is_error() {
    let store = vec![pasta("x")];
    assert!(matches!(auth_upload(&store, "y".into()), Page::Error));
    assert!(matches!(auth_file_with_status(&store, "y".into(), "s".into()), Page::Error));
}

#[test]
fn auth_forms_post_to_their_actions() {
    let store = vec![pasta("x")];
    let id = || String::from("x");
    let st = || String::from("success");
    assert_eq!(auth_form(auth_upload(&store, id())).4, "upload");
    assert_eq!(auth_form(auth_upload_with_status(&store, id(), st())).4, "upload");
    assert_eq!(auth_form(auth_raw_pasta(&store, id())).4, "raw");
    assert_eq!(auth_form(auth_raw_pasta_with_status(&store, id(), st())).4, "raw");
    assert_eq!(auth_form(auth_edit_private(&store, id())).4, "edit_private");
    assert_eq!(auth_form(auth_edit_private_with_status(&store, id(), st())).4, "edit_private");
    assert_eq!(auth_form(auth_file(&store, id())).4, "secure_file");
    assert_eq!(auth_form(auth_file_with_status(&store, id(), st())).4, "secure_file");
    assert_eq!(auth_form(auth_remove_private(&store, id())).4, "remove");
    assert_eq!(auth_form(auth_remove_private_with_status(&store, id(), st())).4, "remove");
    assert_eq!(auth_form(auth_remove_private_with_status(&store, id(), st())).1, "success");
}

#[test]
fn get_edit_of_locked_pasta_goes_home() {
    let mut p = pasta("x");
    p.editable = false;
    p.encrypt_server = true;
    let store = vec![p];
    assert_eq!(redirect(get_edit(&store, "x", "https://bin")), "https://bin/");
}

#[test]
fn get_edit_of_server_encrypted_pasta_asks_password() {
    let mut p = pasta("x");
    p.encrypt_server = true;
    let store = vec![p];
    assert_eq!(redirect(get_edit(&store, "x", "https://bin")), "https://bin/auth_edit_private/x");
}

#[test]
fn get_edit_shows_editor() {
    let store = vec![pasta("a"), pasta("x")];
    match get_edit_with_status(&store, "x", "incorrect".into(), "") {
        Page::Edit { index, path, status } => {
            assert_eq!(index, 1);
            assert_eq!(path, "edit");
            assert_eq!(status, "incorrect");
        }
        other => panic!("unexpected {:?}", other),
    }
    match get_edit(&store, "a", "") {
        Page::Edit { index, status, .. } => {
            assert_eq!(index, 0);
            assert_eq!(status, "");
        }
        other => panic!("unexpected {:?}", other),
    }
    assert!(matches!(get_edit(&store, "zzz", ""), Page::Error));
}

fn qr_text(page: Page) -> (usize, String) {
    match page {
        Page::Qr { index, qr_text } => (index, qr_text),
        other => panic!("expected a QR page, got {:?}", other),
    }
}

#[test]
fn qr_of_url_pasta_leads_to_redirect() {
    let mut p = pasta("x");
    p.pasta_type = String::from("url");
    let store = vec![pasta("a"), p];
    assert_eq!(qr_text(getqr(&store, "x", "https://bin", None)), (1, "https://bin/url/x".to_string()));
    assert_eq!(qr_text(getqr(&store, "x", "https://bin", Some("https://s.io"))).1, "https://s.io/u/x");
}

#[test]
fn qr_of_text_pasta_leads_to_upload() {
    let store = vec![pasta("x")];
    assert_eq!(qr_text(getqr(&store, "x", "https://bin", None)).1, "https://bin/upload/x");
    assert_eq!(qr_text(getqr(&store, "x", "https://bin", Some("https://s.io"))).1, "https://s.io/p/x");
    assert!(matches!(getqr(&store, "y", "https://bin", None), Page::Error));
}
