use microbin::edit::{
    edit_private_decrypted, post_edit, post_edit_checked, post_edit_private,
    post_submit_edit_private, submit_private_checked, submit_private_encrypted, EditPrivateOutcome,
    EditPrivateStep, Guard, PostEditStep, SubmitPrivateChecked, SubmitPrivateStep,
};
use microbin::page::Page;
use microbin::pasta::Pasta;
use microbin::update::restore_content;

fn pasta(slug: &str) -> Pasta {
    Pasta {
        slug: slug.to_string(),
        content: String::from("old"),
        file: None,
        attachments: None,
        pasta_type: String::from("text"),
        private: false,
        readonly: false,
        editable: true,
        encrypt_server: false,
        encrypt_client: false,
        encrypted_key: None,
    }
}

fn contents(store: &[Pasta]) -> Vec<String> {
    store.iter().map(|p| p.content.clone()).collect()
}

#[test]
fn plain_edit_replaces_content() {
    let mut store = vec![pasta("a"), pasta("b")];
    match post_edit(&mut store, "b", "new text", "", "https://bin") {
        PostEditStep::Saved { index, location } => {
            assert_eq!(index, 1);
            assert_eq!(location, "https://bin/upload/b")
        },
        other => panic!("unexpected {:?}", other),
    }
    assert_eq!(contents(&store), vec!["old", "new text"]);
    let again = Pasta::find_index(&store, "b").unwrap();
    assert_eq!(again, 1);
    assert_eq!(store[again].content, "new text");
}

#[test]
fn edit_of_locked_pasta_is_error() {
    let mut p = pasta("a");
    p.editable = false;
    let mut q = pasta("b");
    q.encrypt_client = true;
    let mut store = vec![p, q];
    assert!(matches!(post_edit(&mut store, "a", "x", "pw", ""), PostEditStep::Show(Page::Error)));
    assert!(matches!(post_edit(&mut store, "b", "x", "pw", ""), PostEditStep::Show(Page::Error)));
    assert!(matches!(post_edit(&mut store, "c", "x", "pw", ""), PostEditStep::Show(Page::Error)));
    assert_eq!(contents(&store), vec!["old", "old"]);
}

#[test]
fn protected_edit_without_password_is_refused() {
    let mut p = pasta("a");
    p.readonly = true;
    p.encrypted_key = Some("K".into());
    let mut store = vec![p];
    match post_edit(&mut store, "a", "x", "", "https://bin") {
        PostEditStep::Refused { location } => assert_eq!(location, "https://bin/edit/a/incorrect"),
        other => panic!("unexpected {:?}", other),
    }
    assert_eq!(contents(&store), vec!["old"]);
}

#[test]
fn protected_edit_checks_key_first() {
    let mut p = pasta("a");
    p.encrypt_server = true;
    p.encrypted_key = Some("K".into());
    let mut store = vec![p];
    let index = match post_edit(&mut store, "a", "x", "pw", "https://bin") {
        PostEditStep::CheckKey { index, key, password } => {
            assert_eq!(key, "K");
            assert_eq!(password, "pw");
            index
        }
        other => panic!("unexpected {:?}", other),
    };
    assert_eq!(contents(&store), vec!["old"]);
    match post_edit_checked(&mut store, index, false, "x", "https://bin") {
        PostEditStep::Refused { location } => assert_eq!(location, "https://bin/edit/a/incorrect"),
        other => panic!("unexpected {:?}", other),
    }
    assert_eq!(contents(&store), vec!["old"]);
    match post_edit_checked(&mut store, index, true, "x", "https://bin") {
        PostEditStep::Saved { index: 0, location } => assert_eq!(location, "https://bin/upload/a"),
        other => panic!("unexpected {:?}", other),
    }
    assert_eq!(contents(&store), vec!["x"]);
}

#[test]
fn private_editor_opens_without_password() {
    let store = vec![pasta("a")];
    match post_edit_private(&store, "a", "") {
        EditPrivateStep::Show(Page::Edit { index, path, status }) => {
            assert_eq!((index, path.as_str(), status.as_str()), (0, "submit_edit_private", ""));
        }
        other => panic!("unexpected {:?}", other),
    }
    let mut p = pasta("b");
    p.encrypt_client = true;
    let store = vec![p];
    assert!(matches!(post_edit_private(&store, "b", "pw"), EditPrivateStep::Show(Page::Error)));
    assert!(matches!(post_edit_private(&store, "c", "pw"), EditPrivateStep::Show(Page::Error)));
}

#[test]
fn private_editor_shows_decrypted_text_for_a_while() {
    let mut store = vec![pasta("a"), pasta("b")];
    let index = match post_edit_private(&store, "b", "pw") {
        EditPrivateStep::Decrypt { index, ciphertext, password } => {
            assert_eq!(ciphertext, "old");
            assert_eq!(password, "pw");
            index
        }
        other => panic!("unexpected {:?}", other),
    };
    let original = match edit_private_decrypted(&mut store, index, Some("plain".into()), "") {
        EditPrivateOutcome::Opened { page: Page::Edit { index: 1, .. }, original } => original,
        other => panic!("unexpected {:?}", other),
    };
    assert_eq!(contents(&store), vec!["old", "plain"]);
    restore_content(&mut store, index, original);
    assert_eq!(contents(&store), vec!["old", "old"]);
}

#[test]
fn private_editor_refuses_wrong_password() {
    let mut store = vec![pasta("a")];
    match edit_private_decrypted(&mut store, 0, None, "https://bin") {
        EditPrivateOutcome::Refused { location } => {
            assert_eq!(location, "https://bin/auth_edit_private/a/incorrect")
        }
        other => panic!("unexpected {:?}", other),
    }
    assert_eq!(contents(&store), vec!["old"]);
}

#[test]
fn submit_private_checks_the_right_secret() {
    let mut ro = pasta("r");
    ro.readonly = true;
    ro.private = true;
    ro.encrypted_key = Some("KEY".into());
    let mut pv = pasta("p");
    pv.private = true;
    let store = vec![ro, pv, pasta("n")];
    match post_submit_edit_private(&store, "r", "secret", "https://bin") {
        SubmitPrivateStep::CheckPassword { index: 0, ciphertext, password, guard: Guard::ReadOnly } => {
            assert_eq!(ciphertext, "KEY");
            assert_eq!(password, "secret");
        }
        other => panic!("unexpected {:?}", other),
    }
    match post_submit_edit_private(&store, "p", "pw2", "https://bin") {
        SubmitPrivateStep::CheckPassword { index: 1, ciphertext, password, guard: Guard::Private } => {
            assert_eq!(ciphertext, "old");
            assert_eq!(password, "pw2");
        }
        other => panic!("unexpected {:?}", other),
    }
    match post_submit_edit_private(&store, "n", "pw", "https://bin") {
        SubmitPrivateStep::Redirect { location } => assert_eq!(location, "https://bin/auth/n/success"),
        other => panic!("unexpected {:?}", other),
    }
    assert!(matches!(post_submit_edit_private(&store, "q", "pw", ""), SubmitPrivateStep::Show(Page::Error)));
}

#[test]
fn submit_private_refusal_names_the_form() {
    let store = vec![pasta("a")];
    match submit_private_checked(&store, 0, Guard::ReadOnly, false, "text", "pw", "https://bin") {
        SubmitPrivateChecked::Refused { location } => assert_eq!(location, "https://bin/edit/a/incorrect"),
        other => panic!("unexpected {:?}", other),
    }
    match submit_private_checked(&store, 0, Guard::Private, false, "text", "pw", "https://bin") {
        SubmitPrivateChecked::Refused { location } => {
            assert_eq!(location, "https://bin/auth_edit_private/a/incorrect")
        }
        other => panic!("unexpected {:?}", other),
    }
    match submit_private_checked(&store, 0, Guard::Private, true, "text", "pw", "") {
        SubmitPrivateChecked::Encrypt { plaintext, password } => {
            assert_eq!(plaintext, "text");
            assert_eq!(password, "pw");
        }
        other => panic!("unexpected {:?}", other),
    }
}

#[test]
fn submit_private_stores_ciphertext_and_saves_private_only() {
    let mut store = vec![pasta("a")];
    let (save, location) = submit_private_encrypted(&mut store, 0, Guard::Private, "C1".into(), "https://bin");
    assert!(save);
    assert_eq!(location, "https://bin/auth/a/success");
    assert_eq!(contents(&store), vec!["C1"]);
    let (save, _) = submit_private_encrypted(&mut store, 0, Guard::ReadOnly, "C2".into(), "https://bin");
    assert!(!save);
    assert_eq!(contents(&store), vec!["C2"]);
}

#[test]
fn repeated_edit_changes_nothing_more() {
    let mut once = vec![pasta("a"), pasta("b")];
    let first = match post_edit(&mut once, "b", "new", "", "https://bin") {
        PostEditStep::Saved { index, location } => (index, location),
        other => panic!("unexpected {:?}", other),
    };
    let mut twice = once.clone();
    let second = match post_edit(&mut twice, "b", "new", "", "https://bin") {
        PostEditStep::Saved { index, location } => (index, location),
        other => panic!("unexpected {:?}", other),
    };
    assert_eq!(first, second);
    assert_eq!(contents(&once), contents(&twice));
}
