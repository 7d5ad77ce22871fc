use microbin::form::{add_private_password_field, private_password, EditForm, FormError};

#[test]
fn content_field_joins_chunks() {
    let form = EditForm::new();
    let chunks = vec![b"hel".to_vec(), b"lo \xc3".to_vec(), b"\xa9".to_vec()];
    let form = form.add_field(Some("content"), &chunks).unwrap();
    assert_eq!(form.content, "hello é");
    assert_eq!(form.password, "");
}

#[test]
fn empty_content_field_keeps_content() {
    let mut form = EditForm::new();
    form.content = String::from("before");
    let form = form.add_field(Some("content"), &vec![]).unwrap();
    assert_eq!(form.content, "before");
    let form = form.add_field(Some("content"), &vec![Vec::new()]).unwrap();
    assert_eq!(form.content, "before");
}

#[test]
fn invalid_content_is_refused() {
    let form = EditForm::new();
    let res = form.add_field(Some("content"), &vec![vec![0xff, 0xfe]]);
    assert_eq!(res.unwrap_err(), FormError::InvalidUtf8Content);
}

#[test]
fn password_field_keeps_last_chunk() {
    let form = EditForm::new();
    let form = form.add_field(Some("password"), &vec![b"first".to_vec(), b"second".to_vec()]).unwrap();
    assert_eq!(form.password, "second");
    let form = form.add_field(Some("password"), &vec![]).unwrap();
    assert_eq!(form.password, "second");
}

#[test]
fn other_fields_are_ignored() {
    let form = EditForm::new();
    let form = form.add_field(Some("title"), &vec![vec![0xff]]).unwrap();
    let form = form.add_field(None, &vec![b"x".to_vec()]).unwrap();
    assert_eq!(form.content, "");
    assert_eq!(form.password, "");
}

#[test]
fn private_password_appends_every_chunk() {
    let pw = add_private_password_field(String::new(), Some("password"), &vec![b"ab".to_vec(), b"cd".to_vec()]);
    assert_eq!(pw, "abcd");
    let pw = add_private_password_field(pw, Some("password"), &vec![b"e".to_vec()]);
    assert_eq!(pw, "abcde");
    let pw = add_private_password_field(pw, Some("content"), &vec![b"zz".to_vec()]);
    assert_eq!(pw, "abcde");
}

fn field(name: Option<&str>, chunks: &[&[u8]]) -> (Option<String>, Vec<Vec<u8>>) {
    (name.map(|n| n.to_string()), chunks.iter().map(|c| c.to_vec()).collect())
}

#[test]
fn whole_form_keeps_last_values() {
    let fields = vec![
        field(Some("content"), &[b"first"]),
        field(Some("password"), &[b"p1", b"p2"]),
        field(Some("content"), &[]),
        field(Some("title"), &[b"\xff"]),
        field(Some("content"), &[b"sec", b"ond"]),
        field(Some("password"), &[]),
    ];
    let form = EditForm::from_fields(&fields).unwrap();
    assert_eq!(form.content, "second");
    assert_eq!(form.password, "p2");
}

#[test]
fn whole_form_stops_at_bad_content() {
    let fields = vec![
        field(Some("content"), &[b"ok"]),
        field(Some("content"), &[b"\xff"]),
        field(Some("password"), &[b"\xfe"]),
    ];
    assert_eq!(EditForm::from_fields(&fields).unwrap_err(), FormError::InvalidUtf8Content);
}

#[test]
fn empty_form_is_empty() {
    let form = EditForm::from_fields(&vec![]).unwrap();
    assert_eq!((form.content.as_str(), form.password.as_str()), ("", ""));
}

#[test]
fn private_form_password_joins_password_fields() {
    let fields = vec![
        field(Some("password"), &[b"ab"]),
        field(Some("content"), &[b"zz"]),
        field(Some("password"), &[b"c", b"d"]),
    ];
    assert_eq!(private_password(&fields), "abcd");
    assert_eq!(private_password(&vec![]), "");
}
