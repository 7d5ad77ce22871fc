use vstd::prelude::*;
use vstd::string::StringExecFns;

use crate::page::{Page, PageView};
use crate::pasta::{lookup, Pasta};

verus! {

/// The stored key of a pasta, or the empty string when it has none.
pub open spec fn key_or_empty(key: Option<String>) -> Seq<char> {
    match key {
        Some(k) => k@,
        None => Seq::empty(),
    }
}

/// The password form for the pasta addressed by `id`, sending the password
/// on to the action `path`; the error page when no pasta is addressed by `id`.
pub open spec fn auth_page(ps: Seq<Pasta>, id: Seq<char>, status: Seq<char>, path: Seq<char>) -> PageView {
    match lookup(ps, id) {
        Some(i) => PageView::AuthForm {
            id: id,
            status: status,
            encrypted_key: key_or_empty(ps[i].encrypted_key),
            encrypt_client: ps[i].encrypt_client,
            path: path,
        },
        None => PageView::Error,
    }
}

/// Builds the password form for the pasta addressed by `id`.
pub fn render_auth_pasta(pastas: &Vec<Pasta>, id: String, status: String, path: &str) -> (page: Page)
    ensures
        page@ == auth_page(pastas@, id@, status@, path@),
{
    match Pasta::find_index(pastas, id.as_str()) {
        Some(index) => {
            let pasta = &pastas[index];
            let encrypted_key = match &pasta.encrypted_key {
                Some(k) => k.clone(),
                None => String::new(),
            };
            Page::AuthForm {
                id,
                status,
                encrypted_key,
                encrypt_client: pasta.encrypt_client,
                path: String::from_str(path),
            }
        },
        None => Page::Error,
    }
}

/// The form that unlocks an upload view of a pasta.
pub fn auth_upload(pastas: &Vec<Pasta>, id: String) -> (page: Page)
    ensures
        page@ == auth_page(pastas@, id@, Seq::empty(), "upload"@),
{
    render_auth_pasta(pastas, id, String::new(), "upload")
}

/// The form that unlocks an upload view of a pasta, with a status.
pub fn auth_upload_with_status(pastas: &Vec<Pasta>, id: String, status: String) -> (page: Page)
    ensures
        page@ == auth_page(pastas@, id@, status@, "upload"@),
{
    render_auth_pasta(pastas, id, status, "upload")
}

/// The form that unlocks the raw view of a pasta.
pub fn auth_raw_pasta(pastas: &Vec<Pasta>, id: String) -> (page: Page)
    ensures
        page@ == auth_page(pastas@, id@, Seq::empty(), "raw"@),
{
    render_auth_pasta(pastas, id, String::new(), "raw")
}

/// The form that unlocks the raw view of a pasta, with a status.
pub fn auth_raw_pasta_with_status(pastas: &Vec<Pasta>, id: String, status: String) -> (page: Page)
    ensures
        page@ == auth_page(pastas@, id@, status@, "raw"@),
{
    render_auth_pasta(pastas, id, status, "raw")
}

/// The form that unlocks editing a private pasta.
pub fn auth_edit_private(pastas: &Vec<Pasta>, id: String) -> (page: Page)
    ensures
        page@ == auth_page(pastas@, id@, Seq::empty(), "edit_private"@),
{
    render_auth_pasta(pastas, id, String::new(), "edit_private")
}

/// The form that unlocks editing a private pasta, with a status.
pub fn auth_edit_private_with_status(pastas: &Vec<Pasta>, id: String, status: String) -> (page: Page)
    ensures
        page@ == auth_page(pastas@, id@, status@, "edit_private"@),
{
    render_auth_pasta(pastas, id, status, "edit_private")
}

/// The form that unlocks downloading a protected file.
pub fn auth_file(pastas: &Vec<Pasta>, id: String) -> (page: Page)
    ensures
        page@ == auth_page(pastas@, id@, Seq::empty(), "secure_file"@),
{
    render_auth_pasta(pastas, id, String::new(), "secure_file")
}

/// The form that unlocks downloading a protected file, with a status.
pub fn auth_file_with_status(pastas: &Vec<Pasta>, id: String, status: String) -> (page: Page)
    ensures
        page@ == auth_page(pastas@, id@, status@, "secure_file"@),
{
    render_auth_pasta(pastas, id, status, "secure_file")
}

/// The form that unlocks removing a private pasta.
pub fn auth_remove_private(pastas: &Vec<Pasta>, id: String) -> (page: Page)
    ensures
        page@ == auth_page(pastas@, id@, Seq::empty(), "remove"@),
{
    render_auth_pasta(pastas, id, String::new(), "remove")
}

/// The form that unlocks removing a private pasta, with a status.
pub fn auth_remove_private_with_status(pastas: &Vec<Pasta>, id: String, status: String) -> (page: Page)
    ensures
        page@ == auth_page(pastas@, id@, status@, "remove"@),
{
    render_auth_pasta(pastas, id, status, "remove")
}

} // verus!

verus! {

/// The password form of a pasta shows the requested id, status and action,
/// the pasta's own client-side-encryption flag, and its stored key (empty when
/// it has none); a slug that addresses no pasta gets the error page.
pub proof fn lemma_auth_form_shows_pasta(ps: Seq<Pasta>, id: Seq<char>, status: Seq<char>, path: Seq<char>)
    ensures
        match lookup(ps, id) {
            Some(i) => auth_page(ps, id, status, path) == (PageView::AuthForm {
                id: id,
                status: status,
                encrypted_key: match ps[i].encrypted_key {
                    Some(k) => k@,
                    None => Seq::empty(),
                },
                encrypt_client: ps[i].encrypt_client,
                path: path,
            }),
            None => auth_page(ps, id, status, path) == PageView::Error,
        },
{
}

} // verus!
