use vstd::prelude::*;

verus! {

/// What an endpoint answers with.
#[derive(Debug)]
pub enum Page {
    /// The error page shown when no pasta matches or the request is refused.
    Error,
    /// The password form that guards a protected action on a pasta.
    AuthForm {
        id: String,
        status: String,
        encrypted_key: String,
        encrypt_client: bool,
        path: String,
    },
    /// The edit page for the pasta at `index` of the store.
    Edit { index: usize, path: String, status: String },
    /// The QR page for the pasta at `index`; the code encodes `qr_text`.
    Qr { index: usize, qr_text: String },
    /// A "302 Found" redirect to `location`.
    Redirect { location: String },
}

/// A page with its strings taken as character sequences.
pub enum PageView {
    Error,
    AuthForm {
        id: Seq<char>,
        status: Seq<char>,
        encrypted_key: Seq<char>,
        encrypt_client: bool,
        path: Seq<char>,
    },
    Edit { index: int, path: Seq<char>, status: Seq<char> },
    Qr { index: int, qr_text: Seq<char> },
    Redirect { location: Seq<char> },
}

impl View for Page {
    type V = PageView;

    open spec fn view(&self) -> PageView {
        match self {
            Page::Error => PageView::Error,
            Page::AuthForm { id, status, encrypted_key, encrypt_client, path } => PageView::AuthForm {
                id: id@,
                status: status@,
                encrypted_key: encrypted_key@,
                encrypt_client: *encrypt_client,
                path: path@,
            },
            Page::Edit { index, path, status } => PageView::Edit {
                index: *index as int,
                path: path@,
                status: status@,
            },
            Page::Qr { index, qr_text } => PageView::Qr { index: *index as int, qr_text: qr_text@ },
            Page::Redirect { location } => PageView::Redirect { location: location@ },
        }
    }
}

} // verus!
