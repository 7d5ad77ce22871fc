use vstd::prelude::*;

use crate::page::{Page, PageView};
use crate::pasta::{lookup, Pasta};
use crate::text::{concat3, opt_view, str_eq};

verus! {

/// The address that the QR code of a pasta leads to: a URL pasta leads to
/// its redirect, any other pasta to its upload page; the short path, when
/// one is configured, takes the place of the public path.
pub open spec fn qr_target(
    is_url: bool,
    slug: Seq<char>,
    public_path: Seq<char>,
    short_path: Option<Seq<char>>,
) -> Seq<char> {
    if is_url {
        match short_path {
            Some(short) => short + "/u/"@ + slug,
            None => public_path + "/url/"@ + slug,
        }
    } else {
        match short_path {
            Some(short) => short + "/p/"@ + slug,
            None => public_path + "/upload/"@ + slug,
        }
    }
}

/// The QR page for the pasta addressed by `slug`, or the error page.
pub open spec fn qr_page(
    ps: Seq<Pasta>,
    slug: Seq<char>,
    public_path: Seq<char>,
    short_path: Option<Seq<char>>,
) -> PageView {
    match lookup(ps, slug) {
        Some(i) => PageView::Qr {
            index: i,
            qr_text: qr_target(ps[i].pasta_type@ == "url"@, slug, public_path, short_path),
        },
        None => PageView::Error,
    }
}

/// Decides the QR page of the pasta addressed by `slug`.
pub fn getqr(pastas: &Vec<Pasta>, slug: &str, public_path: &str, short_path: Option<&str>) -> (page:
    Page)
    ensures
        page@ == qr_page(pastas@, slug@, public_path@, opt_view(short_path)),
{
    match Pasta::find_index(pastas, slug) {
        Some(index) => {
            let is_url = str_eq(pastas[index].pasta_type.as_str(), "url");
            let qr_text = if is_url {
                match short_path {
                    Some(short) => concat3(short, "/u/", slug),
                    None => concat3(public_path, "/url/", slug),
                }
            } else {
                match short_path {
                    Some(short) => concat3(short, "/p/", slug),
                    None => concat3(public_path, "/upload/", slug),
                }
            };
            Page::Qr { index, qr_text }
        },
        None => Page::Error,
    }
}

} // verus!

verus! {

/// The QR code of a pasta leads to its redirect (`/url/`, or `/u/` on the
/// short path) exactly when the pasta's type is "url"; a pasta of any other
/// type, a file or text alike, leads to its upload page (`/upload/`, or `/p/`
/// on the short path). The address always ends with the requested slug.
pub proof fn lemma_qr_leads_by_type(
    ps: Seq<Pasta>,
    slug: Seq<char>,
    public_path: Seq<char>,
    short_path: Option<Seq<char>>,
    i: int,
)
    requires
        lookup(ps, slug) == Some(i),
    ensures
        qr_page(ps, slug, public_path, short_path) == (PageView::Qr {
            index: i,
            qr_text: match (ps[i].pasta_type@ == "url"@, short_path) {
                (true, Some(short)) => short + "/u/"@ + slug,
                (true, None) => public_path + "/url/"@ + slug,
                (false, Some(short)) => short + "/p/"@ + slug,
                (false, None) => public_path + "/upload/"@ + slug,
            },
        }),
{
}

/// A slug that addresses no pasta gets the error page instead of a QR code.
pub proof fn lemma_qr_unknown(ps: Seq<Pasta>, slug: Seq<char>, public_path: Seq<char>, short_path: Option<Seq<char>>)
    requires
        lookup(ps, slug) is None,
    ensures
        qr_page(ps, slug, public_path, short_path) == PageView::Error,
{
}

} // verus!
