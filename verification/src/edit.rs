use vstd::prelude::*;
use vstd::string::StringExecFns;

use crate::page::{Page, PageView};
use crate::pasta::{lookup, Pasta};
use crate::text::{concat2, concat3, concat4};
use crate::update::{content_replaced, lemma_edit_then_lookup, swap_content, with_content};

verus! {

/// The page answering a request to edit the pasta addressed by `slug`:
/// a pasta that cannot be edited sends the visitor to the front page, a
/// server-encrypted one to its password form, any other gets its edit page.
pub open spec fn edit_page(ps: Seq<Pasta>, slug: Seq<char>, public_path: Seq<char>, status: Seq<char>) -> PageView {
    match lookup(ps, slug) {
        Some(i) => if !ps[i].editable {
            PageView::Redirect { location: public_path + "/"@ }
        } else if ps[i].encrypt_server {
            PageView::Redirect { location: public_path + "/auth_edit_private/"@ + ps[i].slug@ }
        } else {
            PageView::Edit { index: i, path: "edit"@, status: status }
        },
        None => PageView::Error,
    }
}

/// Decides the answer to a request for the edit page with a status message.
pub fn get_edit_with_status(pastas: &Vec<Pasta>, slug: &str, status: String, public_path: &str) -> (page: Page)
    ensures
        page@ == edit_page(pastas@, slug@, public_path@, status@),
{
    match Pasta::find_index(pastas, slug) {
        Some(i) => {
            let pasta = &pastas[i];
            if !pasta.editable {
                Page::Redirect { location: concat2(public_path, "/") }
            } else if pasta.encrypt_server {
                Page::Redirect {
                    location: concat3(public_path, "/auth_edit_private/", pasta.slug.as_str()),
                }
            } else {
                Page::Edit { index: i, path: String::from_str("edit"), status }
            }
        },
        None => Page::Error,
    }
}

/// Decides the answer to a request for the edit page.
pub fn get_edit(pastas: &Vec<Pasta>, slug: &str, public_path: &str) -> (page: Page)
    ensures
        page@ == edit_page(pastas@, slug@, public_path@, Seq::empty()),
{
    get_edit_with_status(pastas, slug, String::new(), public_path)
}

} // verus!

verus! {

/// What to do next for a request to open a private pasta in the editor.
#[derive(Debug)]
pub enum EditPrivateStep {
    /// Answer with the page; nothing was changed.
    Show(Page),
    /// Decrypt `ciphertext` with `password` and hand the outcome to
    /// `edit_private_decrypted`.
    Decrypt { index: usize, ciphertext: String, password: String },
}

/// How a decryption attempt on a private pasta ended.
#[derive(Debug)]
pub enum EditPrivateOutcome {
    /// The password was wrong: redirect to `location`; nothing was changed.
    Refused { location: String },
    /// The content now holds the decrypted text: save the store, show `page`,
    /// then put `original` back with `restore_content`.
    Opened { page: Page, original: String },
}

/// The store `ps` has a pasta addressed by `slug` that may be edited on the
/// server side, and it is at `i`.
pub open spec fn found_for_server_edit(ps: Seq<Pasta>, slug: Seq<char>, i: int) -> bool {
    lookup(ps, slug) == Some(i) && !ps[i].encrypt_client
}

/// Decides how to open the pasta addressed by `slug` for editing after its
/// password form: a non-empty password must first decrypt the content;
/// without one the editor opens on the stored content.
pub fn post_edit_private(pastas: &Vec<Pasta>, slug: &str, password: &str) -> (step: EditPrivateStep)
    ensures
        match lookup(pastas@, slug@) {
            Some(i) if !pastas@[i].encrypt_client => if password@.len() > 0 {
                step matches EditPrivateStep::Decrypt { index, ciphertext, password: pw }
                    && index == i && ciphertext@ == pastas@[i].content@ && pw@ == password@
            } else {
                step matches EditPrivateStep::Show(page) && page@ == (PageView::Edit {
                    index: i,
                    path: "submit_edit_private"@,
                    status: Seq::empty(),
                })
            },
            _ => step matches EditPrivateStep::Show(page) && page@ == PageView::Error,
        },
{
    match Pasta::find_index(pastas, slug) {
        Some(index) => {
            if !pastas[index].encrypt_client {
                if !password.is_empty() {
                    EditPrivateStep::Decrypt {
                        index,
                        ciphertext: pastas[index].content.clone(),
                        password: String::from_str(password),
                    }
                } else {
                    EditPrivateStep::Show(
                        Page::Edit {
                            index,
                            path: String::from_str("submit_edit_private"),
                            status: String::new(),
                        },
                    )
                }
            } else {
                EditPrivateStep::Show(Page::Error)
            }
        },
        None => EditPrivateStep::Show(Page::Error),
    }
}

/// Continues `post_edit_private` once the content has been decrypted
/// (`Some` with the plain text) or the password was found wrong (`None`).
pub fn edit_private_decrypted(
    pastas: &mut Vec<Pasta>,
    index: usize,
    decrypted: Option<String>,
    public_path: &str,
) -> (outcome: EditPrivateOutcome)
    requires
        index < old(pastas)@.len(),
    ensures
        match decrypted {
            Some(plain) => {
                &&& final(pastas)@ == with_content(old(pastas)@, index as int, plain)
                &&& outcome matches EditPrivateOutcome::Opened { page, original }
                &&& original == old(pastas)@[index as int].content
                &&& page@ == (PageView::Edit {
                    index: index as int,
                    path: "submit_edit_private"@,
                    status: Seq::empty(),
                })
            },
            None => {
                &&& final(pastas)@ == old(pastas)@
                &&& outcome matches EditPrivateOutcome::Refused { location }
                &&& location@ == public_path@ + "/auth_edit_private/"@
                    + old(pastas)@[index as int].slug@ + "/incorrect"@
            },
        },
{
    match decrypted {
        Some(plain) => {
            let original = swap_content(pastas, index, plain);
            EditPrivateOutcome::Opened {
                page: Page::Edit {
                    index,
                    path: String::from_str("submit_edit_private"),
                    status: String::new(),
                },
                original,
            }
        },
        None => EditPrivateOutcome::Refused {
            location: concat4(
                public_path,
                "/auth_edit_private/",
                pastas[index].slug.as_str(),
                "/incorrect",
            ),
        },
    }
}

/// Opening a private pasta for editing leaves the store as it was once the
/// page is shown: the decrypted text only stands in its place meanwhile.
pub proof fn lemma_private_edit_is_temporary(ps: Seq<Pasta>, i: int, plain: String)
    requires
        0 <= i < ps.len(),
    ensures
        with_content(with_content(ps, i, plain), i, ps[i].content) == ps,
{
    assert(with_content(with_content(ps, i, plain), i, ps[i].content) =~= ps);
}

} // verus!

verus! {

/// Which stored secret a submitted private edit is checked against.
#[derive(PartialEq, Eq, Structural, Clone, Copy, Debug)]
pub enum Guard {
    /// The password must open the pasta's encrypted key.
    ReadOnly,
    /// The password must decrypt the pasta's content.
    Private,
}

/// What to do next for a submitted edit of a protected pasta.
#[derive(Debug)]
pub enum SubmitPrivateStep {
    /// Answer with the page; nothing was changed.
    Show(Page),
    /// Redirect to `location`; nothing was changed.
    Redirect { location: String },
    /// Try to decrypt `ciphertext` with `password` and hand the outcome to
    /// `submit_private_checked`.
    CheckPassword { index: usize, ciphertext: String, password: String, guard: Guard },
}

/// What to do once the password of a submitted private edit was checked.
#[derive(Debug)]
pub enum SubmitPrivateChecked {
    /// Encrypt `plaintext` with `password` and hand the result to
    /// `submit_private_encrypted`.
    Encrypt { plaintext: String, password: String },
    /// The password was wrong: redirect to `location`; nothing was changed.
    Refused { location: String },
}

/// The pasta at `i` accepts edits made on the server.
pub open spec fn editable_on_server(p: Pasta) -> bool {
    p.editable && !p.encrypt_client
}

/// The requirement that the stored state does not make the submit handler
/// fail: a read-only pasta that is edited has an encrypted key.
pub open spec fn submit_private_ready(ps: Seq<Pasta>, slug: Seq<char>) -> bool {
    match lookup(ps, slug) {
        Some(i) => editable_on_server(ps[i]) && ps[i].readonly ==> ps[i].encrypted_key is Some,
        None => true,
    }
}

/// The address a successful private edit leads to.
pub open spec fn success_location(public_path: Seq<char>, slug: Seq<char>) -> Seq<char> {
    public_path + "/auth/"@ + slug + "/success"@
}

/// The address a wrong password of a private edit leads to.
pub open spec fn refused_location(public_path: Seq<char>, guard: Guard, slug: Seq<char>) -> Seq<char> {
    match guard {
        Guard::ReadOnly => public_path + "/edit/"@ + slug + "/incorrect"@,
        Guard::Private => public_path + "/auth_edit_private/"@ + slug + "/incorrect"@,
    }
}

/// Decides how to take in an edit submitted for the protected pasta
/// addressed by `slug`: a read-only pasta checks the password against its
/// key, a private one against its content, and any other editable pasta is
/// left unchanged and reported a success.
pub fn post_submit_edit_private(pastas: &Vec<Pasta>, slug: &str, password: &str, public_path: &str) -> (step:
    SubmitPrivateStep)
    requires
        submit_private_ready(pastas@, slug@),
    ensures
        match lookup(pastas@, slug@) {
            Some(i) if editable_on_server(pastas@[i]) => if pastas@[i].readonly {
                &&& step matches SubmitPrivateStep::CheckPassword { index, ciphertext, password: pw, guard }
                &&& index == i && guard == Guard::ReadOnly && pw@ == password@
                &&& pastas@[i].encrypted_key == Some(ciphertext)
            } else if pastas@[i].private {
                &&& step matches SubmitPrivateStep::CheckPassword { index, ciphertext, password: pw, guard }
                &&& index == i && guard == Guard::Private && pw@ == password@
                &&& ciphertext == pastas@[i].content
            } else {
                &&& step matches SubmitPrivateStep::Redirect { location }
                &&& location@ == success_location(public_path@, pastas@[i].slug@)
            },
            _ => step matches SubmitPrivateStep::Show(page) && page@ == PageView::Error,
        },
{
    match Pasta::find_index(pastas, slug) {
        Some(index) => {
            let pasta = &pastas[index];
            if pasta.editable && !pasta.encrypt_client {
                if pasta.readonly {
                    let key = match &pasta.encrypted_key {
                        Some(k) => k.clone(),
                        None => {
                            assert(false);
                            String::new()
                        },
                    };
                    SubmitPrivateStep::CheckPassword {
                        index,
                        ciphertext: key,
                        password: String::from_str(password),
                        guard: Guard::ReadOnly,
                    }
                } else if pasta.private {
                    SubmitPrivateStep::CheckPassword {
                        index,
                        ciphertext: pasta.content.clone(),
                        password: String::from_str(password),
                        guard: Guard::Private,
                    }
                } else {
                    SubmitPrivateStep::Redirect {
                        location: concat4(public_path, "/auth/", pasta.slug.as_str(), "/success"),
                    }
                }
            } else {
                SubmitPrivateStep::Show(Page::Error)
            }
        },
        None => SubmitPrivateStep::Show(Page::Error),
    }
}

/// Continues `post_submit_edit_private` once the password was checked.
pub fn submit_private_checked(
    pastas: &Vec<Pasta>,
    index: usize,
    guard: Guard,
    password_ok: bool,
    new_content: &str,
    password: &str,
    public_path: &str,
) -> (next: SubmitPrivateChecked)
    requires
        index < pastas@.len(),
    ensures
        password_ok ==> (next matches SubmitPrivateChecked::Encrypt { plaintext, password: pw }
            && plaintext@ == new_content@ && pw@ == password@),
        !password_ok ==> (next matches SubmitPrivateChecked::Refused { location }
            && location@ == refused_location(public_path@, guard, pastas@[index as int].slug@)),
{
    if password_ok {
        SubmitPrivateChecked::Encrypt {
            plaintext: String::from_str(new_content),
            password: String::from_str(password),
        }
    } else {
        let slug = pastas[index].slug.as_str();
        let location = match guard {
            Guard::ReadOnly => concat4(public_path, "/edit/", slug, "/incorrect"),
            Guard::Private => concat4(public_path, "/auth_edit_private/", slug, "/incorrect"),
        };
        SubmitPrivateChecked::Refused { location }
    }
}

/// Ends `post_submit_edit_private`: the pasta at `index` takes the encrypted
/// new content. Returns whether the store must be saved (only a private pasta
/// is saved) and where to redirect.
pub fn submit_private_encrypted(pastas: &mut Vec<Pasta>, index: usize, guard: Guard, ciphertext: String, public_path: &str) -> (res: (bool, String))
    requires
        index < old(pastas)@.len(),
    ensures
        final(pastas)@ == with_content(old(pastas)@, index as int, ciphertext),
        res.0 == (guard == Guard::Private),
        res.1@ == success_location(public_path@, old(pastas)@[index as int].slug@),
{
    let location = concat4(public_path, "/auth/", pastas[index].slug.as_str(), "/success");
    let _ = swap_content(pastas, index, ciphertext);
    (guard == Guard::Private, location)
}

} // verus!

verus! {

/// What to do next for a submitted edit of a pasta.
#[derive(Debug)]
pub enum PostEditStep {
    /// Answer with the page; nothing was changed.
    Show(Page),
    /// The password is missing or wrong: redirect to `location`; nothing was
    /// changed.
    Refused { location: String },
    /// Check whether `password` opens `key` and hand the outcome to
    /// `post_edit_checked`; nothing was changed yet.
    CheckKey { index: usize, key: String, password: String },
    /// The content of the pasta at `index` was replaced: save the store and
    /// redirect to `location`.
    Saved { index: usize, location: String },
}

/// The pasta is protected by a password for edits.
pub open spec fn edit_needs_password(p: Pasta) -> bool {
    p.readonly || p.encrypt_server
}

/// The requirement that the stored state does not make the edit handler
/// fail: a protected pasta that is edited with a password has a key.
pub open spec fn post_edit_ready(ps: Seq<Pasta>, slug: Seq<char>, password: Seq<char>) -> bool {
    match lookup(ps, slug) {
        Some(i) => editable_on_server(ps[i]) && edit_needs_password(ps[i]) && password.len() > 0
            ==> ps[i].encrypted_key is Some,
        None => true,
    }
}

/// The address an accepted edit leads to.
pub open spec fn upload_location(public_path: Seq<char>, slug: Seq<char>) -> Seq<char> {
    public_path + "/upload/"@ + slug
}

/// The address a refused edit leads to.
pub open spec fn edit_refused_location(public_path: Seq<char>, slug: Seq<char>) -> Seq<char> {
    public_path + "/edit/"@ + slug + "/incorrect"@
}

/// The answer to an edit submission, its strings taken as character sequences.
pub enum EditAnswer {
    Error,
    Refused { location: Seq<char> },
    Saved { index: int, location: Seq<char> },
}

/// The answer that a step of an edit submission gives.
pub open spec fn edit_answer(step: PostEditStep) -> EditAnswer {
    match step {
        PostEditStep::Refused { location } => EditAnswer::Refused { location: location@ },
        PostEditStep::Saved { index, location } => EditAnswer::Saved { index: index as int, location: location@ },
        _ => EditAnswer::Error,
    }
}

/// A whole edit submission, once its password check (if any) is done: on the
/// store `old`, submitting `content` with `password` for the pasta addressed by
/// `slug`, where `key_opens` tells whether the password opens the pasta's key,
/// leaves the store `new` and gives `answer`.
pub open spec fn edit_flow(
    old: Seq<Pasta>,
    new: Seq<Pasta>,
    slug: Seq<char>,
    content: Seq<char>,
    password: Seq<char>,
    public_path: Seq<char>,
    key_opens: bool,
    answer: EditAnswer,
) -> bool {
    match lookup(old, slug) {
        Some(i) if editable_on_server(old[i]) => if edit_needs_password(old[i]) && !(password.len() > 0
            && key_opens) {
            answer == (EditAnswer::Refused { location: edit_refused_location(public_path, old[i].slug@) })
                && new == old
        } else {
            answer == (EditAnswer::Saved { index: i, location: upload_location(public_path, old[i].slug@) })
                && content_replaced(old, new, i, content)
        },
        _ => answer == EditAnswer::Error && new == old,
    }
}

/// The two stores hold the same pastas, their contents reading the same text.
pub open spec fn same_store(a: Seq<Pasta>, b: Seq<Pasta>) -> bool {
    &&& a.len() == b.len()
    &&& forall|j: int|
        0 <= j < a.len() ==> #[trigger] a[j] == Pasta { content: a[j].content, ..b[j] } && a[j].content@
            == b[j].content@
}

/// Submitting the same edit twice leaves the store as submitting it once, and
/// gives the same answer, as long as the password opens the key alike both times.
pub proof fn lemma_repeated_edit_is_idempotent(
    s0: Seq<Pasta>,
    s1: Seq<Pasta>,
    s2: Seq<Pasta>,
    slug: Seq<char>,
    content: Seq<char>,
    password: Seq<char>,
    public_path: Seq<char>,
    key_opens: bool,
    first: EditAnswer,
    second: EditAnswer,
)
    requires
        edit_flow(s0, s1, slug, content, password, public_path, key_opens, first),
        edit_flow(s1, s2, slug, content, password, public_path, key_opens, second),
    ensures
        second == first,
        same_store(s2, s1),
{
    match lookup(s0, slug) {
        Some(i) => {
            if editable_on_server(s0[i]) && !(edit_needs_password(s0[i]) && !(password.len() > 0 && key_opens)) {
                lemma_edit_then_lookup(s0, s1, i, content, slug);
                assert(s1[i] == Pasta { content: s1[i].content, ..s0[i] });
                assert forall|j: int| 0 <= j < s2.len() implies #[trigger] s2[j] == Pasta { content: s2[j].content, ..s1[j] }
                    && s2[j].content@ == s1[j].content@ by {
                    if j != i {
                        assert(s2[j] == s1[j]);
                    }
                }
            } else {
                assert(s2 =~= s1);
            }
        },
        None => {
            assert(s2 =~= s1);
        },
    }
}

/// Decides how to take in `new_content` submitted for the pasta addressed by
/// `slug`: an unprotected editable pasta takes it at once, a protected one
/// only with a password that opens its key.
pub fn post_edit(
    pastas: &mut Vec<Pasta>,
    slug: &str,
    new_content: &str,
    password: &str,
    public_path: &str,
) -> (step: PostEditStep)
    requires
        post_edit_ready(old(pastas)@, slug@, password@),
    ensures
        match lookup(old(pastas)@, slug@) {
            Some(i) if editable_on_server(old(pastas)@[i]) => if edit_needs_password(old(pastas)@[i]) {
                &&& final(pastas)@ == old(pastas)@
                &&& if password@.len() > 0 {
                    &&& step matches PostEditStep::CheckKey { index, key, password: pw }
                    &&& index == i && old(pastas)@[i].encrypted_key == Some(key) && pw@ == password@
                } else {
                    &&& step matches PostEditStep::Refused { location }
                    &&& location@ == edit_refused_location(public_path@, old(pastas)@[i].slug@)
                }
            } else {
                &&& content_replaced(old(pastas)@, final(pastas)@, i, new_content@)
                &&& step matches PostEditStep::Saved { index, location }
                &&& index == i
                &&& location@ == upload_location(public_path@, old(pastas)@[i].slug@)
            },
            _ => {
                &&& final(pastas)@ == old(pastas)@
                &&& step matches PostEditStep::Show(page)
                &&& page@ == PageView::Error
            },
        },
        !(step is CheckKey) ==> forall|key_opens: bool|
            #[trigger] edit_flow(
                old(pastas)@,
                final(pastas)@,
                slug@,
                new_content@,
                password@,
                public_path@,
                key_opens,
                edit_answer(step),
            ),
{
    match Pasta::find_index(pastas, slug) {
        Some(i) => {
            if pastas[i].editable && !pastas[i].encrypt_client {
                if pastas[i].readonly || pastas[i].encrypt_server {
                    if !password.is_empty() {
                        let key = match &pastas[i].encrypted_key {
                            Some(k) => k.clone(),
                            None => {
                                assert(false);
                                String::new()
                            },
                        };
                        PostEditStep::CheckKey { index: i, key, password: String::from_str(password) }
                    } else {
                        PostEditStep::Refused {
                            location: concat4(public_path, "/edit/", pastas[i].slug.as_str(), "/incorrect"),
                        }
                    }
                } else {
                    let location = concat3(public_path, "/upload/", pastas[i].slug.as_str());
                    let _ = swap_content(pastas, i, String::from_str(new_content));
                    PostEditStep::Saved { index: i, location }
                }
            } else {
                PostEditStep::Show(Page::Error)
            }
        },
        None => PostEditStep::Show(Page::Error),
    }
}

/// Continues `post_edit` once it is known whether the password opens the key.
pub fn post_edit_checked(
    pastas: &mut Vec<Pasta>,
    index: usize,
    key_opened: bool,
    new_content: &str,
    public_path: &str,
) -> (step: PostEditStep)
    requires
        index < old(pastas)@.len(),
    ensures
        key_opened ==> {
            &&& content_replaced(old(pastas)@, final(pastas)@, index as int, new_content@)
            &&& step matches PostEditStep::Saved { index: saved, location }
            &&& saved == index
            &&& location@ == upload_location(public_path@, old(pastas)@[index as int].slug@)
        },
        !key_opened ==> {
            &&& final(pastas)@ == old(pastas)@
            &&& step matches PostEditStep::Refused { location }
            &&& location@ == edit_refused_location(public_path@, old(pastas)@[index as int].slug@)
        },
        forall|slug: Seq<char>, password: Seq<char>|
            lookup(old(pastas)@, slug) == Some(index as int) && editable_on_server(old(pastas)@[index as int])
                && edit_needs_password(old(pastas)@[index as int]) && password.len() > 0
                ==> #[trigger] edit_flow(
                old(pastas)@,
                final(pastas)@,
                slug,
                new_content@,
                password,
                public_path@,
                key_opened,
                edit_answer(step),
            ),
{
    if key_opened {
        let location = concat3(public_path, "/upload/", pastas[index].slug.as_str());
        let _ = swap_content(pastas, index, String::from_str(new_content));
        PostEditStep::Saved { index, location }
    } else {
        PostEditStep::Refused {
            location: concat4(public_path, "/edit/", pastas[index].slug.as_str(), "/incorrect"),
        }
    }
}

} // verus!

verus! {

/// A request for the edit page of a pasta that is not editable always sends
/// the visitor to the front page, whatever else is set; an editable
/// server-encrypted pasta asks for its password first; only an editable,
/// unencrypted pasta gets its editor, with the given status.
pub proof fn lemma_edit_page_guards(ps: Seq<Pasta>, slug: Seq<char>, public_path: Seq<char>, status: Seq<char>, i: int)
    requires
        lookup(ps, slug) == Some(i),
    ensures
        !ps[i].editable ==> edit_page(ps, slug, public_path, status) == (PageView::Redirect {
            location: public_path + "/"@,
        }),
        ps[i].editable && ps[i].encrypt_server ==> edit_page(ps, slug, public_path, status) == (
        PageView::Redirect { location: public_path + "/auth_edit_private/"@ + ps[i].slug@ }),
        (edit_page(ps, slug, public_path, status) is Edit) <==> (ps[i].editable && !ps[i].encrypt_server),
        ps[i].editable && !ps[i].encrypt_server ==> edit_page(ps, slug, public_path, status) == (
        PageView::Edit { index: i, path: "edit"@, status: status }),
{
}

/// A request for the edit page of a slug that addresses no pasta gets the
/// error page.
pub proof fn lemma_edit_page_unknown(ps: Seq<Pasta>, slug: Seq<char>, public_path: Seq<char>, status: Seq<char>)
    requires
        lookup(ps, slug) is None,
    ensures
        edit_page(ps, slug, public_path, status) == PageView::Error,
{
}

} // verus!

verus! {

/// An edit only ever changes the store by giving the pasta it answers
/// `Saved` for the submitted content, and only for an editable pasta not
/// encrypted on the client whose password, if it needs one, was given and
/// opens its key; an edit answered otherwise leaves the store as it was.
pub proof fn lemma_edit_changes_only_when_allowed(
    old: Seq<Pasta>,
    new: Seq<Pasta>,
    slug: Seq<char>,
    content: Seq<char>,
    password: Seq<char>,
    public_path: Seq<char>,
    key_opens: bool,
    answer: EditAnswer,
)
    requires
        edit_flow(old, new, slug, content, password, public_path, key_opens, answer),
    ensures
        !(answer is Saved) ==> new == old,
        answer matches EditAnswer::Saved { index, location } ==> {
            &&& lookup(old, slug) == Some(index)
            &&& old[index].editable && !old[index].encrypt_client
            &&& (old[index].readonly || old[index].encrypt_server) ==> password.len() > 0 && key_opens
            &&& new.len() == old.len()
            &&& new[index].content@ == content
            &&& forall|j: int| 0 <= j < old.len() && j != index ==> new[j] == old[j]
            &&& location == public_path + "/upload/"@ + old[index].slug@
        },
        answer matches EditAnswer::Refused { location } ==> location == public_path + "/edit/"@
            + old[lookup(old, slug)->0].slug@ + "/incorrect"@,
{
}

} // verus!

verus! {

/// A private edit that is taken in leads to the pasta's password form with
/// the status "success"; one refused for a wrong password leads back to the
/// form that asked for it (the editor for a read-only pasta, the private
/// password form for a private one) with the status "incorrect".
pub proof fn lemma_submit_redirects(public_path: Seq<char>, slug: Seq<char>)
    ensures
        success_location(public_path, slug) == public_path + "/auth/"@ + slug + "/success"@,
        refused_location(public_path, Guard::ReadOnly, slug) == public_path + "/edit/"@ + slug
            + "/incorrect"@,
        refused_location(public_path, Guard::Private, slug) == public_path + "/auth_edit_private/"@
            + slug + "/incorrect"@,
{
}

} // verus!
