# microbin endpoint logic

The decisions behind a pastebin's archive, password-form, edit and QR
endpoints, written in Verus and proved against their contracts.

- `src/pasta.rs` — the stored pasta and `Pasta::find_index`, the lookup every endpoint starts from.
- `src/auth.rs` — the password forms that guard uploads, raw views, private edits, files and removals.
- `src/edit.rs` — the edit page and the three edit submissions, as steps that name the outside work
  (decrypting, encrypting, saving) still to be done.
- `src/form.rs` — reading the fields of the edit forms.
- `src/update.rs` — changing and restoring a pasta's content, and the laws about it.
- `src/qr.rs` — the address a pasta's QR code leads to.
- `src/archive.rs`, `src/zipper.rs` — which files a pasta's archive holds, and writing it with the `zip` crate.
- `app/lib.rs` — the actix-web handlers: request reading, file access, and a `Backend` trait for storage,
  encryption, QR drawing and HTML rendering.
