use vstd::prelude::*;
use vstd::string::StringExecFns;
use vstd::utf8::{decode_utf8, valid_utf8};

use crate::text::{decode_utf8_bytes, opt_view, str_eq};

verus! {

/// The fields of the edit forms, gathered so far.
#[derive(Debug)]
pub struct EditForm {
    pub content: String,
    pub password: String,
}

/// Why a form cannot be read.
#[derive(PartialEq, Eq, Structural, Debug)]
pub enum FormError {
    /// The `content` field does not hold UTF-8 text.
    InvalidUtf8Content,
}

/// The bytes of consecutive chunks, joined.
pub open spec fn joined(chunks: Seq<Seq<u8>>) -> Seq<u8>
    decreases chunks.len(),
{
    if chunks.len() == 0 {
        Seq::empty()
    } else {
        joined(chunks.drop_last()) + chunks.last()
    }
}

/// The text of consecutive chunks, each decoded on its own, joined.
pub open spec fn joined_text(chunks: Seq<Seq<u8>>) -> Seq<char>
    decreases chunks.len(),
{
    if chunks.len() == 0 {
        Seq::empty()
    } else {
        joined_text(chunks.drop_last()) + decode_utf8(chunks.last())
    }
}

/// The byte sequences of a list of chunks.
pub open spec fn chunk_bytes(chunks: Seq<Vec<u8>>) -> Seq<Seq<u8>> {
    chunks.map_values(|c: Vec<u8>| c@)
}

/// Each chunk holds UTF-8 text.
pub open spec fn all_valid_utf8(chunks: Seq<Vec<u8>>) -> bool {
    forall|i: int| 0 <= i < chunks.len() ==> valid_utf8(#[trigger] chunks[i]@)
}

/// The field is named `name`.
pub open spec fn named(field: Option<Seq<char>>, name: Seq<char>) -> bool {
    field == Some(name)
}

/// A field name taken as a character sequence.
pub open spec fn name_view(field: Option<String>) -> Option<Seq<char>> {
    match field {
        Some(n) => Some(n@),
        None => None,
    }
}

/// The form after reading the field `field` made of `chunks`, as the edit
/// and submit endpoints read it: a non-empty `content` field replaces the
/// content and must be UTF-8; each chunk of a `password` field replaces the
/// password in turn, so that the last one stands; other fields are ignored.
pub open spec fn form_after_field(
    content: Seq<char>,
    password: Seq<char>,
    field: Option<Seq<char>>,
    chunks: Seq<Vec<u8>>,
) -> Option<(Seq<char>, Seq<char>)> {
    if named(field, "content"@) {
        let bytes = joined(chunk_bytes(chunks));
        if bytes.len() == 0 {
            Some((content, password))
        } else if valid_utf8(bytes) {
            Some((decode_utf8(bytes), password))
        } else {
            None
        }
    } else if named(field, "password"@) && chunks.len() > 0 {
        Some((content, decode_utf8(chunks.last()@)))
    } else {
        Some((content, password))
    }
}

/// Whether the field is named `expected`.
fn field_is(field: Option<&str>, expected: &str) -> (res: bool)
    ensures
        res == named(opt_view(field), expected@),
{
    match field {
        Some(n) => str_eq(n, expected),
        None => false,
    }
}

/// The bytes of all chunks, one after another.
fn join_chunks(chunks: &Vec<Vec<u8>>) -> (res: Vec<u8>)
    ensures
        res@ == joined(chunk_bytes(chunks@)),
{
    let mut buf: Vec<u8> = Vec::new();
    let mut i: usize = 0;
    while i < chunks.len()
        invariant
            i <= chunks@.len(),
            buf@ == joined(chunk_bytes(chunks@).take(i as int)),
        decreases chunks@.len() - i,
    {
        let chunk = &chunks[i];
        let mut j: usize = 0;
        let ghost start = buf@;
        while j < chunk.len()
            invariant
                j <= chunk@.len(),
                buf@ == start + chunk@.take(j as int),
            decreases chunk@.len() - j,
        {
            buf.push(chunk[j]);
            j = j + 1;
            assert(buf@ =~= start + chunk@.take(j as int));
        }
        proof {
            let s = chunk_bytes(chunks@);
            assert(s.take(i + 1).drop_last() =~= s.take(i as int));
            assert(chunk@.take(j as int) =~= chunk@);
        }
        i = i + 1;
    }
    proof {
        assert(chunk_bytes(chunks@).take(chunks@.len() as int) =~= chunk_bytes(chunks@));
    }
    buf
}

/// A copy of a byte buffer.
fn copy_bytes(bytes: &Vec<u8>) -> (res: Vec<u8>)
    ensures
        res@ == bytes@,
{
    let mut res: Vec<u8> = Vec::new();
    let mut j: usize = 0;
    while j < bytes.len()
        invariant
            j <= bytes@.len(),
            res@ == bytes@.take(j as int),
        decreases bytes@.len() - j,
    {
        res.push(bytes[j]);
        j = j + 1;
        assert(res@ =~= bytes@.take(j as int));
    }
    assert(bytes@.take(j as int) =~= bytes@);
    res
}

impl EditForm {
    /// The form before any field has been read: empty content and password.
    pub fn new() -> (form: EditForm)
        ensures
            form.content@ == Seq::<char>::empty(),
            form.password@ == Seq::<char>::empty(),
    {
        EditForm { content: String::new(), password: String::new() }
    }

    /// Reads one field of the edit or submit form.
    pub fn add_field(self, field: Option<&str>, chunks: &Vec<Vec<u8>>) -> (res: Result<EditForm, FormError>)
        requires
            named(opt_view(field), "password"@) ==> all_valid_utf8(chunks@),
        ensures
            match form_after_field(self.content@, self.password@, opt_view(field), chunks@) {
                Some((c, p)) => res matches Ok(f) && f.content@ == c && f.password@ == p,
                None => res == Err::<EditForm, FormError>(FormError::InvalidUtf8Content),
            },
    {
        let mut form = self;
        if field_is(field, "content") {
            let buf = join_chunks(chunks);
            if buf.len() > 0 {
                match decode_utf8_bytes(buf) {
                    Some(text) => {
                        form.content = text;
                    },
                    None => {
                        return Err(FormError::InvalidUtf8Content);
                    },
                }
            }
        } else if field_is(field, "password") {
            let mut i: usize = 0;
            while i < chunks.len()
                invariant
                    i <= chunks@.len(),
                    all_valid_utf8(chunks@),
                    form.content@ == self.content@,
                    i == 0 ==> form.password@ == self.password@,
                    i > 0 ==> form.password@ == decode_utf8(chunks@[i - 1]@),
                decreases chunks@.len() - i,
            {
                assert(valid_utf8(chunks@[i as int]@));
                match decode_utf8_bytes(copy_bytes(&chunks[i])) {
                    Some(text) => {
                        form.password = text;
                    },
                    None => {},
                }
                i = i + 1;
            }
        }
        Ok(form)
    }
}

/// The password field of the private-edit form: the text of every chunk of
/// every `password` field, appended in order.
pub fn add_private_password_field(password: String, field: Option<&str>, chunks: &Vec<Vec<u8>>) -> (res: String)
    requires
        named(opt_view(field), "password"@) ==> all_valid_utf8(chunks@),
    ensures
        named(opt_view(field), "password"@) ==> res@ == password@ + joined_text(chunk_bytes(chunks@)),
        !named(opt_view(field), "password"@) ==> res@ == password@,
{
    let mut res = password;
    if field_is(field, "password") {
        let mut i: usize = 0;
        while i < chunks.len()
            invariant
                i <= chunks@.len(),
                all_valid_utf8(chunks@),
                res@ == password@ + joined_text(chunk_bytes(chunks@).take(i as int)),
            decreases chunks@.len() - i,
        {
            assert(valid_utf8(chunks@[i as int]@));
            match decode_utf8_bytes(copy_bytes(&chunks[i])) {
                Some(text) => {
                    res.append(text.as_str());
                },
                None => {},
            }
            proof {
                let s = chunk_bytes(chunks@);
                assert(s.take(i + 1).drop_last() =~= s.take(i as int));
                assert(res@ =~= password@ + joined_text(s.take(i + 1)));
            }
            i = i + 1;
        }
        proof {
            assert(chunk_bytes(chunks@).take(chunks@.len() as int) =~= chunk_bytes(chunks@));
        }
    }
    res
}

} // verus!

verus! {

/// The fields of a form as they were read: each name, if any, and the
/// chunks of its data.
pub type FormFields = Vec<(Option<String>, Vec<Vec<u8>>)>;

/// The edit form after reading `fields` left to right from `content` and
/// `password`; `None` from the first `content` field that is not UTF-8 on.
pub open spec fn form_after_fields(
    content: Seq<char>,
    password: Seq<char>,
    fields: Seq<(Option<String>, Vec<Vec<u8>>)>,
) -> Option<(Seq<char>, Seq<char>)>
    decreases fields.len(),
{
    if fields.len() == 0 {
        Some((content, password))
    } else {
        match form_after_fields(content, password, fields.drop_last()) {
            Some((c, p)) => form_after_field(c, p, name_view(fields.last().0), fields.last().1@),
            None => None,
        }
    }
}

/// The edit form read from an empty start.
pub open spec fn edit_form_of(fields: Seq<(Option<String>, Vec<Vec<u8>>)>) -> Option<(Seq<char>, Seq<char>)> {
    form_after_fields(Seq::empty(), Seq::empty(), fields)
}

/// Every `password` field that is reached before the form is refused holds
/// UTF-8 chunks (the reading stops at the first bad `content` field).
pub open spec fn edit_form_passwords_valid(fields: Seq<(Option<String>, Vec<Vec<u8>>)>) -> bool {
    forall|i: int|
        0 <= i < fields.len() && edit_form_of(fields.take(i)) is Some && named(
            name_view(#[trigger] fields[i].0),
            "password"@,
        ) ==> all_valid_utf8(fields[i].1@)
}

/// Once refused, a form stays refused whatever fields follow.
proof fn lemma_refused_stays_refused(fields: Seq<(Option<String>, Vec<Vec<u8>>)>, i: int)
    requires
        0 <= i <= fields.len(),
        edit_form_of(fields.take(i)) is None,
    ensures
        edit_form_of(fields) is None,
    decreases fields.len() - i,
{
    if i == fields.len() {
        assert(fields.take(i) =~= fields);
    } else {
        assert(fields.take(i + 1).drop_last() =~= fields.take(i));
        lemma_refused_stays_refused(fields, i + 1);
    }
}

/// The password of the private-edit form: the text of every `password`
/// field, appended in order.
pub open spec fn private_password_of(fields: Seq<(Option<String>, Vec<Vec<u8>>)>) -> Seq<char>
    decreases fields.len(),
{
    if fields.len() == 0 {
        Seq::empty()
    } else if named(name_view(fields.last().0), "password"@) {
        private_password_of(fields.drop_last()) + joined_text(chunk_bytes(fields.last().1@))
    } else {
        private_password_of(fields.drop_last())
    }
}

/// Every `password` field holds UTF-8 chunks.
pub open spec fn all_passwords_valid(fields: Seq<(Option<String>, Vec<Vec<u8>>)>) -> bool {
    forall|i: int|
        0 <= i < fields.len() && named(name_view(#[trigger] fields[i].0), "password"@)
            ==> all_valid_utf8(fields[i].1@)
}

/// The name of a field, borrowed.
fn field_name(name: &Option<String>) -> (res: Option<&str>)
    ensures
        opt_view(res) == name_view(*name),
{
    match name {
        Some(n) => Some(n.as_str()),
        None => None,
    }
}

impl EditForm {
    /// Reads a whole edit or submit form, field by field from an empty form:
    /// the content is that of the last non-empty `content` field, the password
    /// the last chunk of the last `password` field with data, and the first
    /// `content` field that is not UTF-8 refuses the form.
    pub fn from_fields(fields: &FormFields) -> (res: Result<EditForm, FormError>)
        requires
            edit_form_passwords_valid(fields@),
        ensures
            match edit_form_of(fields@) {
                Some((c, p)) => res matches Ok(f) && f.content@ == c && f.password@ == p,
                None => res == Err::<EditForm, FormError>(FormError::InvalidUtf8Content),
            },
    {
        let mut form = EditForm::new();
        let mut i: usize = 0;
        assert(fields@.take(0) =~= Seq::<(Option<String>, Vec<Vec<u8>>)>::empty());
        while i < fields.len()
            invariant
                i <= fields@.len(),
                edit_form_passwords_valid(fields@),
                edit_form_of(fields@.take(i as int)) == Some((form.content@, form.password@)),
            decreases fields@.len() - i,
        {
            let name = field_name(&fields[i].0);
            proof {
                assert(fields@.take(i + 1).drop_last() =~= fields@.take(i as int));
                assert(named(name_view(fields@[i as int].0), "password"@) ==> all_valid_utf8(fields@[i as int].1@));
            }
            match form.add_field(name, &fields[i].1) {
                Ok(next) => {
                    form = next;
                },
                Err(e) => {
                    proof {
                        lemma_refused_stays_refused(fields@, i + 1);
                    }
                    return Err(e);
                },
            }
            i = i + 1;
        }
        assert(fields@.take(fields@.len() as int) =~= fields@);
        Ok(form)
    }
}

/// Reads the password of a whole private-edit form.
pub fn private_password(fields: &FormFields) -> (res: String)
    requires
        all_passwords_valid(fields@),
    ensures
        res@ == private_password_of(fields@),
{
    let mut password = String::new();
    let mut i: usize = 0;
    assert(fields@.take(0) =~= Seq::<(Option<String>, Vec<Vec<u8>>)>::empty());
    while i < fields.len()
        invariant
            i <= fields@.len(),
            all_passwords_valid(fields@),
            password@ == private_password_of(fields@.take(i as int)),
        decreases fields@.len() - i,
    {
        let name = field_name(&fields[i].0);
        proof {
            assert(fields@.take(i + 1).drop_last() =~= fields@.take(i as int));
            assert(named(name_view(fields@[i as int].0), "password"@) ==> all_valid_utf8(fields@[i as int].1@));
        }
        password = add_private_password_field(password, name, &fields[i].1);
        i = i + 1;
    }
    assert(fields@.take(fields@.len() as int) =~= fields@);
    password
}

} // verus!

verus! {

/// Reading a `password` field with data sets the password to the text of its
/// last chunk (so a password sent in one chunk is that chunk's text), and
/// leaves the content as it was.
pub proof fn lemma_password_field_takes_last_chunk(
    content: Seq<char>,
    password: Seq<char>,
    chunks: Seq<Vec<u8>>,
)
    requires
        chunks.len() > 0,
    ensures
        form_after_field(content, password, Some("password"@), chunks) == Some(
            (content, decode_utf8(chunks[chunks.len() - 1]@)),
        ),
{
    reveal_strlit("password");
    reveal_strlit("content");
    assert("password"@ != "content"@) by {
        assert("password"@[0] != "content"@[0]);
    }
}

/// A `password` field without data leaves the form as it was.
pub proof fn lemma_empty_password_field_keeps_form(content: Seq<char>, password: Seq<char>)
    ensures
        form_after_field(content, password, Some("password"@), Seq::empty()) == Some((content, password)),
{
    reveal_strlit("password");
    reveal_strlit("content");
    assert("password"@ != "content"@) by {
        assert("password"@[0] != "content"@[0]);
    }
}

/// Reading a `content` field: with no bytes the form stays as it was; with
/// UTF-8 bytes the content becomes their text and the password stays; with
/// other bytes the form is refused.
pub proof fn lemma_content_field(content: Seq<char>, password: Seq<char>, chunks: Seq<Vec<u8>>)
    ensures
        ({
            let bytes = chunk_bytes(chunks).flatten_alt();
            &&& bytes.len() == 0 ==> form_after_field(content, password, Some("content"@), chunks) == Some(
                (content, password),
            )
            &&& bytes.len() > 0 && valid_utf8(bytes) ==> form_after_field(
                content,
                password,
                Some("content"@),
                chunks,
            ) == Some((decode_utf8(bytes), password))
            &&& bytes.len() > 0 && !valid_utf8(bytes) ==> form_after_field(
                content,
                password,
                Some("content"@),
                chunks,
            ) is None
        }),
{
    lemma_joined_is_concatenation(chunk_bytes(chunks));
}

/// `joined` is the concatenation of the chunks, in order.
pub proof fn lemma_joined_is_concatenation(chunks: Seq<Seq<u8>>)
    ensures
        joined(chunks) == chunks.flatten_alt(),
    decreases chunks.len(),
{
    if chunks.len() > 0 {
        lemma_joined_is_concatenation(chunks.drop_last());
    }
}

/// Fields of any other name leave the form as it was.
pub proof fn lemma_other_field_keeps_form(
    content: Seq<char>,
    password: Seq<char>,
    field: Option<Seq<char>>,
    chunks: Seq<Vec<u8>>,
)
    requires
        field != Some("content"@),
        field != Some("password"@),
    ensures
        form_after_field(content, password, field, chunks) == Some((content, password)),
{
}

} // verus!

verus! {

/// `joined_text` is the text of each chunk, decoded on its own, in order.
pub proof fn lemma_joined_text_decodes_each_chunk(chunks: Seq<Seq<u8>>)
    ensures
        joined_text(chunks) == chunks.map_values(|c: Seq<u8>| decode_utf8(c)).flatten_alt(),
    decreases chunks.len(),
{
    if chunks.len() > 0 {
        lemma_joined_text_decodes_each_chunk(chunks.drop_last());
        assert(chunks.map_values(|c: Seq<u8>| decode_utf8(c)).drop_last() =~= chunks.drop_last().map_values(
            |c: Seq<u8>| decode_utf8(c),
        ));
    }
}

} // verus!
