//! The body builder: turns a JSON object and a list of remote files into the
//! parts of a multipart form.

use crate::interfaces::{
    body_view, distinct_fields, lemma_object_view, member_views, source_views, FileSource,
    FileSourceView, JsonNumber, JsonValue, JsonView, MemberView, NumberView,
};
use crate::outcome::BuildError;
use crate::text::{last_segment, last_segment_of};
use vstd::prelude::*;

verus! {

/// A named text field of a form.
#[derive(Debug)]
pub struct TextPart {
    pub name: String,
    pub value: String,
}

/// Mathematical content of a text part.
pub struct TextPartView {
    pub name: Seq<char>,
    pub value: Seq<char>,
}

impl View for TextPart {
    type V = TextPartView;

    open spec fn view(&self) -> TextPartView {
        TextPartView { name: self.name@, value: self.value@ }
    }
}

/// A file attached to a form under a field.
#[derive(Debug)]
pub struct FilePart {
    pub field: String,
    pub file_name: String,
    pub content: Vec<u8>,
}

/// Mathematical content of a file part.
pub struct FilePartView {
    pub field: Seq<char>,
    pub file_name: Seq<char>,
    pub content: Seq<u8>,
}

impl View for FilePart {
    type V = FilePartView;

    open spec fn view(&self) -> FilePartView {
        FilePartView { field: self.field@, file_name: self.file_name@, content: self.content@ }
    }
}

/// A multipart form: the file parts first, then the text parts.
#[derive(Debug)]
pub struct Form {
    pub files: Vec<FilePart>,
    pub texts: Vec<TextPart>,
}

/// Mathematical content of a form.
pub struct FormView {
    pub files: Seq<FilePartView>,
    pub texts: Seq<TextPartView>,
}

/// The contents of some text parts, in order.
pub open spec fn text_views(parts: Seq<TextPart>) -> Seq<TextPartView> {
    Seq::new(parts.len(), |i: int| parts[i]@)
}

/// The contents of some file parts, in order.
pub open spec fn file_views(parts: Seq<FilePart>) -> Seq<FilePartView> {
    Seq::new(parts.len(), |i: int| parts[i]@)
}

impl View for Form {
    type V = FormView;

    open spec fn view(&self) -> FormView {
        FormView { files: file_views(self.files@), texts: text_views(self.texts@) }
    }
}

/// The character of a decimal digit.
pub open spec fn digit_char(digit: nat) -> char {
    (48 + digit) as char
}

/// Decimal notation of a natural number, without leading zeros.
pub open spec fn decimal(n: nat) -> Seq<char>
    decreases n,
{
    if n < 10 {
        seq![digit_char(n)]
    } else {
        decimal(n / 10).push(digit_char(n % 10))
    }
}

/// Decimal notation of an integer, with a minus sign when it is negative.
pub open spec fn signed_decimal(i: int) -> Seq<char> {
    if i < 0 {
        seq!['-'] + decimal((-i) as nat)
    } else {
        decimal(i as nat)
    }
}

/// The text of a number as a form field.
pub open spec fn number_text(number: NumberView) -> Seq<char> {
    match number {
        NumberView::Integer(i) => signed_decimal(i),
        NumberView::Decimal(text) => text,
    }
}

/// The text of a boolean as a form field.
pub open spec fn bool_text(b: bool) -> Seq<char> {
    if b {
        "true"@
    } else {
        "false"@
    }
}

/// What a JSON value becomes as a form field.
pub enum FieldText {
    /// No part is written.
    Omitted,
    /// A text part with this value.
    Text(Seq<char>),
    /// The value has no representation as text.
    Unsupported,
}

/// Strings pass as they are, numbers and booleans are written out, null
/// is left out, arrays and objects are not supported.
pub open spec fn field_text(value: JsonView) -> FieldText {
    match value {
        JsonView::Null => FieldText::Omitted,
        JsonView::Bool(b) => FieldText::Text(bool_text(b)),
        JsonView::Number(number) => FieldText::Text(number_text(number)),
        JsonView::Text(text) => FieldText::Text(text),
        JsonView::Array(_) => FieldText::Unsupported,
        JsonView::Object(_) => FieldText::Unsupported,
    }
}

/// Every member can be written as text or left out.
pub open spec fn members_supported(members: Seq<MemberView>) -> bool {
    forall|i: int| 0 <= i < members.len() ==> !(field_text(#[trigger] members[i].value) is Unsupported)
}

/// The text parts of an object's members, in member order; members that are
/// not text leave no part.
pub open spec fn member_parts(members: Seq<MemberView>) -> Seq<TextPartView>
    decreases members.len(),
{
    if members.len() == 0 {
        Seq::empty()
    } else {
        let before = member_parts(members.drop_last());
        match field_text(members.last().value) {
            FieldText::Text(value) => before.push(
                TextPartView { name: members.last().key, value },
            ),
            _ => before,
        }
    }
}

/// A body can accompany files when it is absent or a flat object.
pub open spec fn body_supported(body: Option<JsonView>) -> bool {
    match body {
        None => true,
        Some(JsonView::Object(members)) => members_supported(members),
        Some(_) => false,
    }
}

/// The text parts of a body that accompanies files.
pub open spec fn body_parts(body: Option<JsonView>) -> Seq<TextPartView> {
    match body {
        Some(JsonView::Object(members)) => member_parts(members),
        _ => Seq::empty(),
    }
}

/// The file part that a source and its content make.
pub open spec fn file_part_of(source: FileSourceView, content: Seq<u8>) -> FilePartView {
    FilePartView { field: source.field, file_name: last_segment(source.url), content }
}

/// The form built from the files to attach, their contents and the text
/// parts of a body: the files first, in the order of the sources.
pub open spec fn form_of(
    sources: Seq<FileSourceView>,
    contents: Seq<Seq<u8>>,
    texts: Seq<TextPartView>,
) -> FormView {
    FormView {
        files: Seq::new(sources.len(), |i: int| file_part_of(sources[i], contents[i])),
        texts,
    }
}

/// A form names each file field once when the sources do.
pub proof fn lemma_form_keeps_fields_distinct(
    sources: Seq<FileSourceView>,
    contents: Seq<Seq<u8>>,
    texts: Seq<TextPartView>,
)
    requires
        distinct_fields(sources),
    ensures
        forall|i: int, j: int|
            0 <= i < j < form_of(sources, contents, texts).files.len() ==> (#[trigger] form_of(
                sources,
                contents,
                texts,
            ).files[i]).field != (#[trigger] form_of(sources, contents, texts).files[j]).field,
{
    let files = form_of(sources, contents, texts).files;
    assert forall|i: int, j: int| 0 <= i < j < files.len() implies (#[trigger] files[i]).field != (
    #[trigger] files[j]).field by {
        assert(files[i].field == sources[i].field);
        assert(files[j].field == sources[j].field);
    }
}

/// Makes a `serde_json::Number` from an unsigned integer with `From<u64>`
/// and writes it with `to_string`. Taken on trust: `Number`'s `Display`
/// prints such a number in decimal notation, without a sign and without
/// leading zeros.
#[verifier::external_body]
fn render_unsigned(n: u64) -> (text: String)
    ensures
        text@ == decimal(n as nat),
{
    serde_json::Number::from(n).to_string()
}

/// Makes a `serde_json::Number` from a signed integer with `From<i64>` and
/// writes it with `to_string`. Taken on trust: `Number`'s `Display` prints
/// such a number in decimal notation without leading zeros, with a minus
/// sign in front of a negative one and no sign otherwise.
#[verifier::external_body]
fn render_signed(i: i64) -> (text: String)
    ensures
        text@ == signed_decimal(i as int),
{
    serde_json::Number::from(i).to_string()
}

/// The name under which the file behind a URL is attached: the last path
/// segment of the URL, as it is written.
pub fn file_name_of(url: &str) -> (name: String)
    ensures
        name@ == last_segment(url@),
{
    last_segment_of(url)
}

/// Writes a number as the text of a form field.
pub fn render_number(number: &JsonNumber) -> (text: String)
    ensures
        text@ == number_text(number@),
{
    match number {
        JsonNumber::Unsigned(n) => render_unsigned(*n),
        JsonNumber::Signed(i) => render_signed(*i),
        JsonNumber::Decimal(text) => text.clone(),
    }
}

/// Writes one value as the text of a form field: `None` for null, which
/// leaves no part, and an error for an array or an object.
pub fn render_field(value: &JsonValue) -> (result: Result<Option<String>, BuildError>)
    ensures
        match field_text(value@) {
            FieldText::Omitted => result == Ok::<Option<String>, BuildError>(None),
            FieldText::Text(text) => (result matches Ok(Some(written)) && written@ == text),
            FieldText::Unsupported => result == Err::<Option<String>, BuildError>(
                BuildError::UnsupportedField,
            ),
        },
{
    match value {
        JsonValue::Null => Ok(None),
        JsonValue::Bool(b) => Ok(
            Some(
                if *b {
                    String::from_str("true")
                } else {
                    String::from_str("false")
                },
            ),
        ),
        JsonValue::Number(number) => Ok(Some(render_number(number))),
        JsonValue::Text(text) => Ok(Some(text.clone())),
        JsonValue::Array(_) => Err(BuildError::UnsupportedField),
        JsonValue::Object(_) => Err(BuildError::UnsupportedField),
    }
}

/// The text parts of a body that accompanies files. Fails when the body is
/// present and is not an object, or when a member is an array or an object.
pub fn text_parts(body: &Option<JsonValue>) -> (result: Result<Vec<TextPart>, BuildError>)
    ensures
        result is Ok <==> body_supported(body_view(*body)),
        result matches Ok(parts) ==> text_views(parts@) == body_parts(body_view(*body)),
        result matches Err(error) ==> error == BuildError::UnsupportedField,
{
    let mut parts: Vec<TextPart> = Vec::new();
    match body {
        None => Ok(parts),
        Some(JsonValue::Object(members)) => {
            let ghost views = member_views(members@);
            let mut i: usize = 0;
            proof {
                lemma_object_view(*members);
                assert(views.take(0) =~= Seq::<MemberView>::empty());
            }
            while i < members.len()
                invariant
                    i <= members.len(),
                    views == member_views(members@),
                    body_view(*body) == Some(JsonView::Object(views)),
                    members_supported(views.take(i as int)),
                    text_views(parts@) == member_parts(views.take(i as int)),
                decreases members.len() - i,
            {
                let member = &members[i];
                let ghost before = text_views(parts@);
                proof {
                    assert(views.take(i + 1).drop_last() =~= views.take(i as int));
                    assert(views.take(i + 1).last() == member@);
                }
                match render_field(&member.value) {
                    Ok(Some(value)) => {
                        parts.push(TextPart { name: member.key.clone(), value });
                        assert(text_views(parts@) =~= before.push(parts@.last()@));
                    },
                    Ok(None) => {},
                    Err(error) => {
                        assert(field_text(views[i as int].value) is Unsupported);
                        return Err(error);
                    },
                }
                proof {
                    assert forall|j: int| 0 <= j < i + 1 implies !(field_text(
                        #[trigger] views.take(i + 1)[j].value,
                    ) is Unsupported) by {
                        if j < i {
                            assert(views.take(i + 1)[j] == views.take(i as int)[j]);
                        }
                    }
                }
                i = i + 1;
            }
            assert(views.take(i as int) =~= views);
            Ok(parts)
        },
        Some(_) => Err(BuildError::UnsupportedField),
    }
}

/// Builds a multipart form step by step: the caller fetches the file that
/// the builder names, hands its content over, and asks again.
pub struct FormBuilder<'a> {
    sources: &'a Vec<FileSource>,
    files: Vec<FilePart>,
    texts: Vec<TextPart>,
}

impl<'a> FormBuilder<'a> {
    /// The files to attach, in order.
    pub closed spec fn sources(&self) -> Seq<FileSourceView> {
        source_views(self.sources@)
    }

    /// The contents attached so far, in order.
    pub closed spec fn contents(&self) -> Seq<Seq<u8>> {
        Seq::new(self.files@.len(), |i: int| self.files@[i].content@)
    }

    /// The text parts of the form.
    pub closed spec fn texts(&self) -> Seq<TextPartView> {
        text_views(self.texts@)
    }

    /// Each file attached so far is made of its source and its content.
    pub closed spec fn wf(&self) -> bool {
        &&& self.files@.len() <= self.sources@.len()
        &&& forall|i: int|
            0 <= i < self.files@.len() ==> (#[trigger] self.files@[i])@ == file_part_of(
                self.sources@[i]@,
                self.files@[i].content@,
            )
    }

    /// Starts a form for the given files. The body is checked first, so an
    /// unsupported field is reported before any file is asked for.
    pub fn start(body: &Option<JsonValue>, sources: &'a Vec<FileSource>) -> (result: Result<
        FormBuilder<'a>,
        BuildError,
    >)
        ensures
            result is Ok <==> body_supported(body_view(*body)),
            result matches Ok(builder) ==> {
                &&& builder.wf()
                &&& builder.sources() == source_views(sources@)
                &&& builder.contents() == Seq::<Seq<u8>>::empty()
                &&& builder.texts() == body_parts(body_view(*body))
            },
            result matches Err(error) ==> error == BuildError::UnsupportedField,
    {
        match text_parts(body) {
            Ok(texts) => {
                let builder = FormBuilder { sources, files: Vec::new(), texts };
                assert(builder.contents() =~= Seq::<Seq<u8>>::empty());
                Ok(builder)
            },
            Err(error) => Err(error),
        }
    }

    /// The URL of the file to fetch next; `None` once every file is
    /// attached.
    pub fn next_url(&self) -> (url: Option<&'a str>)
        requires
            self.wf(),
        ensures
            url is Some <==> self.contents().len() < self.sources().len(),
            url matches Some(text) ==> text@ == self.sources()[self.contents().len() as int].url,
    {
        let i: usize = self.files.len();
        if i < self.sources.len() {
            Some(self.sources[i].url.as_str())
        } else {
            None
        }
    }

    /// Attaches the content of the file that `next_url` named. Returns
    /// whether a file was awaited; otherwise nothing changes.
    pub fn attach(&mut self, content: Vec<u8>) -> (accepted: bool)
        requires
            old(self).wf(),
        ensures
            final(self).wf(),
            final(self).sources() == old(self).sources(),
            final(self).texts() == old(self).texts(),
            accepted == (old(self).contents().len() < old(self).sources().len()),
            final(self).contents() == if accepted {
                old(self).contents().push(content@)
            } else {
                old(self).contents()
            },
    {
        let i: usize = self.files.len();
        if i < self.sources.len() {
            let source = &self.sources[i];
            let part = FilePart {
                field: source.field.clone(),
                file_name: file_name_of(source.url.as_str()),
                content,
            };
            self.files.push(part);
            assert(self.contents() =~= old(self).contents().push(content@));
            true
        } else {
            false
        }
    }

    /// The finished form. Fails when a file is still missing: it could not
    /// be retrieved.
    pub fn finish(self) -> (result: Result<Form, BuildError>)
        requires
            self.wf(),
        ensures
            result is Ok <==> self.contents().len() == self.sources().len(),
            result matches Ok(form) ==> form@ == form_of(
                self.sources(),
                self.contents(),
                self.texts(),
            ),
            result matches Err(error) ==> error == BuildError::AttachmentFetch,
    {
        if self.files.len() < self.sources.len() {
            return Err(BuildError::AttachmentFetch);
        }
        let form = Form { files: self.files, texts: self.texts };
        assert(form@.files =~= form_of(self.sources(), self.contents(), self.texts()).files);
        Ok(form)
    }
}

} // verus!
