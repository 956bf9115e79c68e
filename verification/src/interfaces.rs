//! Value types that describe requests, credentials and tokens.

use crate::text::{equals_ignoring_case, lowered};
use vstd::prelude::*;

verus! {

/// Inline credentials carried by a request that logs in for itself.
#[derive(Debug)]
pub struct LoginDto {
    pub email: String,
    pub password: String,
    pub code: Option<String>,
}

/// Mathematical content of inline credentials.
pub struct LoginView {
    pub email: Seq<char>,
    pub password: Seq<char>,
    pub code: Option<Seq<char>>,
}

impl View for LoginDto {
    type V = LoginView;

    open spec fn view(&self) -> LoginView {
        LoginView {
            email: self.email@,
            password: self.password@,
            code: match self.code {
                Some(code) => Some(code@),
                None => None,
            },
        }
    }
}

impl Clone for LoginDto {
    fn clone(&self) -> (copy: Self)
        ensures
            copy@ == self@,
    {
        LoginDto {
            email: self.email.clone(),
            password: self.password.clone(),
            code: match &self.code {
                Some(code) => Some(code.clone()),
                None => None,
            },
        }
    }
}

/// The token pair issued by a login or a refresh call.
#[derive(Debug)]
pub struct ApiTokens {
    pub token: String,
    pub identity_token: String,
    pub refresh_token: String,
}

/// Mathematical content of a token pair: the three texts.
pub struct TokensView {
    pub token: Seq<char>,
    pub identity_token: Seq<char>,
    pub refresh_token: Seq<char>,
}

impl View for ApiTokens {
    type V = TokensView;

    open spec fn view(&self) -> TokensView {
        TokensView {
            token: self.token@,
            identity_token: self.identity_token@,
            refresh_token: self.refresh_token@,
        }
    }
}

impl Clone for ApiTokens {
    fn clone(&self) -> (copy: Self)
        ensures
            copy@ == self@,
    {
        ApiTokens {
            token: self.token.clone(),
            identity_token: self.identity_token.clone(),
            refresh_token: self.refresh_token.clone(),
        }
    }
}

impl ApiTokens {
    /// Whether two pairs hold the same three texts.
    pub fn same_as(&self, other: &ApiTokens) -> (same: bool)
        ensures
            same == (self@ == other@),
    {
        self.token == other.token && self.identity_token == other.identity_token
            && self.refresh_token == other.refresh_token
    }
}

/// HTTP method of a request descriptor.
#[derive(Clone, Copy, Debug, PartialEq, Eq, Structural)]
pub enum RequestMethod {
    Get,
    Post,
    Put,
    Patch,
    Delete,
}

impl RequestMethod {
    /// The canonical upper-case token of the method.
    pub open spec fn token(self) -> Seq<char> {
        match self {
            RequestMethod::Get => "GET"@,
            RequestMethod::Post => "POST"@,
            RequestMethod::Put => "PUT"@,
            RequestMethod::Patch => "PATCH"@,
            RequestMethod::Delete => "DELETE"@,
        }
    }

    /// The method that a text names, whatever the casing of its letters.
    pub open spec fn named_by(text: Seq<char>) -> Option<RequestMethod> {
        let low = lowered(text);
        if low == "get"@ {
            Some(RequestMethod::Get)
        } else if low == "post"@ {
            Some(RequestMethod::Post)
        } else if low == "put"@ {
            Some(RequestMethod::Put)
        } else if low == "patch"@ {
            Some(RequestMethod::Patch)
        } else if low == "delete"@ {
            Some(RequestMethod::Delete)
        } else {
            None
        }
    }

    /// The method as it is written in a request line.
    pub fn as_str(&self) -> (s: &'static str)
        ensures
            s@ == self.token(),
    {
        match self {
            RequestMethod::Get => "GET",
            RequestMethod::Post => "POST",
            RequestMethod::Put => "PUT",
            RequestMethod::Patch => "PATCH",
            RequestMethod::Delete => "DELETE",
        }
    }

    /// Reads a method name case-insensitively; `None` for any other text.
    pub fn parse(text: &str) -> (method: Option<RequestMethod>)
        ensures
            method == Self::named_by(text@),
    {
        if equals_ignoring_case(text, "get") {
            Some(RequestMethod::Get)
        } else if equals_ignoring_case(text, "post") {
            Some(RequestMethod::Post)
        } else if equals_ignoring_case(text, "put") {
            Some(RequestMethod::Put)
        } else if equals_ignoring_case(text, "patch") {
            Some(RequestMethod::Patch)
        } else if equals_ignoring_case(text, "delete") {
            Some(RequestMethod::Delete)
        } else {
            None
        }
    }
}

/// A JSON number: an integer, or the decimal text of a number with a
/// fraction or an exponent.
#[derive(Debug)]
pub enum JsonNumber {
    Unsigned(u64),
    Signed(i64),
    Decimal(String),
}

/// A JSON value. An object keeps its members in the order they were given.
#[derive(Debug)]
pub enum JsonValue {
    Null,
    Bool(bool),
    Number(JsonNumber),
    Text(String),
    Array(Vec<JsonValue>),
    Object(Vec<JsonMember>),
}

/// One member of a JSON object.
#[derive(Debug)]
pub struct JsonMember {
    pub key: String,
    pub value: JsonValue,
}

/// Mathematical content of a JSON number.
pub enum NumberView {
    Integer(int),
    Decimal(Seq<char>),
}

/// Mathematical content of a JSON value.
pub enum JsonView {
    Null,
    Bool(bool),
    Number(NumberView),
    Text(Seq<char>),
    Array(Seq<JsonView>),
    Object(Seq<MemberView>),
}

/// Mathematical content of a member of an object.
pub struct MemberView {
    pub key: Seq<char>,
    pub value: JsonView,
}

impl View for JsonNumber {
    type V = NumberView;

    open spec fn view(&self) -> NumberView {
        match self {
            JsonNumber::Unsigned(n) => NumberView::Integer(*n as int),
            JsonNumber::Signed(i) => NumberView::Integer(*i as int),
            JsonNumber::Decimal(text) => NumberView::Decimal(text@),
        }
    }
}

impl View for JsonMember {
    type V = MemberView;

    open spec fn view(&self) -> MemberView {
        MemberView { key: self.key@, value: self.value@ }
    }
}

impl View for JsonValue {
    type V = JsonView;

    open spec fn view(&self) -> JsonView
        decreases self,
    {
        match self {
            JsonValue::Null => JsonView::Null,
            JsonValue::Bool(b) => JsonView::Bool(*b),
            JsonValue::Number(number) => JsonView::Number(number@),
            JsonValue::Text(text) => JsonView::Text(text@),
            JsonValue::Array(items) => JsonView::Array(
                Seq::new(
                    items@.len(),
                    |i: int|
                        if 0 <= i < items@.len() {
                            items@[i].view()
                        } else {
                            JsonView::Null
                        },
                ),
            ),
            JsonValue::Object(members) => JsonView::Object(
                Seq::new(
                    members@.len(),
                    |i: int|
                        if 0 <= i < members@.len() {
                            MemberView { key: members@[i].key@, value: members@[i].value.view() }
                        } else {
                            MemberView { key: Seq::empty(), value: JsonView::Null }
                        },
                ),
            ),
        }
    }
}

/// The members of an object, each as its key and the content of its value.
pub open spec fn member_views(members: Seq<JsonMember>) -> Seq<MemberView> {
    Seq::new(members.len(), |i: int| members[i]@)
}

/// The contents of the items of an array.
pub open spec fn item_views(items: Seq<JsonValue>) -> Seq<JsonView> {
    Seq::new(items.len(), |i: int| items[i]@)
}

/// The content of an object is the contents of its members, in order.
pub proof fn lemma_object_view(members: Vec<JsonMember>)
    ensures
        JsonValue::Object(members)@ == JsonView::Object(member_views(members@)),
{
    assert(JsonValue::Object(members)@->Object_0 =~= member_views(members@));
}

/// The content of an array is the contents of its items, in order.
pub proof fn lemma_array_view(items: Vec<JsonValue>)
    ensures
        JsonValue::Array(items)@ == JsonView::Array(item_views(items@)),
{
    assert(JsonValue::Array(items)@->Array_0 =~= item_views(items@));
}

impl Clone for JsonNumber {
    fn clone(&self) -> (copy: Self)
        ensures
            copy@ == self@,
    {
        match self {
            JsonNumber::Unsigned(n) => JsonNumber::Unsigned(*n),
            JsonNumber::Signed(i) => JsonNumber::Signed(*i),
            JsonNumber::Decimal(text) => JsonNumber::Decimal(text.clone()),
        }
    }
}

impl Clone for JsonValue {
    fn clone(&self) -> (copy: Self)
        ensures
            copy@ == self@,
        decreases self,
    {
        match self {
            JsonValue::Null => JsonValue::Null,
            JsonValue::Bool(b) => JsonValue::Bool(*b),
            JsonValue::Number(number) => JsonValue::Number(number.clone()),
            JsonValue::Text(text) => JsonValue::Text(text.clone()),
            JsonValue::Array(items) => {
                let mut copies: Vec<JsonValue> = Vec::new();
                let mut i: usize = 0;
                while i < items.len()
                    invariant
                        i <= items.len(),
                        self matches JsonValue::Array(own) && own == items,
                        copies@.len() == i,
                        forall|j: int| 0 <= j < i ==> (#[trigger] copies@[j])@ == items@[j]@,
                    decreases items.len() - i,
                {
                    let item = &items[i];
                    let copy = item.clone();
                    copies.push(copy);
                    i = i + 1;
                }
                proof {
                    assert(item_views(copies@) =~= item_views(items@));
                    lemma_array_view(*items);
                    lemma_array_view(copies);
                }
                JsonValue::Array(copies)
            },
            JsonValue::Object(members) => {
                let mut copies: Vec<JsonMember> = Vec::new();
                let mut i: usize = 0;
                while i < members.len()
                    invariant
                        i <= members.len(),
                        self matches JsonValue::Object(own) && own == members,
                        copies@.len() == i,
                        forall|j: int|
                            0 <= j < i ==> (#[trigger] copies@[j])@ == members@[j]@,
                    decreases members.len() - i,
                {
                    let member = &members[i];
                    let value = member.value.clone();
                    copies.push(JsonMember { key: member.key.clone(), value });
                    i = i + 1;
                }
                proof {
                    assert(member_views(copies@) =~= member_views(members@));
                    lemma_object_view(*members);
                    lemma_object_view(copies);
                }
                JsonValue::Object(copies)
            },
        }
    }
}

/// A remote file to attach under a form field.
#[derive(Debug)]
pub struct FileSource {
    pub field: String,
    pub url: String,
}

/// Mathematical content of a file source.
pub struct FileSourceView {
    pub field: Seq<char>,
    pub url: Seq<char>,
}

impl View for FileSource {
    type V = FileSourceView;

    open spec fn view(&self) -> FileSourceView {
        FileSourceView { field: self.field@, url: self.url@ }
    }
}

impl Clone for FileSource {
    fn clone(&self) -> (copy: Self)
        ensures
            copy@ == self@,
    {
        FileSource { field: self.field.clone(), url: self.url.clone() }
    }
}

/// The contents of some file sources, in order.
pub open spec fn source_views(sources: Seq<FileSource>) -> Seq<FileSourceView> {
    Seq::new(sources.len(), |i: int| sources[i]@)
}

/// No form field is named twice.
pub open spec fn distinct_fields(sources: Seq<FileSourceView>) -> bool {
    forall|i: int, j: int|
        0 <= i < j < sources.len() ==> (#[trigger] sources[i]).field != (#[trigger] sources[j]).field
}

/// Whether no form field is named twice.
pub fn has_distinct_fields(sources: &Vec<FileSource>) -> (distinct: bool)
    ensures
        distinct == distinct_fields(source_views(sources@)),
{
    let ghost views = source_views(sources@);
    let mut j: usize = 0;
    while j < sources.len()
        invariant
            j <= sources.len(),
            views == source_views(sources@),
            forall|a: int, b: int|
                0 <= a < b < j ==> (#[trigger] views[a]).field != (#[trigger] views[b]).field,
        decreases sources.len() - j,
    {
        let mut i: usize = 0;
        while i < j
            invariant
                i <= j,
                j < sources.len(),
                views == source_views(sources@),
                forall|a: int| 0 <= a < i ==> (#[trigger] views[a]).field != views[j as int].field,
            decreases j - i,
        {
            if sources[i].field == sources[j].field {
                assert(views[i as int].field == views[j as int].field);
                return false;
            }
            i = i + 1;
        }
        j = j + 1;
    }
    true
}

/// One HTTP call of a batch. The files to attach are kept in the order in
/// which they were given; a well-formed request names each form field once.
#[derive(Debug)]
pub struct Request {
    pub method: RequestMethod,
    pub url: String,
    pub body: Option<JsonValue>,
    pub auth: Option<LoginDto>,
    pub files: Option<Vec<FileSource>>,
}

/// Mathematical content of a request descriptor.
pub struct RequestView {
    pub method: RequestMethod,
    pub url: Seq<char>,
    pub body: Option<JsonView>,
    pub auth: Option<LoginView>,
    pub files: Option<Seq<FileSourceView>>,
}

/// The content of a body, if there is one.
pub open spec fn body_view(body: Option<JsonValue>) -> Option<JsonView> {
    match body {
        Some(value) => Some(value@),
        None => None,
    }
}

/// The content of inline credentials, if there are any.
pub open spec fn credentials_view(auth: Option<LoginDto>) -> Option<LoginView> {
    match auth {
        Some(login) => Some(login@),
        None => None,
    }
}

/// The contents of the files to attach, if any are named.
pub open spec fn files_view(files: Option<Vec<FileSource>>) -> Option<Seq<FileSourceView>> {
    match files {
        Some(sources) => Some(source_views(sources@)),
        None => None,
    }
}

impl View for Request {
    type V = RequestView;

    open spec fn view(&self) -> RequestView {
        RequestView {
            method: self.method,
            url: self.url@,
            body: body_view(self.body),
            auth: credentials_view(self.auth),
            files: files_view(self.files),
        }
    }
}

impl Request {
    /// The files, if any, name each form field once.
    pub open spec fn well_formed(&self) -> bool {
        match self@.files {
            Some(sources) => distinct_fields(sources),
            None => true,
        }
    }

    /// Whether the files, if any, name each form field once.
    pub fn is_well_formed(&self) -> (yes: bool)
        ensures
            yes == self.well_formed(),
    {
        match &self.files {
            Some(sources) => has_distinct_fields(sources),
            None => true,
        }
    }
}

impl Clone for Request {
    fn clone(&self) -> (copy: Self)
        ensures
            copy@ == self@,
    {
        let files = match &self.files {
            Some(sources) => {
                let mut copies: Vec<FileSource> = Vec::new();
                let mut i: usize = 0;
                while i < sources.len()
                    invariant
                        i <= sources.len(),
                        copies@.len() == i,
                        forall|j: int| 0 <= j < i ==> (#[trigger] copies@[j])@ == sources@[j]@,
                    decreases sources.len() - i,
                {
                    copies.push(sources[i].clone());
                    i = i + 1;
                }
                assert(source_views(copies@) =~= source_views(sources@));
                Some(copies)
            },
            None => None,
        };
        Request {
            method: self.method,
            url: self.url.clone(),
            body: match &self.body {
                Some(value) => Some(value.clone()),
                None => None,
            },
            auth: match &self.auth {
                Some(login) => Some(login.clone()),
                None => None,
            },
            files,
        }
    }
}

/// The envelope in which the API wraps its answers.
#[derive(Clone, Debug)]
pub struct Response<T> {
    pub data: T,
}

} // verus!
