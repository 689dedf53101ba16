//! The request document model and its ordered, fail-fast validation rules.
use crate::text::{blank, is_blank, is_printable_ascii, same_text};
use vstd::prelude::*;
use vstd::string::*;

verus! {

/// The kind of a [`ValidationError`], without its text.
#[derive(Clone, Copy, Debug, PartialEq, Eq, Structural)]
pub enum ErrorKind {
    InvalidMethod,
    InvalidUrl,
    MissingField,
    InvalidHeader,
    InvalidJson,
    FileIo,
    UnsupportedFormat,
    Parse,
}

/// Everything that can go wrong while loading or validating one document.
/// Each kind carries a descriptive text.
#[derive(Clone, Debug, PartialEq, Eq)]
pub enum ValidationError {
    InvalidMethod(String),
    InvalidUrl(String),
    MissingField(String),
    InvalidHeader(String),
    InvalidJson(String),
    FileIo(String),
    UnsupportedFormat(String),
    Parse(String),
}

impl View for ValidationError {
    type V = (ErrorKind, Seq<char>);

    open spec fn view(&self) -> (ErrorKind, Seq<char>) {
        match self {
            ValidationError::InvalidMethod(s) => (ErrorKind::InvalidMethod, s@),
            ValidationError::InvalidUrl(s) => (ErrorKind::InvalidUrl, s@),
            ValidationError::MissingField(s) => (ErrorKind::MissingField, s@),
            ValidationError::InvalidHeader(s) => (ErrorKind::InvalidHeader, s@),
            ValidationError::InvalidJson(s) => (ErrorKind::InvalidJson, s@),
            ValidationError::FileIo(s) => (ErrorKind::FileIo, s@),
            ValidationError::UnsupportedFormat(s) => (ErrorKind::UnsupportedFormat, s@),
            ValidationError::Parse(s) => (ErrorKind::Parse, s@),
        }
    }
}

impl ValidationError {
    pub fn kind(&self) -> (r: ErrorKind)
        ensures
            r == self@.0,
    {
        match self {
            ValidationError::InvalidMethod(_) => ErrorKind::InvalidMethod,
            ValidationError::InvalidUrl(_) => ErrorKind::InvalidUrl,
            ValidationError::MissingField(_) => ErrorKind::MissingField,
            ValidationError::InvalidHeader(_) => ErrorKind::InvalidHeader,
            ValidationError::InvalidJson(_) => ErrorKind::InvalidJson,
            ValidationError::FileIo(_) => ErrorKind::FileIo,
            ValidationError::UnsupportedFormat(_) => ErrorKind::UnsupportedFormat,
            ValidationError::Parse(_) => ErrorKind::Parse,
        }
    }

    /// The descriptive text that the error carries.
    pub fn detail(&self) -> (r: &str)
        ensures
            r@ == self@.1,
    {
        match self {
            ValidationError::InvalidMethod(s) => s.as_str(),
            ValidationError::InvalidUrl(s) => s.as_str(),
            ValidationError::MissingField(s) => s.as_str(),
            ValidationError::InvalidHeader(s) => s.as_str(),
            ValidationError::InvalidJson(s) => s.as_str(),
            ValidationError::FileIo(s) => s.as_str(),
            ValidationError::UnsupportedFormat(s) => s.as_str(),
            ValidationError::Parse(s) => s.as_str(),
        }
    }
}

#[derive(Clone, Copy, Debug, PartialEq, Eq, Structural)]
pub enum HttpMethod {
    GET,
    POST,
    PUT,
    PATCH,
    DELETE,
    HEAD,
    OPTIONS,
}

/// The method that a document's literal names; the literals are the
/// variants' names, upper case.
pub open spec fn method_named(name: Seq<char>) -> Option<HttpMethod> {
    if name == "GET"@ {
        Some(HttpMethod::GET)
    } else if name == "POST"@ {
        Some(HttpMethod::POST)
    } else if name == "PUT"@ {
        Some(HttpMethod::PUT)
    } else if name == "PATCH"@ {
        Some(HttpMethod::PATCH)
    } else if name == "DELETE"@ {
        Some(HttpMethod::DELETE)
    } else if name == "HEAD"@ {
        Some(HttpMethod::HEAD)
    } else if name == "OPTIONS"@ {
        Some(HttpMethod::OPTIONS)
    } else {
        None
    }
}

impl HttpMethod {
    /// The method that `name` names; `InvalidMethod` with the literal where
    /// it names none.
    pub fn from_name(name: &str) -> (r: Result<HttpMethod, ValidationError>)
        ensures
            match method_named(name@) {
                Some(m) => r == Ok::<HttpMethod, ValidationError>(m),
                None => r is Err && r->Err_0@ == (ErrorKind::InvalidMethod, name@),
            },
    {
        if same_text(name, "GET") {
            Ok(HttpMethod::GET)
        } else if same_text(name, "POST") {
            Ok(HttpMethod::POST)
        } else if same_text(name, "PUT") {
            Ok(HttpMethod::PUT)
        } else if same_text(name, "PATCH") {
            Ok(HttpMethod::PATCH)
        } else if same_text(name, "DELETE") {
            Ok(HttpMethod::DELETE)
        } else if same_text(name, "HEAD") {
            Ok(HttpMethod::HEAD)
        } else if same_text(name, "OPTIONS") {
            Ok(HttpMethod::OPTIONS)
        } else {
            Err(ValidationError::InvalidMethod(name.to_string()))
        }
    }
}

/// A JSON value as a request document holds it, in its compact text form
/// (no white space between tokens).
#[derive(Clone, Debug, PartialEq, Eq)]
pub struct JsonValue {
    pub text: String,
}

impl JsonValue {
    /// Whether the value is the null literal.
    pub open spec fn spec_is_null(&self) -> bool {
        self.text@ == "null"@
    }

    pub fn is_null(&self) -> (r: bool)
        ensures
            r == self.spec_is_null(),
    {
        same_text(self.text.as_str(), "null")
    }
}

/// The body of a request: exactly one shape per document.
#[derive(Clone, Debug, PartialEq)]
pub enum RequestBody {
    Json(JsonValue),
    Text(String),
    Form(Vec<(String, String)>),
    File(String),
}

#[derive(Clone, Copy, Debug, PartialEq, Eq, Structural)]
pub enum ApiKeyLocation {
    Header,
    Query,
}

#[derive(Clone, Debug, PartialEq)]
pub enum AuthConfig {
    Bearer { token: String },
    Basic { username: String, password: String },
    ApiKey { key: String, value: String, location: ApiKeyLocation },
}

/// One assertion on the response of a request.
#[derive(Clone, Debug, PartialEq)]
pub struct TestAssertion {
    pub status_code: Option<u16>,
    pub response_time_less_than: Option<u64>,
    pub json_path: Option<String>,
    pub exists: Option<bool>,
    pub equals: Option<JsonValue>,
}

/// One request document. Headers, parameters and form fields are kept as
/// name/value pairs, one pair per name.
#[derive(Clone, Debug, PartialEq)]
pub struct RequestDefinition {
    pub name: String,
    pub method: HttpMethod,
    pub url: String,
    pub headers: Option<Vec<(String, String)>>,
    pub params: Option<Vec<(String, String)>>,
    pub body: Option<RequestBody>,
    pub auth: Option<AuthConfig>,
    pub tests: Option<Vec<TestAssertion>>,
}

/// A header name is acceptable: not blank, and printable ASCII throughout.
pub open spec fn valid_header_name(name: Seq<char>) -> bool {
    !is_blank(name) && forall|i: int| 0 <= i < name.len() ==> is_printable_ascii(#[trigger] name[i])
}

/// The first header name of `names` that is not acceptable.
pub open spec fn first_invalid_header(names: Seq<Seq<char>>) -> Option<Seq<char>>
    decreases names.len(),
{
    if names.len() == 0 {
        None
    } else if !valid_header_name(names[0]) {
        Some(names[0])
    } else {
        first_invalid_header(names.drop_first())
    }
}

pub open spec fn header_names(headers: Seq<(String, String)>) -> Seq<Seq<char>> {
    headers.map_values(|h: (String, String)| h.0@)
}

pub open spec fn in_status_range(code: u16) -> bool {
    100 <= code && code <= 599
}

/// The first status code among the assertions that lies outside 100..=599.
pub open spec fn first_bad_status(tests: Seq<TestAssertion>) -> Option<u16>
    decreases tests.len(),
{
    if tests.len() == 0 {
        None
    } else if tests[0].status_code is Some && !in_status_range(tests[0].status_code->0) {
        tests[0].status_code
    } else {
        first_bad_status(tests.drop_first())
    }
}

pub open spec fn digit_char(d: nat) -> char {
    if d == 0 { '0' }
    else if d == 1 { '1' }
    else if d == 2 { '2' }
    else if d == 3 { '3' }
    else if d == 4 { '4' }
    else if d == 5 { '5' }
    else if d == 6 { '6' }
    else if d == 7 { '7' }
    else if d == 8 { '8' }
    else { '9' }
}

/// The decimal digits of `n`, without leading zeros.
pub open spec fn decimal(n: nat) -> Seq<char>
    decreases n,
{
    if n < 10 {
        seq![digit_char(n)]
    } else {
        decimal(n / 10).push(digit_char(n % 10))
    }
}

pub open spec fn null_body_message() -> Seq<char> {
    "Body cannot be null"@
}

pub open spec fn status_code_message(code: u16) -> Seq<char> {
    "Invalid status code: "@ + decimal(code as nat)
}

/// What validation reports of a document: the first rule that it breaks,
/// in the fixed order name, url, headers, body, status codes; `None` where
/// it breaks none.
pub open spec fn validation_outcome(d: RequestDefinition) -> Option<(ErrorKind, Seq<char>)> {
    if is_blank(d.name@) {
        Some((ErrorKind::MissingField, "name"@))
    } else if is_blank(d.url@) {
        Some((ErrorKind::MissingField, "url"@))
    } else if d.headers is Some && first_invalid_header(header_names(d.headers->0@)) is Some {
        Some((ErrorKind::InvalidHeader, first_invalid_header(header_names(d.headers->0@))->0))
    } else if d.body is Some && d.body->0 is Json && d.body->0->Json_0.spec_is_null() {
        Some((ErrorKind::InvalidJson, null_body_message()))
    } else if d.tests is Some && first_bad_status(d.tests->0@) is Some {
        Some((ErrorKind::InvalidJson, status_code_message(first_bad_status(d.tests->0@)->0)))
    } else {
        None
    }
}

/// Relies on the `Display` impl of `u16` (through `to_string`): the decimal
/// digits of the number, without sign or leading zeros.
#[verifier::external_body]
fn status_code_text(code: u16) -> (r: String)
    ensures
        r@ == decimal(code as nat),
{
    code.to_string()
}

/// Whether `name` is acceptable as a header name.
pub fn is_valid_header_name(name: &str) -> (r: bool)
    ensures
        r == valid_header_name(name@),
{
    if blank(name) {
        return false;
    }
    let n = name.unicode_len();
    let mut i: usize = 0;
    while i < n
        invariant
            n == name@.len(),
            forall|j: int| 0 <= j < i ==> is_printable_ascii(#[trigger] name@[j]),
        decreases n - i,
    {
        let c = name.get_char(i);
        let u = c as u32;
        if !(0x20 <= u && u <= 0x7e) {
            return false;
        }
        i = i + 1;
    }
    true
}

fn find_invalid_header(headers: &Vec<(String, String)>) -> (r: Option<&String>)
    ensures
        match r {
            Some(k) => first_invalid_header(header_names(headers@)) == Some(k@),
            None => first_invalid_header(header_names(headers@)) is None,
        },
{
    let ghost names = header_names(headers@);
    let mut i: usize = 0;
    assert(names.subrange(0, names.len() as int) =~= names);
    while i < headers.len()
        invariant
            i <= headers.len(),
            names == header_names(headers@),
            first_invalid_header(names) == first_invalid_header(names.subrange(i as int, names.len() as int)),
        decreases headers.len() - i,
    {
        let key = &headers[i].0;
        let ghost rest = names.subrange(i as int, names.len() as int);
        assert(rest[0] == key@);
        assert(rest.drop_first() =~= names.subrange(i + 1, names.len() as int));
        if !is_valid_header_name(key.as_str()) {
            return Some(key);
        }
        i = i + 1;
    }
    assert(names.subrange(i as int, names.len() as int) =~= Seq::<Seq<char>>::empty());
    None
}

fn find_bad_status(tests: &Vec<TestAssertion>) -> (r: Option<u16>)
    ensures
        r == first_bad_status(tests@),
{
    let mut i: usize = 0;
    assert(tests@.subrange(0, tests@.len() as int) =~= tests@);
    while i < tests.len()
        invariant
            i <= tests.len(),
            first_bad_status(tests@) == first_bad_status(tests@.subrange(i as int, tests@.len() as int)),
        decreases tests.len() - i,
    {
        let ghost rest = tests@.subrange(i as int, tests@.len() as int);
        assert(rest[0] == tests@[i as int]);
        assert(rest.drop_first() =~= tests@.subrange(i + 1, tests@.len() as int));
        if let Some(code) = tests[i].status_code {
            if !(100 <= code && code <= 599) {
                return Some(code);
            }
        }
        i = i + 1;
    }
    assert(tests@.subrange(i as int, tests@.len() as int) =~= Seq::<TestAssertion>::empty());
    None
}

impl RequestDefinition {
    /// Checks the document against its rules in order and reports the first
    /// one that it breaks. The document is not changed.
    pub fn validate(&self) -> (r: Result<(), ValidationError>)
        ensures
            match r {
                Ok(_) => validation_outcome(*self) is None,
                Err(e) => validation_outcome(*self) == Some(e@),
            },
    {
        if blank(self.name.as_str()) {
            return Err(ValidationError::MissingField(String::from_str("name")));
        }
        if blank(self.url.as_str()) {
            return Err(ValidationError::MissingField(String::from_str("url")));
        }
        if let Some(headers) = &self.headers {
            if let Some(key) = find_invalid_header(headers) {
                return Err(ValidationError::InvalidHeader(key.clone()));
            }
        }
        if let Some(RequestBody::Json(json)) = &self.body {
            if json.is_null() {
                return Err(ValidationError::InvalidJson(String::from_str("Body cannot be null")));
            }
        }
        if let Some(tests) = &self.tests {
            if let Some(code) = find_bad_status(tests) {
                let text = String::from_str("Invalid status code: ").concat(
                    status_code_text(code).as_str(),
                );
                return Err(ValidationError::InvalidJson(text));
            }
        }
        Ok(())
    }
}

} // verus!
