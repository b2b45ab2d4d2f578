//! CardDAV: what a server answers, and the walk that finds the addressbook.

use crate::error::CardamomError;
use crate::search::{first_where, lemma_first_where_is, lemma_first_where_none};
use crate::text::{concatenate, decimal, ends_with, has_suffix, to_decimal};
use vstd::prelude::*;
use vstd::string::StringSliceAdditionalSpecFns;

verus! {

/// The wrapper of a CardDAV answer: zero or more `response` elements in one
/// `multistatus`.
#[derive(Debug, PartialEq, Eq)]
pub struct Multistatus<T> {
    pub responses: Vec<Response<T>>,
}

/// One `response`: the `href` of a resource and zero or more `propstat`
/// elements.
#[derive(Debug, PartialEq, Eq)]
pub struct Response<T> {
    pub href: String,
    pub propstat: Vec<Propstat<T>>,
}

/// One `propstat`: the properties, and the status that goes with them if the
/// server gave one.
#[derive(Debug, PartialEq, Eq)]
pub struct Propstat<T> {
    pub prop: T,
    pub status: Option<String>,
}

/// The `current-user-principal` property.
#[derive(Debug, PartialEq, Eq)]
pub struct CurrentUserPrincipalProp {
    pub current_user_principal: CurrentUserPrincipal,
}

/// The principal of the current user: the `href` that leads to it.
#[derive(Debug, PartialEq, Eq)]
pub struct CurrentUserPrincipal {
    pub href: String,
}

/// The `addressbook-home-set` property.
#[derive(Debug, PartialEq, Eq)]
pub struct AddressbookHomeSetProp {
    pub addressbook_home_set: AddressbookHomeSet,
}

/// The home of the addressbooks: the `href` that leads to it.
#[derive(Debug, PartialEq, Eq)]
pub struct AddressbookHomeSet {
    pub href: String,
}

/// The `resourcetype` property.
#[derive(Debug, PartialEq, Eq)]
pub struct AddressbookProp {
    pub resourcetype: AddressbookResourceType,
}

/// The type of a resource: whether it is an addressbook.
#[derive(Debug, PartialEq, Eq)]
pub struct AddressbookResourceType {
    pub addressbook: Option<Addressbook>,
}

/// The mark of a resource that is an addressbook.
#[derive(Debug, PartialEq, Eq)]
pub struct Addressbook {}

/// The properties of one card in a listing.
#[derive(Debug, PartialEq, Eq)]
pub struct AddressDataProp {
    pub address_data: Option<String>,
    pub getetag: Option<String>,
    pub getlastmodified: Option<String>,
}

/// The `getctag` property.
#[derive(Debug, PartialEq, Eq)]
pub struct CtagProp {
    pub getctag: String,
}

impl<T> Multistatus<T> {
    /// An answer without a `response`.
    pub fn empty() -> (multistatus: Multistatus<T>)
        ensures
            multistatus.responses@.len() == 0,
    {
        Multistatus { responses: Vec::new() }
    }
}

/// The type of an HTTP method in the `reqwest` crate.
#[verifier::external_type_specification]
#[verifier::external_body]
pub struct ExMethod(reqwest::Method);

/// The methods that the library uses.
#[derive(Debug, Clone, Copy, PartialEq, Eq, Structural)]
pub enum Verb {
    Propfind,
    Report,
    Get,
    Put,
    Delete,
}

/// A byte that may stand in the name of a method.
pub open spec fn is_method_byte(byte: u8) -> bool {
    ||| byte == 0x21 || byte == 0x2a || byte == 0x2b || byte == 0x2d || byte == 0x2e
    ||| 0x30 <= byte <= 0x39
    ||| 0x41 <= byte <= 0x5a
    ||| 0x5e <= byte <= 0x7a
    ||| byte == 0x7c || byte == 0x7e
}

/// A name that a method can have: not empty, and made of such bytes.
pub open spec fn is_method_name(name: Seq<u8>) -> bool {
    name.len() > 0 && forall|i: int| 0 <= i < name.len() ==> is_method_byte(#[trigger] name[i])
}

/// The method that a name stands for; `None` for a name that no method can
/// have.
pub uninterp spec fn method_named(name: Seq<u8>) -> Option<reqwest::Method>;

/// `reqwest::Method::from_bytes`, with its error dropped. The contract gives
/// the result a name: equal names give equal methods. The method exists
/// exactly for the names that are not empty and hold only the bytes that
/// the crate's table of method characters admits: `!`, `*`, `+`, `-`, `.`,
/// the digits, the letters, `^`, `_`, the backquote, `|` and `~`.
#[verifier::external_body]
fn method_from_bytes(name: &[u8]) -> (method: Option<reqwest::Method>)
    ensures
        method == method_named(name@),
        method is Some <==> is_method_name(name@),
{
    reqwest::Method::from_bytes(name).ok()
}

/// What building a method gave, as a result: the method, or the error that
/// stands for what cannot happen.
pub fn method_or_unknown(made: Option<reqwest::Method>) -> (method: Result<
    reqwest::Method,
    CardamomError,
>)
    ensures
        match made {
            Some(made) => method == Ok::<reqwest::Method, CardamomError>(made),
            None => method == Err::<reqwest::Method, CardamomError>(CardamomError::UnknownError),
        },
{
    match made {
        Some(made) => Ok(made),
        None => Err(CardamomError::UnknownError),
    }
}

impl Verb {
    /// The name of the method, as it goes over the wire.
    pub open spec fn name_of(self) -> Seq<u8> {
        match self {
            Verb::Propfind => seq![0x50u8, 0x52, 0x4f, 0x50, 0x46, 0x49, 0x4e, 0x44],
            Verb::Report => seq![0x52u8, 0x45, 0x50, 0x4f, 0x52, 0x54],
            Verb::Get => seq![0x47u8, 0x45, 0x54],
            Verb::Put => seq![0x50u8, 0x55, 0x54],
            Verb::Delete => seq![0x44u8, 0x45, 0x4c, 0x45, 0x54, 0x45],
        }
    }

    /// The name of the method, as it goes over the wire.
    pub fn name(&self) -> (name: Vec<u8>)
        ensures
            name@ == self.name_of(),
            is_method_name(name@),
    {
        let name = match self {
            Verb::Propfind => vec![0x50u8, 0x52, 0x4f, 0x50, 0x46, 0x49, 0x4e, 0x44],
            Verb::Report => vec![0x52u8, 0x45, 0x50, 0x4f, 0x52, 0x54],
            Verb::Get => vec![0x47u8, 0x45, 0x54],
            Verb::Put => vec![0x50u8, 0x55, 0x54],
            Verb::Delete => vec![0x44u8, 0x45, 0x4c, 0x45, 0x54, 0x45],
        };
        proof {
            assert(name@ =~= self.name_of());
        }
        name
    }

    /// The method, built from its name: the method that the name of the
    /// verb stands for. This never fails: every name that the library uses
    /// is one that a method can have.
    pub fn method(&self) -> (method: Result<reqwest::Method, CardamomError>)
        ensures
            method is Ok,
            Some(method->Ok_0) == method_named(self.name_of()),
    {
        let name = self.name();
        method_or_unknown(method_from_bytes(name.as_slice()))
    }
}

/// The method `REPORT`: the method that the name `REPORT` stands for.
pub fn report() -> (method: Result<reqwest::Method, CardamomError>)
    ensures
        method is Ok,
        Some(method->Ok_0) == method_named(Verb::Report.name_of()),
{
    Verb::Report.method()
}

/// The method `PROPFIND`: the method that the name `PROPFIND` stands for.
pub fn propfind() -> (method: Result<reqwest::Method, CardamomError>)
    ensures
        method is Ok,
        Some(method->Ok_0) == method_named(Verb::Propfind.name_of()),
{
    Verb::Propfind.method()
}

/// The body that asks for the current user's principal.
pub const CURRENT_USER_PRINCIPAL_BODY: &'static str = r#"
                <propfind xmlns="DAV:">
                    <prop>
                        <current-user-principal />
                    </prop>
                </propfind>
                "#;

/// The body that asks for the home of the addressbooks.
pub const ADDRESSBOOK_HOME_SET_BODY: &'static str = r#"
                <propfind xmlns="DAV:" xmlns:c="urn:ietf:params:xml:ns:carddav">
                    <prop>
                        <c:addressbook-home-set />
                    </prop>
                </propfind>
                "#;

/// The body that asks for the type of each resource.
pub const RESOURCETYPE_BODY: &'static str = r#"
                <propfind xmlns="DAV:">
                    <prop>
                        <resourcetype />
                    </prop>
                </propfind>
                "#;

/// The body that asks for the cards of an addressbook.
pub const ADDRESSBOOK_QUERY_BODY: &'static str = r#"
                <c:addressbook-query xmlns="DAV:" xmlns:c="urn:ietf:params:xml:ns:carddav">
                    <prop>
                        <getetag />
                        <getlastmodified />
                        <c:address-data />
                    </prop>
                </c:addressbook-query>
                "#;

/// The content type of an XML body.
pub const XML_CONTENT_TYPE: &'static str = "application/xml; charset=utf-8";

/// The content type of a card.
pub const VCARD_CONTENT_TYPE: &'static str = "text/vcard; charset=utf-8";

/// A request, ready to be sent with HTTP Basic authentication.
#[derive(Debug, PartialEq, Eq)]
pub struct Request {
    pub method: Verb,
    pub url: String,
    pub login: String,
    pub passwd: String,
    /// The `Content-Type` header, if the request has one.
    pub content_type: Option<String>,
    /// The `Depth` header, if the request has one.
    pub depth: Option<u8>,
    /// The `If-Match` header, if the request has one.
    pub if_match: Option<String>,
    pub body: String,
}

/// What came of a request: an answer, or the reason why the request did not
/// go through or why its answer could not be decoded.
#[derive(Debug, PartialEq, Eq)]
pub enum Exchange<T> {
    Answer(T),
    SendFailed(String),
    ParseFailed(String),
}

/// How far the walk to the addressbook has come.
#[derive(Debug, Clone, Copy, PartialEq, Eq, Structural)]
pub enum Discovery {
    Root,
    PrincipalResolved,
    HomeSetResolved,
    AddressbookResolved,
}

/// The longest URL or path, in bytes, that the library hands to the `url`
/// crate.
pub const MAX_URL_BYTES: usize = 0x0400_0000;

/// The URL that a text is parsed to, in its serialized form; `None` for a
/// text that is no absolute URL.
pub uninterp spec fn parsed_url(text: Seq<char>) -> Option<Seq<char>>;

/// The path of the URL that a text is parsed to.
pub uninterp spec fn path_of_url(url: Seq<char>) -> Option<Seq<char>>;

/// The URL that a text is parsed to, with another path.
pub uninterp spec fn url_with_path(url: Seq<char>, path: Seq<char>) -> Option<Seq<char>>;

/// `url::Url::parse`, with the URL taken as its serialization. The
/// contract gives the result a name and claims no more than that equal texts
/// are parsed alike.
#[verifier::external_body]
fn parse_url(text: &str) -> (url: Result<String, url::ParseError>)
    ensures
        url is Ok <==> parsed_url(text@) is Some,
        url is Ok ==> url.unwrap()@ == parsed_url(text@).unwrap(),
{
    url::Url::parse(text).map(String::from)
}

/// `url::Url::path`, of the URL that `url::Url::parse` makes of the text.
/// The contract gives the result a name.
#[verifier::external_body]
fn url_path(url: &str) -> (path: Result<String, url::ParseError>)
    ensures
        path is Ok <==> path_of_url(url@) is Some,
        path is Ok ==> path.unwrap()@ == path_of_url(url@).unwrap(),
{
    url::Url::parse(url).map(|url| url.path().to_owned())
}

/// `url::Url::set_path`, on the URL that `url::Url::parse` makes of the
/// text. The contract gives the result a name. The bound on the lengths
/// keeps the URL under the four gigabytes beyond which the crate panics.
#[verifier::external_body]
fn set_url_path(url: &str, path: &str) -> (moved: Result<String, url::ParseError>)
    requires
        url.spec_bytes().len() <= MAX_URL_BYTES,
        path.spec_bytes().len() <= MAX_URL_BYTES,
    ensures
        moved is Ok <==> url_with_path(url@, path@) is Some,
        moved is Ok ==> moved.unwrap()@ == url_with_path(url@, path@).unwrap(),
{
    let mut parsed = url::Url::parse(url)?;
    parsed.set_path(path);
    Ok(String::from(parsed))
}

/// Whether a text is short enough to be handed to the `url` crate.
pub open spec fn fits_url(text: Seq<char>) -> bool {
    vstd::utf8::encode_utf8(text).len() <= MAX_URL_BYTES
}

/// The URL with another path, where both are short enough and the URL can be
/// parsed.
pub open spec fn moved_url(url: Seq<char>, path: Seq<char>) -> Option<Seq<char>> {
    if fits_url(url) && fits_url(path) {
        url_with_path(url, path)
    } else {
        None
    }
}

/// Gives a URL another path. A URL or a path of more than `MAX_URL_BYTES`
/// bytes is refused; so is a text that is no URL.
pub fn move_url(url: &str, path: &str) -> (moved: Result<String, CardamomError>)
    ensures
        moved is Ok <==> moved_url(url@, path@) is Some,
        moved is Ok ==> moved.unwrap()@ == moved_url(url@, path@).unwrap(),
        moved is Err ==> (if fits_url(url@) && fits_url(path@) {
            moved.unwrap_err() matches CardamomError::ParseCardDavUrlError(text, _) && text@
                == url@
        } else {
            moved.unwrap_err() matches CardamomError::CardDavUrlTooLongError(text) && text@
                == url@
        }),
{
    if url.as_bytes().len() > MAX_URL_BYTES || path.as_bytes().len() > MAX_URL_BYTES {
        return Err(CardamomError::CardDavUrlTooLongError(url.to_owned()));
    }
    match set_url_path(url, path) {
        Ok(moved) => Ok(moved),
        Err(error) => Err(CardamomError::ParseCardDavUrlError(url.to_owned(), error)),
    }
}

/// The text of the root URL: `https://`, the host, a colon and the port.
pub open spec fn root_text(host: Seq<char>, port: u16) -> Seq<char> {
    "https://"@ + host + ":"@ + decimal(port as nat)
}

/// The `href` of the first `propstat` of the first `response`.
pub open spec fn principal_href(
    multistatus: Multistatus<CurrentUserPrincipalProp>,
) -> Option<Seq<char>> {
    if multistatus.responses@.len() > 0 && multistatus.responses@[0].propstat@.len() > 0 {
        Some(multistatus.responses@[0].propstat@[0].prop.current_user_principal.href@)
    } else {
        None
    }
}

/// The `href` of the first `propstat` of the first `response`.
pub open spec fn home_set_href(multistatus: Multistatus<AddressbookHomeSetProp>) -> Option<
    Seq<char>,
> {
    if multistatus.responses@.len() > 0 && multistatus.responses@[0].propstat@.len() > 0 {
        Some(multistatus.responses@[0].propstat@[0].prop.addressbook_home_set.href@)
    } else {
        None
    }
}

/// A `propstat` whose status ends with `200 OK` and whose resource type
/// holds the mark of an addressbook.
pub open spec fn marks_addressbook() -> spec_fn(Propstat<AddressbookProp>) -> bool {
    |propstat: Propstat<AddressbookProp>|
        propstat.status is Some && has_suffix(propstat.status.unwrap()@, "200 OK"@)
            && propstat.prop.resourcetype.addressbook is Some
}

/// A `response` with such a `propstat`.
pub open spec fn is_addressbook() -> spec_fn(Response<AddressbookProp>) -> bool {
    |response: Response<AddressbookProp>|
        first_where(response.propstat@, marks_addressbook()) is Some
}

/// The `href` of the first `response` that is an addressbook.
pub open spec fn addressbook_href(multistatus: Multistatus<AddressbookProp>) -> Option<Seq<char>> {
    match first_where(multistatus.responses@, is_addressbook()) {
        Some(i) => Some(multistatus.responses@[i].href@),
        None => None,
    }
}

/// The `href` of the first `propstat` of the first `response`, if there is
/// one.
pub fn find_principal_href(multistatus: &Multistatus<CurrentUserPrincipalProp>) -> (href: Option<
    &String,
>)
    ensures
        href is Some <==> principal_href(*multistatus) is Some,
        href is Some ==> href.unwrap()@ == principal_href(*multistatus).unwrap(),
{
    if multistatus.responses.len() > 0 && multistatus.responses[0].propstat.len() > 0 {
        Some(&multistatus.responses[0].propstat[0].prop.current_user_principal.href)
    } else {
        None
    }
}

/// The `href` of the first `propstat` of the first `response`, if there is
/// one.
pub fn find_home_set_href(multistatus: &Multistatus<AddressbookHomeSetProp>) -> (href: Option<
    &String,
>)
    ensures
        href is Some <==> home_set_href(*multistatus) is Some,
        href is Some ==> href.unwrap()@ == home_set_href(*multistatus).unwrap(),
{
    if multistatus.responses.len() > 0 && multistatus.responses[0].propstat.len() > 0 {
        Some(&multistatus.responses[0].propstat[0].prop.addressbook_home_set.href)
    } else {
        None
    }
}

fn has_addressbook_mark(response: &Response<AddressbookProp>) -> (marked: bool)
    ensures
        marked == is_addressbook()(*response),
{
    let mut j: usize = 0;
    while j < response.propstat.len()
        invariant
            j <= response.propstat@.len(),
            forall|k: int| 0 <= k < j ==> !marks_addressbook()(#[trigger] response.propstat@[k]),
        decreases response.propstat@.len() - j,
    {
        let propstat = &response.propstat[j];
        let valid_status = match &propstat.status {
            Some(status) => ends_with(status.as_str(), "200 OK"),
            None => false,
        };
        if valid_status && propstat.prop.resourcetype.addressbook.is_some() {
            proof {
                lemma_first_where_is(response.propstat@, marks_addressbook(), j as int);
            }
            return true;
        }
        j = j + 1;
    }
    proof {
        lemma_first_where_none(response.propstat@, marks_addressbook());
    }
    false
}

/// The `href` of the first `response` that has a `propstat` with a status
/// ending in `200 OK` and the mark of an addressbook.
pub fn find_addressbook_href(multistatus: &Multistatus<AddressbookProp>) -> (href: Option<&String>)
    ensures
        href is Some <==> addressbook_href(*multistatus) is Some,
        href is Some ==> href.unwrap()@ == addressbook_href(*multistatus).unwrap(),
{
    let mut i: usize = 0;
    while i < multistatus.responses.len()
        invariant
            i <= multistatus.responses@.len(),
            forall|k: int| 0 <= k < i ==> !is_addressbook()(#[trigger] multistatus.responses@[k]),
        decreases multistatus.responses@.len() - i,
    {
        if has_addressbook_mark(&multistatus.responses[i]) {
            proof {
                lemma_first_where_is(multistatus.responses@, is_addressbook(), i as int);
            }
            return Some(&multistatus.responses[i].href);
        }
        i = i + 1;
    }
    proof {
        lemma_first_where_none(multistatus.responses@, is_addressbook());
    }
    None
}

/// A client of one CardDAV server: the URLs that the walk to the
/// addressbook has found so far, and the credentials.
#[derive(Debug, PartialEq, Eq)]
pub struct CardDavClient {
    pub root_url: String,
    pub current_user_principal_url: String,
    pub addressbook_home_set_url: String,
    pub addressbook_url: String,
    pub login: String,
    pub passwd: String,
    pub state: Discovery,
}

/// The URLs of a client after a step of the walk: the path found, or the
/// path of `from` where none was found, is given to each URL that the step
/// refines. `None` where one of the URLs cannot be made.
pub open spec fn refined(from: Seq<char>, found: Option<Seq<char>>, url: Seq<char>) -> Option<
    Seq<char>,
> {
    match found {
        Some(path) => moved_url(url, path),
        None => match path_of_url(from) {
            Some(path) => moved_url(url, path),
            None => None,
        },
    }
}

impl CardDavClient {
    /// A client at the start of the walk: every URL is the root,
    /// `https://host:port/`.
    pub fn new(host: String, port: u16, login: String, passwd: String) -> (client: Result<
        CardDavClient,
        CardamomError,
    >)
        ensures
            client is Ok <==> parsed_url(root_text(host@, port)) is Some,
            client is Ok ==> {
                let client = client.unwrap();
                let root = parsed_url(root_text(host@, port)).unwrap();
                &&& client.root_url@ == root
                &&& client.current_user_principal_url@ == root
                &&& client.addressbook_home_set_url@ == root
                &&& client.addressbook_url@ == root
                &&& client.login@ == login@
                &&& client.passwd@ == passwd@
                &&& client.state == Discovery::Root
            },
            client is Err ==> (client.unwrap_err() matches CardamomError::ParseCardDavUrlError(
                text,
                _,
            ) && text@ == root_text(host@, port)),
    {
        let scheme_and_host = concatenate("https://", host.as_str());
        let with_colon = concatenate(scheme_and_host.as_str(), ":");
        let text = concatenate(with_colon.as_str(), to_decimal(port).as_str());
        match parse_url(text.as_str()) {
            Ok(root_url) => Ok(
                CardDavClient {
                    current_user_principal_url: root_url.clone(),
                    addressbook_home_set_url: root_url.clone(),
                    addressbook_url: root_url.clone(),
                    root_url,
                    login,
                    passwd,
                    state: Discovery::Root,
                },
            ),
            Err(error) => Err(CardamomError::ParseCardDavUrlError(text, error)),
        }
    }

    fn propfind_request(&self, url: &String, depth: u8, body: &str) -> (request: Request)
        ensures
            request.method == Verb::Propfind,
            request.url@ == url@,
            request.login@ == self.login@,
            request.passwd@ == self.passwd@,
            request.content_type is Some && request.content_type.unwrap()@ == XML_CONTENT_TYPE@,
            request.depth == Some(depth),
            request.if_match is None,
            request.body@ == body@,
    {
        Request {
            method: Verb::Propfind,
            url: url.clone(),
            login: self.login.clone(),
            passwd: self.passwd.clone(),
            content_type: Some(XML_CONTENT_TYPE.to_owned()),
            depth: Some(depth),
            if_match: None,
            body: body.to_owned(),
        }
    }

    /// The request of the next step of the walk; none once the addressbook
    /// is found.
    pub fn discovery_request(&self) -> (request: Option<Request>)
        ensures
            request is None <==> self.state == Discovery::AddressbookResolved,
            request is Some ==> {
                let request = request.unwrap();
                &&& request.method == Verb::Propfind
                &&& request.login@ == self.login@
                &&& request.passwd@ == self.passwd@
                &&& request.content_type is Some && request.content_type.unwrap()@
                    == XML_CONTENT_TYPE@
                &&& request.if_match is None
                &&& match self.state {
                    Discovery::Root => request.url@ == self.root_url@ && request.depth == Some(0u8)
                        && request.body@ == CURRENT_USER_PRINCIPAL_BODY@,
                    Discovery::PrincipalResolved => request.url@
                        == self.current_user_principal_url@ && request.depth == Some(0u8)
                        && request.body@ == ADDRESSBOOK_HOME_SET_BODY@,
                    _ => request.url@ == self.addressbook_home_set_url@ && request.depth == Some(
                        1u8,
                    ) && request.body@ == RESOURCETYPE_BODY@,
                }
            },
    {
        match self.state {
            Discovery::Root => Some(
                self.propfind_request(&self.root_url, 0, CURRENT_USER_PRINCIPAL_BODY),
            ),
            Discovery::PrincipalResolved => Some(
                self.propfind_request(
                    &self.current_user_principal_url,
                    0,
                    ADDRESSBOOK_HOME_SET_BODY,
                ),
            ),
            Discovery::HomeSetResolved => Some(
                self.propfind_request(&self.addressbook_home_set_url, 1, RESOURCETYPE_BODY),
            ),
            Discovery::AddressbookResolved => None,
        }
    }

    /// The path that a step goes on with: the one found, or the path of the
    /// URL that the step started from.
    fn path_or_inherited(from: &String, found: Option<&String>) -> (path: Result<
        String,
        CardamomError,
    >)
        ensures
            path is Ok <==> found is Some || path_of_url(from@) is Some,
            path is Ok ==> path.unwrap()@ == (match found {
                Some(found) => found@,
                None => path_of_url(from@).unwrap(),
            }),
            path is Err ==> (path.unwrap_err() matches CardamomError::ParseCardDavUrlError(text, _)
                && text@ == from@),
    {
        match found {
            Some(found) => Ok(found.clone()),
            None => match url_path(from.as_str()) {
                Ok(path) => Ok(path),
                Err(error) => Err(CardamomError::ParseCardDavUrlError(from.clone(), error)),
            },
        }
    }

    /// The first step of the walk: the path of the current user's
    /// principal, from the answer to the first request, becomes the path of
    /// the three URLs that follow the root. An answer without it leaves
    /// them the path of the root.
    pub fn update_current_user_principal_url(
        &mut self,
        exchange: Exchange<Multistatus<CurrentUserPrincipalProp>>,
    ) -> (done: Result<(), CardamomError>)
        ensures
            final(self).root_url == old(self).root_url,
            final(self).login == old(self).login,
            final(self).passwd == old(self).passwd,
            done is Err ==> *final(self) == *old(self),
            match exchange {
                Exchange::SendFailed(reason) => done
                    == Err::<(), CardamomError>(
                    CardamomError::FetchCurrentUserPrincipalUrlError(reason),
                ),
                Exchange::ParseFailed(reason) => done
                    == Err::<(), CardamomError>(
                    CardamomError::ParseCurrentUserPrincipalUrlError(reason),
                ),
                Exchange::Answer(multistatus) => {
                    let from = old(self).root_url@;
                    let found = principal_href(multistatus);
                    let principal = refined(from, found, old(self).current_user_principal_url@);
                    let home_set = refined(from, found, old(self).addressbook_home_set_url@);
                    let addressbook = refined(from, found, old(self).addressbook_url@);
                    &&& done is Ok <==> principal is Some && home_set is Some && addressbook
                        is Some
                    &&& done is Ok ==> {
                        &&& final(self).current_user_principal_url@ == principal.unwrap()
                        &&& final(self).addressbook_home_set_url@ == home_set.unwrap()
                        &&& final(self).addressbook_url@ == addressbook.unwrap()
                        &&& final(self).state == Discovery::PrincipalResolved
                    }
                    &&& done is Err ==> done.unwrap_err() is ParseCardDavUrlError
                        || done.unwrap_err() is CardDavUrlTooLongError
                },
            },
    {
        match exchange {
            Exchange::SendFailed(reason) => Err(
                CardamomError::FetchCurrentUserPrincipalUrlError(reason),
            ),
            Exchange::ParseFailed(reason) => Err(
                CardamomError::ParseCurrentUserPrincipalUrlError(reason),
            ),
            Exchange::Answer(multistatus) => {
                let path = match Self::path_or_inherited(
                    &self.root_url,
                    find_principal_href(&multistatus),
                ) {
                    Ok(path) => path,
                    Err(error) => {
                        return Err(error);
                    },
                };
                let principal = match move_url(
                    self.current_user_principal_url.as_str(),
                    path.as_str(),
                ) {
                    Ok(url) => url,
                    Err(error) => {
                        return Err(error);
                    },
                };
                let home_set = match move_url(
                    self.addressbook_home_set_url.as_str(),
                    path.as_str(),
                ) {
                    Ok(url) => url,
                    Err(error) => {
                        return Err(error);
                    },
                };
                let addressbook = match move_url(self.addressbook_url.as_str(), path.as_str()) {
                    Ok(url) => url,
                    Err(error) => {
                        return Err(error);
                    },
                };
                self.current_user_principal_url = principal;
                self.addressbook_home_set_url = home_set;
                self.addressbook_url = addressbook;
                self.state = Discovery::PrincipalResolved;
                Ok(())
            },
        }
    }

    /// The second step of the walk: the path of the home of the
    /// addressbooks, from the answer to the second request, becomes the path
    /// of the two URLs that follow the principal. An answer without it
    /// leaves them the path of the principal.
    pub fn update_addressbook_home_set_url(
        &mut self,
        exchange: Exchange<Multistatus<AddressbookHomeSetProp>>,
    ) -> (done: Result<(), CardamomError>)
        ensures
            final(self).root_url == old(self).root_url,
            final(self).current_user_principal_url == old(self).current_user_principal_url,
            final(self).login == old(self).login,
            final(self).passwd == old(self).passwd,
            done is Err ==> *final(self) == *old(self),
            match exchange {
                Exchange::SendFailed(reason) => done
                    == Err::<(), CardamomError>(
                    CardamomError::FetchAddressbookHomeSetUrlError(reason),
                ),
                Exchange::ParseFailed(reason) => done
                    == Err::<(), CardamomError>(
                    CardamomError::ParseAddressbookHomeSetUrlError(reason),
                ),
                Exchange::Answer(multistatus) => {
                    let from = old(self).current_user_principal_url@;
                    let found = home_set_href(multistatus);
                    let home_set = refined(from, found, old(self).addressbook_home_set_url@);
                    let addressbook = refined(from, found, old(self).addressbook_url@);
                    &&& done is Ok <==> home_set is Some && addressbook is Some
                    &&& done is Ok ==> {
                        &&& final(self).addressbook_home_set_url@ == home_set.unwrap()
                        &&& final(self).addressbook_url@ == addressbook.unwrap()
                        &&& final(self).state == Discovery::HomeSetResolved
                    }
                    &&& done is Err ==> done.unwrap_err() is ParseCardDavUrlError
                        || done.unwrap_err() is CardDavUrlTooLongError
                },
            },
    {
        match exchange {
            Exchange::SendFailed(reason) => Err(
                CardamomError::FetchAddressbookHomeSetUrlError(reason),
            ),
            Exchange::ParseFailed(reason) => Err(
                CardamomError::ParseAddressbookHomeSetUrlError(reason),
            ),
            Exchange::Answer(multistatus) => {
                let path = match Self::path_or_inherited(
                    &self.current_user_principal_url,
                    find_home_set_href(&multistatus),
                ) {
                    Ok(path) => path,
                    Err(error) => {
                        return Err(error);
                    },
                };
                let home_set = match move_url(
                    self.addressbook_home_set_url.as_str(),
                    path.as_str(),
                ) {
                    Ok(url) => url,
                    Err(error) => {
                        return Err(error);
                    },
                };
                let addressbook = match move_url(self.addressbook_url.as_str(), path.as_str()) {
                    Ok(url) => url,
                    Err(error) => {
                        return Err(error);
                    },
                };
                self.addressbook_home_set_url = home_set;
                self.addressbook_url = addressbook;
                self.state = Discovery::HomeSetResolved;
                Ok(())
            },
        }
    }

    /// The third step of the walk: the `href` of the first resource that is
    /// an addressbook, from the answer to the third request, becomes the
    /// path of the addressbook's URL. An answer without one leaves it the
    /// path of the home of the addressbooks.
    pub fn update_addressbook_url(
        &mut self,
        exchange: Exchange<Multistatus<AddressbookProp>>,
    ) -> (done: Result<(), CardamomError>)
        ensures
            final(self).root_url == old(self).root_url,
            final(self).current_user_principal_url == old(self).current_user_principal_url,
            final(self).addressbook_home_set_url == old(self).addressbook_home_set_url,
            final(self).login == old(self).login,
            final(self).passwd == old(self).passwd,
            done is Err ==> *final(self) == *old(self),
            match exchange {
                Exchange::SendFailed(reason) => done
                    == Err::<(), CardamomError>(CardamomError::FetchAddressbookUrlError(reason)),
                Exchange::ParseFailed(reason) => done
                    == Err::<(), CardamomError>(CardamomError::ParseAddressbookUrlError(reason)),
                Exchange::Answer(multistatus) => {
                    let from = old(self).addressbook_home_set_url@;
                    let found = addressbook_href(multistatus);
                    let addressbook = refined(from, found, old(self).addressbook_url@);
                    &&& done is Ok <==> addressbook is Some
                    &&& done is Ok ==> {
                        &&& final(self).addressbook_url@ == addressbook.unwrap()
                        &&& final(self).state == Discovery::AddressbookResolved
                    }
                    &&& done is Err ==> done.unwrap_err() is ParseCardDavUrlError
                        || done.unwrap_err() is CardDavUrlTooLongError
                },
            },
    {
        match exchange {
            Exchange::SendFailed(reason) => Err(CardamomError::FetchAddressbookUrlError(reason)),
            Exchange::ParseFailed(reason) => Err(CardamomError::ParseAddressbookUrlError(reason)),
            Exchange::Answer(multistatus) => {
                let path = match Self::path_or_inherited(
                    &self.addressbook_home_set_url,
                    find_addressbook_href(&multistatus),
                ) {
                    Ok(path) => path,
                    Err(error) => {
                        return Err(error);
                    },
                };
                let addressbook = match move_url(self.addressbook_url.as_str(), path.as_str()) {
                    Ok(url) => url,
                    Err(error) => {
                        return Err(error);
                    },
                };
                self.addressbook_url = addressbook;
                self.state = Discovery::AddressbookResolved;
                Ok(())
            },
        }
    }

    /// The request that lists the cards of the addressbook with their etag
    /// and the date of their last modification.
    pub fn address_data_request(&self) -> (request: Request)
        ensures
            request.method == Verb::Report,
            request.url@ == self.addressbook_url@,
            request.login@ == self.login@,
            request.passwd@ == self.passwd@,
            request.content_type is Some && request.content_type.unwrap()@ == XML_CONTENT_TYPE@,
            request.depth == Some(1u8),
            request.if_match is None,
            request.body@ == ADDRESSBOOK_QUERY_BODY@,
    {
        Request {
            method: Verb::Report,
            url: self.addressbook_url.clone(),
            login: self.login.clone(),
            passwd: self.passwd.clone(),
            content_type: Some(XML_CONTENT_TYPE.to_owned()),
            depth: Some(1),
            if_match: None,
            body: ADDRESSBOOK_QUERY_BODY.to_owned(),
        }
    }

    /// The listing of the addressbook, from what came of the request for it.
    pub fn fetch_address_data(
        &self,
        exchange: Exchange<Multistatus<AddressDataProp>>,
    ) -> (listing: Result<Multistatus<AddressDataProp>, CardamomError>)
        ensures
            match exchange {
                Exchange::Answer(multistatus) => listing
                    == Ok::<Multistatus<AddressDataProp>, CardamomError>(multistatus),
                Exchange::SendFailed(reason) => listing
                    == Err::<Multistatus<AddressDataProp>, CardamomError>(
                    CardamomError::FetchAddressDataError(reason),
                ),
                Exchange::ParseFailed(reason) => listing
                    == Err::<Multistatus<AddressDataProp>, CardamomError>(
                    CardamomError::ParseAddressDataError(reason),
                ),
            },
    {
        match exchange {
            Exchange::Answer(multistatus) => Ok(multistatus),
            Exchange::SendFailed(reason) => Err(CardamomError::FetchAddressDataError(reason)),
            Exchange::ParseFailed(reason) => Err(CardamomError::ParseAddressDataError(reason)),
        }
    }
}

} // verus!
