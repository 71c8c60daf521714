//! The service client: a base URL and the headers that every request
//! carries, the request it forms for an endpoint, and what it makes of the
//! exchange that follows.

use crate::credentials::{acceptable_credentials, basic_authorization, basic_authorization_value};
use crate::error::ServiceError;
use crate::header::{
    copy_headers, header_values_safe, header_views, is_header_safe, is_header_safe_char, Header,
};
use crate::payload::{json_object, parse_payload, Payload};
use vstd::prelude::*;
use vstd::string::*;

verus! {

/// What a client is, seen as plain text.
pub ghost struct ServiceView {
    pub base_url: Seq<char>,
    pub headers: Seq<(Seq<char>, Seq<char>)>,
}

/// What a request is, seen as plain text.
pub ghost struct RequestView {
    pub url: Seq<char>,
    pub headers: Seq<(Seq<char>, Seq<char>)>,
}

/// A GET request: its target and its header fields.
#[derive(Clone, Debug, PartialEq, Eq)]
pub struct Request {
    pub url: String,
    pub headers: Vec<Header>,
}

impl View for Request {
    type V = RequestView;

    open spec fn view(&self) -> RequestView {
        RequestView { url: self.url@, headers: header_views(self.headers@) }
    }
}

/// How the exchange that a request started has ended.
#[derive(Clone, Debug, PartialEq, Eq)]
pub enum Exchange {
    /// The request could not be sent at all: its target is no URL.
    Unsendable,
    /// No complete response arrived: no connection, or one that broke.
    Failed,
    /// A response arrived in full, whatever its status.
    Answered { status: u16, body: Vec<u8> },
}

/// The headers of a client with the given credentials.
pub open spec fn client_headers(username: Seq<char>, password: Seq<char>) -> Seq<
    (Seq<char>, Seq<char>),
> {
    seq![
        ("Accept"@, "application/json"@),
        ("Authorization"@, basic_authorization(username, password)),
    ]
}

/// The target of a request: base URL, one slash, endpoint. Nothing is
/// escaped and no slash is dropped, whatever the two parts begin or end with.
pub open spec fn request_target(base_url: Seq<char>, endpoint: Seq<char>) -> Seq<char> {
    base_url + seq!['/'] + endpoint
}

/// What a fetch returns for an exchange: a configuration error where the
/// request could not be sent, a transport error where no complete response
/// arrived, and else what the body holds, whatever the status.
pub open spec fn interpretation(exchange: Exchange) -> Result<
    Map<Seq<char>, Seq<char>>,
    ServiceError,
> {
    match exchange {
        Exchange::Unsendable => Err(ServiceError::Configuration),
        Exchange::Failed => Err(ServiceError::Transport),
        Exchange::Answered { body, .. } => match json_object(body@) {
            Some(fields) => Ok(fields),
            None => Err(ServiceError::ResponseFormat),
        },
    }
}

/// Whether two exchanges ended alike: both unsendable, both failed, or both
/// answered with the same body, under whatever status.
pub open spec fn same_answer(first: Exchange, second: Exchange) -> bool {
    match (first, second) {
        (Exchange::Unsendable, Exchange::Unsendable) => true,
        (Exchange::Failed, Exchange::Failed) => true,
        (Exchange::Answered { body: one, .. }, Exchange::Answered { body: other, .. }) => one@
            == other@,
        _ => false,
    }
}

/// The outcome of a fetch, with the payload seen as a mapping.
pub open spec fn outcome_view(outcome: Result<Payload, ServiceError>) -> Result<
    Map<Seq<char>, Seq<char>>,
    ServiceError,
> {
    match outcome {
        Ok(payload) => Ok(payload@),
        Err(error) => Err(error),
    }
}

/// What the caller of a fetch prints: the JSON text under the key `value`
/// where the payload has that key, nothing where it has not, and a message
/// for an error.
pub open spec fn report_text(outcome: Result<Map<Seq<char>, Seq<char>>, ServiceError>) -> Option<
    Seq<char>,
> {
    match outcome {
        Ok(fields) => if fields.contains_key("value"@) {
            Some(fields["value"@])
        } else {
            None
        },
        Err(error) => Some("Error: "@ + error.message_text()),
    }
}

/// A client of one service: the base URL and the headers of its requests.
/// Nothing in it changes once it is built.
#[derive(Debug, PartialEq, Eq)]
pub struct SAPODataService {
    service_url: String,
    headers: Vec<Header>,
}

impl View for SAPODataService {
    type V = ServiceView;

    closed spec fn view(&self) -> ServiceView {
        ServiceView { base_url: self.service_url@, headers: header_views(self.headers@) }
    }
}

impl SAPODataService {
    /// Two headers, `Accept` and `Authorization`, with header-safe values.
    #[verifier::type_invariant]
    spec fn well_formed(&self) -> bool {
        &&& self.headers@.len() == 2
        &&& self.headers@[0]@ == ("Accept"@, "application/json"@)
        &&& self.headers@[1].name@ == "Authorization"@
        &&& is_header_safe(self.headers@[0].value@)
        &&& is_header_safe(self.headers@[1].value@)
    }

    /// The request that a fetch of `endpoint` sends: the target under the
    /// base URL, with the client's headers.
    pub open spec fn request_for(&self, endpoint: Seq<char>) -> RequestView {
        RequestView {
            url: request_target(self@.base_url, endpoint),
            headers: self@.headers,
        }
    }

    /// A client for the service at `service_url`, which is taken as it is.
    /// Credentials that are not acceptable give a configuration error.
    pub fn new(service_url: &str, username: &str, password: &str) -> (created: Result<
        Self,
        ServiceError,
    >)
        ensures
            created is Ok <==> acceptable_credentials(username@, password@),
            created matches Ok(service) ==> {
                &&& service@.base_url == service_url@
                &&& service@.headers == client_headers(username@, password@)
                &&& header_values_safe(service@.headers)
            },
            created matches Err(error) ==> error == ServiceError::Configuration,
    {
        let authorization = match basic_authorization_value(username, password) {
            Some(value) => value,
            None => {
                return Err(ServiceError::Configuration);
            },
        };
        let accept = String::from_str("application/json");
        proof {
            reveal_strlit("application/json");
            assert forall|i: int| 0 <= i < accept@.len() implies is_header_safe_char(
                #[trigger] accept@[i],
            ) by {}
        }
        let mut headers: Vec<Header> = Vec::new();
        headers.push(Header { name: String::from_str("Accept"), value: accept });
        headers.push(Header { name: String::from_str("Authorization"), value: authorization });
        let service = SAPODataService { service_url: String::from_str(service_url), headers };
        assert(service@.headers =~= client_headers(username@, password@));
        assert(header_values_safe(service@.headers));
        Ok(service)
    }

    /// The base URL, as it was given.
    pub fn service_url(&self) -> (url: &str)
        ensures
            url@ == self@.base_url,
    {
        self.service_url.as_str()
    }

    /// The headers that every request carries: `Accept` and `Authorization`,
    /// each with a header-safe value.
    pub fn headers(&self) -> (headers: &Vec<Header>)
        ensures
            header_views(headers@) == self@.headers,
            headers@.len() == 2,
            headers@[0]@ == ("Accept"@, "application/json"@),
            headers@[1].name@ == "Authorization"@,
            header_values_safe(self@.headers),
    {
        proof {
            use_type_invariant(self);
        }
        &self.headers
    }

    /// The target of a fetch of `endpoint`.
    pub fn request_url(&self, endpoint: &str) -> (url: String)
        ensures
            url@ == request_target(self@.base_url, endpoint@),
    {
        let mut url = self.service_url.clone();
        url.append("/");
        url.append(endpoint);
        proof {
            reveal_strlit("/");
            assert("/"@ =~= seq!['/']);
        }
        url
    }

    /// The request that a fetch of `endpoint` sends. No header value in it
    /// can break a line.
    pub fn request(&self, endpoint: &str) -> (request: Request)
        ensures
            request@ == self.request_for(endpoint@),
            header_values_safe(request@.headers),
    {
        proof {
            use_type_invariant(self);
        }
        Request { url: self.request_url(endpoint), headers: copy_headers(&self.headers) }
    }

    /// Fetches the data at `endpoint`: forms the request, hands it to
    /// `transport` once, and reads what came back. Nothing is kept from one
    /// call to the next.
    pub fn get_data<T>(&self, endpoint: &str, transport: T) -> (outcome: Result<
        Payload,
        ServiceError,
    >) where T: FnOnce(Request) -> Exchange
        requires
            forall|request: Request|
                request@ == self.request_for(endpoint@) ==> #[trigger] transport.requires(
                    (request,),
                ),
        ensures
            exists|request: Request, exchange: Exchange|
                {
                    &&& request@ == self.request_for(endpoint@)
                    &&& #[trigger] transport.ensures((request,), exchange)
                    &&& outcome_view(outcome) == interpretation(exchange)
                },
    {
        let request = self.request(endpoint);
        let ghost sent = request;
        let exchange = transport(request);
        let ghost came = exchange;
        let outcome = interpret(exchange);
        assert(transport.ensures((sent,), came));
        outcome
    }
}

/// The target of a request holds the base URL, then exactly one slash, then
/// the endpoint, each unchanged: a slash that ends the base URL or begins the
/// endpoint stays beside the one that is put between them.
pub proof fn lemma_request_target_parts(base_url: Seq<char>, endpoint: Seq<char>)
    ensures
        request_target(base_url, endpoint).len() == base_url.len() + 1 + endpoint.len(),
        request_target(base_url, endpoint).subrange(0, base_url.len() as int) == base_url,
        request_target(base_url, endpoint)[base_url.len() as int] == '/',
        request_target(base_url, endpoint).subrange(
            base_url.len() as int + 1,
            request_target(base_url, endpoint).len() as int,
        ) == endpoint,
{
    let target = request_target(base_url, endpoint);
    assert(target.subrange(0, base_url.len() as int) =~= base_url);
    assert(target.subrange(base_url.len() as int + 1, target.len() as int) =~= endpoint);
}

/// A fetch keeps nothing between calls: two exchanges that ended alike are
/// read as the same outcome, and the status of a response has no part in it.
pub proof fn lemma_same_answer_same_outcome(first: Exchange, second: Exchange)
    requires
        same_answer(first, second),
    ensures
        interpretation(first) == interpretation(second),
{
}

/// Two fetches whose exchanges ended alike return equal outcomes: the same
/// error, or payloads with the same keys and values.
pub proof fn lemma_fetch_repeatable(
    first: Exchange,
    second: Exchange,
    one: Result<Payload, ServiceError>,
    other: Result<Payload, ServiceError>,
)
    requires
        same_answer(first, second),
        outcome_view(one) == interpretation(first),
        outcome_view(other) == interpretation(second),
    ensures
        outcome_view(one) == outcome_view(other),
{
    lemma_same_answer_same_outcome(first, second);
}

/// Reads the end of an exchange as the outcome of a fetch.
pub fn interpret(exchange: Exchange) -> (outcome: Result<Payload, ServiceError>)
    ensures
        outcome_view(outcome) == interpretation(exchange),
{
    match exchange {
        Exchange::Unsendable => Err(ServiceError::Configuration),
        Exchange::Failed => Err(ServiceError::Transport),
        Exchange::Answered { body, .. } => parse_payload(body.as_slice()),
    }
}

/// The line that the caller of a fetch prints for its outcome, if any.
pub fn report(outcome: &Result<Payload, ServiceError>) -> (line: Option<String>)
    ensures
        match line {
            Some(text) => report_text(outcome_view(*outcome)) == Some(text@),
            None => report_text(outcome_view(*outcome)) is None,
        },
{
    match outcome {
        Ok(payload) => payload.render("value"),
        Err(error) => {
            let mut text = String::from_str("Error: ");
            text.append(error.message().as_str());
            Some(text)
        },
    }
}

} // verus!
