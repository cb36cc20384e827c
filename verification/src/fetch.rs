//! The paginated fetcher: a pull-based, fail-stop stream of notifications
//! over a cursor that each page's link header moves on.
//!
//! The stream performs no request itself. When it needs a page it hands out
//! the [`Request`] to perform, and takes what came of it as a
//! [`PageResponse`].

use crate::links::{extract_links, header_links};
use vstd::prelude::*;
use vstd::string::*;

verus! {

/// The time allowed for one request, in seconds.
pub const REQUEST_TIMEOUT_SECS: u64 = 5;

/// One notification of the feed.
#[derive(Debug)]
pub struct Notification {
    /// The category of the notification. The set of reasons is open.
    pub reason: String,
}

impl View for Notification {
    type V = Seq<char>;

    open spec fn view(&self) -> Seq<char> {
        self.reason@
    }
}

/// The reasons of a sequence of notifications, in order.
pub open spec fn reasons(items: Seq<Notification>) -> Seq<Seq<char>> {
    Seq::new(items.len(), |i: int| items[i]@)
}

/// The error that the remote side reports with a non-success status.
#[derive(Debug)]
pub struct GithubError {
    pub message: String,
}

impl View for GithubError {
    type V = Seq<char>;

    open spec fn view(&self) -> Seq<char> {
        self.message@
    }
}

impl GithubError {
    /// The text of the error: its message.
    pub fn to_text(&self) -> (text: String)
        ensures
            text@ == self@,
    {
        self.message.clone()
    }
}

/// Why a page could not be had.
#[derive(Debug)]
pub enum FetchError {
    /// The request did not complete: timeout, connection failure, protocol
    /// violation.
    Transport,
    /// The remote side answered with a non-success status and this error.
    Remote(GithubError),
    /// The body of the answer could not be read as what its status promised.
    Parse,
}

/// The mathematical value of a [`FetchError`].
pub enum FetchFailure {
    Transport,
    Remote(Seq<char>),
    Parse,
}

impl View for FetchError {
    type V = FetchFailure;

    open spec fn view(&self) -> FetchFailure {
        match self {
            FetchError::Transport => FetchFailure::Transport,
            FetchError::Remote(e) => FetchFailure::Remote(e@),
            FetchError::Parse => FetchFailure::Parse,
        }
    }
}

/// A request for one page: a GET of `url` with the `Authorization` header
/// set to `authorization`, given up after `timeout_secs` seconds.
pub struct Request {
    pub url: String,
    pub authorization: String,
    pub timeout_secs: u64,
}

/// The mathematical value of a [`Request`].
pub struct RequestView {
    pub url: Seq<char>,
    pub authorization: Seq<char>,
    pub timeout_secs: u64,
}

impl View for Request {
    type V = RequestView;

    open spec fn view(&self) -> RequestView {
        RequestView {
            url: self.url@,
            authorization: self.authorization@,
            timeout_secs: self.timeout_secs,
        }
    }
}

/// What came of a request.
#[derive(Debug)]
pub enum PageResponse {
    /// The request did not complete.
    TransportFailure,
    /// The status was not a success. `error` is the remote error read from
    /// the body, `None` where the body held none.
    Rejected { error: Option<GithubError> },
    /// The status was a success. `link_header` is the value of the
    /// pagination header, `None` where the answer had none; `items` are the
    /// notifications read from the body, `None` where it could not be read.
    Page { link_header: Option<String>, items: Option<Vec<Notification>> },
}

/// The mathematical value of a [`PageResponse`]. An absent link header is
/// the empty header.
pub enum PageView {
    TransportFailure,
    Rejected { error: Option<Seq<char>> },
    Page { link_header: Seq<char>, items: Option<Seq<Seq<char>>> },
}

impl View for PageResponse {
    type V = PageView;

    open spec fn view(&self) -> PageView {
        match self {
            PageResponse::TransportFailure => PageView::TransportFailure,
            PageResponse::Rejected { error } => PageView::Rejected {
                error: match error {
                    Some(e) => Some(e@),
                    None => None,
                },
            },
            PageResponse::Page { link_header, items } => PageView::Page {
                link_header: match link_header {
                    Some(h) => h@,
                    None => Seq::empty(),
                },
                items: match items {
                    Some(v) => Some(reasons(v@)),
                    None => None,
                },
            },
        }
    }
}

impl PageView {
    /// The error that a response amounts to, `None` for a page that was read.
    pub open spec fn failure(self) -> Option<FetchFailure> {
        match self {
            PageView::TransportFailure => Some(FetchFailure::Transport),
            PageView::Rejected { error: Some(message) } => Some(FetchFailure::Remote(message)),
            PageView::Rejected { error: None } => Some(FetchFailure::Parse),
            PageView::Page { items: None, .. } => Some(FetchFailure::Parse),
            PageView::Page { items: Some(_), .. } => None,
        }
    }

    /// The items of a page that was read; none for any other response.
    pub open spec fn items(self) -> Seq<Seq<char>> {
        match self {
            PageView::Page { items: Some(items), .. } => items,
            _ => Seq::empty(),
        }
    }

    /// The cursor that a page leaves: the URL of its "next" relation, empty
    /// where it has none.
    pub open spec fn next_cursor(self) -> Seq<char> {
        match self {
            PageView::Page { link_header, .. } => next_url(link_header),
            _ => Seq::empty(),
        }
    }
}

/// The URL that a link header gives for the relation "next", empty where it
/// gives none.
pub open spec fn next_url(link_header: Seq<char>) -> Seq<char> {
    let links = header_links(link_header);
    if links.contains_key("next"@) {
        links["next"@]
    } else {
        Seq::empty()
    }
}

/// Where a stream stands.
pub enum Phase {
    /// Items or the cursor decide the next pull.
    Ready,
    /// A request was handed out and its response has not come.
    Awaiting,
    /// A response failed; the error has not been handed out yet.
    Failed(FetchFailure),
    /// The error was handed out. Nothing follows.
    Stopped,
}

/// What a pull hands out besides end and error.
pub enum Pulled {
    /// The next item, by its reason.
    Item(Seq<char>),
    /// The request to perform before the stream can go on.
    Request(RequestView),
}

/// The mathematical value of a stream of notifications.
pub struct Stream {
    /// The reasons of the items of the current page not yet handed out.
    pub pending: Seq<Seq<char>>,
    /// The URL of the next page, empty when there is none.
    pub cursor: Seq<char>,
    /// The value of the `Authorization` header of every request.
    pub authorization: Seq<char>,
    pub phase: Phase,
}

impl Stream {
    /// A stream before its first request: no items, the cursor at `url`.
    pub open spec fn opened(url: Seq<char>, authorization: Seq<char>) -> Stream {
        Stream { pending: Seq::empty(), cursor: url, authorization, phase: Phase::Ready }
    }

    /// Only a ready stream holds items, and a stream waits only for a page
    /// that its cursor names.
    pub open spec fn inv(self) -> bool {
        &&& !(self.phase is Ready) ==> self.pending.len() == 0
        &&& self.phase is Awaiting ==> self.cursor.len() > 0
    }

    /// The request for the page at the cursor, with the time allowed for
    /// every request.
    pub open spec fn request(self) -> RequestView {
        RequestView {
            url: self.cursor,
            authorization: self.authorization,
            timeout_secs: REQUEST_TIMEOUT_SECS,
        }
    }

    /// One pull: the stream afterwards, and what is handed out. `Ok(None)`
    /// is the end of the sequence.
    pub open spec fn pull(self) -> (Stream, Result<Option<Pulled>, FetchFailure>) {
        match self.phase {
            Phase::Failed(e) => (Stream { phase: Phase::Stopped, ..self }, Err(e)),
            Phase::Stopped => (self, Ok(None)),
            Phase::Awaiting => (self, Ok(Some(Pulled::Request(self.request())))),
            Phase::Ready => if self.pending.len() > 0 {
                (
                    Stream { pending: self.pending.drop_first(), ..self },
                    Ok(Some(Pulled::Item(self.pending[0]))),
                )
            } else if self.cursor.len() == 0 {
                (self, Ok(None))
            } else {
                (
                    Stream { phase: Phase::Awaiting, ..self },
                    Ok(Some(Pulled::Request(self.request()))),
                )
            },
        }
    }

    /// The stream after a response. A stream that waits for none ignores it.
    /// A failure is kept to be handed out by the next pull; a page replaces
    /// the items and moves the cursor.
    pub open spec fn receive(self, response: PageView) -> Stream {
        if !(self.phase is Awaiting) {
            self
        } else {
            match response.failure() {
                Some(e) => Stream { phase: Phase::Failed(e), ..self },
                None => Stream {
                    pending: response.items(),
                    cursor: response.next_cursor(),
                    phase: Phase::Ready,
                    ..self
                },
            }
        }
    }
}

/// What a pull of a [`Notifications`] stream hands out besides end and error.
pub enum Pull {
    /// The next notification.
    Item(Notification),
    /// The stream has no item left and its cursor names a further page:
    /// perform this request and hand the response to
    /// [`Notifications::receive`].
    Request(Request),
}

impl View for Pull {
    type V = Pulled;

    open spec fn view(&self) -> Pulled {
        match self {
            Pull::Item(n) => Pulled::Item(n@),
            Pull::Request(r) => Pulled::Request(r@),
        }
    }
}

/// The mathematical value of what `try_next` returns.
pub open spec fn pull_view(r: Result<Option<Pull>, FetchError>) -> Result<
    Option<Pulled>,
    FetchFailure,
> {
    match r {
        Ok(Some(p)) => Ok(Some(p@)),
        Ok(None) => Ok(None),
        Err(e) => Err(e@),
    }
}

/// The mathematical value of what `next` returns, in the shape of
/// [`pull_view`].
pub open spec fn next_view(r: Option<Result<Pull, FetchError>>) -> Result<
    Option<Pulled>,
    FetchFailure,
> {
    match r {
        Some(Ok(p)) => Ok(Some(p@)),
        None => Ok(None),
        Some(Err(e)) => Err(e@),
    }
}

/// The credentials and address of the remote feed.
pub struct GithubClient {
    api_server: String,
    token: String,
}

impl GithubClient {
    /// A client for the feed of `api_server`, authenticated by `token`.
    pub fn new(api_server: String, token: String) -> (client: GithubClient)
        ensures
            client.api_server() == api_server@,
            client.token() == token@,
    {
        GithubClient { api_server, token }
    }

    /// The base address of the remote side.
    pub closed spec fn api_server(&self) -> Seq<char> {
        self.api_server@
    }

    /// The bearer credential.
    pub closed spec fn token(&self) -> Seq<char> {
        self.token@
    }

    /// The address of the first page of the feed.
    pub open spec fn first_page(&self) -> Seq<char> {
        self.api_server() + "/notifications"@
    }

    /// The value of the `Authorization` header of every request.
    pub open spec fn authorization(&self) -> Seq<char> {
        "token "@ + self.token()
    }

    /// Opens the stream of notifications. No request is made yet; the cursor
    /// stands at the first page.
    pub fn notifications(&self) -> (stream: Notifications)
        ensures
            stream.wf(),
            stream@ == Stream::opened(self.first_page(), self.authorization()),
    {
        let mut url = self.api_server.clone();
        url.append("/notifications");
        let mut authorization = "token ".to_owned();
        authorization.append(self.token.as_str());
        let stream = Notifications {
            queue: Vec::new(),
            next_page_url: url,
            authorization,
            awaiting: false,
            failure: None,
            stopped: false,
        };
        assert(stream@.pending =~= Seq::<Seq<char>>::empty());
        stream
    }
}

/// The lazy sequence of the notifications of one poll.
pub struct Notifications {
    /// The items of the current page not yet handed out, the next one last.
    queue: Vec<Notification>,
    next_page_url: String,
    authorization: String,
    awaiting: bool,
    failure: Option<FetchError>,
    stopped: bool,
}

impl View for Notifications {
    type V = Stream;

    closed spec fn view(&self) -> Stream {
        Stream {
            pending: reasons(self.queue@).reverse(),
            cursor: self.next_page_url@,
            authorization: self.authorization@,
            phase: if self.stopped {
                Phase::Stopped
            } else if let Some(e) = self.failure {
                Phase::Failed(e@)
            } else if self.awaiting {
                Phase::Awaiting
            } else {
                Phase::Ready
            },
        }
    }
}

/// The items of `items` in the opposite order.
fn reversed(items: Vec<Notification>) -> (r: Vec<Notification>)
    ensures
        r@ == items@.reverse(),
{
    let mut items = items;
    let ghost all = items@;
    let mut r: Vec<Notification> = Vec::new();
    while items.len() > 0
        invariant
            items@ == all.take(items.len() as int),
            r.len() + items.len() == all.len(),
            forall|i: int| 0 <= i < r.len() ==> r@[i] == all[all.len() - 1 - i],
        decreases items.len(),
    {
        let last = items.pop();
        r.push(last.unwrap());
    }
    assert(r@ =~= all.reverse());
    r
}

impl Notifications {
    /// The stream's value satisfies the stream invariant.
    pub closed spec fn wf(&self) -> bool {
        self@.inv()
    }

    /// What holds of the value of every well-formed stream.
    pub proof fn lemma_wf_inv(&self)
        requires
            self.wf(),
        ensures
            self@.inv(),
    {
    }

    /// One pull: the next item of the current page; or the end of the
    /// sequence, when no item is left and the cursor is empty; or the request
    /// for the page at the cursor; or the error of a failed response, once,
    /// after which the sequence has ended.
    pub fn try_next(&mut self) -> (r: Result<Option<Pull>, FetchError>)
        requires
            old(self).wf(),
        ensures
            final(self).wf(),
            (final(self)@, pull_view(r)) == old(self)@.pull(),
    {
        if self.stopped {
            return Ok(None);
        }
        if self.failure.is_some() {
            let e = self.failure.take();
            self.stopped = true;
            return Err(e.unwrap());
        }
        if self.awaiting {
            return Ok(Some(Pull::Request(self.request())));
        }
        let ghost before = reasons(self.queue@).reverse();
        if self.queue.len() > 0 {
            let item = self.queue.pop().unwrap();
            assert(reasons(self.queue@).reverse() =~= before.drop_first());
            assert(before[0] == item@);
            return Ok(Some(Pull::Item(item)));
        }
        if self.next_page_url.as_str().is_empty() {
            return Ok(None);
        }
        self.awaiting = true;
        Ok(Some(Pull::Request(self.request())))
    }

    /// One pull in the shape of an iterator's step: `None` is the end of the
    /// sequence.
    pub fn next(&mut self) -> (r: Option<Result<Pull, FetchError>>)
        requires
            old(self).wf(),
        ensures
            final(self).wf(),
            (final(self)@, next_view(r)) == old(self)@.pull(),
    {
        match self.try_next() {
            Ok(Some(pulled)) => Some(Ok(pulled)),
            Ok(None) => None,
            Err(err) => Some(Err(err)),
        }
    }

    /// The request for the page at the cursor.
    fn request(&self) -> (request: Request)
        ensures
            request@ == self@.request(),
    {
        Request {
            url: self.next_page_url.clone(),
            authorization: self.authorization.clone(),
            timeout_secs: REQUEST_TIMEOUT_SECS,
        }
    }

    /// Takes the response to the request that was handed out. A failure ends
    /// the sequence: the next pull hands out its error and nothing follows.
    /// A page replaces the items and moves the cursor to its "next"
    /// relation, or empties it where the page names none. A response that
    /// the stream does not wait for is dropped.
    pub fn receive(&mut self, response: PageResponse)
        requires
            old(self).wf(),
        ensures
            final(self).wf(),
            final(self)@ == old(self)@.receive(response@),
    {
        if self.stopped || self.failure.is_some() || !self.awaiting {
            return;
        }
        self.awaiting = false;
        match response {
            PageResponse::TransportFailure => {
                self.failure = Some(FetchError::Transport);
            },
            PageResponse::Rejected { error } => {
                match error {
                    Some(e) => {
                        self.failure = Some(FetchError::Remote(e));
                    },
                    None => {
                        self.failure = Some(FetchError::Parse);
                    },
                }
            },
            PageResponse::Page { link_header, items } => {
                match items {
                    None => {
                        self.failure = Some(FetchError::Parse);
                    },
                    Some(items) => {
                        let links = match &link_header {
                            Some(h) => extract_links(h.as_str()),
                            None => {
                                proof {
                                    reveal_strlit("");
                                }
                                assert(""@ =~= Seq::<char>::empty());
                                extract_links("")
                            },
                        };
                        self.next_page_url = match links.get("next") {
                            Some(url) => url.clone(),
                            None => String::new(),
                        };
                        let ghost page = reasons(items@);
                        self.queue = reversed(items);
                        assert(reasons(self.queue@).reverse() =~= page);
                    },
                }
            },
        }
    }
}

} // verus!
