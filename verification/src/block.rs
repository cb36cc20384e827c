//! The notification block: its configuration, its construction, and the
//! poll cycle as a function from state and event to state and action.
//!
//! The block performs no request and keeps no clock. One poll is a
//! [`PollEvent::Tick`] followed by one [`PollEvent::Response`] for every
//! [`PollAction::Fetch`] that the block hands out, until it hands out
//! [`PollAction::Wait`].

use crate::counts::{counts_of, AggregateCounts};
use crate::fetch::{
    GithubClient, Notifications, PageResponse, PageView, Pull, Request, RequestView, Stream,
    REQUEST_TIMEOUT_SECS,
};
use crate::render::{is_valid_format, render, rendered};
use crate::strings::opt_text;
use crate::template::{FormatTemplate, TemplateError};
use vstd::prelude::*;
use vstd::string::*;

verus! {

/// The name of the environment variable that holds the credential.
pub const GITHUB_TOKEN_ENV: &'static str = "GITHUB_TOKEN";

/// The text shown when a poll failed.
pub const NOT_AVAILABLE: &'static str = "N/A";

/// The icon of the block.
pub const ICON: &'static str = "github";

/// The configuration of a block.
#[derive(Debug, Default, Clone)]
pub struct GithubConfig {
    /// Update interval in seconds
    pub interval: u64,
    /// The base address of the remote side
    pub api_server: String,
    /// Format override
    pub format: String,
}

impl GithubConfig {
    /// The interval where none is configured: 30 seconds.
    pub fn default_interval() -> (secs: u64)
        ensures
            secs == 30,
    {
        30
    }

    /// The base address where none is configured.
    pub fn default_api_server() -> (server: String)
        ensures
            server@ == "https://api.github.com"@,
    {
        "https://api.github.com".to_owned()
    }

    /// The format string where none is configured: the total alone.
    pub fn default_format() -> (format: String)
        ensures
            format@ == "{total}"@,
    {
        "{total}".to_owned()
    }
}

/// Why a block could not be constructed.
#[derive(Debug)]
pub enum ConfigError {
    /// No credential was given.
    MissingToken,
    /// The format string holds a placeholder that is not declared.
    InvalidFormat(TemplateError),
}

/// The mathematical value of a [`ConfigError`].
pub enum ConfigFailure {
    MissingToken,
    /// The leftmost placeholder that is not declared, braces included.
    InvalidFormat(Seq<char>),
}

impl View for ConfigError {
    type V = ConfigFailure;

    open spec fn view(&self) -> ConfigFailure {
        match self {
            ConfigError::MissingToken => ConfigFailure::MissingToken,
            ConfigError::InvalidFormat(e) => ConfigFailure::InvalidFormat(e@),
        }
    }
}

impl ConfigError {
    /// The words for the error.
    pub fn message(&self) -> (text: &'static str)
        ensures
            text@ == match self {
                ConfigError::MissingToken => "missing GITHUB_TOKEN environment variable"@,
                ConfigError::InvalidFormat(_) => "Invalid format specified"@,
            },
    {
        match self {
            ConfigError::MissingToken => "missing GITHUB_TOKEN environment variable",
            ConfigError::InvalidFormat(_) => "Invalid format specified",
        }
    }
}

/// What the display shows: an icon and a text.
#[derive(Debug)]
pub struct TextWidget {
    icon: String,
    text: String,
}

/// The mathematical value of a [`TextWidget`].
pub struct Shown {
    pub icon: Seq<char>,
    pub text: Seq<char>,
}

impl View for TextWidget {
    type V = Shown;

    closed spec fn view(&self) -> Shown {
        Shown { icon: self.icon@, text: self.text@ }
    }
}

impl TextWidget {
    /// A widget without icon and text.
    pub fn new() -> (widget: TextWidget)
        ensures
            widget@ == (Shown { icon: Seq::empty(), text: Seq::empty() }),
    {
        TextWidget { icon: String::new(), text: String::new() }
    }

    /// The widget with `text` as its text.
    pub fn with_text(self, text: &str) -> (widget: TextWidget)
        ensures
            widget@ == (Shown { icon: self@.icon, text: text@ }),
    {
        TextWidget { icon: self.icon, text: text.to_owned() }
    }

    /// The widget with `icon` as its icon.
    pub fn with_icon(self, icon: &str) -> (widget: TextWidget)
        ensures
            widget@ == (Shown { icon: icon@, text: self@.text }),
    {
        TextWidget { icon: icon.to_owned(), text: self.text }
    }

    /// Replaces the text.
    pub fn set_text(&mut self, text: String)
        ensures
            final(self)@ == (Shown { icon: old(self)@.icon, text: text@ }),
    {
        self.text = text;
    }

    /// The text shown.
    pub fn text(&self) -> (text: &str)
        ensures
            text@ == self@.text,
    {
        self.text.as_str()
    }

    /// The icon shown.
    pub fn icon(&self) -> (icon: &str)
        ensures
            icon@ == self@.icon,
    {
        self.icon.as_str()
    }
}

/// What sets a block going.
#[derive(Debug)]
pub enum PollEvent {
    /// The scheduler asks for an update: a poll begins.
    Tick,
    /// The response to the request that the block handed out last.
    Response(PageResponse),
}

/// The mathematical value of a [`PollEvent`].
pub enum EventView {
    Tick,
    Response(PageView),
}

impl View for PollEvent {
    type V = EventView;

    open spec fn view(&self) -> EventView {
        match self {
            PollEvent::Tick => EventView::Tick,
            PollEvent::Response(r) => EventView::Response(r@),
        }
    }
}

/// What a block asks of its host.
pub enum PollAction {
    /// Perform this request and come back with the response.
    Fetch(Request),
    /// The poll is over and the display is set. Come back with a tick after
    /// this many seconds.
    Wait(u64),
}

/// The mathematical value of a [`PollAction`].
pub enum ActionView {
    Fetch(RequestView),
    Wait(u64),
}

impl View for PollAction {
    type V = ActionView;

    open spec fn view(&self) -> ActionView {
        match self {
            PollAction::Fetch(r) => ActionView::Fetch(r@),
            PollAction::Wait(secs) => ActionView::Wait(*secs),
        }
    }
}

/// A poll between a request and its response.
pub struct InFlight {
    /// The URL of the page that was asked for.
    pub cursor: Seq<char>,
    /// The reasons of the items counted so far, in order.
    pub counted: Seq<Seq<char>>,
}

/// The mathematical value of a block.
pub struct GithubState {
    pub id: Seq<char>,
    /// The seconds between two polls.
    pub interval: u64,
    pub icon: Seq<char>,
    /// The text on display.
    pub text: Seq<char>,
    /// The URL of the first page of every poll.
    pub first_page: Seq<char>,
    /// The value of the `Authorization` header of every request.
    pub authorization: Seq<char>,
    pub format: Seq<char>,
    /// The poll under way, `None` between polls.
    pub poll: Option<InFlight>,
}

impl GithubState {
    /// The request for the page at `url`.
    pub open spec fn request(self, url: Seq<char>) -> RequestView {
        RequestView {
            url,
            authorization: self.authorization,
            timeout_secs: REQUEST_TIMEOUT_SECS,
        }
    }

    /// The end of a poll: `text` goes on display and the block waits.
    pub open spec fn finished(self, text: Seq<char>) -> (GithubState, ActionView) {
        (GithubState { text, poll: None, ..self }, ActionView::Wait(self.interval))
    }

    /// A poll goes on with the page at `url`, `counted` being the items so
    /// far.
    pub open spec fn fetching(self, url: Seq<char>, counted: Seq<Seq<char>>) -> (
        GithubState,
        ActionView,
    ) {
        (
            GithubState { poll: Some(InFlight { cursor: url, counted }), ..self },
            ActionView::Fetch(self.request(url)),
        )
    }

    /// The state after `event`, and what the block asks for.
    ///
    /// A tick begins a poll from scratch: nothing is counted and the first
    /// page is asked for. A response outside a poll changes nothing. A
    /// response that failed ends the poll with [`NOT_AVAILABLE`] on display.
    /// A page has its items counted; if it names a further page, that page
    /// is asked for, else the poll ends with the rendered counts on display.
    /// A poll with more items than a `u64` can count ends as a failed one.
    pub open spec fn step(self, event: EventView) -> (GithubState, ActionView) {
        match event {
            EventView::Tick => self.fetching(self.first_page, Seq::empty()),
            EventView::Response(response) => match self.poll {
                None => (self, ActionView::Wait(self.interval)),
                Some(poll) => {
                    let counted = poll.counted + response.items();
                    if response.failure() is Some || counted.len() > u64::MAX {
                        self.finished(NOT_AVAILABLE@)
                    } else if response.next_cursor().len() > 0 {
                        self.fetching(response.next_cursor(), counted)
                    } else {
                        self.finished(rendered(self.format, counts_of(counted))->Ok_0)
                    }
                },
            },
        }
    }

    /// Where a poll stands once `stream` has taken a response, `counted`
    /// being the items before it.
    spec fn resumed(self, stream: Stream, counted: Seq<Seq<char>>) -> (
        GithubState,
        ActionView,
    ) {
        let all = counted + stream.pending;
        if !(stream.phase is Ready) || all.len() > u64::MAX {
            self.finished(NOT_AVAILABLE@)
        } else if stream.cursor.len() > 0 {
            self.fetching(stream.cursor, all)
        } else {
            self.finished(rendered(self.format, counts_of(all))->Ok_0)
        }
    }
}

/// Whether `c` is a digit of lower-case hexadecimal notation.
pub open spec fn is_lower_hex(c: char) -> bool {
    '0' <= c <= '9' || 'a' <= c <= 'f'
}

/// Whether `id` has the shape of a block's identifier: 32 digits of
/// lower-case hexadecimal notation.
pub open spec fn is_block_id(id: Seq<char>) -> bool {
    id.len() == 32 && forall|i: int| 0 <= i < 32 ==> is_lower_hex(#[trigger] id[i])
}

/// Draws a random identifier: `uuid::Uuid::new_v4`, written out by
/// `Uuid::simple` and its `Display`.
///
/// Trusted: the text is 32 digits of lower-case hexadecimal notation, which
/// is what the simple format writes for every UUID. Nothing is claimed about
/// which digits they are. The call draws on the operating system's random
/// source and does not return where that source fails.
#[verifier::external_body]
fn fresh_id() -> (id: String)
    ensures
        is_block_id(id@),
{
    uuid::Uuid::new_v4().simple().to_string()
}

/// The error that stands in the way of constructing a block, if any: a
/// missing credential first, else a format string with a placeholder that is
/// not declared.
pub open spec fn construction_error(format: Seq<char>, token: Option<Seq<char>>) -> Option<
    ConfigFailure,
> {
    if token is None {
        Some(ConfigFailure::MissingToken)
    } else if !is_valid_format(format) {
        Some(ConfigFailure::InvalidFormat(rendered(format, crate::counts::Counts::zero())->Err_0))
    } else {
        None
    }
}

/// The state of a block fresh from construction: [`NOT_AVAILABLE`] on
/// display, no poll under way.
pub open spec fn initial_state(
    interval: u64,
    api_server: Seq<char>,
    format: Seq<char>,
    token: Seq<char>,
    id: Seq<char>,
) -> GithubState {
    GithubState {
        id,
        interval,
        icon: ICON@,
        text: NOT_AVAILABLE@,
        first_page: api_server + "/notifications"@,
        authorization: "token "@ + token,
        format,
        poll: None,
    }
}

/// The stream and the counts of a poll under way.
struct Poll {
    stream: Notifications,
    counts: AggregateCounts,
}

/// The notification block.
pub struct Github {
    text: TextWidget,
    id: String,
    update_interval: u64,
    gh: GithubClient,
    format: FormatTemplate,
    poll: Option<Poll>,
}

impl Github {
    /// The mathematical value of the block.
    pub closed spec fn state(&self) -> GithubState {
        GithubState {
            id: self.id@,
            interval: self.update_interval,
            icon: self.text@.icon,
            text: self.text@.text,
            first_page: self.gh.first_page(),
            authorization: self.gh.authorization(),
            format: self.format@,
            poll: match self.poll {
                Some(poll) => Some(
                    InFlight { cursor: poll.stream@.cursor, counted: poll.counts.history() },
                ),
                None => None,
            },
        }
    }

    /// The format string is valid, and a poll under way waits for a page.
    pub closed spec fn wf(&self) -> bool {
        &&& self.format.wf()
        &&& is_valid_format(self.format@)
        &&& match self.poll {
            Some(poll) => {
                &&& poll.stream.wf()
                &&& poll.counts.wf()
                &&& poll.stream@.phase is Awaiting
                &&& poll.stream@.pending.len() == 0
                &&& poll.stream@.authorization == self.gh.authorization()
            },
            None => true,
        }
    }

    /// The format string of every block is valid: it renders under all
    /// counts, so that no poll can fail on it.
    pub proof fn lemma_format_renders(&self, counts: crate::counts::Counts)
        requires
            self.wf(),
        ensures
            is_valid_format(self.state().format),
            rendered(self.state().format, counts) is Ok,
    {
        crate::render::lemma_valid_format_always_renders(self.format@, counts);
    }

    /// Constructs a block with the identifier `id`. Fails without a
    /// credential, and on a format string with a placeholder that is not
    /// declared.
    pub fn with_id(block_config: GithubConfig, token: Option<String>, id: String) -> (r: Result<
        Github,
        ConfigError,
    >)
        ensures
            match r {
                Ok(block) => {
                    &&& block.wf()
                    &&& construction_error(block_config.format@, opt_text(token)) is None
                    &&& block.state() == initial_state(
                        block_config.interval,
                        block_config.api_server@,
                        block_config.format@,
                        token->0@,
                        id@,
                    )
                },
                Err(e) => construction_error(block_config.format@, opt_text(token)) == Some(e@),
            },
    {
        let token = match token {
            Some(v) => v,
            None => {
                return Err(ConfigError::MissingToken);
            },
        };
        let format = FormatTemplate::from_string(block_config.format.as_str());
        match render(&format, &AggregateCounts::new()) {
            Ok(_) => {},
            Err(e) => {
                return Err(ConfigError::InvalidFormat(e));
            },
        }
        Ok(
            Github {
                id,
                update_interval: block_config.interval,
                text: TextWidget::new().with_text(NOT_AVAILABLE).with_icon(ICON),
                gh: GithubClient::new(block_config.api_server, token),
                format,
                poll: None,
            },
        )
    }

    /// Constructs a block with a random identifier. Fails without a
    /// credential, and on a format string with a placeholder that is not
    /// declared.
    pub fn new(block_config: GithubConfig, token: Option<String>) -> (r: Result<
        Github,
        ConfigError,
    >)
        ensures
            match r {
                Ok(block) => {
                    &&& block.wf()
                    &&& construction_error(block_config.format@, opt_text(token)) is None
                    &&& is_block_id(block.state().id)
                    &&& block.state() == initial_state(
                        block_config.interval,
                        block_config.api_server@,
                        block_config.format@,
                        token->0@,
                        block.state().id,
                    )
                },
                Err(e) => construction_error(block_config.format@, opt_text(token)) == Some(e@),
            },
    {
        if token.is_none() {
            return Err(ConfigError::MissingToken);
        }
        Github::with_id(block_config, token, fresh_id())
    }

    /// Takes one event of the poll cycle and says what to do next.
    pub fn update(&mut self, event: PollEvent) -> (action: PollAction)
        requires
            old(self).wf(),
        ensures
            final(self).wf(),
            (final(self).state(), action@) == old(self).state().step(event@),
    {
        match event {
            PollEvent::Tick => {
                self.poll = None;
                let stream = self.gh.notifications();
                proof {
                    reveal_strlit("/notifications");
                }
                let action = self.advance(stream, AggregateCounts::new());
                assert(Seq::<Seq<char>>::empty() + stream@.pending =~= Seq::<Seq<char>>::empty());
                assert(self.state() == old(self).state().step(event@).0);
                action
            },
            PollEvent::Response(response) => {
                match self.poll.take() {
                    None => PollAction::Wait(self.update_interval),
                    Some(poll) => {
                        let Poll { stream, counts } = poll;
                        let mut stream = stream;
                        stream.receive(response);
                        self.advance(stream, counts)
                    },
                }
            },
        }
    }

    /// Counts the items that `stream` holds and settles how the poll goes
    /// on: with a further page, or to its end.
    fn advance(&mut self, taken: Notifications, so_far: AggregateCounts) -> (action: PollAction)
        requires
            old(self).wf(),
            old(self).poll is None,
            taken.wf(),
            so_far.wf(),
            taken@.authorization == old(self).gh.authorization(),
            taken@.phase is Ready || taken@.phase is Failed,
        ensures
            final(self).wf(),
            (final(self).state(), action@) == old(self).state().resumed(
                taken@,
                so_far.history(),
            ),
    {
        let ghost start = self.state();
        let ghost goal = start.resumed(taken@, so_far.history());
        let mut stream = taken;
        let mut counts = so_far;
        loop
            invariant
                *self == *old(self),
                self.wf(),
                self.poll is None,
                start == self.state(),
                goal == old(self).state().resumed(taken@, so_far.history()),
                stream.wf(),
                counts.wf(),
                stream@.authorization == self.gh.authorization(),
                stream@.phase is Ready || stream@.phase is Failed,
                start.resumed(stream@, counts.history()) == goal,
            decreases stream@.pending.len(),
        {
            let ghost held = stream@;
            let ghost counted = counts.history();
            proof {
                stream.lemma_wf_inv();
                counts.lemma_history_fits();
            }
            match stream.try_next() {
                Ok(Some(Pull::Item(item))) => {
                    if counts.total() == u64::MAX {
                        self.text.set_text(NOT_AVAILABLE.to_owned());
                        return PollAction::Wait(self.update_interval);
                    }
                    counts.record(item.reason.as_str());
                    assert(counted.push(item@) + held.pending.drop_first() =~= counted
                        + held.pending);
                },
                Ok(Some(Pull::Request(request))) => {
                    assert(counted + held.pending =~= counted);
                    self.poll = Some(Poll { stream, counts });
                    return PollAction::Fetch(request);
                },
                Ok(None) => {
                    assert(counted + held.pending =~= counted);
                    proof {
                        counts.lemma_view_is_counts_of_history();
                    }
                    let shown = match render(&self.format, &counts) {
                        Ok(text) => text,
                        Err(_) => NOT_AVAILABLE.to_owned(),
                    };
                    self.text.set_text(shown);
                    return PollAction::Wait(self.update_interval);
                },
                Err(_) => {
                    self.text.set_text(NOT_AVAILABLE.to_owned());
                    return PollAction::Wait(self.update_interval);
                },
            }
        }
    }

    /// The widgets of the block: its one text.
    pub fn view(&self) -> (widgets: Vec<&TextWidget>)
        ensures
            widgets@.len() == 1,
            widgets@[0]@ == (Shown { icon: self.state().icon, text: self.state().text }),
    {
        vec![&self.text]
    }

    /// A click on the block: nothing happens.
    pub fn click(&mut self)
        ensures
            *final(self) == *old(self),
    {
    }

    /// The identifier of the block.
    pub fn id(&self) -> (id: &str)
        ensures
            id@ == self.state().id,
    {
        self.id.as_str()
    }
}

} // verus!
