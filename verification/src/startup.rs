//! Bringing the shared services up: in one fixed order, each after the one
//! before it succeeded, and never further than the first failure.

use crate::text::{failure_message, failure_text};
use rand::distributions::{Alphanumeric, DistString};
use vstd::prelude::*;
use vstd::string::*;

verus! {

/// How many connections the database pool is opened with.
pub const POOL_CONNECTIONS: u32 = 5;

/// How long the token of the file-serving component is.
pub const FILE_SERVER_TOKEN_LENGTH: usize = 32;

/// The endpoints that the build gives the client.
#[derive(Debug)]
pub struct Constants {
    firefly_api_url: String,
    firefly_ws_url: String,
    auth0_domain: String,
    auth0_client_id: String,
}

impl Constants {
    #[verifier::type_invariant]
    spec fn well_formed(self) -> bool {
        self.firefly_api_url@.len() > 0
    }

    /// The address of the chat API. It is never empty.
    pub closed spec fn api_url(self) -> Seq<char> {
        self.firefly_api_url@
    }

    /// The address of the chat websocket.
    pub closed spec fn ws_url(self) -> Seq<char> {
        self.firefly_ws_url@
    }

    /// The domain of the identity provider.
    pub closed spec fn domain(self) -> Seq<char> {
        self.auth0_domain@
    }

    /// The client id at the identity provider.
    pub closed spec fn client_id(self) -> Seq<char> {
        self.auth0_client_id@
    }

    /// The endpoints, unless the address of the chat API is empty.
    pub fn new(
        firefly_api_url: String,
        firefly_ws_url: String,
        auth0_domain: String,
        auth0_client_id: String,
    ) -> (constants: Option<Self>)
        ensures
            constants is Some <==> firefly_api_url@.len() > 0,
            constants matches Some(c) ==> {
                &&& c.api_url() == firefly_api_url@
                &&& c.ws_url() == firefly_ws_url@
                &&& c.domain() == auth0_domain@
                &&& c.client_id() == auth0_client_id@
            },
    {
        if firefly_api_url.as_str().is_empty() {
            None
        } else {
            Some(Constants { firefly_api_url, firefly_ws_url, auth0_domain, auth0_client_id })
        }
    }

    /// The address of the chat API. It is never empty.
    pub fn firefly_api_url(&self) -> (url: &String)
        ensures
            url@ == self.api_url(),
            url@.len() > 0,
    {
        proof {
            use_type_invariant(self);
        }
        &self.firefly_api_url
    }

    /// The address of the chat websocket.
    pub fn firefly_ws_url(&self) -> (url: &String)
        ensures
            url@ == self.ws_url(),
    {
        &self.firefly_ws_url
    }

    /// The domain of the identity provider.
    pub fn auth0_domain(&self) -> (domain: &String)
        ensures
            domain@ == self.domain(),
    {
        &self.auth0_domain
    }

    /// The client id at the identity provider.
    pub fn auth0_client_id(&self) -> (id: &String)
        ensures
            id@ == self.client_id(),
    {
        &self.auth0_client_id
    }
}

/// The shared services, in the order in which they come up.
#[derive(Debug, Clone, Copy, PartialEq, Eq, Structural)]
pub enum ServiceKind {
    Database,
    MessageHistoryStore,
    PushMessagingClient,
    FileServingComponent,
}

impl ServiceKind {
    /// The service that comes up after this one, if any.
    pub open spec fn following(self) -> Option<ServiceKind> {
        match self {
            ServiceKind::Database => Some(ServiceKind::MessageHistoryStore),
            ServiceKind::MessageHistoryStore => Some(ServiceKind::PushMessagingClient),
            ServiceKind::PushMessagingClient => Some(ServiceKind::FileServingComponent),
            ServiceKind::FileServingComponent => None,
        }
    }

    /// The directory below the application's data directory in which the
    /// service keeps its files.
    pub open spec fn directory_name(self) -> Seq<char> {
        match self {
            ServiceKind::FileServingComponent => "files"@,
            _ => "dbs"@,
        }
    }

    /// The name of the service's database file in its directory, where it
    /// has one.
    pub open spec fn database_name(self) -> Option<Seq<char>> {
        match self {
            ServiceKind::Database => Some("app.db"@),
            ServiceKind::MessageHistoryStore => Some("user_messages.db"@),
            ServiceKind::PushMessagingClient => Some("firefly.db"@),
            ServiceKind::FileServingComponent => None,
        }
    }

    /// What the user is told when the service does not come up: the cause,
    /// and for the message store and the client what it was that failed.
    pub open spec fn failure(self, detail: Seq<char>) -> Seq<char> {
        match self {
            ServiceKind::MessageHistoryStore => failure_text("Failed to create messages store"@, detail),
            ServiceKind::PushMessagingClient => failure_text("Failed to create firefly client"@, detail),
            _ => detail,
        }
    }

    /// The service that comes up after this one, if any.
    pub fn next(self) -> (next: Option<ServiceKind>)
        ensures
            next == self.following(),
    {
        match self {
            ServiceKind::Database => Some(ServiceKind::MessageHistoryStore),
            ServiceKind::MessageHistoryStore => Some(ServiceKind::PushMessagingClient),
            ServiceKind::PushMessagingClient => Some(ServiceKind::FileServingComponent),
            ServiceKind::FileServingComponent => None,
        }
    }

    /// The directory below the application's data directory in which the
    /// service keeps its files.
    pub fn directory(self) -> (name: &'static str)
        ensures
            name@ == self.directory_name(),
    {
        match self {
            ServiceKind::FileServingComponent => "files",
            _ => "dbs",
        }
    }

    /// The name of the service's database file in its directory, where it
    /// has one.
    pub fn database_file(self) -> (name: Option<&'static str>)
        ensures
            match (name, self.database_name()) {
                (Some(n), Some(expected)) => n@ == expected,
                (None, None) => true,
                _ => false,
            },
    {
        match self {
            ServiceKind::Database => Some("app.db"),
            ServiceKind::MessageHistoryStore => Some("user_messages.db"),
            ServiceKind::PushMessagingClient => Some("firefly.db"),
            ServiceKind::FileServingComponent => None,
        }
    }

    /// What the user is told when the service does not come up.
    pub fn failure_message(self, detail: &str) -> (message: String)
        ensures
            message@ == self.failure(detail@),
    {
        match self {
            ServiceKind::MessageHistoryStore => failure_message("Failed to create messages store", detail),
            ServiceKind::PushMessagingClient => failure_message("Failed to create firefly client", detail),
            _ => String::from_str(detail),
        }
    }
}

/// Where startup stands.
pub enum StartupState {
    /// Nothing has been asked for yet.
    Idle,
    /// The services before this one are up; this one is being initialized.
    Starting(ServiceKind),
    /// All services are up and the background work has been launched.
    Running,
    /// A service did not come up: startup ended with this message.
    Failed(String),
}

/// What the caller has to do next.
#[derive(Debug)]
pub enum StartupAction {
    /// Initialize this service through its slot and report the outcome.
    Initialize(ServiceKind),
    /// All services are up: launch the file-serving loop and the client's
    /// connect-and-retry loop, each on a task of its own.
    LaunchBackground,
    /// Give up with this message.
    Abort(String),
    /// Nothing: startup is over, or has not begun.
    Nothing,
}

/// The mathematical value of a [`StartupState`].
pub enum StartupStateView {
    Idle,
    Starting(ServiceKind),
    Running,
    Failed(Seq<char>),
}

impl StartupStateView {
    /// The state after the service that is being initialized reported
    /// `outcome`; a report at any other time changes nothing.
    pub open spec fn after_report(self, outcome: Result<(), Seq<char>>) -> StartupStateView {
        match self {
            StartupStateView::Starting(kind) => match outcome {
                Ok(_) => match kind.following() {
                    Some(next) => StartupStateView::Starting(next),
                    None => StartupStateView::Running,
                },
                Err(detail) => StartupStateView::Failed(kind.failure(detail)),
            },
            _ => self,
        }
    }

    /// The state after all of `outcomes` were reported, in their order.
    pub open spec fn after_reports(self, outcomes: Seq<Result<(), Seq<char>>>) -> StartupStateView
        decreases outcomes.len(),
    {
        if outcomes.len() == 0 {
            self
        } else {
            self.after_reports(outcomes.drop_last()).after_report(outcomes.last())
        }
    }

    /// Where startup stands after `successes` services came up one after
    /// the other.
    pub open spec fn after_successes(successes: nat) -> StartupStateView {
        if successes == 0 {
            StartupStateView::Starting(ServiceKind::Database)
        } else if successes == 1 {
            StartupStateView::Starting(ServiceKind::MessageHistoryStore)
        } else if successes == 2 {
            StartupStateView::Starting(ServiceKind::PushMessagingClient)
        } else if successes == 3 {
            StartupStateView::Starting(ServiceKind::FileServingComponent)
        } else {
            StartupStateView::Running
        }
    }
}

impl View for StartupState {
    type V = StartupStateView;

    open spec fn view(&self) -> StartupStateView {
        match self {
            StartupState::Idle => StartupStateView::Idle,
            StartupState::Starting(kind) => StartupStateView::Starting(*kind),
            StartupState::Running => StartupStateView::Running,
            StartupState::Failed(message) => StartupStateView::Failed(message@),
        }
    }
}

/// The sequencer of startup.
pub struct Startup {
    state: StartupState,
}

impl View for Startup {
    type V = StartupStateView;

    closed spec fn view(&self) -> StartupStateView {
        self.state@
    }
}

impl Startup {
    /// A sequencer that has not begun.
    pub fn new() -> (startup: Self)
        ensures
            startup@ is Idle,
    {
        Startup { state: StartupState::Idle }
    }

    /// Begins startup with the first service. On a sequencer that has begun
    /// already nothing happens.
    pub fn begin(&mut self) -> (action: StartupAction)
        ensures
            old(self)@ is Idle ==> final(self)@ == StartupStateView::Starting(ServiceKind::Database) && action
                == StartupAction::Initialize(ServiceKind::Database),
            !(old(self)@ is Idle) ==> final(self)@ == old(self)@ && action is Nothing,
    {
        match &self.state {
            StartupState::Idle => {
                self.state = StartupState::Starting(ServiceKind::Database);
                StartupAction::Initialize(ServiceKind::Database)
            },
            _ => StartupAction::Nothing,
        }
    }

    /// Takes the outcome of the service that is being initialized. After a
    /// success the next service is due, and after the last one the
    /// background work; after a failure startup is over.
    pub fn report(&mut self, outcome: Result<(), String>) -> (action: StartupAction)
        ensures
            final(self)@ == old(self)@.after_report(outcome_view(outcome)),
            match final(self)@ {
                _ if !(old(self)@ is Starting) => action is Nothing,
                StartupStateView::Starting(next) => action == StartupAction::Initialize(next),
                StartupStateView::Running => action is LaunchBackground,
                StartupStateView::Failed(message) => action matches StartupAction::Abort(m) && m@ == message,
                StartupStateView::Idle => false,
            },
    {
        match &self.state {
            StartupState::Starting(kind) => {
                let kind = *kind;
                match outcome {
                    Ok(_) => match kind.next() {
                        Some(next) => {
                            self.state = StartupState::Starting(next);
                            StartupAction::Initialize(next)
                        },
                        None => {
                            self.state = StartupState::Running;
                            StartupAction::LaunchBackground
                        },
                    },
                    Err(detail) => {
                        let message = kind.failure_message(detail.as_str());
                        self.state = StartupState::Failed(message.clone());
                        StartupAction::Abort(message)
                    },
                }
            },
            _ => StartupAction::Nothing,
        }
    }

    /// Whether all services are up.
    pub fn is_running(&self) -> (running: bool)
        ensures
            running == (self@ is Running),
    {
        match &self.state {
            StartupState::Running => true,
            _ => false,
        }
    }
}

/// The value of an outcome: its error as text.
pub open spec fn outcome_view(outcome: Result<(), String>) -> Result<(), Seq<char>> {
    match outcome {
        Ok(_) => Ok(()),
        Err(detail) => Err(detail@),
    }
}

/// Whether `c` is an ASCII letter or digit.
pub open spec fn is_alphanumeric(c: char) -> bool {
    ('0' <= c && c <= '9') || ('a' <= c && c <= 'z') || ('A' <= c && c <= 'Z')
}

/// `DistString::sample_string` of `rand`'s `Alphanumeric` on the thread's
/// generator: `len` characters, each an ASCII letter or digit, drawn at
/// random. Which ones they are is not promised.
#[verifier::external_body]
fn random_alphanumeric(len: usize) -> (text: String)
    ensures
        text@.len() == len,
        forall|i: int| 0 <= i < text@.len() ==> is_alphanumeric(#[trigger] text@[i]),
{
    Alphanumeric.sample_string(&mut rand::thread_rng(), len)
}

/// A fresh token for the file-serving component.
pub fn file_server_token() -> (token: String)
    ensures
        token@.len() == FILE_SERVER_TOKEN_LENGTH,
        forall|i: int| 0 <= i < token@.len() ==> is_alphanumeric(#[trigger] token@[i]),
{
    random_alphanumeric(FILE_SERVER_TOKEN_LENGTH)
}

/// While every service comes up, the services are initialized in their one
/// order, each after the one before it, and startup is running once the
/// fourth is up.
pub proof fn lemma_services_start_in_order(outcomes: Seq<Result<(), Seq<char>>>)
    requires
        forall|i: int| 0 <= i < outcomes.len() ==> (#[trigger] outcomes[i]) is Ok,
    ensures
        StartupStateView::Starting(ServiceKind::Database).after_reports(outcomes)
            == StartupStateView::after_successes(outcomes.len()),
    decreases outcomes.len(),
{
    if outcomes.len() > 0 {
        let earlier = outcomes.drop_last();
        assert forall|i: int| 0 <= i < earlier.len() implies (#[trigger] earlier[i]) is Ok by {
            assert(earlier[i] == outcomes[i]);
        }
        lemma_services_start_in_order(earlier);
        assert(outcomes.last() == outcomes[outcomes.len() - 1]);
    }
}

/// Startup that has failed or is running stays so, whatever is reported.
pub proof fn lemma_startup_ends_once(state: StartupStateView, outcomes: Seq<Result<(), Seq<char>>>)
    requires
        !(state is Starting),
    ensures
        state.after_reports(outcomes) == state,
    decreases outcomes.len(),
{
    if outcomes.len() > 0 {
        lemma_startup_ends_once(state, outcomes.drop_last());
    }
}

/// The first service that does not come up ends startup: the services
/// after it are never initialized, and the message names that service's
/// failure, whatever is reported afterwards.
pub proof fn lemma_first_failure_ends_startup(
    successes: Seq<Result<(), Seq<char>>>,
    detail: Seq<char>,
    later: Seq<Result<(), Seq<char>>>,
)
    requires
        forall|i: int| 0 <= i < successes.len() ==> (#[trigger] successes[i]) is Ok,
        StartupStateView::after_successes(successes.len()) matches StartupStateView::Starting(_),
    ensures
        StartupStateView::after_successes(successes.len()) matches StartupStateView::Starting(kind)
            && StartupStateView::Starting(ServiceKind::Database).after_reports(
            successes.push(Err(detail)) + later,
        ) == StartupStateView::Failed(kind.failure(detail)),
    decreases later.len(),
{
    let first = StartupStateView::Starting(ServiceKind::Database);
    let reports = successes.push(Err(detail));
    lemma_services_start_in_order(successes);
    assert(reports.drop_last() =~= successes);
    let failed = first.after_reports(reports);
    if later.len() == 0 {
        assert(reports + later =~= reports);
    } else {
        lemma_first_failure_ends_startup(successes, detail, later.drop_last());
        assert((reports + later).drop_last() =~= reports + later.drop_last());
    }
}

} // verus!
