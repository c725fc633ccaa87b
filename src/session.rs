use vstd::prelude::*;
use crate::choice::{index_choice, select_index, trim_of};
use crate::command::{
    UsageError, request_of,
    Invocation, InvocationView, Request, RequestView, assume_yes, install_invocation,
    install_word, manager_with, remove_invocation, search_url, search_url_of, update_invocation,
    update_word,
};
use crate::page::{
    block_css, container_css, extract_entries, extraction_of, flattened, scraped_texts,
    selector_accepted,
};
use crate::text::{Entry, EntryView, ExtractError, block_entry, entries_of};

verus! {

/// Where a run of the helper stands.
pub enum Session {
    /// Waiting for the search result page.
    Fetching,
    /// Waiting for the user to pick one of these packages.
    Choosing(Vec<String>),
    /// Waiting for the package manager to exit.
    Running,
    /// Nothing is left to do.
    Done,
}

pub enum SessionView {
    Fetching,
    Choosing(Seq<Seq<char>>),
    Running,
    Done,
}

impl View for Session {
    type V = SessionView;

    open spec fn view(&self) -> SessionView {
        match self {
            Session::Fetching => SessionView::Fetching,
            Session::Choosing(names) => SessionView::Choosing(names@.map_values(|n: String| n@)),
            Session::Running => SessionView::Running,
            Session::Done => SessionView::Done,
        }
    }
}

/// Why a run ends in failure.
#[derive(PartialEq, Eq, Structural, Clone, Copy, Debug)]
pub enum Failure {
    /// The search page could not be fetched.
    Network,
    /// The package manager could not be started.
    Spawn,
    /// The search page could not be read.
    Extraction(ExtractError),
    /// An event came that the session was not waiting for.
    OutOfOrder,
}

/// What the caller is to do next.
pub enum Action {
    /// Run the package manager, then report `Exited` or `SpawnError`.
    Run(Invocation),
    /// Fetch this page, then report `Page` or `NetworkError`.
    Fetch(String),
    /// Show these packages, numbered from 1, ask for one, then report `Line`.
    Offer(Vec<Entry>),
    /// Ask again for a package number, then report `Line`.
    Prompt,
    /// Stop: the run succeeded.
    Finish,
    /// Stop: the run failed.
    Fail(Failure),
}

pub enum ActionView {
    Run(InvocationView),
    Fetch(Seq<char>),
    Offer(Seq<EntryView>),
    Prompt,
    Finish,
    Fail(Failure),
}

impl View for Action {
    type V = ActionView;

    open spec fn view(&self) -> ActionView {
        match self {
            Action::Run(inv) => ActionView::Run(inv@),
            Action::Fetch(url) => ActionView::Fetch(url@),
            Action::Offer(es) => ActionView::Offer(es@.map_values(|e: Entry| e@)),
            Action::Prompt => ActionView::Prompt,
            Action::Finish => ActionView::Finish,
            Action::Fail(f) => ActionView::Fail(*f),
        }
    }
}

/// What the caller reports back after doing an action.
pub enum Event {
    /// The body of the fetched page.
    Page(String),
    /// The page could not be fetched.
    NetworkError,
    /// A line that the user typed.
    Line(String),
    /// The package manager ran and exited, whatever its exit status.
    Exited,
    /// The package manager could not be started.
    SpawnError,
}

pub enum EventView {
    Page(Seq<char>),
    NetworkError,
    Line(Seq<char>),
    Exited,
    SpawnError,
}

impl View for Event {
    type V = EventView;

    open spec fn view(&self) -> EventView {
        match self {
            Event::Page(b) => EventView::Page(b@),
            Event::NetworkError => EventView::NetworkError,
            Event::Line(l) => EventView::Line(l@),
            Event::Exited => EventView::Exited,
            Event::SpawnError => EventView::SpawnError,
        }
    }
}

/// Installing the named package.
pub open spec fn install_of(name: Seq<char>) -> InvocationView {
    manager_with(seq![install_word(), name, assume_yes()])
}

/// How a run begins for a request.
pub open spec fn start_of(q: RequestView) -> (SessionView, ActionView) {
    match q {
        RequestView::Update => (
            SessionView::Running,
            ActionView::Run(manager_with(seq![update_word(), assume_yes()])),
        ),
        RequestView::Install(n) => (SessionView::Running, ActionView::Run(install_of(n))),
        RequestView::Remove(n) => (SessionView::Running, ActionView::Run(install_of(n))),
        RequestView::Search(t) => (SessionView::Fetching, ActionView::Fetch(search_url_of(t))),
    }
}

/// The names of a list of entries.
pub open spec fn names_of(es: Seq<EntryView>) -> Seq<Seq<char>> {
    es.map_values(|e: EntryView| e.name)
}

/// Session `s`, on event `e`, moves to `t` and asks for `a`. A page that
/// cannot be read ends the run in failure, one that lists no package ends it,
/// and one that lists packages offers them for a choice.
pub open spec fn steps_to(s: SessionView, e: EventView, t: SessionView, a: ActionView) -> bool {
    match s {
        SessionView::Fetching => match e {
            EventView::Page(b) => match extraction_of(b) {
                Err(x) => t == SessionView::Done && a == ActionView::Fail(Failure::Extraction(x)),
                Ok(es) => if es.len() == 0 {
                    t == SessionView::Done && a == ActionView::Finish
                } else {
                    t == SessionView::Choosing(names_of(es)) && a == ActionView::Offer(es)
                },
            },
            EventView::NetworkError => t == SessionView::Done && a == ActionView::Fail(
                Failure::Network,
            ),
            _ => t == SessionView::Done && a == ActionView::Fail(Failure::OutOfOrder),
        },
        SessionView::Choosing(ns) => match e {
            EventView::Line(l) => match index_choice(trim_of(l), ns.len()) {
                Some(i) => t == SessionView::Running && a == ActionView::Run(install_of(ns[i as int])),
                None => t == s && a == ActionView::Prompt,
            },
            _ => t == SessionView::Done && a == ActionView::Fail(Failure::OutOfOrder),
        },
        SessionView::Running => match e {
            EventView::Exited => t == SessionView::Done && a == ActionView::Finish,
            EventView::SpawnError => t == SessionView::Done && a == ActionView::Fail(
                Failure::Spawn,
            ),
            _ => t == SessionView::Done && a == ActionView::Fail(Failure::OutOfOrder),
        },
        SessionView::Done => t == SessionView::Done && a == ActionView::Finish,
    }
}

fn entry_names(es: &Vec<Entry>) -> (r: Vec<String>)
    ensures
        r@.map_values(|n: String| n@) == names_of(es@.map_values(|e: Entry| e@)),
{
    let mut r: Vec<String> = Vec::new();
    let mut i: usize = 0;
    while i < es.len()
        invariant
            i <= es@.len(),
            r@.map_values(|n: String| n@) == names_of(es@.map_values(|e: Entry| e@)).subrange(
                0,
                i as int,
            ),
        decreases es@.len() - i,
    {
        let n = es[i].name.clone();
        let ghost prev = r@;
        r.push(n);
        assert(r@.map_values(|n: String| n@) =~= prev.map_values(|n: String| n@).push(n@));
        assert(r@.map_values(|n: String| n@) =~= names_of(es@.map_values(|e: Entry| e@)).subrange(
            0,
            i + 1,
        ));
        i = i + 1;
    }
    assert(names_of(es@.map_values(|e: Entry| e@)).subrange(0, es@.len() as int) =~= names_of(
        es@.map_values(|e: Entry| e@),
    ));
    r
}

impl Session {
    /// Where a run for `request` begins, and its first action.
    pub fn start(request: Request) -> (r: (Session, Action))
        ensures
            (r.0@, r.1@) == start_of(request@),
    {
        match request {
            Request::Update => (Session::Running, Action::Run(update_invocation())),
            Request::Install(name) => (
                Session::Running,
                Action::Run(install_invocation(name.as_str())),
            ),
            Request::Remove(name) => (Session::Running, Action::Run(remove_invocation(name.as_str()))),
            Request::Search(query) => (Session::Fetching, Action::Fetch(search_url(query.as_str()))),
        }
    }

    /// Takes the session one step on the event that the caller reports.
    pub fn step(self, event: Event) -> (r: (Session, Action))
        ensures
            steps_to(self@, event@, r.0@, r.1@),
    {
        match self {
            Session::Fetching => match event {
                Event::Page(body) => match extract_entries(body.as_str()) {
                    Err(e) => (Session::Done, Action::Fail(Failure::Extraction(e))),
                    Ok(es) => {
                        if es.len() == 0 {
                            (Session::Done, Action::Finish)
                        } else {
                            let names = entry_names(&es);
                            (Session::Choosing(names), Action::Offer(es))
                        }
                    },
                },
                Event::NetworkError => (Session::Done, Action::Fail(Failure::Network)),
                _ => (Session::Done, Action::Fail(Failure::OutOfOrder)),
            },
            Session::Choosing(names) => match event {
                Event::Line(line) => match select_index(line.as_str(), names.len()) {
                    Some(i) => {
                        let inv = install_invocation(names[i].as_str());
                        (Session::Running, Action::Run(inv))
                    },
                    None => (Session::Choosing(names), Action::Prompt),
                },
                _ => (Session::Done, Action::Fail(Failure::OutOfOrder)),
            },
            Session::Running => match event {
                Event::Exited => (Session::Done, Action::Finish),
                Event::SpawnError => (Session::Done, Action::Fail(Failure::Spawn)),
                _ => (Session::Done, Action::Fail(Failure::OutOfOrder)),
            },
            Session::Done => (Session::Done, Action::Finish),
        }
    }
}

/// `events`, reported one after another to session `s0`, move it through
/// `sessions` and ask for `actions`.
pub open spec fn is_run(
    s0: SessionView,
    events: Seq<EventView>,
    sessions: Seq<SessionView>,
    actions: Seq<ActionView>,
) -> bool {
    &&& sessions.len() == events.len() + 1
    &&& actions.len() == events.len()
    &&& sessions[0] == s0
    &&& forall|i: int|
        0 <= i < events.len() ==> #[trigger] steps_to(
            sessions[i],
            events[i],
            sessions[i + 1],
            actions[i],
        )
}

/// Once done, a session stays done and asks for nothing more.
proof fn lemma_stays_done(
    s0: SessionView,
    events: Seq<EventView>,
    sessions: Seq<SessionView>,
    actions: Seq<ActionView>,
    j: int,
    k: int,
)
    requires
        is_run(s0, events, sessions, actions),
        0 <= j <= k <= events.len(),
        sessions[j] == SessionView::Done,
    ensures
        forall|i: int| j <= i <= k ==> sessions[i] == SessionView::Done,
        forall|i: int| j <= i < k ==> actions[i] == ActionView::Finish,
    decreases k - j,
{
    if j < k {
        assert(steps_to(sessions[j], events[j], sessions[j + 1], actions[j]));
        lemma_stays_done(s0, events, sessions, actions, j + 1, k);
    }
}

/// Once the package manager runs, the session ends at the next event and never
/// runs it again.
proof fn lemma_ends_after_running(
    events: Seq<EventView>,
    sessions: Seq<SessionView>,
    actions: Seq<ActionView>,
)
    requires
        is_run(SessionView::Running, events, sessions, actions),
    ensures
        forall|i: int| 0 <= i < actions.len() ==> !(#[trigger] actions[i] is Run),
{
    if events.len() > 0 {
        let z: int = 0;
        assert(steps_to(sessions[z], events[z], sessions[z + 1], actions[z]));
        lemma_stays_done(SessionView::Running, events, sessions, actions, 1, events.len() as int);
        assert forall|i: int| 0 <= i < actions.len() implies !(#[trigger] actions[i] is Run) by {
            if i > 0 {
                assert(actions[i] == ActionView::Finish);
            }
        }
    }
}

/// A request other than a search runs the package manager exactly once: the
/// first action runs it, and no action asked for afterwards does.
pub proof fn lemma_direct_request_runs_once(
    q: RequestView,
    events: Seq<EventView>,
    sessions: Seq<SessionView>,
    actions: Seq<ActionView>,
)
    requires
        !(q is Search),
        is_run(start_of(q).0, events, sessions, actions),
    ensures
        start_of(q).1 is Run,
        forall|i: int| 0 <= i < actions.len() ==> !(#[trigger] actions[i] is Run),
{
    lemma_ends_after_running(events, sessions, actions);
}

/// With no argument at all the request is an update: the package manager runs
/// `update -y` once, and nothing else is ever run.
pub proof fn lemma_no_arguments_updates(
    events: Seq<EventView>,
    sessions: Seq<SessionView>,
    actions: Seq<ActionView>,
)
    requires
        is_run(start_of(RequestView::Update).0, events, sessions, actions),
    ensures
        request_of(None, None, None) == Ok::<RequestView, UsageError>(RequestView::Update),
        start_of(RequestView::Update).1 == ActionView::Run(
            manager_with(seq![update_word(), assume_yes()]),
        ),
        forall|i: int| 0 <= i < actions.len() ==> !(#[trigger] actions[i] is Run),
{
    lemma_direct_request_runs_once(RequestView::Update, events, sessions, actions);
}

/// `-S name` alone runs the package manager exactly once, with the arguments
/// `install`, the name and `-y`.
pub proof fn lemma_install_flag_runs_install_once(
    name: String,
    events: Seq<EventView>,
    sessions: Seq<SessionView>,
    actions: Seq<ActionView>,
)
    requires
        is_run(SessionView::Running, events, sessions, actions),
    ensures
        request_of(None, Some(name), None) == Ok::<RequestView, UsageError>(
            RequestView::Install(name@),
        ),
        start_of(RequestView::Install(name@)) == (
            SessionView::Running,
            ActionView::Run(manager_with(seq![install_word(), name@, assume_yes()])),
        ),
        forall|i: int| 0 <= i < actions.len() ==> !(#[trigger] actions[i] is Run),
{
    lemma_direct_request_runs_once(RequestView::Install(name@), events, sessions, actions);
}

/// `-r name` alone runs the package manager exactly once, and with the same
/// arguments as an install: `install`, the name and `-y`.
pub proof fn lemma_remove_flag_runs_install_once(
    name: String,
    events: Seq<EventView>,
    sessions: Seq<SessionView>,
    actions: Seq<ActionView>,
)
    requires
        is_run(SessionView::Running, events, sessions, actions),
    ensures
        request_of(None, None, Some(name)) == Ok::<RequestView, UsageError>(
            RequestView::Remove(name@),
        ),
        start_of(RequestView::Remove(name@)) == (
            SessionView::Running,
            ActionView::Run(manager_with(seq![install_word(), name@, assume_yes()])),
        ),
        forall|i: int| 0 <= i < actions.len() ==> !(#[trigger] actions[i] is Run),
{
    lemma_direct_request_runs_once(RequestView::Remove(name@), events, sessions, actions);
}

/// When the search page cannot be fetched the run fails with a network error,
/// and the package manager is never run, whatever is reported afterwards.
pub proof fn lemma_network_failure_runs_nothing(
    events: Seq<EventView>,
    sessions: Seq<SessionView>,
    actions: Seq<ActionView>,
)
    requires
        is_run(SessionView::Fetching, events, sessions, actions),
        events.len() > 0,
        events[0] == EventView::NetworkError,
    ensures
        actions[0] == ActionView::Fail(Failure::Network),
        forall|i: int| 0 <= i < actions.len() ==> !(#[trigger] actions[i] is Run),
{
    let z: int = 0;
    assert(steps_to(sessions[z], events[z], sessions[z + 1], actions[z]));
    lemma_stays_done(SessionView::Fetching, events, sessions, actions, 1, events.len() as int);
    assert forall|i: int| 0 <= i < actions.len() implies !(#[trigger] actions[i] is Run) by {
        if i > 0 {
            assert(actions[i] == ActionView::Finish);
        }
    }
}

/// A page with no result container ends the run successfully: nothing is
/// offered and nothing is run.
pub proof fn lemma_page_without_results_finishes(body: Seq<char>, t: SessionView, a: ActionView)
    requires
        selector_accepted(container_css()),
        selector_accepted(block_css()),
        scraped_texts(flattened(body), container_css(), block_css()) is None,
        steps_to(SessionView::Fetching, EventView::Page(body), t, a),
    ensures
        t == SessionView::Done,
        a == ActionView::Finish,
{
    let ts = Seq::<Seq<char>>::empty();
    assert(entries_of(ts) == Some(ts.map_values(|x: Seq<char>| block_entry(x)->0)));
    assert(ts.map_values(|x: Seq<char>| block_entry(x)->0).len() == 0);
}

} // verus!
