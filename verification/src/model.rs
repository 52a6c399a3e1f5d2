//! The document model: one service descriptor with its optional, typed
//! attributes, together with the ghost view the contracts speak of.

use vstd::prelude::*;

verus! {

/// Where a descriptor file lives: per-user, system-wide, or vendor-supplied.
#[derive(Debug, Clone, PartialEq, Eq, Structural)]
pub enum TabLocation {
    User,
    Global,
    Apple,
}

impl TabLocation {
    /// The label the interface shows for this location.
    pub fn get_display_name(&self) -> (r: &str)
        ensures
            self is User ==> r@ == "👤 User"@,
            self is Global ==> r@ == "🌐 Global"@,
            self is Apple ==> r@ == "🍎 Apple"@,
    {
        match self {
            TabLocation::User => "👤 User",
            TabLocation::Global => "🌐 Global",
            TabLocation::Apple => "🍎 Apple",
        }
    }
}

/// What an external probe reports of a service: the model only stores this.
#[derive(Debug, Clone, PartialEq, Eq, Structural)]
pub enum AgentStatus {
    Running,
    Stopped,
    Error,
    Unknown,
}

/// One discovered descriptor file with the probe results for its service.
#[derive(Debug, Clone)]
pub struct LaunchAgent {
    pub filename: String,
    pub label: Option<String>,
    pub status: AgentStatus,
    pub enabled: bool,
}

/// The session-type attribute: either one session name or several, a true
/// tagged union so the two shapes are never told apart structurally.
#[derive(Debug, Clone, PartialEq)]
pub enum LimitLoadToSessionType {
    Single(String),
    Multiple(Vec<String>),
}

/// Ghost image of [`LimitLoadToSessionType`].
#[verifier::ext_equal]
pub enum SessionTypeView {
    Single(Seq<char>),
    Multiple(Seq<Seq<char>>),
}

impl View for LimitLoadToSessionType {
    type V = SessionTypeView;

    open spec fn view(&self) -> SessionTypeView {
        match self {
            LimitLoadToSessionType::Single(s) => SessionTypeView::Single(s@),
            LimitLoadToSessionType::Multiple(v) => SessionTypeView::Multiple(v.deep_view()),
        }
    }
}

impl Default for LimitLoadToSessionType {
    /// An empty single session name.
    fn default() -> (r: Self)
        ensures
            r@ == SessionTypeView::Single(Seq::<char>::empty()),
    {
        LimitLoadToSessionType::Single(String::new())
    }
}

/// One service descriptor. Every attribute is independently optional;
/// an absent attribute is not the same as an empty one.
#[derive(Debug, Clone, PartialEq)]
pub struct PlistData {
    pub label: Option<String>,
    pub program_arguments: Option<Vec<String>>,
    pub program: Option<String>,
    pub start_interval: Option<i32>,
    pub run_at_load: Option<bool>,
    pub keep_alive: Option<bool>,
    pub standard_out_path: Option<String>,
    pub standard_error_path: Option<String>,
    pub working_directory: Option<String>,
    pub environment_variables: Option<Vec<(String, String)>>,
    pub limit_load_to_session_type: Option<LimitLoadToSessionType>,
    pub abandon_process_group: Option<bool>,
    pub associated_bundle_identifiers: Option<Vec<String>>,
    pub throttle_interval: Option<i32>,
    pub posix_spawn_type: Option<String>,
    pub enable_pressured_exit: Option<bool>,
    pub enable_transactions: Option<bool>,
    pub event_monitor: Option<bool>,
}

/// Ghost image of a [`PlistData`]: every text as a character sequence.
#[verifier::ext_equal]
pub struct PlistView {
    pub label: Option<Seq<char>>,
    pub program_arguments: Option<Seq<Seq<char>>>,
    pub program: Option<Seq<char>>,
    pub start_interval: Option<i32>,
    pub run_at_load: Option<bool>,
    pub keep_alive: Option<bool>,
    pub standard_out_path: Option<Seq<char>>,
    pub standard_error_path: Option<Seq<char>>,
    pub working_directory: Option<Seq<char>>,
    pub environment_variables: Option<Seq<(Seq<char>, Seq<char>)>>,
    pub limit_load_to_session_type: Option<SessionTypeView>,
    pub abandon_process_group: Option<bool>,
    pub associated_bundle_identifiers: Option<Seq<Seq<char>>>,
    pub throttle_interval: Option<i32>,
    pub posix_spawn_type: Option<Seq<char>>,
    pub enable_pressured_exit: Option<bool>,
    pub enable_transactions: Option<bool>,
    pub event_monitor: Option<bool>,
}

impl View for PlistData {
    type V = PlistView;

    open spec fn view(&self) -> PlistView {
        PlistView {
            label: self.label.deep_view(),
            program_arguments: self.program_arguments.deep_view(),
            program: self.program.deep_view(),
            start_interval: self.start_interval,
            run_at_load: self.run_at_load,
            keep_alive: self.keep_alive,
            standard_out_path: self.standard_out_path.deep_view(),
            standard_error_path: self.standard_error_path.deep_view(),
            working_directory: self.working_directory.deep_view(),
            environment_variables: self.environment_variables.deep_view(),
            limit_load_to_session_type: match &self.limit_load_to_session_type {
                Some(v) => Some(v@),
                None => None,
            },
            abandon_process_group: self.abandon_process_group,
            associated_bundle_identifiers: self.associated_bundle_identifiers.deep_view(),
            throttle_interval: self.throttle_interval,
            posix_spawn_type: self.posix_spawn_type.deep_view(),
            enable_pressured_exit: self.enable_pressured_exit,
            enable_transactions: self.enable_transactions,
            event_monitor: self.event_monitor,
        }
    }
}

impl PlistView {
    /// The view of a freshly constructed document: every attribute absent.
    pub open spec fn empty() -> PlistView {
        PlistView {
            label: None,
            program_arguments: None,
            program: None,
            start_interval: None,
            run_at_load: None,
            keep_alive: None,
            standard_out_path: None,
            standard_error_path: None,
            working_directory: None,
            environment_variables: None,
            limit_load_to_session_type: None,
            abandon_process_group: None,
            associated_bundle_identifiers: None,
            throttle_interval: None,
            posix_spawn_type: None,
            enable_pressured_exit: None,
            enable_transactions: None,
            event_monitor: None,
        }
    }
}

impl Default for PlistData {
    /// A document with every attribute absent.
    fn default() -> (r: Self)
        ensures
            r@ == PlistView::empty(),
    {
        let r = PlistData {
            label: None,
            program_arguments: None,
            program: None,
            start_interval: None,
            run_at_load: None,
            keep_alive: None,
            standard_out_path: None,
            standard_error_path: None,
            working_directory: None,
            environment_variables: None,
            limit_load_to_session_type: None,
            abandon_process_group: None,
            associated_bundle_identifiers: None,
            throttle_interval: None,
            posix_spawn_type: None,
            enable_pressured_exit: None,
            enable_transactions: None,
            event_monitor: None,
        };
        proof {
            assert(r@ =~= PlistView::empty());
        }
        r
    }
}

/// A text that fits on one line of the descriptor format.
pub open spec fn text_ok(s: Seq<char>) -> bool {
    forall|i: int| 0 <= i < s.len() ==> s[i] != '\n'
}

pub open spec fn opt_text_ok(o: Option<Seq<char>>) -> bool {
    o is Some ==> text_ok(o->0)
}

pub open spec fn list_ok(o: Option<Seq<Seq<char>>>) -> bool {
    o is Some ==> forall|k: int| 0 <= k < o->0.len() ==> text_ok(#[trigger] o->0[k])
}

pub open spec fn env_ok(o: Option<Seq<(Seq<char>, Seq<char>)>>) -> bool {
    o is Some ==> {
        &&& forall|k: int|
            0 <= k < o->0.len() ==> text_ok(#[trigger] o->0[k].0) && text_ok(o->0[k].1)
        &&& forall|j: int, k: int| 0 <= j < k < o->0.len() ==> o->0[j].0 != o->0[k].0
    }
}

pub open spec fn session_ok(o: Option<SessionTypeView>) -> bool {
    o is Some ==> match o->0 {
        SessionTypeView::Single(s) => text_ok(s),
        SessionTypeView::Multiple(l) => forall|k: int| 0 <= k < l.len() ==> text_ok(#[trigger] l[k]),
    }
}

/// A document the textual format can carry faithfully: no text attribute
/// holds a newline, and environment keys are pairwise distinct.
pub open spec fn supported(d: PlistView) -> bool {
    &&& opt_text_ok(d.label)
    &&& list_ok(d.program_arguments)
    &&& opt_text_ok(d.program)
    &&& opt_text_ok(d.standard_out_path)
    &&& opt_text_ok(d.standard_error_path)
    &&& opt_text_ok(d.working_directory)
    &&& env_ok(d.environment_variables)
    &&& session_ok(d.limit_load_to_session_type)
    &&& list_ok(d.associated_bundle_identifiers)
    &&& opt_text_ok(d.posix_spawn_type)
}

} // verus!
