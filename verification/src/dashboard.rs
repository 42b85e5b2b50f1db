//! What the dashboard shows, before it is drawn.
use vstd::prelude::*;
use vstd::string::StringExecFns;
use crate::cli;
use crate::decimal;
use crate::model;
use crate::model::{Lease, LeaseState};
use crate::scan::PortProcess;
use crate::text;

verus! {

/// The colours that the dashboard uses.
#[derive(Debug, Clone, Copy, PartialEq, Eq, Structural)]
pub enum Tone {
    Green,
    DarkGray,
    Yellow,
    Cyan,
}

// ── Typed view-state helpers ────────────────────────────────────────────

/// Raw probe result so we can separate IO from classification.
#[derive(Debug)]
pub struct DaemonProbe {
    pub pid_exists: bool,
    pub socket_exists: bool,
    pub pid_value: Option<String>,
}

impl DaemonProbe {
    /// The result of a probe; `pid_text` is what could be read from the PID file.
    pub fn new(pid_exists: bool, socket_exists: bool, pid_text: Option<String>) -> (probe: Self)
        ensures
            probe.pid_exists == pid_exists,
            probe.socket_exists == socket_exists,
            text::optional_string(probe.pid_value) == match pid_text {
                Some(pid_text) => if pid_exists {
                    Some(text::trimmed(pid_text@))
                } else {
                    None
                },
                None => None,
            },
    {
        let pid_value = match pid_text {
            Some(pid_text) => {
                if pid_exists {
                    let chars = text::chars_of(pid_text.as_str());
                    let trimmed = text::trim(&chars);
                    Some(text::text_of(&trimmed))
                } else {
                    None
                }
            },
            None => None,
        };
        DaemonProbe { pid_exists, socket_exists, pid_value }
    }
}

/// Daemon health as determined from PID/socket file presence.
#[derive(Debug, Clone, Copy, PartialEq, Eq, Structural)]
pub enum DaemonHealth {
    /// PID file and socket both exist — daemon appears to be running.
    Running,
    /// PID file or socket is missing — daemon is offline.
    Offline,
    /// Could not determine status (e.g. path resolution failed).
    Unavailable,
}

/// The health that a probe shows.
pub open spec fn health_of(probe: Result<DaemonProbe, String>) -> DaemonHealth {
    match probe {
        Ok(probe) => if probe.pid_exists && probe.socket_exists {
            DaemonHealth::Running
        } else {
            DaemonHealth::Offline
        },
        Err(_) => DaemonHealth::Unavailable,
    }
}

/// The text for a health.
pub open spec fn health_label(health: DaemonHealth, probe: Option<DaemonProbe>) -> Seq<char> {
    match health {
        DaemonHealth::Running => "● running (pid "@ + match probe {
            Some(probe) => match probe.pid_value {
                Some(pid) => pid@,
                None => "?"@,
            },
            None => "?"@,
        } + ")"@,
        DaemonHealth::Offline => "○ offline"@,
        DaemonHealth::Unavailable => "⚠ unavailable"@,
    }
}

/// The colour for a health.
pub open spec fn health_tone(health: DaemonHealth) -> Tone {
    match health {
        DaemonHealth::Running => Tone::Green,
        DaemonHealth::Offline => Tone::DarkGray,
        DaemonHealth::Unavailable => Tone::Yellow,
    }
}

impl DaemonHealth {
    /// Classify from the raw daemon-status probe result.
    pub fn classify(result: &Result<DaemonProbe, String>) -> (health: Self)
        ensures
            health == health_of(*result),
    {
        match result {
            Ok(probe) => {
                if probe.pid_exists && probe.socket_exists {
                    DaemonHealth::Running
                } else {
                    DaemonHealth::Offline
                }
            },
            Err(_) => DaemonHealth::Unavailable,
        }
    }

    /// Human-readable label that conveys state *without* relying on color.
    pub fn label(self, probe: Option<&DaemonProbe>) -> (label: String)
        ensures
            label@ == health_label(
                self,
                match probe {
                    Some(probe) => Some(*probe),
                    None => None,
                },
            ),
    {
        match self {
            DaemonHealth::Running => {
                let mut label = "● running (pid ".to_owned();
                match probe {
                    Some(probe) => {
                        match &probe.pid_value {
                            Some(pid) => label.append(pid.as_str()),
                            None => label.append("?"),
                        }
                    },
                    None => label.append("?"),
                }
                label.append(")");
                label
            },
            DaemonHealth::Offline => "○ offline".to_owned(),
            DaemonHealth::Unavailable => "⚠ unavailable".to_owned(),
        }
    }

    /// The colour of the label.
    pub fn style(self) -> (tone: Tone)
        ensures
            tone == health_tone(self),
    {
        match self {
            DaemonHealth::Running => Tone::Green,
            DaemonHealth::Offline => Tone::DarkGray,
            DaemonHealth::Unavailable => Tone::Yellow,
        }
    }
}

/// Display variant for a lease state in the table.
#[derive(Debug, Clone, Copy, PartialEq, Eq, Structural)]
pub enum LeaseDisplay {
    Pending,
    Active,
}

/// The display variant of a state.
pub open spec fn display_of(state: LeaseState) -> LeaseDisplay {
    if state is Active {
        LeaseDisplay::Active
    } else {
        LeaseDisplay::Pending
    }
}

/// The text of a display variant.
pub open spec fn display_label(display: LeaseDisplay) -> Seq<char> {
    match display {
        LeaseDisplay::Pending => "◌ pending"@,
        LeaseDisplay::Active => "● active"@,
    }
}

/// The colour of a display variant.
pub open spec fn display_tone(display: LeaseDisplay) -> Tone {
    match display {
        LeaseDisplay::Pending => Tone::Yellow,
        LeaseDisplay::Active => Tone::Green,
    }
}

impl LeaseDisplay {
    /// The display variant of a state. Only pending and active leases are shown
    /// in the dashboard; any other would be shown as pending.
    pub fn from_state(state: &LeaseState) -> (display: Self)
        ensures
            display == display_of(*state),
    {
        match state {
            LeaseState::Active => LeaseDisplay::Active,
            _ => LeaseDisplay::Pending,
        }
    }

    /// The text of the variant.
    pub fn label(self) -> (label: &'static str)
        ensures
            label@ == display_label(self),
    {
        match self {
            LeaseDisplay::Pending => "◌ pending",
            LeaseDisplay::Active => "● active",
        }
    }

    /// The colour of the label.
    pub fn style(self) -> (tone: Tone)
        ensures
            tone == display_tone(self),
    {
        match self {
            LeaseDisplay::Pending => Tone::Yellow,
            LeaseDisplay::Active => Tone::Green,
        }
    }
}

/// Whether a system listener is correlated with a Portus lease.
#[derive(Debug, Clone, Copy, PartialEq, Eq, Structural)]
pub enum ListenerOwnership {
    /// Listener matches a lease by port+protocol.
    Managed,
    /// No matching lease found.
    Unmanaged,
}

/// Whether some lease is on the port of the listener.
pub open spec fn is_managed(listener: PortProcess, leases: Seq<Lease>) -> bool {
    exists|i: int|
        0 <= i < leases.len() && (#[trigger] leases[i]).port == listener.port && leases[i].protocol
            == listener.protocol
}

/// Whose a listener is.
pub open spec fn ownership_of(listener: PortProcess, leases: Seq<Lease>) -> ListenerOwnership {
    if is_managed(listener, leases) {
        ListenerOwnership::Managed
    } else {
        ListenerOwnership::Unmanaged
    }
}

/// The text for an ownership.
pub open spec fn ownership_tag(ownership: ListenerOwnership) -> Seq<char> {
    match ownership {
        ListenerOwnership::Managed => "[managed]"@,
        ListenerOwnership::Unmanaged => "[unmanaged]"@,
    }
}

/// The colour for an ownership.
pub open spec fn ownership_tone(ownership: ListenerOwnership) -> Tone {
    match ownership {
        ListenerOwnership::Managed => Tone::Cyan,
        ListenerOwnership::Unmanaged => Tone::DarkGray,
    }
}

impl ListenerOwnership {
    /// Match a listener against all loaded leases using exact port+protocol.
    pub fn classify(listener: &PortProcess, leases: &[Lease]) -> (ownership: Self)
        ensures
            ownership == ownership_of(*listener, leases@),
    {
        let mut i: usize = 0;
        while i < leases.len()
            invariant
                i <= leases.len(),
                forall|k: int|
                    0 <= k < i ==> !((#[trigger] leases@[k]).port == listener.port
                        && leases@[k].protocol == listener.protocol),
            decreases leases.len() - i,
        {
            if leases[i].port == listener.port && leases[i].protocol == listener.protocol {
                assert(leases@[i as int].port == listener.port);
                return ListenerOwnership::Managed;
            }
            i += 1;
        }
        ListenerOwnership::Unmanaged
    }

    /// The text for the ownership.
    pub fn tag(self) -> (tag: &'static str)
        ensures
            tag@ == ownership_tag(self),
    {
        match self {
            ListenerOwnership::Managed => "[managed]",
            ListenerOwnership::Unmanaged => "[unmanaged]",
        }
    }

    /// The colour of the tag.
    pub fn style(self) -> (tone: Tone)
        ensures
            tone == ownership_tone(self),
    {
        match self {
            ListenerOwnership::Managed => Tone::Cyan,
            ListenerOwnership::Unmanaged => Tone::DarkGray,
        }
    }
}

// ── Snapshot ────────────────────────────────────────────────────────────

/// What the dashboard shows at one moment.
#[derive(Debug)]
pub struct DashboardSnapshot {
    pub daemon_probe: Result<DaemonProbe, String>,
    pub leases: Vec<Lease>,
    pub listeners: Vec<PortProcess>,
    pub registry_path: String,
    pub error: Option<String>,
}

/// The text of the errors of a snapshot: that of the registry, that of the
/// scan, or both.
pub open spec fn snapshot_error(
    registry: Option<Seq<char>>,
    scan: Option<Seq<char>>,
) -> Option<Seq<char>> {
    match (registry, scan) {
        (None, None) => None,
        (Some(registry), None) => Some("registry: "@ + registry),
        (None, Some(scan)) => Some("scan: "@ + scan),
        (Some(registry), Some(scan)) => Some("registry: "@ + registry + " | "@ + "scan: "@ + scan),
    }
}

/// The text of the error of a result that failed.
pub open spec fn failure<T>(result: Result<T, String>) -> Option<Seq<char>> {
    match result {
        Ok(_) => None,
        Err(error) => Some(error@),
    }
}

impl DashboardSnapshot {
    /// Puts a snapshot together. What could not be loaded is shown as empty,
    /// with the error.
    pub fn assemble(
        registry_path: Result<String, String>,
        daemon_probe: Result<DaemonProbe, String>,
        leases: Result<Vec<Lease>, String>,
        listeners: Result<Vec<PortProcess>, String>,
    ) -> (snapshot: Self)
        ensures
            snapshot.daemon_probe == daemon_probe,
            match leases {
                Ok(leases) => snapshot.leases == leases,
                Err(_) => snapshot.leases@.len() == 0,
            },
            match listeners {
                Ok(listeners) => snapshot.listeners == listeners,
                Err(_) => snapshot.listeners@.len() == 0,
            },
            snapshot.registry_path@ == match registry_path {
                Ok(path) => path@,
                Err(error) => "unavailable ("@ + error@ + ")"@,
            },
            text::optional_string(snapshot.error) == snapshot_error(
                failure(leases),
                failure(listeners),
            ),
    {
        let registry_path = match registry_path {
            Ok(path) => path,
            Err(error) => {
                let mut out = "unavailable (".to_owned();
                out.append(error.as_str());
                out.append(")");
                out
            },
        };
        let mut errors: Option<String> = None;
        let leases = match leases {
            Ok(leases) => leases,
            Err(error) => {
                let mut out = "registry: ".to_owned();
                out.append(error.as_str());
                errors = Some(out);
                Vec::new()
            },
        };
        let listeners = match listeners {
            Ok(listeners) => listeners,
            Err(error) => {
                let mut out = match errors {
                    Some(first) => {
                        let mut joined = first;
                        joined.append(" | ");
                        joined
                    },
                    None => String::new(),
                };
                let ghost start = out@;
                out.append("scan: ");
                out.append(error.as_str());
                assert(start.len() == 0 ==> out@ =~= "scan: "@ + error@);
                errors = Some(out);
                Vec::new()
            },
        };
        DashboardSnapshot { daemon_probe, leases, listeners, registry_path, error: errors }
    }
}

// ── Panes ───────────────────────────────────────────────────────────────

/// How many listeners the dashboard shows.
pub const SHOWN_LISTENERS: usize = 12;

/// How many bytes of a project path the dashboard shows.
pub const PROJECT_WIDTH: usize = 36;

/// How many bytes of a command the dashboard shows.
pub const COMMAND_WIDTH: usize = 40;

/// A row of the lease table.
#[derive(Debug)]
pub struct LeaseRow {
    pub port: String,
    pub state: &'static str,
    pub tone: Tone,
    pub service: String,
    pub pid: String,
    pub project: String,
}

/// Whether the row shows the lease.
pub open spec fn shows_lease(row: LeaseRow, lease: Lease) -> bool {
    &&& row.port@ == decimal::decimal(lease.port as nat)
    &&& row.state@ == display_label(display_of(lease.state))
    &&& row.tone == display_tone(display_of(lease.state))
    &&& row.service == lease.service_name
    &&& row.pid@ == match lease.client_pid {
        Some(pid) => decimal::decimal(pid as nat),
        None => "-"@,
    }
    &&& row.project@ == text::shortened(lease.project_path@, PROJECT_WIDTH as int)
}

/// The rows of the lease table.
pub fn lease_rows(leases: &[Lease]) -> (rows: Vec<LeaseRow>)
    requires
        forall|i: int|
            0 <= i < leases@.len() ==> text::can_be_shortened(
                (#[trigger] leases@[i]).project_path@,
                PROJECT_WIDTH as int,
            ),
    ensures
        rows@.len() == leases@.len(),
        forall|i: int| 0 <= i < rows@.len() ==> shows_lease(#[trigger] rows@[i], leases@[i]),
{
    let mut rows: Vec<LeaseRow> = Vec::new();
    let mut i: usize = 0;
    while i < leases.len()
        invariant
            i <= leases.len(),
            rows@.len() == i,
            forall|k: int|
                0 <= k < leases@.len() ==> text::can_be_shortened(
                    (#[trigger] leases@[k]).project_path@,
                    PROJECT_WIDTH as int,
                ),
            forall|k: int| 0 <= k < i ==> shows_lease(#[trigger] rows@[k], leases@[k]),
        decreases leases.len() - i,
    {
        let lease = &leases[i];
        let display = LeaseDisplay::from_state(&lease.state);
        rows.push(
            LeaseRow {
                port: decimal::decimal_text(lease.port as u64),
                state: display.label(),
                tone: display.style(),
                service: lease.service_name.clone(),
                pid: match lease.client_pid {
                    Some(pid) => decimal::decimal_text(pid as u64),
                    None => "-".to_owned(),
                },
                project: text::shorten(lease.project_path.as_str(), PROJECT_WIDTH),
            },
        );
        i += 1;
    }
    rows
}

/// A row of the listener table.
#[derive(Debug)]
pub struct ListenerRow {
    pub port: String,
    pub pid: String,
    pub protocol: &'static str,
    pub owner: &'static str,
    pub tone: Tone,
    pub command: String,
}

/// Whether the row shows the listener.
pub open spec fn shows_listener(
    row: ListenerRow,
    listener: PortProcess,
    leases: Seq<Lease>,
) -> bool {
    &&& row.port@ == decimal::decimal(listener.port as nat)
    &&& row.pid@ == decimal::decimal(listener.pid as nat)
    &&& row.protocol@ == model::protocol_label(listener.protocol)
    &&& row.owner@ == ownership_tag(ownership_of(listener, leases))
    &&& row.tone == ownership_tone(ownership_of(listener, leases))
    &&& row.command@ == text::shortened(listener.command@, COMMAND_WIDTH as int)
}

/// The rows of the listener table: those of the first listeners.
pub fn listener_rows(listeners: &[PortProcess], leases: &[Lease]) -> (rows: Vec<ListenerRow>)
    requires
        forall|i: int|
            0 <= i < listeners@.len() && i < SHOWN_LISTENERS ==> text::can_be_shortened(
                (#[trigger] listeners@[i]).command@,
                COMMAND_WIDTH as int,
            ),
    ensures
        rows@.len() == if listeners@.len() < SHOWN_LISTENERS {
            listeners@.len() as int
        } else {
            SHOWN_LISTENERS as int
        },
        forall|i: int|
            0 <= i < rows@.len() ==> shows_listener(#[trigger] rows@[i], listeners@[i], leases@),
{
    let mut rows: Vec<ListenerRow> = Vec::new();
    let mut i: usize = 0;
    while i < listeners.len() && i < SHOWN_LISTENERS
        invariant
            i <= listeners.len(),
            i <= SHOWN_LISTENERS,
            rows@.len() == i,
            forall|k: int|
                0 <= k < listeners@.len() && k < SHOWN_LISTENERS ==> text::can_be_shortened(
                    (#[trigger] listeners@[k]).command@,
                    COMMAND_WIDTH as int,
                ),
            forall|k: int|
                0 <= k < i ==> shows_listener(#[trigger] rows@[k], listeners@[k], leases@),
        decreases listeners.len() - i,
    {
        let listener = &listeners[i];
        let ownership = ListenerOwnership::classify(listener, leases);
        rows.push(
            ListenerRow {
                port: decimal::decimal_text(listener.port as u64),
                pid: decimal::decimal_text(listener.pid as u64),
                protocol: listener.protocol.label(),
                owner: ownership.tag(),
                tone: ownership.style(),
                command: text::shorten(listener.command.as_str(), COMMAND_WIDTH),
            },
        );
        i += 1;
    }
    rows
}

/// The pane of the leases: their rows, or a text where there are none.
#[derive(Debug)]
pub enum LeasePane {
    Empty(&'static str),
    Rows(Vec<LeaseRow>),
}

/// The pane of the leases.
pub fn lease_pane(leases: &[Lease]) -> (pane: LeasePane)
    requires
        forall|i: int|
            0 <= i < leases@.len() ==> text::can_be_shortened(
                (#[trigger] leases@[i]).project_path@,
                PROJECT_WIDTH as int,
            ),
    ensures
        if leases@.len() == 0 {
            pane matches LeasePane::Empty(text) && text@ == "No active leases"@
        } else {
            pane matches LeasePane::Rows(rows) && {
                &&& rows@.len() == leases@.len()
                &&& forall|i: int|
                    0 <= i < rows@.len() ==> shows_lease(#[trigger] rows@[i], leases@[i])
            }
        },
{
    if leases.len() == 0 {
        LeasePane::Empty("No active leases")
    } else {
        LeasePane::Rows(lease_rows(leases))
    }
}

/// The pane of the listeners: the rows of the first ones, or a text where there
/// are none.
#[derive(Debug)]
pub enum ListenerPane {
    Empty(&'static str),
    Rows(Vec<ListenerRow>),
}

/// The pane of the listeners.
pub fn listener_pane(listeners: &[PortProcess], leases: &[Lease]) -> (pane: ListenerPane)
    requires
        forall|i: int|
            0 <= i < listeners@.len() && i < SHOWN_LISTENERS ==> text::can_be_shortened(
                (#[trigger] listeners@[i]).command@,
                COMMAND_WIDTH as int,
            ),
    ensures
        if listeners@.len() == 0 {
            pane matches ListenerPane::Empty(text) && text@ == "No listeners detected"@
        } else {
            pane matches ListenerPane::Rows(rows) && {
                &&& rows@.len() == if listeners@.len() < SHOWN_LISTENERS {
                    listeners@.len() as int
                } else {
                    SHOWN_LISTENERS as int
                }
                &&& forall|i: int|
                    0 <= i < rows@.len() ==> shows_listener(
                        #[trigger] rows@[i],
                        listeners@[i],
                        leases@,
                    )
            }
        },
{
    if listeners.len() == 0 {
        ListenerPane::Empty("No listeners detected")
    } else {
        ListenerPane::Rows(listener_rows(listeners, leases))
    }
}

/// A piece of text with its looks.
#[derive(Debug)]
pub struct StyledText {
    pub text: String,
    pub tone: Option<Tone>,
    pub bold: bool,
}

/// A piece of text with its looks, as plain values.
pub struct Styled {
    pub text: Seq<char>,
    pub tone: Option<Tone>,
    pub bold: bool,
}

impl View for StyledText {
    type V = Styled;

    open spec fn view(&self) -> Styled {
        Styled { text: self.text@, tone: self.tone, bold: self.bold }
    }
}

/// A line of pieces, as plain values.
pub open spec fn line_view(line: Seq<StyledText>) -> Seq<Styled> {
    line.map_values(|piece: StyledText| piece@)
}

/// Text without looks.
pub open spec fn plain(text: Seq<char>) -> Styled {
    Styled { text, tone: None, bold: false }
}

/// Text in a colour.
pub open spec fn coloured(text: Seq<char>, tone: Tone) -> Styled {
    Styled { text, tone: Some(tone), bold: false }
}

/// Bold text.
pub open spec fn bold(text: Seq<char>) -> Styled {
    Styled { text, tone: None, bold: true }
}

/// The lines of the status pane.
pub open spec fn status_view(snapshot: DashboardSnapshot) -> Seq<Seq<Styled>> {
    let health = health_of(snapshot.daemon_probe);
    let probe = match snapshot.daemon_probe {
        Ok(probe) => Some(probe),
        Err(_) => None,
    };
    let lines = seq![
        seq![bold("Portus Dashboard"@), coloured("  q: quit  r: refresh"@, Tone::DarkGray)],
        seq![plain("Daemon: "@), coloured(health_label(health, probe), health_tone(health))],
        seq![
            coloured("Leases: "@, Tone::DarkGray),
            bold(decimal::decimal(snapshot.leases@.len())),
            coloured("  Listeners: "@, Tone::DarkGray),
            bold(decimal::decimal(snapshot.listeners@.len())),
        ],
        seq![coloured("Registry: "@, Tone::DarkGray), plain(snapshot.registry_path@)],
    ];
    match snapshot.error {
        Some(error) => lines.push(
            seq![coloured("⚠ "@, Tone::Yellow), coloured(error@, Tone::Yellow)],
        ),
        None => lines,
    }
}

fn piece(text: &str, tone: Option<Tone>, bold: bool) -> (piece: StyledText)
    ensures
        piece@ == (Styled { text: text@, tone, bold }),
{
    StyledText { text: text.to_owned(), tone, bold }
}

fn pair(first: StyledText, second: StyledText) -> (line: Vec<StyledText>)
    ensures
        line_view(line@) == seq![first@, second@],
{
    let mut line: Vec<StyledText> = Vec::new();
    line.push(first);
    line.push(second);
    assert(line_view(line@) =~= seq![first@, second@]);
    line
}

/// The lines of the status pane.
pub fn status_lines(snapshot: &DashboardSnapshot) -> (lines: Vec<Vec<StyledText>>)
    ensures
        lines@.map_values(|line: Vec<StyledText>| line_view(line@)) == status_view(*snapshot),
{
    let health = DaemonHealth::classify(&snapshot.daemon_probe);
    let probe = match &snapshot.daemon_probe {
        Ok(probe) => Some(probe),
        Err(_) => None,
    };
    let mut lines: Vec<Vec<StyledText>> = Vec::new();
    lines.push(
        pair(
            piece("Portus Dashboard", None, true),
            piece("  q: quit  r: refresh", Some(Tone::DarkGray), false),
        ),
    );
    lines.push(
        pair(
            piece("Daemon: ", None, false),
            piece(health.label(probe).as_str(), Some(health.style()), false),
        ),
    );
    let mut counts = pair(
        piece("Leases: ", Some(Tone::DarkGray), false),
        piece(decimal::decimal_text(snapshot.leases.len() as u64).as_str(), None, true),
    );
    let ghost first = line_view(counts@);
    counts.push(piece("  Listeners: ", Some(Tone::DarkGray), false));
    counts.push(piece(decimal::decimal_text(snapshot.listeners.len() as u64).as_str(), None, true));
    assert(line_view(counts@) =~= first.push(counts@[2]@).push(counts@[3]@));
    lines.push(counts);
    lines.push(
        pair(
            piece("Registry: ", Some(Tone::DarkGray), false),
            piece(snapshot.registry_path.as_str(), None, false),
        ),
    );
    if let Some(error) = &snapshot.error {
        lines.push(
            pair(
                piece("⚠ ", Some(Tone::Yellow), false),
                piece(error.as_str(), Some(Tone::Yellow), false),
            ),
        );
    }
    assert(lines@.map_values(|line: Vec<StyledText>| line_view(line@)) =~~= status_view(
        *snapshot,
    ));
    lines
}

// ── Keys ────────────────────────────────────────────────────────────────

/// What the terminal reports within a second.
#[derive(Debug, Clone, Copy, PartialEq, Eq, Structural)]
pub enum TerminalEvent {
    /// A character was typed.
    Typed(char),
    /// Escape was pressed.
    Escape,
    /// Something else happened.
    Other,
    /// Nothing happened.
    Nothing,
}

/// What the dashboard does next.
#[derive(Debug, Clone, Copy, PartialEq, Eq, Structural)]
pub enum DashboardStep {
    Quit,
    Reload,
    Redraw,
}

/// The next step: `q` or escape quit, `r` or a second without an event reload.
pub fn dashboard_step(event: TerminalEvent) -> (step: DashboardStep)
    ensures
        step == match event {
            TerminalEvent::Typed('q') => DashboardStep::Quit,
            TerminalEvent::Escape => DashboardStep::Quit,
            TerminalEvent::Typed('r') => DashboardStep::Reload,
            TerminalEvent::Nothing => DashboardStep::Reload,
            _ => DashboardStep::Redraw,
        },
{
    match event {
        TerminalEvent::Typed('q') => DashboardStep::Quit,
        TerminalEvent::Escape => DashboardStep::Quit,
        TerminalEvent::Typed('r') => DashboardStep::Reload,
        TerminalEvent::Nothing => DashboardStep::Reload,
        _ => DashboardStep::Redraw,
    }
}

/// The dashboard and the scan agree on which listeners Portus manages.
pub proof fn dashboard_agrees_with_scan(listener: PortProcess, leases: Seq<Lease>)
    ensures
        is_managed(listener, leases) <==> cli::first_on(
            leases,
            listener.port,
            listener.protocol,
        ) is Some,
    decreases leases.len(),
{
    if leases.len() > 0 {
        let rest = leases.drop_first();
        dashboard_agrees_with_scan(listener, rest);
        if is_managed(listener, leases) {
            let i = choose|i: int|
                0 <= i < leases.len() && (#[trigger] leases[i]).port == listener.port
                    && leases[i].protocol == listener.protocol;
            if i > 0 {
                assert(rest[i - 1].port == listener.port);
            }
        }
        if is_managed(listener, rest) {
            let i = choose|i: int|
                0 <= i < rest.len() && (#[trigger] rest[i]).port == listener.port
                    && rest[i].protocol == listener.protocol;
            assert(leases[i + 1].port == listener.port);
        }
    }
}

} // verus!
