//! Standalone SSH tunnels: how their rows read, what a failed start tells
//! the user, and removing one from the list.

use vstd::prelude::*;

use crate::text::{has_substr, occurs_at};

verus! {

/// Why a tunnel did not start.
#[derive(Debug, Clone, PartialEq, Eq)]
pub enum TunnelStartError {
    /// The program that carries the tunnel is missing.
    ProgramNotFound {
        /// The missing program.
        program: String,
    },
    /// The tunnel's connection is not an SSH connection.
    NotSshConnection,
    /// The tunnel is already running.
    AlreadyRunning,
    /// Any other failure, with the system's own description of it.
    Other(String),
}

/// The advice for a missing program: `ssh` and `mptcpize` ship in different
/// packages; anything else gets generic advice rather than a guessed package.
pub open spec fn remedy_text(program: Seq<char>) -> Seq<char> {
    if program == "ssh"@ {
        "Install the OpenSSH client and try again."@
    } else if program == "mptcpize"@ {
        "It ships with the Multipath TCP tools (package “mptcpd” on most distributions). Install them, or turn off Multipath TCP for this connection."@
    } else {
        "Install it, or make sure it can be found on PATH."@
    }
}

/// What to do about the missing program that carries a tunnel.
pub fn missing_program_remedy(program: &str) -> (r: String)
    ensures
        r@ == remedy_text(program@),
{
    if crate::text::str_eq(program, "ssh") {
        String::from_str("Install the OpenSSH client and try again.")
    } else if crate::text::str_eq(program, "mptcpize") {
        String::from_str(
            "It ships with the Multipath TCP tools (package “mptcpd” on most distributions). Install them, or turn off Multipath TCP for this connection.",
        )
    } else {
        String::from_str("Install it, or make sure it can be found on PATH.")
    }
}

/// The body of the dialog for a tunnel that would not start; it always
/// names the tunnel.
pub open spec fn start_error_text(name: Seq<char>, e: TunnelStartError) -> Seq<char> {
    match e {
        TunnelStartError::ProgramNotFound { program } => "“"@ + name + "” needs "@ + program@
            + ", which is not installed or not on PATH. "@ + remedy_text(program@),
        TunnelStartError::NotSshConnection => "“"@ + name
            + "” is attached to a connection that is not SSH. Port forwarding needs an SSH connection."@,
        TunnelStartError::AlreadyRunning => "“"@ + name + "” is already running."@,
        TunnelStartError::Other(m) => "“"@ + name + "” could not be started: "@ + m@,
    }
}

/// The body of the dialog for a tunnel that would not start.
pub fn tunnel_start_error_body(name: &str, error: &TunnelStartError) -> (r: String)
    ensures
        r@ == start_error_text(name@, *error),
{
    let mut r = String::from_str("“");
    r.append(name);
    match error {
        TunnelStartError::ProgramNotFound { program } => {
            r.append("” needs ");
            r.append(program.as_str());
            r.append(", which is not installed or not on PATH. ");
            let remedy = missing_program_remedy(program.as_str());
            r.append(remedy.as_str());
        },
        TunnelStartError::NotSshConnection => {
            r.append(
                "” is attached to a connection that is not SSH. Port forwarding needs an SSH connection.",
            );
        },
        TunnelStartError::AlreadyRunning => {
            r.append("” is already running.");
        },
        TunnelStartError::Other(m) => {
            r.append("” could not be started: ");
            r.append(m.as_str());
        },
    }
    r
}

/// How a tunnel row shows its state.
pub struct TunnelRowStatus {
    /// The status icon.
    pub icon: String,
    /// The CSS class that colours it.
    pub css_class: String,
    /// The state, as tooltip and accessible label.
    pub state_text: String,
    /// The failure shown in the expanded row: only for a tunnel that stopped
    /// on its own, trimmed.
    pub last_error: Option<String>,
}

/// The state a row shows: a reported failure of a tunnel that is not running
/// means it stopped unexpectedly.
pub open spec fn row_status_spec(is_running: bool, failure: Option<Seq<char>>) -> (Seq<char>, Seq<char>, Seq<char>, Option<Seq<char>>) {
    match failure {
        Some(f) if !is_running => (
            "dialog-warning-symbolic"@,
            "error"@,
            "Stopped unexpectedly"@,
            Some(crate::text::trim(f)),
        ),
        _ => if is_running {
            ("radio-symbolic"@, "success"@, "Running"@, None)
        } else {
            ("radio-symbolic"@, "dim-label"@, "Stopped"@, None)
        },
    }
}

/// The views of an optional string.
pub open spec fn opt_view(o: Option<String>) -> Option<Seq<char>> {
    match o {
        Some(s) => Some(s@),
        None => None,
    }
}

/// How a tunnel row shows its state (see [`row_status_spec`]).
pub fn tunnel_row_status(is_running: bool, failure: Option<&str>) -> (s: TunnelRowStatus)
    ensures
        (s.icon@, s.css_class@, s.state_text@, opt_view(s.last_error)) == row_status_spec(
            is_running,
            match failure {
                Some(f) => Some(f@),
                None => None,
            },
        ),
{
    match failure {
        Some(f) => {
            if !is_running {
                let t = crate::text::trim_chars(f);
                return TunnelRowStatus {
                    icon: String::from_str("dialog-warning-symbolic"),
                    css_class: String::from_str("error"),
                    state_text: String::from_str("Stopped unexpectedly"),
                    last_error: Some(crate::text::string_of(&t)),
                };
            }
        },
        None => {},
    }
    if is_running {
        TunnelRowStatus {
            icon: String::from_str("radio-symbolic"),
            css_class: String::from_str("success"),
            state_text: String::from_str("Running"),
            last_error: None,
        }
    } else {
        TunnelRowStatus {
            icon: String::from_str("radio-symbolic"),
            css_class: String::from_str("dim-label"),
            state_text: String::from_str("Stopped"),
            last_error: None,
        }
    }
}

/// The start/stop button of a row: icon, tooltip and accessible label.
pub fn toggle_button(is_running: bool) -> (b: (String, String, String))
    ensures
        is_running ==> (b.0@, b.1@, b.2@) == ("media-playback-stop-symbolic"@, "Stop Tunnel"@, "Stop tunnel"@),
        !is_running ==> (b.0@, b.1@, b.2@) == ("media-playback-start-symbolic"@, "Start Tunnel"@, "Start tunnel"@),
{
    if is_running {
        (
            String::from_str("media-playback-stop-symbolic"),
            String::from_str("Stop Tunnel"),
            String::from_str("Stop tunnel"),
        )
    } else {
        (
            String::from_str("media-playback-start-symbolic"),
            String::from_str("Start Tunnel"),
            String::from_str("Start tunnel"),
        )
    }
}

/// The row subtitle: the forwards' summary, or a note that there are none.
pub fn forwards_subtitle(forward_count: usize, summary: &str) -> (s: String)
    ensures
        forward_count == 0 ==> s@ == "No port forwards configured"@,
        forward_count > 0 ==> s@ == summary@,
{
    if forward_count == 0 {
        String::from_str("No port forwards configured")
    } else {
        summary.to_owned()
    }
}

/// The SSH connection line of an expanded row: `name (user@host)` from the
/// (already markup-escaped) details of the tunnel's connection, or a note
/// that the connection is unknown.
pub fn connection_subtitle(connection: Option<(&str, &str, &str)>) -> (s: String)
    ensures
        match connection {
            Some((n, u, h)) => s@ == n@ + " ("@ + u@ + "@"@ + h@ + ")"@,
            None => s@ == "Unknown connection"@,
        },
{
    match connection {
        Some((n, u, h)) => {
            let mut s = n.to_owned();
            s.append(" (");
            s.append(u);
            s.append("@");
            s.append(h);
            s.append(")");
            s
        },
        None => String::from_str("Unknown connection"),
    }
}

/// The user shown for a connection: its username, or `?`.
pub fn shown_user(username: Option<&str>) -> (u: String)
    ensures
        match username {
            Some(x) => u@ == x@,
            None => u@ == "?"@,
        },
{
    match username {
        Some(x) => x.to_owned(),
        None => String::from_str("?"),
    }
}

/// The confirmation text before a tunnel is deleted.
pub fn delete_confirmation_body(tunnel_name: &str) -> (s: String)
    ensures
        s@ == "Tunnel \""@ + tunnel_name@ + "\" will be permanently removed."@,
{
    let mut s = String::from_str("Tunnel \"");
    s.append(tunnel_name);
    s.append("\" will be permanently removed.");
    s
}

/// What a click on a tunnel row's start/stop button does.
#[derive(Debug)]
pub enum TunnelToggle {
    /// The tunnel runs: stop it.
    Stop,
    /// The tunnel is stopped and its connection exists: start it, with the
    /// connection's cached password when one is cached and not empty.
    Start {
        /// The password handed to the start.
        password: Option<String>,
    },
    /// The tunnel's connection no longer exists: tell the user.
    ConnectionGone,
}

/// The password a start is given: the cached one, unless it is empty.
pub open spec fn start_password(cached: Option<Seq<char>>) -> Option<Seq<char>> {
    match cached {
        Some(p) => if p.len() == 0 {
            None
        } else {
            Some(p)
        },
        None => None,
    }
}

/// The view of an optional `&str`.
pub open spec fn str_opt_view(o: Option<&str>) -> Option<Seq<char>> {
    match o {
        Some(p) => Some(p@),
        None => None,
    }
}

/// The decision on a click of a tunnel row's start/stop button.
pub fn tunnel_toggle(is_running: bool, connection_exists: bool, cached_password: Option<&str>) -> (t:
    TunnelToggle)
    ensures
        is_running ==> t is Stop,
        !is_running && !connection_exists ==> t is ConnectionGone,
        !is_running && connection_exists ==> (t matches TunnelToggle::Start { password }
            && opt_view(password) == start_password(str_opt_view(cached_password))),
{
    if is_running {
        return TunnelToggle::Stop;
    }
    if !connection_exists {
        return TunnelToggle::ConnectionGone;
    }
    let password = match cached_password {
        Some(p) => if p.unicode_len() == 0 {
            None
        } else {
            Some(p.to_owned())
        },
        None => None,
    };
    TunnelToggle::Start { password }
}

/// The title of the dialog for a start the user asked for and did not get.
pub fn tunnel_not_started_title() -> (s: String)
    ensures
        s@ == "Tunnel Did Not Start"@,
{
    String::from_str("Tunnel Did Not Start")
}

/// The dialog body when a tunnel's SSH connection no longer exists.
pub fn connection_gone_body(tunnel_name: &str) -> (s: String)
    ensures
        s@ == "“"@ + tunnel_name@
            + "” refers to an SSH connection that no longer exists. Edit the tunnel and pick a connection."@,
{
    let mut s = String::from_str("“");
    s.append(tunnel_name);
    s.append(
        "” refers to an SSH connection that no longer exists. Edit the tunnel and pick a connection.",
    );
    s
}

/// A tunnel as the list keeps it.
#[derive(Debug)]
pub struct TunnelRecord {
    /// The tunnel id.
    pub id: u128,
    /// The tunnel name.
    pub name: String,
}

/// The (id, name) views of a list of tunnels.
pub open spec fn record_views(v: Seq<TunnelRecord>) -> Seq<(u128, Seq<char>)> {
    v.map_values(|t: TunnelRecord| (t.id, t.name@))
}

/// The name of the tunnel with id `id`, or an empty name.
pub fn tunnel_name(tunnels: &Vec<TunnelRecord>, id: u128) -> (n: String)
    ensures
        (exists|i: int| 0 <= i < tunnels@.len() && tunnels@[i].id == id) ==> exists|i: int|
            0 <= i < tunnels@.len() && tunnels@[i].id == id && n@ == tunnels@[i].name@ && forall|
                j: int,
            | 0 <= j < i ==> tunnels@[j].id != id,
        !(exists|i: int| 0 <= i < tunnels@.len() && tunnels@[i].id == id) ==> n@.len() == 0,
{
    let mut i: usize = 0;
    while i < tunnels.len()
        invariant
            i <= tunnels@.len(),
            forall|j: int| 0 <= j < i ==> tunnels@[j].id != id,
        decreases tunnels@.len() - i,
    {
        if tunnels[i].id == id {
            return tunnels[i].name.clone();
        }
        i = i + 1;
    }
    String::new()
}

/// The list without the tunnels whose id is `id`, the others in order.
pub fn remove_tunnel(tunnels: &Vec<TunnelRecord>, id: u128) -> (r: Vec<TunnelRecord>)
    ensures
        record_views(r@) == record_views(tunnels@).filter(|t: (u128, Seq<char>)| t.0 != id),
{
    let ghost all = record_views(tunnels@);
    let ghost keep = |t: (u128, Seq<char>)| t.0 != id;
    let mut r: Vec<TunnelRecord> = Vec::new();
    let mut i: usize = 0;
    assert(all.subrange(0, 0).filter(keep) =~= Seq::<(u128, Seq<char>)>::empty());
    while i < tunnels.len()
        invariant
            i <= tunnels@.len(),
            all == record_views(tunnels@),
            keep == (|t: (u128, Seq<char>)| t.0 != id),
            record_views(r@) == all.subrange(0, i as int).filter(keep),
        decreases tunnels@.len() - i,
    {
        let ghost before = record_views(r@);
        proof {
            assert(all.subrange(0, i + 1).drop_last() =~= all.subrange(0, i as int));
            assert(all.subrange(0, i + 1).last() == all[i as int]);
            assert(all.subrange(0, i + 1) =~= all.subrange(0, i as int).push(all[i as int]));
            all.subrange(0, i as int).lemma_filter_push(all[i as int], keep);
            assert(keep(all[i as int]) == (tunnels@[i as int].id != id));
        }
        if tunnels[i].id != id {
            r.push(TunnelRecord { id: tunnels[i].id, name: tunnels[i].name.clone() });
            proof {
                assert(record_views(r@) =~= before.push(all[i as int]));
            }
        }
        i = i + 1;
    }
    assert(all.subrange(0, all.len() as int) =~= all);
    r
}

/// How the tunnel manager lays out its list: an empty page when there are no
/// tunnels, else the running tunnels under "Active" and the rest under
/// "Stopped", each group in list order. Rows are given by their index.
#[derive(Debug)]
pub enum TunnelListLayout {
    /// No tunnels: the empty page with its add button.
    Empty,
    /// The two groups of the list page.
    Groups {
        /// The rows of running tunnels.
        active: Vec<usize>,
        /// The rows of the other tunnels.
        stopped: Vec<usize>,
    },
}

/// The rows, in order, whose running flag is `flag`.
pub open spec fn rows_where(running: Seq<bool>, flag: bool) -> Seq<int>
    decreases running.len(),
{
    if running.len() == 0 {
        Seq::empty()
    } else {
        let before = rows_where(running.drop_last(), flag);
        if running.last() == flag {
            before.push(running.len() - 1)
        } else {
            before
        }
    }
}

/// The rows of a `Vec<usize>` as integers.
pub open spec fn row_ints(v: Seq<usize>) -> Seq<int> {
    v.map_values(|i: usize| i as int)
}

/// The layout of the tunnel list, given for each tunnel whether it runs.
pub fn tunnel_list_layout(running: &Vec<bool>) -> (l: TunnelListLayout)
    ensures
        (running@.len() == 0) <==> (l is Empty),
        l matches TunnelListLayout::Groups { active, stopped } ==> row_ints(active@) == rows_where(
            running@,
            true,
        ) && row_ints(stopped@) == rows_where(running@, false),
{
    if running.len() == 0 {
        return TunnelListLayout::Empty;
    }
    let mut active: Vec<usize> = Vec::new();
    let mut stopped: Vec<usize> = Vec::new();
    let mut i: usize = 0;
    while i < running.len()
        invariant
            i <= running@.len(),
            row_ints(active@) == rows_where(running@.subrange(0, i as int), true),
            row_ints(stopped@) == rows_where(running@.subrange(0, i as int), false),
        decreases running@.len() - i,
    {
        let ghost next = running@.subrange(0, i + 1);
        assert(next.drop_last() =~= running@.subrange(0, i as int));
        assert(next.last() == running@[i as int]);
        if running[i] {
            active.push(i);
            assert(row_ints(active@) =~= rows_where(next, true));
            assert(row_ints(stopped@) =~= rows_where(next, false));
        } else {
            stopped.push(i);
            assert(row_ints(active@) =~= rows_where(next, true));
            assert(row_ints(stopped@) =~= rows_where(next, false));
        }
        i = i + 1;
    }
    assert(running@.subrange(0, running@.len() as int) =~= running@);
    TunnelListLayout::Groups { active, stopped }
}

/// Every tunnel of the list shows in exactly one group: in "Active" if it
/// runs, in "Stopped" if not; and the two groups hold every tunnel once.
pub proof fn law_each_tunnel_in_one_group(running: Seq<bool>, i: int)
    requires
        0 <= i < running.len(),
    ensures
        rows_where(running, running[i]).contains(i),
        !rows_where(running, !running[i]).contains(i),
        rows_where(running, true).len() + rows_where(running, false).len() == running.len(),
    decreases running.len(),
{
    lemma_rows_split(running);
    let last = running.len() - 1;
    let f = running[i];
    let nf = !f;
    let rest = running.drop_last();
    if i == last {
        assert(rows_where(running, f) =~= rows_where(rest, f).push(last));
        assert(rows_where(running, f)[rows_where(rest, f).len() as int] == i);
        assert(rows_where(running, nf) == rows_where(rest, nf));
        lemma_rows_below(rest, nf);
        assert forall|k: int| 0 <= k < rows_where(running, nf).len() implies #[trigger] rows_where(
            running,
            nf,
        )[k] != i by {
            assert(rows_where(rest, nf)[k] < rest.len());
        }
    } else {
        law_each_tunnel_in_one_group(rest, i);
        assert(rest[i] == f);
        let k = choose|k: int| 0 <= k < rows_where(rest, f).len() && rows_where(rest, f)[k] == i;
        if running.last() == f {
            assert(rows_where(running, f) =~= rows_where(rest, f).push(last));
            assert(rows_where(running, f)[k] == i);
            assert(rows_where(running, nf) == rows_where(rest, nf));
        } else {
            assert(rows_where(running, f) == rows_where(rest, f));
            assert(rows_where(running, nf) =~= rows_where(rest, nf).push(last));
            assert forall|j: int| 0 <= j < rows_where(running, nf).len() implies #[trigger] rows_where(
                running,
                nf,
            )[j] != i by {
                if j < rows_where(rest, nf).len() {
                    assert(rows_where(running, nf)[j] == rows_where(rest, nf)[j]);
                }
            }
        }
    }
}

/// The rows of one group are below the list's length.
proof fn lemma_rows_below(running: Seq<bool>, flag: bool)
    ensures
        forall|k: int|
            0 <= k < rows_where(running, flag).len() ==> 0 <= #[trigger] rows_where(running, flag)[k]
                < running.len(),
    decreases running.len(),
{
    if running.len() > 0 {
        let rest = running.drop_last();
        lemma_rows_below(rest, flag);
        assert forall|k: int| 0 <= k < rows_where(running, flag).len() implies 0 <= #[trigger] rows_where(
            running,
            flag,
        )[k] < running.len() by {
            if running.last() == flag {
                assert(rows_where(running, flag) =~= rows_where(rest, flag).push(running.len() - 1));
                if k < rows_where(rest, flag).len() {
                    assert(rows_where(running, flag)[k] == rows_where(rest, flag)[k]);
                }
            } else {
                assert(rows_where(running, flag)[k] == rows_where(rest, flag)[k]);
            }
        }
    }
}

/// The two groups together are as long as the list.
proof fn lemma_rows_split(running: Seq<bool>)
    ensures
        rows_where(running, true).len() + rows_where(running, false).len() == running.len(),
    decreases running.len(),
{
    if running.len() > 0 {
        lemma_rows_split(running.drop_last());
    }
}

/// No character of `s` is `c`.
pub open spec fn lacks_char(s: Seq<char>, c: char) -> bool {
    forall|j: int| 0 <= j < s.len() ==> s[j] != c
}

/// `pat` cannot occur in `“ + name + rest` when it does not occur in
/// `name`, no character of `pat` is `“` or `rest`'s first, and `rest`
/// never holds `pat`'s first character.
proof fn lemma_not_in_quoted(name: Seq<char>, rest: Seq<char>, pat: Seq<char>)
    requires
        pat.len() > 0,
        rest.len() > 0,
        !has_substr(name, pat),
        lacks_char(pat, '“'),
        lacks_char(pat, rest[0]),
        lacks_char(rest, pat[0]),
    ensures
        !has_substr("“"@ + name + rest, pat),
{
    reveal_strlit("“");
    let t = "“"@ + name + rest;
    let n: int = name.len() as int;
    assert forall|i: int| !occurs_at(t, pat, i) by {
        if occurs_at(t, pat, i) {
            let m = pat.len();
            assert(t.subrange(i, i + m)[0] == t[i]);
            if i == 0 {
                assert(t[0] == '“');
                assert(pat[0] == t[0]);
            } else if i + m <= 1 + n {
                assert(name.subrange(i - 1, i - 1 + m) =~= t.subrange(i, i + m));
                assert(occurs_at(name, pat, i - 1));
            } else if i <= n {
                let q = 1 + n - i;
                assert(t.subrange(i, i + m)[q] == t[1 + n]);
                assert(t[1 + n] == rest[0]);
                assert(pat[q] == rest[0]);
            } else {
                assert(t[i] == rest[i - 1 - n]);
                assert(pat[0] == rest[i - 1 - n]);
            }
        }
    }
}

/// The advice for a missing program points only at the package that
/// program ships in: a missing `mptcpize` never sends the user to install
/// OpenSSH, and a missing `ssh` never mentions mptcpd, as long as the
/// tunnel's own name does not carry that word.
pub proof fn law_remedy_names_only_the_missing_package(name: Seq<char>, e: TunnelStartError)
    ensures
        match e {
            TunnelStartError::ProgramNotFound { program } => {
                &&& (program@ == "mptcpize"@ && !has_substr(name, "OpenSSH"@)) ==> !has_substr(
                    start_error_text(name, e),
                    "OpenSSH"@,
                )
                &&& (program@ == "ssh"@ && !has_substr(name, "mptcpd"@)) ==> !has_substr(
                    start_error_text(name, e),
                    "mptcpd"@,
                )
            },
            _ => true,
        },
{
    reveal_strlit("” needs ");
    reveal_strlit(", which is not installed or not on PATH. ");
    reveal_strlit("mptcpize");
    reveal_strlit("ssh");
    reveal_strlit("OpenSSH");
    reveal_strlit("mptcpd");
    reveal_strlit("Install the OpenSSH client and try again.");
    reveal_strlit(
        "It ships with the Multipath TCP tools (package “mptcpd” on most distributions). Install them, or turn off Multipath TCP for this connection.",
    );
    if let TunnelStartError::ProgramNotFound { program } = e {
        let p = program@;
        let rest = "” needs "@ + p + ", which is not installed or not on PATH. "@ + remedy_text(p);
        assert(start_error_text(name, e) =~= "“"@ + name + rest);
        if p == "mptcpize"@ && !has_substr(name, "OpenSSH"@) {
            assert(lacks_char(rest, 'O'));
            lemma_not_in_quoted(name, rest, "OpenSSH"@);
        }
        if p == "ssh"@ && !has_substr(name, "mptcpd"@) {
            assert(lacks_char(rest, 'm'));
            lemma_not_in_quoted(name, rest, "mptcpd"@);
        }
    }
}

/// Every start-failure message names the tunnel; a missing program's
/// message names the program and carries the advice for it; any other
/// failure carries the system's own words.
pub proof fn law_start_errors_carry_their_details(name: Seq<char>, e: TunnelStartError)
    ensures
        has_substr(start_error_text(name, e), name),
        match e {
            TunnelStartError::ProgramNotFound { program } => has_substr(start_error_text(name, e), program@)
                && has_substr(start_error_text(name, e), remedy_text(program@)),
            TunnelStartError::Other(m) => has_substr(start_error_text(name, e), m@),
            _ => true,
        },
{
    reveal_strlit("“");
    reveal_strlit("” needs ");
    reveal_strlit("” could not be started: ");
    let t = start_error_text(name, e);
    assert(t.subrange(1, 1 + name.len() as int) =~= name);
    assert(occurs_at(t, name, 1));
    match e {
        TunnelStartError::ProgramNotFound { program } => {
            let p = program@;
            let mid = ", which is not installed or not on PATH. "@;
            let at: int = (1 + name.len() + "” needs "@.len()) as int;
            assert(t == "“"@ + name + "” needs "@ + p + mid + remedy_text(p));
            assert(t.subrange(at, at + p.len() as int) =~= p);
            assert(occurs_at(t, p, at));
            let at2: int = at + p.len() + mid.len();
            assert(t.subrange(at2, at2 + remedy_text(p).len() as int) =~= remedy_text(p));
            assert(occurs_at(t, remedy_text(p), at2));
        },
        TunnelStartError::Other(m) => {
            let at: int = (1 + name.len() + "” could not be started: "@.len()) as int;
            assert(t.subrange(at, at + m@.len() as int) =~= m@);
            assert(occurs_at(t, m@, at));
        },
        _ => {},
    }
}

/// Every start-failure message names the tunnel it is about, right after
/// the opening quote.
pub proof fn law_start_errors_name_the_tunnel(name: Seq<char>, e: TunnelStartError)
    ensures
        crate::text::occurs_at(start_error_text(name, e), name, 1),
{
    reveal_strlit("“");
    let t = start_error_text(name, e);
    assert(t.subrange(1, (1 + name.len()) as int) =~= name);
}

} // verus!
