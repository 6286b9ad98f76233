//! How a sidebar row presents a group or a connection: icon, tooltip,
//! status emblem, notes badge, sync indicator and split marker.

use vstd::prelude::*;

use crate::text::{decimal, decimal_string, trim, trim_is_empty};
use crate::vault::keys::{join, join_strings, views};

verus! {

/// Number of split-marker colours (one CSS class each).
pub const SPLIT_MARKER_COUNT: u32 = 6;

/// The CSS class of the split marker for palette index `i`.
pub open spec fn split_class(i: nat) -> Seq<char> {
    "sidebar-split-"@ + decimal(i % 6)
}

/// The split-membership marker for a `split-color` value: hidden (`None`)
/// for a negative value, else the class of the palette index, taken modulo
/// the palette size.
pub fn split_marker_class(split_color: i32) -> (r: Option<String>)
    ensures
        split_color < 0 ==> r is None,
        split_color >= 0 ==> (r matches Some(c) && c@ == split_class(split_color as nat)),
{
    if split_color < 0 {
        return None;
    }
    let i: u64 = (split_color as u64) % 6;
    let mut c = String::from_str("sidebar-split-");
    let d = decimal_string(i);
    c.append(d.as_str());
    Some(c)
}

/// The ancestor path of a row: the names of its parent groups from the
/// root down, joined with ` › `. `parents` lists them nearest first.
pub open spec fn ancestor_path_text(parents: Seq<Seq<char>>) -> Seq<char> {
    join(parents.reverse(), " › "@)
}

/// The ancestor path of a row (see [`ancestor_path_text`]).
pub fn ancestor_path(parents_nearest_first: &Vec<String>) -> (r: String)
    ensures
        r@ == ancestor_path_text(views(parents_nearest_first@)),
{
    let n = parents_nearest_first.len();
    let mut rev: Vec<String> = Vec::new();
    let mut i: usize = n;
    while i > 0
        invariant
            i <= n,
            n == parents_nearest_first@.len(),
            views(rev@) == views(parents_nearest_first@).reverse().subrange(0, (n - i) as int),
        decreases i,
    {
        let ghost before = views(rev@);
        rev.push(parents_nearest_first[i - 1].clone());
        proof {
            assert(views(rev@) =~= before.push(parents_nearest_first@[i - 1]@));
            assert(views(parents_nearest_first@).reverse().subrange(0, (n - i + 1) as int) =~= before.push(
                parents_nearest_first@[i - 1]@,
            ));
        }
        i = i - 1;
    }
    assert(views(parents_nearest_first@).reverse().subrange(0, n as int) =~= views(
        parents_nearest_first@,
    ).reverse());
    join_strings(&rev, " › ")
}

/// A group row's tooltip: its path and name, with the number of children
/// in parentheses when it has any.
pub open spec fn group_tooltip_text(path: Seq<char>, name: Seq<char>, child_count: nat) -> Seq<char> {
    let head = if path.len() == 0 {
        name
    } else {
        path + " › "@ + name
    };
    if child_count > 0 {
        head + " ("@ + decimal(child_count) + ")"@
    } else {
        head
    }
}

/// A group row's tooltip.
pub fn group_tooltip(path_prefix: &str, name: &str, child_count: u32) -> (r: String)
    ensures
        r@ == group_tooltip_text(path_prefix@, name@, child_count as nat),
{
    let mut r = if path_prefix.unicode_len() == 0 {
        name.to_owned()
    } else {
        let mut h = path_prefix.to_owned();
        h.append(" › ");
        h.append(name);
        h
    };
    if child_count > 0 {
        r.append(" (");
        let d = decimal_string(child_count as u64);
        r.append(d.as_str());
        r.append(")");
    }
    r
}

/// A connection row's tooltip: its path and name, and the host on a second
/// line unless it is empty or the same as the name.
pub open spec fn connection_tooltip_text(path: Seq<char>, name: Seq<char>, host: Seq<char>) -> Seq<
    char,
> {
    let head = if path.len() == 0 {
        name
    } else {
        path + " › "@ + name
    };
    if host.len() == 0 || host == name {
        head
    } else {
        head + "\n"@ + host
    }
}

/// A connection row's tooltip.
pub fn connection_tooltip(path_prefix: &str, name: &str, host: &str) -> (r: String)
    ensures
        r@ == connection_tooltip_text(path_prefix@, name@, host@),
{
    let mut r = if path_prefix.unicode_len() == 0 {
        name.to_owned()
    } else {
        let mut h = path_prefix.to_owned();
        h.append(" › ");
        h.append(name);
        h
    };
    if !(host.unicode_len() == 0 || crate::text::str_eq(host, name)) {
        r.append("\n");
        r.append(host);
    }
    r
}

/// A status emblem: icon, CSS class and accessible label.
pub struct StatusEmblem {
    /// The icon name.
    pub icon: String,
    /// The CSS class that tints it.
    pub css_class: String,
    /// The accessible label.
    pub label: String,
}

/// The emblem for a connection status, if the status shows one.
pub open spec fn status_emblem_spec(status: Seq<char>) -> Option<(Seq<char>, Seq<char>, Seq<char>)> {
    if status == "connected"@ {
        Some(("object-select-symbolic"@, "status-connected"@, "Connected"@))
    } else if status == "connecting"@ {
        Some(("network-transmit-receive-symbolic"@, "status-connecting"@, "Connecting"@))
    } else if status == "failed"@ {
        Some(("dialog-error-symbolic"@, "status-failed"@, "Connection failed"@))
    } else {
        None
    }
}

/// The status emblem of a connection row; `None` hides it.
pub fn status_emblem(status: &str) -> (r: Option<StatusEmblem>)
    ensures
        match status_emblem_spec(status@) {
            Some(e) => r matches Some(x) && (x.icon@, x.css_class@, x.label@) == e,
            None => r is None,
        },
{
    if crate::text::str_eq(status, "connected") {
        Some(
            StatusEmblem {
                icon: String::from_str("object-select-symbolic"),
                css_class: String::from_str("status-connected"),
                label: String::from_str("Connected"),
            },
        )
    } else if crate::text::str_eq(status, "connecting") {
        Some(
            StatusEmblem {
                icon: String::from_str("network-transmit-receive-symbolic"),
                css_class: String::from_str("status-connecting"),
                label: String::from_str("Connecting"),
            },
        )
    } else if crate::text::str_eq(status, "failed") {
        Some(
            StatusEmblem {
                icon: String::from_str("dialog-error-symbolic"),
                css_class: String::from_str("status-failed"),
                label: String::from_str("Connection failed"),
            },
        )
    } else {
        None
    }
}

/// Number of UTF-8 bytes that encode `c`.
pub open spec fn utf8_width(c: char) -> nat {
    let u = c as u32;
    if u < 0x80 {
        1
    } else if u < 0x800 {
        2
    } else if u < 0x10000 {
        3
    } else {
        4
    }
}

/// Number of UTF-8 bytes of `s` (`str::len`).
pub open spec fn utf8_len(s: Seq<char>) -> nat
    decreases s.len(),
{
    if s.len() == 0 {
        0
    } else {
        utf8_len(s.drop_last()) + utf8_width(s.last())
    }
}

/// The longest note shown in full, in bytes.
pub const NOTE_TOOLTIP_MAX_BYTES: u64 = 120;

/// `j` is the last character index of `s` whose byte offset is at most the
/// limit.
pub open spec fn is_last_start_within(s: Seq<char>, j: int) -> bool {
    &&& 0 <= j < s.len()
    &&& utf8_len(s.subrange(0, j)) <= 120
    &&& forall|k: int| j < k < s.len() ==> utf8_len(#[trigger] s.subrange(0, k)) > 120
}

/// The notes badge tooltip: none for a blank description; a description of
/// more than 120 bytes is cut before the last character that starts within
/// the first 120 bytes, and marked with `…`.
pub open spec fn note_tooltip_text(desc: Seq<char>) -> Option<Seq<char>> {
    if trim(desc).len() == 0 {
        None
    } else if utf8_len(desc) > 120 {
        Some(desc.subrange(0, choose|j: int| is_last_start_within(desc, j)) + "…"@)
    } else {
        Some(desc)
    }
}

/// Exec form of [`utf8_width`].
pub(crate) fn utf8_width_exec(c: char) -> (w: u64)
    ensures
        w == utf8_width(c),
{
    let u = c as u32;
    if u < 0x80 {
        1
    } else if u < 0x800 {
        2
    } else if u < 0x10000 {
        3
    } else {
        4
    }
}

/// The notes badge tooltip (see [`note_tooltip_text`]); `None` hides the
/// badge.
pub fn note_badge_tooltip(desc: &str) -> (r: Option<String>)
    ensures
        match note_tooltip_text(desc@) {
            Some(t) => r matches Some(x) && x@ == t,
            None => r is None,
        },
{
    if trim_is_empty(desc) {
        return None;
    }
    let v = crate::text::chars_of(desc);
    let n = v.len();
    let mut i: usize = 0;
    let mut bytes: u64 = 0;
    let mut over = false;
    let mut last_within: usize = 0;
    assert(v@.subrange(0, 0) =~= Seq::<char>::empty());
    while i < n
        invariant
            n == v@.len(),
            i <= n,
            !over ==> bytes == utf8_len(v@.subrange(0, i as int)) && bytes <= 120,
            over ==> utf8_len(v@.subrange(0, i as int)) > 120,
            last_within <= i,
            i > 0 ==> last_within < i,
            utf8_len(v@.subrange(0, last_within as int)) <= 120,
            forall|k: int| last_within < k < i ==> utf8_len(#[trigger] v@.subrange(0, k)) > 120,
        decreases n - i,
    {
        proof {
            assert(v@.subrange(0, i + 1).drop_last() =~= v@.subrange(0, i as int));
        }
        if !over {
            last_within = i;
            let nb = bytes + utf8_width_exec(v[i]);
            if nb > 120 {
                over = true;
            } else {
                bytes = nb;
            }
        }
        i = i + 1;
    }
    assert(v@.subrange(0, n as int) =~= v@);
    if over {
        proof {
            assert(n > 0);
            assert(is_last_start_within(v@, last_within as int));
            let c = choose|j: int| is_last_start_within(v@, j);
            assert(is_last_start_within(v@, c));
            if c < last_within {
                assert(utf8_len(v@.subrange(0, last_within as int)) > 120);
            } else if c > last_within {
                assert(utf8_len(v@.subrange(0, c)) > 120);
            }
        }
        let mut t = crate::text::string_from_chars(&v, 0, last_within);
        t.append("…");
        Some(t)
    } else {
        Some(desc.to_owned())
    }
}

/// How a sync indicator looks: icon, CSS class and tooltip.
pub struct SyncIndicator {
    /// The icon name.
    pub icon: String,
    /// The CSS class (`dim-label`, or `error` on a sync error).
    pub css_class: String,
    /// The tooltip and accessible label.
    pub tooltip: String,
}

/// The sync indicator of a group, shown for `master` and `import` groups.
pub open spec fn sync_indicator_spec(mode: Seq<char>, error: Seq<char>) -> Option<(Seq<char>, Seq<char>, Seq<char>)> {
    if mode == "master"@ || mode == "import"@ {
        if error.len() == 0 {
            Some((
                "view-refresh-symbolic"@,
                "dim-label"@,
                if mode == "master"@ {
                    "Master — synced to cloud"@
                } else {
                    "Import — synced from cloud"@
                },
            ))
        } else {
            Some(("dialog-warning-symbolic"@, "error"@, "Sync error: "@ + error))
        }
    } else {
        None
    }
}

/// The sync indicator of a group; `None` hides it.
pub fn sync_indicator(sync_mode: &str, sync_error: &str) -> (r: Option<SyncIndicator>)
    ensures
        match sync_indicator_spec(sync_mode@, sync_error@) {
            Some(e) => r matches Some(x) && (x.icon@, x.css_class@, x.tooltip@) == e,
            None => r is None,
        },
{
    let master = crate::text::str_eq(sync_mode, "master");
    let import = crate::text::str_eq(sync_mode, "import");
    if !(master || import) {
        return None;
    }
    if sync_error.unicode_len() == 0 {
        let tooltip = if master {
            String::from_str("Master — synced to cloud")
        } else {
            String::from_str("Import — synced from cloud")
        };
        Some(
            SyncIndicator {
                icon: String::from_str("view-refresh-symbolic"),
                css_class: String::from_str("dim-label"),
                tooltip,
            },
        )
    } else {
        let mut tooltip = String::from_str("Sync error: ");
        tooltip.append(sync_error);
        Some(
            SyncIndicator {
                icon: String::from_str("dialog-warning-symbolic"),
                css_class: String::from_str("error"),
                tooltip,
            },
        )
    }
}

/// The icon a row shows.
#[derive(Debug, PartialEq, Eq)]
pub enum RowIcon {
    /// A themed icon, by name.
    Named(String),
    /// An emoji or other glyph, shown as text.
    Glyph(String),
}

/// The row icon: the default when no custom icon is set, the glyph itself
/// for an emoji, the custom icon name when the theme has it, else the
/// default.
pub open spec fn row_icon_spec(custom: Seq<char>, is_glyph: bool, theme_has_custom: bool, default: Seq<char>) -> (bool, Seq<char>) {
    if custom.len() == 0 {
        (false, default)
    } else if is_glyph {
        (true, custom)
    } else if theme_has_custom {
        (false, custom)
    } else {
        (false, default)
    }
}

/// The icon of a row (see [`row_icon_spec`]; the first component says
/// whether it is a glyph). `is_glyph` and `theme_has_custom` are what the
/// icon helpers say of `custom`.
pub fn row_icon(custom: &str, is_glyph: bool, theme_has_custom: bool, default: &str) -> (r: RowIcon)
    ensures
        match r {
            RowIcon::Named(n) => row_icon_spec(custom@, is_glyph, theme_has_custom, default@) == (
                false,
                n@,
            ),
            RowIcon::Glyph(g) => row_icon_spec(custom@, is_glyph, theme_has_custom, default@) == (
                true,
                g@,
            ),
        },
{
    if custom.unicode_len() == 0 {
        RowIcon::Named(default.to_owned())
    } else if is_glyph {
        RowIcon::Glyph(custom.to_owned())
    } else if theme_has_custom {
        RowIcon::Named(custom.to_owned())
    } else {
        RowIcon::Named(default.to_owned())
    }
}

/// A group row's tooltip with its sync state appended after ` — `.
pub open spec fn group_sync_tooltip_text(base: Seq<char>, sync: Seq<char>) -> Seq<char> {
    base + " — "@ + sync
}

/// What a bound group row shows.
pub struct GroupRow {
    /// The row icon.
    pub icon: RowIcon,
    /// The expander tooltip.
    pub tooltip: String,
    /// The sync indicator, if shown.
    pub sync: Option<SyncIndicator>,
}

/// What a group row shows: its icon (`folder-symbolic` by default), its
/// tooltip, extended with the sync state when the group syncs, and its
/// sync indicator.
pub fn present_group_row(
    name: &str,
    custom_icon: &str,
    is_glyph: bool,
    theme_has_custom: bool,
    parents_nearest_first: &Vec<String>,
    child_count: u32,
    sync_mode: &str,
    sync_error: &str,
) -> (r: GroupRow)
    ensures
        match r.icon {
            RowIcon::Named(n) => row_icon_spec(custom_icon@, is_glyph, theme_has_custom, "folder-symbolic"@)
                == (false, n@),
            RowIcon::Glyph(g) => row_icon_spec(custom_icon@, is_glyph, theme_has_custom, "folder-symbolic"@)
                == (true, g@),
        },
        ({
            let base = group_tooltip_text(
                ancestor_path_text(views(parents_nearest_first@)),
                name@,
                child_count as nat,
            );
            match sync_indicator_spec(sync_mode@, sync_error@) {
                Some(e) => r.tooltip@ == group_sync_tooltip_text(base, e.2) && (r.sync matches Some(
                    x,
                ) && (x.icon@, x.css_class@, x.tooltip@) == e),
                None => r.tooltip@ == base && r.sync is None,
            }
        }),
{
    let icon = row_icon(custom_icon, is_glyph, theme_has_custom, "folder-symbolic");
    let path = ancestor_path(parents_nearest_first);
    let base = group_tooltip(path.as_str(), name, child_count);
    let sync = sync_indicator(sync_mode, sync_error);
    let tooltip = match &sync {
        Some(s) => {
            let mut t = base;
            t.append(" — ");
            t.append(s.tooltip.as_str());
            t
        },
        None => base,
    };
    GroupRow { icon, tooltip, sync }
}

/// What a bound connection row shows.
pub struct ConnectionRow {
    /// The row icon.
    pub icon: RowIcon,
    /// The expander tooltip.
    pub tooltip: String,
    /// The status emblem, if shown.
    pub status: Option<StatusEmblem>,
    /// The notes badge tooltip, if the badge is shown.
    pub note: Option<String>,
    /// The split marker class, if the marker is shown.
    pub split_marker: Option<String>,
}

/// What a connection row shows: its icon (the protocol icon by default),
/// tooltip, status emblem, notes badge and split marker.
pub fn present_connection_row(
    name: &str,
    host: &str,
    custom_icon: &str,
    is_glyph: bool,
    theme_has_custom: bool,
    protocol_icon: &str,
    parents_nearest_first: &Vec<String>,
    status: &str,
    description: &str,
    split_color: i32,
) -> (r: ConnectionRow)
    ensures
        match r.icon {
            RowIcon::Named(n) => row_icon_spec(custom_icon@, is_glyph, theme_has_custom, protocol_icon@)
                == (false, n@),
            RowIcon::Glyph(g) => row_icon_spec(custom_icon@, is_glyph, theme_has_custom, protocol_icon@)
                == (true, g@),
        },
        r.tooltip@ == connection_tooltip_text(
            ancestor_path_text(views(parents_nearest_first@)),
            name@,
            host@,
        ),
        match status_emblem_spec(status@) {
            Some(e) => r.status matches Some(x) && (x.icon@, x.css_class@, x.label@) == e,
            None => r.status is None,
        },
        match note_tooltip_text(description@) {
            Some(t) => r.note matches Some(x) && x@ == t,
            None => r.note is None,
        },
        split_color < 0 ==> r.split_marker is None,
        split_color >= 0 ==> (r.split_marker matches Some(c) && c@ == split_class(split_color as nat)),
{
    let icon = row_icon(custom_icon, is_glyph, theme_has_custom, protocol_icon);
    let path = ancestor_path(parents_nearest_first);
    let tooltip = connection_tooltip(path.as_str(), name, host);
    ConnectionRow {
        icon,
        tooltip,
        status: status_emblem(status),
        note: note_badge_tooltip(description),
        split_marker: split_marker_class(split_color),
    }
}

/// The flags a row's context menu is built from.
pub struct MenuFlags {
    /// The connection speaks SSH (or SFTP).
    pub is_ssh: bool,
    /// The connection is connected.
    pub is_connected: bool,
    /// A session of the connection is being recorded.
    pub is_recording: bool,
}

/// The context-menu flags of a row. `recording` is what the recording
/// checker says of the connection id; it is only asked for a connected row
/// with an id.
pub fn menu_flags(protocol: &str, status: &str, connection_id: &str, recording: bool) -> (f: MenuFlags)
    ensures
        f.is_ssh == (protocol@ == "ssh"@ || protocol@ == "sftp"@),
        f.is_connected == (status@ == "connected"@),
        f.is_recording == (status@ == "connected"@ && connection_id@.len() > 0 && recording),
{
    let is_ssh = crate::text::str_eq(protocol, "ssh") || crate::text::str_eq(protocol, "sftp");
    let is_connected = crate::text::str_eq(status, "connected");
    let is_recording = is_connected && connection_id.unicode_len() > 0 && recording;
    MenuFlags { is_ssh, is_connected, is_recording }
}

} // verus!
