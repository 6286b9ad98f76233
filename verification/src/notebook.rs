//! Where each session lives: in a tab of the notebook, or parked (in a
//! split pane or a detached window) with its tab closed.
//!
//! Closing a tab page runs the session's teardown unless the session is
//! parked; parking marks the session first, so only the page goes. Every
//! known session is always in exactly one placement: a tab, or a park mark.

use vstd::prelude::*;

use std::collections::HashMap;
use std::collections::HashSet;

use crate::ids::random_id;

verus! {

broadcast use vstd::std_specs::hash::group_hash_axioms;

/// What a tab page shows.
#[derive(Debug, Clone, Copy, PartialEq, Eq, Structural)]
pub enum PageOwner {
    /// The welcome page.
    Welcome,
    /// A session's tab.
    Session(u128),
    /// A page left behind when its session was given a newer tab under the
    /// same id; it belongs to no session.
    Orphan,
}

/// A page of the tab bar.
#[derive(Debug)]
pub struct TabPage {
    /// What the page shows.
    pub owner: PageOwner,
    /// The tab title.
    pub title: String,
    /// The tab's icon name.
    pub icon: String,
    /// The tab tooltip.
    pub tooltip: String,
}

/// What the notebook knows of a session.
#[derive(Debug)]
pub struct TerminalSession {
    /// The session id.
    pub id: u128,
    /// The connection the session belongs to.
    pub connection_id: u128,
    /// The session's display name.
    pub name: String,
    /// The protocol name (`"ssh"`, `"vnc"`, ...).
    pub protocol: String,
    /// Whether the session is shown inside the window.
    pub is_embedded: bool,
    /// The host, when known.
    pub host: Option<String>,
    /// The tab group, when the tab belongs to one.
    pub tab_group: Option<String>,
}

/// The title of the welcome page.
pub open spec fn welcome_title() -> Seq<char> {
    "Welcome"@
}

/// The views of an optional string.
pub open spec fn opt_view(o: Option<String>) -> Option<Seq<char>> {
    match o {
        Some(s) => Some(s@),
        None => None,
    }
}

/// A tab tooltip: the title, then the host on its own line when there is a
/// non-empty one, then the group as `[group]` on its own line.
pub open spec fn tooltip_text(title: Seq<char>, host: Option<Seq<char>>, group: Option<Seq<char>>) -> Seq<
    char,
> {
    let with_host = match host {
        Some(h) => if h.len() > 0 {
            title + "\n"@ + h
        } else {
            title
        },
        None => title,
    };
    match group {
        Some(g) => with_host + "\n["@ + g + "]"@,
        None => with_host,
    }
}

/// A tab title: a grouped tab carries a `[group] ` prefix.
pub open spec fn title_text(title: Seq<char>, group: Option<Seq<char>>) -> Seq<char> {
    match group {
        Some(g) => "["@ + g + "] "@ + title,
        None => title,
    }
}

/// Page `i` is the tab of session `id`.
pub open spec fn is_tab_of(pages: Seq<TabPage>, id: u128, i: int) -> bool {
    0 <= i < pages.len() && pages[i].owner == PageOwner::Session(id)
}

/// Session `id` has a tab.
pub open spec fn has_tab(pages: Seq<TabPage>, id: u128) -> bool {
    exists|i: int| is_tab_of(pages, id, i)
}

/// Some page is a session's tab.
pub open spec fn any_session_tab(pages: Seq<TabPage>) -> bool {
    exists|i: int| 0 <= i < pages.len() && pages[i].owner is Session
}

/// Page `k` is the first page titled "Welcome".
pub open spec fn is_first_welcome(pages: Seq<TabPage>, k: int) -> bool {
    &&& 0 <= k < pages.len()
    &&& pages[k].title@ == welcome_title()
    &&& forall|j: int| 0 <= j < k ==> pages[j].title@ != welcome_title()
}

/// The tab bar after the welcome page is taken away: when no session has a
/// tab, the first page titled "Welcome" goes.
pub open spec fn without_welcome(pages: Seq<TabPage>) -> Seq<TabPage> {
    if !any_session_tab(pages) && (exists|k: int| is_first_welcome(pages, k)) {
        pages.remove(choose|k: int| is_first_welcome(pages, k))
    } else {
        pages
    }
}

/// The pages after session `id` is given a newer tab: its current tab, if
/// any, stays but belongs to no session.
pub open spec fn orphaned(pages: Seq<TabPage>, id: u128) -> Seq<TabPage> {
    pages.map_values(
        |p: TabPage|
            if p.owner == PageOwner::Session(id) {
                TabPage { owner: PageOwner::Orphan, title: p.title, icon: p.icon, tooltip: p.tooltip }
            } else {
                p
            },
    )
}

/// Without a tab for `id`, [`orphaned`] changes nothing.
pub proof fn lemma_orphaned_noop(pages: Seq<TabPage>, id: u128)
    requires
        !has_tab(pages, id),
    ensures
        orphaned(pages, id) == pages,
{
    assert forall|i: int| 0 <= i < pages.len() implies orphaned(pages, id)[i] == pages[i] by {
        assert(!is_tab_of(pages, id, i));
    }
    assert(orphaned(pages, id) =~= pages);
}

/// The icon name for a protocol, from the table the notebook was given;
/// empty when the protocol is not in it.
pub open spec fn icon_for(icons: Seq<(String, String)>, protocol: Seq<char>) -> Seq<char>
    decreases icons.len(),
{
    if icons.len() == 0 {
        seq![]
    } else if icons[0].0@ == protocol {
        icons[0].1@
    } else {
        icon_for(icons.drop_first(), protocol)
    }
}

/// The session tabs, the sessions and their park marks.
pub struct TerminalNotebook {
    pages: Vec<TabPage>,
    session_info: HashMap<u128, TerminalSession>,
    parked_in_split: HashSet<u128>,
    detached: HashSet<u128>,
    show_welcome: bool,
    protocol_icons: Vec<(String, String)>,
}

impl TerminalNotebook {
    /// The tab bar's pages, in order.
    pub closed spec fn pages_view(&self) -> Seq<TabPage> {
        self.pages@
    }

    /// The known sessions.
    pub closed spec fn info_view(&self) -> Map<u128, TerminalSession> {
        self.session_info@
    }

    /// Sessions parked in a split pane.
    pub closed spec fn parked_view(&self) -> Set<u128> {
        self.parked_in_split@
    }

    /// Sessions living in a detached window.
    pub closed spec fn detached_view(&self) -> Set<u128> {
        self.detached@
    }

    /// Whether the welcome page is shown on an empty notebook.
    pub closed spec fn show_welcome_view(&self) -> bool {
        self.show_welcome
    }

    /// The protocol icon table.
    pub closed spec fn icons_view(&self) -> Seq<(String, String)> {
        self.protocol_icons@
    }

    /// Session `id` is parked for some reason.
    pub open spec fn parked(&self, id: u128) -> bool {
        self.parked_view().contains(id) || self.detached_view().contains(id)
    }

    /// No session has two tabs.
    pub open spec fn tabs_distinct(&self) -> bool {
        let pages = self.pages_view();
        forall|i: int, j: int|
            0 <= i < j < pages.len() && pages[i].owner is Session ==> pages[i].owner
                != pages[j].owner
    }

    /// A session's tab belongs to a known session.
    pub open spec fn owner_ok(&self, o: PageOwner) -> bool {
        match o {
            PageOwner::Session(id) => self.info_view().contains_key(id),
            _ => true,
        }
    }

    /// The notebook's invariant.
    ///
    /// No session has two tabs; a tab belongs to a known session; a parked
    /// session is known; and every known session has a tab or is parked.
    pub open spec fn wf(&self) -> bool {
        let pages = self.pages_view();
        let info = self.info_view();
        &&& self.tabs_distinct()
        &&& forall|i: int| 0 <= i < pages.len() ==> self.owner_ok(#[trigger] pages[i].owner)
        &&& forall|id: u128| #[trigger] self.parked_view().contains(id) ==> info.contains_key(id)
        &&& forall|id: u128| #[trigger] self.detached_view().contains(id) ==> info.contains_key(id)
        &&& forall|id: u128| #[trigger]
            info.contains_key(id) ==> (has_tab(pages, id) || self.parked(id)) && info[id].id == id
    }

    /// An empty notebook, showing the welcome page when `show_welcome`.
    /// `protocol_icons` maps protocol names to the icon their tabs get.
    pub fn new(show_welcome: bool, protocol_icons: Vec<(String, String)>) -> (nb: Self)
        ensures
            nb.wf(),
            nb.info_view().is_empty(),
            nb.parked_view().is_empty(),
            nb.detached_view().is_empty(),
            nb.show_welcome_view() == show_welcome,
            nb.icons_view() == protocol_icons@,
            show_welcome ==> nb.pages_view().len() == 1 && nb.pages_view()[0].owner
                == PageOwner::Welcome && nb.pages_view()[0].title@ == welcome_title(),
            !show_welcome ==> nb.pages_view().len() == 0,
    {
        let mut nb = TerminalNotebook {
            pages: Vec::new(),
            session_info: HashMap::new(),
            parked_in_split: HashSet::new(),
            detached: HashSet::new(),
            show_welcome,
            protocol_icons,
        };
        proof {
            assert(nb.info_view() =~= Map::empty());
            assert(nb.parked_view() =~= Set::empty());
            assert(nb.detached_view() =~= Set::empty());
        }
        nb.ensure_welcome_page();
        nb
    }

    /// Index of the tab of session `id`.
    fn find_tab(&self, id: u128) -> (r: Option<usize>)
        ensures
            match r {
                Some(i) => is_tab_of(self.pages_view(), id, i as int),
                None => !has_tab(self.pages_view(), id),
            },
    {
        let mut i: usize = 0;
        while i < self.pages.len()
            invariant
                i <= self.pages@.len(),
                forall|j: int| 0 <= j < i ==> !is_tab_of(self.pages@, id, j),
            decreases self.pages@.len() - i,
        {
            if self.pages[i].owner == PageOwner::Session(id) {
                return Some(i);
            }
            i = i + 1;
        }
        None
    }

    /// Leaves the tab of session `id`, if it has one, in place but
    /// belonging to no session, as giving the id a newer tab does.
    fn orphan_tab(&mut self, id: u128)
        requires
            old(self).tabs_distinct(),
        ensures
            final(self).pages_view() == orphaned(old(self).pages_view(), id),
            final(self).pages_view().len() == old(self).pages_view().len(),
            !has_tab(final(self).pages_view(), id),
            forall|s: u128| s != id ==> #[trigger] has_tab(final(self).pages_view(), s) == has_tab(old(self).pages_view(), s),
            forall|i: int| 0 <= i < final(self).pages_view().len() ==> (#[trigger] final(self).pages_view()[i]).owner
                == old(self).pages_view()[i].owner || final(self).pages_view()[i].owner == PageOwner::Orphan,
            final(self).tabs_distinct(),
            final(self).info_view() == old(self).info_view(),
            final(self).parked_view() == old(self).parked_view(),
            final(self).detached_view() == old(self).detached_view(),
            final(self).show_welcome_view() == old(self).show_welcome_view(),
            final(self).icons_view() == old(self).icons_view(),
    {
        let ghost before = self.pages@;
        match self.find_tab(id) {
            None => {
                proof {
                    lemma_orphaned_noop(before, id);
                }
            },
            Some(k) => {
                let mut p = self.pages.remove(k);
                p.owner = PageOwner::Orphan;
                self.pages.insert(k, p);
                proof {
                    let pages = self.pages@;
                    let o = orphaned(before, id);
                    assert forall|i: int| 0 <= i < pages.len() implies pages[i] == o[i] by {
                        if i != k {
                            assert(pages[i] == before[i]);
                            if before[i].owner == PageOwner::Session(id) {
                                if i < k {
                                    assert(before[i].owner != before[k as int].owner);
                                } else {
                                    assert(before[k as int].owner != before[i].owner);
                                }
                            }
                        }
                    }
                    assert(pages =~= o);
                    assert forall|i: int| 0 <= i < pages.len() implies !is_tab_of(pages, id, i) by {}
                    assert forall|s: u128| s != id implies #[trigger] has_tab(pages, s) == has_tab(before, s) by {
                        if has_tab(before, s) {
                            let w = choose|w: int| is_tab_of(before, s, w);
                            assert(is_tab_of(pages, s, w));
                        }
                        if has_tab(pages, s) {
                            let w = choose|w: int| is_tab_of(pages, s, w);
                            assert(is_tab_of(before, s, w));
                        }
                    }
                    assert forall|i: int, j: int|
                        0 <= i < j < pages.len() && pages[i].owner is Session implies pages[i].owner
                        != pages[j].owner by {
                        assert(pages[i].owner == before[i].owner);
                        if pages[j].owner != PageOwner::Orphan {
                            assert(pages[j].owner == before[j].owner);
                        }
                    }
                }
            },
        }
    }

    /// Whether any page is a session tab.
    fn has_session_tabs(&self) -> (b: bool)
        ensures
            b == any_session_tab(self.pages_view()),
    {
        let mut i: usize = 0;
        while i < self.pages.len()
            invariant
                i <= self.pages@.len(),
                forall|j: int| 0 <= j < i ==> !(self.pages@[j].owner is Session),
            decreases self.pages@.len() - i,
        {
            match self.pages[i].owner {
                PageOwner::Session(_) => {
                    return true;
                },
                _ => {},
            }
            i = i + 1;
        }
        false
    }

    /// Whether session `id` has a tab.
    pub fn has_session_tab(&self, id: u128) -> (b: bool)
        ensures
            b == has_tab(self.pages_view(), id),
    {
        self.find_tab(id).is_some()
    }

    /// Whether session `id` is known.
    pub fn has_session(&self, id: u128) -> (b: bool)
        ensures
            b == self.info_view().contains_key(id),
    {
        self.session_info.contains_key(&id)
    }

    /// The number of pages in the tab bar.
    pub fn n_pages(&self) -> (n: usize)
        ensures
            n == self.pages_view().len(),
    {
        self.pages.len()
    }

    /// Removes the welcome page when no session has a tab: the first page
    /// titled "Welcome" goes.
    pub fn remove_welcome_page(&mut self)
        requires
            old(self).wf(),
        ensures
            final(self).wf(),
            final(self).info_view() == old(self).info_view(),
            final(self).parked_view() == old(self).parked_view(),
            final(self).detached_view() == old(self).detached_view(),
            final(self).show_welcome_view() == old(self).show_welcome_view(),
            final(self).icons_view() == old(self).icons_view(),
            final(self).pages_view() == without_welcome(old(self).pages_view()),
    {
        if self.has_session_tabs() || self.pages.len() == 0 {
            proof {
                if self.pages@.len() == 0 {
                    assert forall|k: int| !is_first_welcome(self.pages@, k) by {}
                }
            }
            return;
        }
        let ghost before = self.pages@;
        let mut i: usize = 0;
        while i < self.pages.len()
            invariant
                self.pages@ == before,
                self.wf(),
                !any_session_tab(before),
                self.info_view() == old(self).info_view(),
                self.parked_view() == old(self).parked_view(),
                self.detached_view() == old(self).detached_view(),
                self.show_welcome_view() == old(self).show_welcome_view(),
                self.icons_view() == old(self).icons_view(),
                before == old(self).pages_view(),
                i <= before.len(),
                forall|j: int| 0 <= j < i ==> before[j].title@ != welcome_title(),
            decreases before.len() - i,
        {
            if crate::text::str_eq(self.pages[i].title.as_str(), "Welcome") {
                proof {
                    assert(is_first_welcome(before, i as int));
                    let c = choose|k: int| is_first_welcome(before, k);
                    assert(is_first_welcome(before, c));
                    if c < i {
                        assert(before[c].title@ != welcome_title());
                    } else if c > i {
                        assert(before[i as int].title@ != welcome_title());
                    }
                }
                self.pages.remove(i);
                proof {
                    assert forall|j: int| 0 <= j < self.pages@.len() implies !(
                    #[trigger] self.pages@[j].owner is Session) by {
                        if j < i {
                            assert(self.pages@[j] == before[j]);
                        } else {
                            assert(self.pages@[j] == before[j + 1]);
                        }
                    }
                    assert forall|id: u128| #[trigger]
                        self.info_view().contains_key(id) implies has_tab(self.pages@, id)
                        || self.parked(id) by {
                        if has_tab(before, id) {
                            let w = choose|w: int| is_tab_of(before, id, w);
                            assert(before[w].owner is Session);
                        }
                    }
                }
                return;
            }
            i = i + 1;
        }
        proof {
            assert forall|k: int| !is_first_welcome(before, k) by {
                if 0 <= k < before.len() && is_first_welcome(before, k) {
                    assert(before[k].title@ != welcome_title());
                }
            }
        }
    }

    /// Appends the welcome page when the preference asks for it, no session
    /// has a tab and the tab bar is empty.
    pub fn ensure_welcome_page(&mut self)
        requires
            old(self).wf(),
        ensures
            final(self).wf(),
            final(self).info_view() == old(self).info_view(),
            final(self).parked_view() == old(self).parked_view(),
            final(self).detached_view() == old(self).detached_view(),
            final(self).show_welcome_view() == old(self).show_welcome_view(),
            final(self).icons_view() == old(self).icons_view(),
            (old(self).show_welcome_view() && old(self).pages_view().len() == 0) ==> (final(self).pages_view().len() == 1 && final(self).pages_view()[0].owner == PageOwner::Welcome
                && final(self).pages_view()[0].title@ == welcome_title() && final(self).pages_view()[0].icon@ == "go-home-symbolic"@),
            !(old(self).show_welcome_view() && old(self).pages_view().len() == 0) ==> final(self).pages_view() == old(self).pages_view(),
    {
        if self.show_welcome && !self.has_session_tabs() && self.pages.len() == 0 {
            let page = TabPage {
                owner: PageOwner::Welcome,
                title: String::from_str("Welcome"),
                icon: String::from_str("go-home-symbolic"),
                tooltip: String::from_str("Welcome"),
            };
            self.pages.push(page);
            proof {
                assert forall|id: u128| #[trigger]
                    self.info_view().contains_key(id) implies has_tab(self.pages@, id)
                    || self.parked(id) by {
                    assert(!has_tab(old(self).pages@, id));
                }
            }
        }
    }

    /// A tab tooltip: the title, the host on its own line when it is not
    /// empty, and the group as `[group]` on its own line.
    pub fn tab_tooltip(title: &str, host: Option<&str>, group: Option<&str>) -> (r: String)
        ensures
            r@ == tooltip_text(
                title@,
                match host {
                    Some(h) => Some(h@),
                    None => None,
                },
                match group {
                    Some(g) => Some(g@),
                    None => None,
                },
            ),
    {
        let mut tooltip = title.to_owned();
        match host {
            Some(h) => {
                if h.unicode_len() > 0 {
                    tooltip.append("\n");
                    tooltip.append(h);
                }
            },
            None => {},
        }
        match group {
            Some(g) => {
                tooltip.append("\n[");
                tooltip.append(g);
                tooltip.append("]");
            },
            None => {},
        }
        tooltip
    }

    /// A tab title, with a `[group] ` prefix for a grouped tab.
    pub fn tab_title(title: &str, group: Option<&str>) -> (r: String)
        ensures
            r@ == title_text(
                title@,
                match group {
                    Some(g) => Some(g@),
                    None => None,
                },
            ),
    {
        match group {
            Some(g) => {
                let mut r = String::from_str("[");
                r.append(g);
                r.append("] ");
                r.append(title);
                r
            },
            None => title.to_owned(),
        }
    }

    /// Creates a VNC session tab with no host; returns the new session id, a
    /// random one (should it be taken, that session is replaced).
    pub fn create_vnc_session_tab(&mut self, connection_id: u128, title: &str) -> (id: u128)
        requires
            old(self).wf(),
        ensures
            final(self).wf(),
            final(self).info_view().dom() == old(self).info_view().dom().insert(id),
            final(self).info_view()[id].connection_id == connection_id,
            final(self).info_view()[id].name@ == title@,
            final(self).info_view()[id].protocol@ == "vnc"@,
            final(self).info_view()[id].host is None,
            final(self).info_view()[id].tab_group is None,
            final(self).info_view()[id].is_embedded,
            forall|s: u128| s != id ==> #[trigger] final(self).info_view().contains_key(s) ==> final(self).info_view()[s] == old(self).info_view()[s],
            final(self).parked_view() == old(self).parked_view(),
            final(self).detached_view() == old(self).detached_view(),
            final(self).pages_view().len() >= 1,
            final(self).pages_view().drop_last() == orphaned(without_welcome(old(self).pages_view()), id),
            final(self).pages_view().last().owner == PageOwner::Session(id),
            final(self).pages_view().last().title@ == title@,
            final(self).pages_view().last().tooltip@ == title@,
            final(self).pages_view().last().icon@ == "video-joined-displays-symbolic"@,
    {
        proof {
            reveal_strlit("");
        }
        self.create_vnc_session_tab_with_host(connection_id, title, "")
    }

    /// Creates a VNC session tab; the host, when not empty, is remembered
    /// and shown in the tooltip. Returns the new session id, a random one
    /// (should it be taken, that session is replaced).
    pub fn create_vnc_session_tab_with_host(&mut self, connection_id: u128, title: &str, host: &str) -> (id: u128)
        requires
            old(self).wf(),
        ensures
            final(self).wf(),
            final(self).info_view().dom() == old(self).info_view().dom().insert(id),
            final(self).info_view()[id].connection_id == connection_id,
            final(self).info_view()[id].name@ == title@,
            final(self).info_view()[id].protocol@ == "vnc"@,
            final(self).info_view()[id].is_embedded,
            opt_view(final(self).info_view()[id].host) == (if host@.len() > 0 {
                Some(host@)
            } else {
                None
            }),
            final(self).info_view()[id].tab_group is None,
            forall|s: u128| s != id ==> #[trigger] final(self).info_view().contains_key(s) ==> final(self).info_view()[s] == old(self).info_view()[s],
            final(self).parked_view() == old(self).parked_view(),
            final(self).detached_view() == old(self).detached_view(),
            final(self).pages_view().len() >= 1,
            final(self).pages_view().drop_last() == orphaned(without_welcome(old(self).pages_view()), id),
            final(self).pages_view().last().owner == PageOwner::Session(id),
            final(self).pages_view().last().title@ == title@,
            final(self).pages_view().last().tooltip@ == tooltip_text(
                title@,
                if host@.len() > 0 {
                    Some(host@)
                } else {
                    None
                },
                None,
            ),
            final(self).pages_view().last().icon@ == "video-joined-displays-symbolic"@,
    {
        let session_id = random_id();
        let session_host: Option<String> = if host.unicode_len() > 0 {
            Some(host.to_owned())
        } else {
            None
        };
        let tooltip = match &session_host {
            Some(h) => Self::tab_tooltip(title, Some(h.as_str()), None),
            None => Self::tab_tooltip(title, None, None),
        };
        self.insert_session_tab(
            session_id,
            connection_id,
            title,
            String::from_str("vnc"),
            String::from_str("video-joined-displays-symbolic"),
            tooltip,
            session_host,
            true,
        );
        session_id
    }

    /// Removes the welcome page and appends a tab for the new session
    /// `session_id`, recording what the notebook knows of it.
    fn insert_session_tab(
        &mut self,
        session_id: u128,
        connection_id: u128,
        title: &str,
        protocol: String,
        icon: String,
        tooltip: String,
        host: Option<String>,
        is_embedded: bool,
    )
        requires
            old(self).wf(),
        ensures
            final(self).wf(),
            final(self).info_view().dom() == old(self).info_view().dom().insert(session_id),
            final(self).info_view()[session_id].connection_id == connection_id,
            final(self).info_view()[session_id].name@ == title@,
            final(self).info_view()[session_id].protocol@ == protocol@,
            final(self).info_view()[session_id].is_embedded == is_embedded,
            opt_view(final(self).info_view()[session_id].host) == opt_view(host),
            final(self).info_view()[session_id].tab_group is None,
            forall|s: u128| s != session_id ==> #[trigger] final(self).info_view().contains_key(s) ==> final(self).info_view()[s] == old(self).info_view()[s],
            final(self).parked_view() == old(self).parked_view(),
            final(self).detached_view() == old(self).detached_view(),
            final(self).show_welcome_view() == old(self).show_welcome_view(),
            final(self).icons_view() == old(self).icons_view(),
            final(self).pages_view().len() >= 1,
            final(self).pages_view().drop_last() == orphaned(without_welcome(old(self).pages_view()), session_id),
            !old(self).info_view().contains_key(session_id) ==> final(self).pages_view().drop_last()
                == without_welcome(old(self).pages_view()),
            final(self).pages_view().last().owner == PageOwner::Session(session_id),
            final(self).pages_view().last().title@ == title@,
            final(self).pages_view().last().tooltip@ == tooltip@,
            final(self).pages_view().last().icon@ == icon@,
    {
        self.remove_welcome_page();
        let ghost w0 = self.pages@;
        proof {
            if !old(self).info_view().contains_key(session_id) {
                assert(!has_tab(w0, session_id)) by {
                    if has_tab(w0, session_id) {
                        let w = choose|w: int| is_tab_of(w0, session_id, w);
                        assert(self.owner_ok(w0[w].owner));
                    }
                }
                lemma_orphaned_noop(w0, session_id);
            }
        }
        self.orphan_tab(session_id);
        let page = TabPage {
            owner: PageOwner::Session(session_id),
            title: title.to_owned(),
            icon,
            tooltip,
        };
        let ghost before = self.pages@;
        proof {
            assert(!has_tab(before, session_id));
        }
        self.pages.push(page);
        assert(self.pages@.drop_last() =~= before);
        let info = TerminalSession {
            id: session_id,
            connection_id,
            name: title.to_owned(),
            protocol,
            is_embedded,
            host,
            tab_group: None,
        };
        self.session_info.insert(session_id, info);
        proof {
            let pages = self.pages@;
            assert(is_tab_of(pages, session_id, (pages.len() - 1) as int));
            assert forall|i: int, j: int|
                0 <= i < j < pages.len() && pages[i].owner is Session implies pages[i].owner
                != pages[j].owner by {
                if j == pages.len() - 1 {
                    if pages[i].owner == PageOwner::Session(session_id) {
                        assert(is_tab_of(before, session_id, i));
                    }
                } else {
                    assert(pages[i] == before[i] && pages[j] == before[j]);
                }
            }
            assert forall|id: u128| #[trigger]
                self.info_view().contains_key(id) implies (has_tab(self.pages@, id) || self.parked(id))
                && self.info_view()[id].id == id by {
                if id != session_id {
                    assert(has_tab(before, id) == has_tab(w0, id));
                    if has_tab(before, id) {
                        let w = choose|w: int| is_tab_of(before, id, w);
                        assert(is_tab_of(self.pages@, id, w));
                    }
                }
            }
            assert forall|i: int| 0 <= i < pages.len() implies self.owner_ok(#[trigger] pages[i].owner) by {
                if i < pages.len() - 1 {
                    assert(pages[i] == before[i]);
                    if before[i].owner != PageOwner::Orphan {
                        assert(before[i].owner == w0[i].owner);
                        assert(old(self).owner_ok(w0[i].owner));
                    }
                }
            }
            assert(self.info_view().dom() =~= old(self).info_view().dom().insert(session_id));
        }
    }

    /// Creates a terminal tab for a session of `connection_id`; the tab gets
    /// the protocol's icon and the title as tooltip. Returns the new session
    /// id, a random one (should it be taken, that session is replaced).
    pub fn create_terminal_tab(&mut self, connection_id: u128, title: &str, protocol: &str) -> (id: u128)
        requires
            old(self).wf(),
        ensures
            final(self).wf(),
            final(self).info_view().dom() == old(self).info_view().dom().insert(id),
            final(self).info_view()[id].connection_id == connection_id,
            final(self).info_view()[id].name@ == title@,
            final(self).info_view()[id].protocol@ == protocol@,
            final(self).info_view()[id].is_embedded,
            final(self).info_view()[id].host is None,
            forall|s: u128| s != id ==> #[trigger] final(self).info_view().contains_key(s) ==> final(self).info_view()[s] == old(self).info_view()[s],
            final(self).parked_view() == old(self).parked_view(),
            final(self).detached_view() == old(self).detached_view(),
            final(self).pages_view().drop_last() == orphaned(without_welcome(old(self).pages_view()), id),
            final(self).pages_view().last().owner == PageOwner::Session(id),
            final(self).pages_view().last().title@ == title@,
            final(self).pages_view().last().tooltip@ == title@,
            final(self).pages_view().last().icon@ == icon_for(old(self).icons_view(), protocol@),
    {
        let id = random_id();
        let icon = self.protocol_icon(protocol);
        self.insert_session_tab(
            id,
            connection_id,
            title,
            protocol.to_owned(),
            icon,
            title.to_owned(),
            None,
            true,
        );
        id
    }

    /// Adds the tab of an embedded RDP session with id `session_id`.
    /// A session already known under `session_id` is replaced: its old tab,
    /// if it has one, stays in the tab bar but belongs to it no more.
    pub fn add_embedded_rdp_tab(&mut self, session_id: u128, connection_id: u128, title: &str)
        requires
            old(self).wf(),
        ensures
            final(self).wf(),
            final(self).info_view().dom() == old(self).info_view().dom().insert(session_id),
            final(self).info_view()[session_id].protocol@ == "rdp"@,
            final(self).info_view()[session_id].is_embedded,
            final(self).info_view()[session_id].name@ == title@,
            final(self).info_view()[session_id].connection_id == connection_id,
            forall|s: u128| s != session_id ==> #[trigger] final(self).info_view().contains_key(s) ==> final(self).info_view()[s] == old(self).info_view()[s],
            final(self).parked_view() == old(self).parked_view(),
            final(self).detached_view() == old(self).detached_view(),
            final(self).pages_view().drop_last() == orphaned(without_welcome(old(self).pages_view()), session_id),
            final(self).pages_view().last().owner == PageOwner::Session(session_id),
            final(self).pages_view().last().icon@ == "computer-symbolic"@,
            final(self).pages_view().last().tooltip@ == title@,
    {
        self.insert_session_tab(
            session_id,
            connection_id,
            title,
            String::from_str("rdp"),
            String::from_str("computer-symbolic"),
            title.to_owned(),
            None,
            true,
        );
    }

    /// Adds the tab of an embedded web session with id `session_id`.
    /// A session already known under `session_id` is replaced: its old tab,
    /// if it has one, stays in the tab bar but belongs to it no more.
    pub fn add_embedded_web_tab(&mut self, session_id: u128, connection_id: u128, title: &str)
        requires
            old(self).wf(),
        ensures
            final(self).wf(),
            final(self).info_view().dom() == old(self).info_view().dom().insert(session_id),
            final(self).info_view()[session_id].protocol@ == "web"@,
            final(self).info_view()[session_id].is_embedded,
            final(self).info_view()[session_id].name@ == title@,
            final(self).info_view()[session_id].connection_id == connection_id,
            forall|s: u128| s != session_id ==> #[trigger] final(self).info_view().contains_key(s) ==> final(self).info_view()[s] == old(self).info_view()[s],
            final(self).parked_view() == old(self).parked_view(),
            final(self).detached_view() == old(self).detached_view(),
            final(self).pages_view().drop_last() == orphaned(without_welcome(old(self).pages_view()), session_id),
            final(self).pages_view().last().owner == PageOwner::Session(session_id),
            final(self).pages_view().last().icon@ == "web-browser-symbolic"@,
            final(self).pages_view().last().tooltip@ == title@,
    {
        self.insert_session_tab(
            session_id,
            connection_id,
            title,
            String::from_str("web"),
            String::from_str("web-browser-symbolic"),
            title.to_owned(),
            None,
            true,
        );
    }

    /// Adds the tab of a session shown in an external window, with id
    /// `session_id`; it gets the protocol's icon.
    /// A session already known under `session_id` is replaced: its old tab,
    /// if it has one, stays in the tab bar but belongs to it no more.
    pub fn add_embedded_session_tab(&mut self, session_id: u128, connection_id: u128, title: &str, protocol: &str)
        requires
            old(self).wf(),
        ensures
            final(self).wf(),
            final(self).info_view().dom() == old(self).info_view().dom().insert(session_id),
            final(self).info_view()[session_id].protocol@ == protocol@,
            !final(self).info_view()[session_id].is_embedded,
            final(self).info_view()[session_id].name@ == title@,
            final(self).info_view()[session_id].connection_id == connection_id,
            forall|s: u128| s != session_id ==> #[trigger] final(self).info_view().contains_key(s) ==> final(self).info_view()[s] == old(self).info_view()[s],
            final(self).parked_view() == old(self).parked_view(),
            final(self).detached_view() == old(self).detached_view(),
            final(self).pages_view().drop_last() == orphaned(without_welcome(old(self).pages_view()), session_id),
            final(self).pages_view().last().owner == PageOwner::Session(session_id),
            final(self).pages_view().last().icon@ == icon_for(old(self).icons_view(), protocol@),
            final(self).pages_view().last().tooltip@ == title@,
    {
        let icon = self.protocol_icon(protocol);
        self.insert_session_tab(
            session_id,
            connection_id,
            title,
            protocol.to_owned(),
            icon,
            title.to_owned(),
            None,
            false,
        );
    }

    /// Closes page `k` as the tab view's close handler does: a session tab
    /// whose session is not parked takes the session with it; a parked
    /// session only loses the page.
    fn close_page(&mut self, k: usize)
        requires
            k < old(self).pages_view().len(),
        ensures
            final(self).pages_view() == old(self).pages_view().remove(k as int),
            final(self).parked_view() == old(self).parked_view(),
            final(self).detached_view() == old(self).detached_view(),
            final(self).show_welcome_view() == old(self).show_welcome_view(),
            final(self).icons_view() == old(self).icons_view(),
            match old(self).pages_view()[k as int].owner {
                PageOwner::Session(id) => final(self).info_view() == (if old(self).parked(id) {
                    old(self).info_view()
                } else {
                    old(self).info_view().remove(id)
                }),
                _ => final(self).info_view() == old(self).info_view(),
            },
    {
        let page = self.pages.remove(k);
        match page.owner {
            PageOwner::Session(id) => {
                if !self.parked_in_split.contains(&id) && !self.detached.contains(&id) {
                    self.session_info.remove(&id);
                }
            },
            _ => {},
        }
    }

    /// Whether session `id` is parked, in a split pane or a detached window.
    pub fn is_parked(&self, id: u128) -> (b: bool)
        ensures
            b == self.parked(id),
    {
        self.parked_in_split.contains(&id) || self.detached.contains(&id)
    }

    /// Closes the tab of session `id` through the close handler; a session
    /// that already carries a park mark loses only its page. Returns `false`
    /// when the session has no tab.
    pub fn park_tab_page(&mut self, id: u128) -> (closed: bool)
        requires
            old(self).tabs_distinct(),
        ensures
            closed == has_tab(old(self).pages_view(), id),
            final(self).parked_view() == old(self).parked_view(),
            final(self).detached_view() == old(self).detached_view(),
            final(self).show_welcome_view() == old(self).show_welcome_view(),
            final(self).icons_view() == old(self).icons_view(),
            !closed ==> final(self).pages_view() == old(self).pages_view() && final(self).info_view() == old(self).info_view(),
            closed ==> final(self).info_view() == (if old(self).parked(id) {
                old(self).info_view()
            } else {
                old(self).info_view().remove(id)
            }),
            closed ==> exists|i: int|
                is_tab_of(old(self).pages_view(), id, i) && final(self).pages_view() == old(self).pages_view().remove(i),
    {
        match self.find_tab(id) {
            None => false,
            Some(k) => {
                self.close_page(k);
                true
            },
        }
    }

    /// Parks the tab of session `id` for a split pane: the session stays,
    /// marked as parked, and only its page goes. Nothing happens to a session
    /// in a detached window or one without a tab.
    pub fn park_session_tab(&mut self, id: u128)
        requires
            old(self).wf(),
        ensures
            final(self).wf(),
            final(self).info_view() == old(self).info_view(),
            final(self).detached_view() == old(self).detached_view(),
            (old(self).detached_view().contains(id) || !has_tab(old(self).pages_view(), id)) ==> (
            final(self).pages_view() == old(self).pages_view() && final(self).parked_view() == old(self).parked_view()),
            (!old(self).detached_view().contains(id) && has_tab(old(self).pages_view(), id)) ==> (
            final(self).parked_view() == old(self).parked_view().insert(id) && !has_tab(
                final(self).pages_view(),
                id,
            ) && exists|i: int|
                is_tab_of(old(self).pages_view(), id, i) && final(self).pages_view() == old(self).pages_view().remove(i)),
    {
        if self.detached.contains(&id) {
            return;
        }
        let k = match self.find_tab(id) {
            None => return,
            Some(k) => k,
        };
        let ghost before = self.pages@;
        self.parked_in_split.insert(id);
        let closed = self.park_tab_page(id);
        if !closed {
            self.parked_in_split.remove(&id);
            return;
        }
        proof {
            let pages = self.pages@;
            let k0 = choose|i: int| is_tab_of(before, id, i) && self.pages@ == before.remove(i);
            assert(k0 == k) by {
                if k0 != k {
                    if k0 < k {
                        assert(before[k0].owner != before[k as int].owner);
                    } else {
                        assert(before[k as int].owner != before[k0].owner);
                    }
                }
            }
            assert forall|i: int| 0 <= i < pages.len() implies !is_tab_of(pages, id, i) by {
                if i < k {
                    assert(pages[i] == before[i]);
                    assert(before[i].owner != before[k as int].owner);
                } else {
                    assert(pages[i] == before[i + 1]);
                    assert(before[k as int].owner != before[i + 1].owner);
                }
            }
            assert forall|i: int, j: int|
                0 <= i < j < pages.len() && pages[i].owner is Session implies pages[i].owner
                != pages[j].owner by {
                let i0 = if i < k { i } else { i + 1 };
                let j0 = if j < k { j } else { j + 1 };
                assert(pages[i] == before[i0] && pages[j] == before[j0]);
            }
            assert forall|i: int|
                0 <= i < pages.len() implies self.owner_ok(#[trigger] pages[i].owner) by {
                let i0 = if i < k { i } else { i + 1 };
                assert(pages[i] == before[i0]);
                if pages[i].owner == PageOwner::Session(id) {
                    assert(is_tab_of(pages, id, i));
                }
            }
            assert forall|s: u128| #[trigger]
                self.info_view().contains_key(s) implies (has_tab(self.pages@, s) || self.parked(s))
                && self.info_view()[s].id == s by {
                if s != id && has_tab(before, s) {
                    let w = choose|w: int| is_tab_of(before, s, w);
                    assert(w != k);
                    let w2 = if w < k { w } else { w - 1 };
                    assert(is_tab_of(self.pages@, s, w2));
                }
            }
            assert(old(self).owner_ok(before[k as int].owner));
            assert forall|s: u128| #[trigger] self.parked_view().contains(s) implies self.info_view().contains_key(s) by {
                if s != id {
                    assert(old(self).parked_view().contains(s));
                }
            }
            assert forall|s: u128| #[trigger] self.detached_view().contains(s) implies self.info_view().contains_key(s) by {
                assert(old(self).detached_view().contains(s));
            }
        }
    }

    /// Clears the park marks of session `id`, which has a tab again; returns
    /// whether it had one.
    fn clear_park_marks(&mut self, id: u128) -> (had: bool)
        ensures
            had == (old(self).parked_view().contains(id) || old(self).detached_view().contains(id)),
            final(self).parked_view() == old(self).parked_view().remove(id),
            final(self).detached_view() == old(self).detached_view().remove(id),
            final(self).pages_view() == old(self).pages_view(),
            final(self).info_view() == old(self).info_view(),
            final(self).show_welcome_view() == old(self).show_welcome_view(),
            final(self).icons_view() == old(self).icons_view(),
    {
        let a = self.parked_in_split.remove(&id);
        let b = self.detached.remove(&id);
        a || b
    }

    /// The icon for a protocol, from the notebook's table.
    fn protocol_icon(&self, protocol: &str) -> (r: String)
        ensures
            r@ == icon_for(self.icons_view(), protocol@),
    {
        let mut i: usize = 0;
        let ghost all = self.protocol_icons@;
        assert(all.subrange(0, all.len() as int) =~= all);
        while i < self.protocol_icons.len()
            invariant
                i <= all.len(),
                all == self.protocol_icons@,
                icon_for(all, protocol@) == icon_for(all.subrange(i as int, all.len() as int), protocol@),
            decreases all.len() - i,
        {
            let ghost rest = all.subrange(i as int, all.len() as int);
            assert(rest.drop_first() =~= all.subrange(i + 1, all.len() as int));
            if crate::text::str_eq(self.protocol_icons[i].0.as_str(), protocol) {
                return self.protocol_icons[i].1.clone();
            }
            i = i + 1;
        }
        String::new()
    }

    /// Gives a parked session its tab back: title with its group prefix,
    /// the protocol's icon, and the same tooltip the creation path builds;
    /// the park marks go. Returns `false`, changing nothing, when the
    /// session is not parked.
    pub fn restore_session_tab(&mut self, id: u128) -> (restored: bool)
        requires
            old(self).wf(),
        ensures
            final(self).wf(),
            restored == old(self).parked(id),
            final(self).info_view() == old(self).info_view(),
            !restored ==> (final(self).pages_view() == old(self).pages_view() && final(self).parked_view() == old(self).parked_view() && final(self).detached_view() == old(self).detached_view()),
            restored ==> ({
                let info = old(self).info_view()[id];
                &&& final(self).parked_view() == old(self).parked_view().remove(id)
                &&& final(self).detached_view() == old(self).detached_view().remove(id)
                &&& final(self).pages_view().len() == old(self).pages_view().len() + 1
                &&& final(self).pages_view().subrange(0, old(self).pages_view().len() as int)
                    == orphaned(old(self).pages_view(), id)
                &&& final(self).pages_view().last().owner == PageOwner::Session(id)
                &&& final(self).pages_view().last().title@ == title_text(
                    info.name@,
                    opt_view(info.tab_group),
                )
                &&& final(self).pages_view().last().tooltip@ == tooltip_text(
                    info.name@,
                    opt_view(info.host),
                    opt_view(info.tab_group),
                )
                &&& final(self).pages_view().last().icon@ == icon_for(
                    old(self).icons_view(),
                    info.protocol@,
                )
            }),
    {
        if !self.is_parked(id) {
            return false;
        }
        let (title, tooltip, icon) = match self.session_info.get(&id) {
            None => {
                return false;
            },
            Some(info) => {
                let group: Option<&str> = match &info.tab_group {
                    Some(g) => Some(g.as_str()),
                    None => None,
                };
                let host: Option<&str> = match &info.host {
                    Some(h) => Some(h.as_str()),
                    None => None,
                };
                let title = Self::tab_title(info.name.as_str(), group);
                let tooltip = Self::tab_tooltip(info.name.as_str(), host, group);
                let icon = self.protocol_icon(info.protocol.as_str());
                (title, tooltip, icon)
            },
        };
        self.orphan_tab(id);
        let ghost before = self.pages@;
        proof {
            assert forall|i: int| 0 <= i < before.len() implies self.owner_ok(#[trigger] before[i].owner) by {
                if before[i].owner != PageOwner::Orphan {
                    assert(old(self).owner_ok(old(self).pages_view()[i].owner));
                }
            }
        }
        self.pages.push(TabPage { owner: PageOwner::Session(id), title, icon, tooltip });
        let ghost pre_parked = self.parked_view();
        let ghost pre_detached = self.detached_view();
        self.clear_park_marks(id);
        proof {
            assert(pre_detached == old(self).detached_view());
            assert(pre_parked == old(self).parked_view());
            assert(self.info_view() == old(self).info_view());
            assert forall|s: u128| #[trigger] self.detached_view().contains(s) implies self.info_view().contains_key(s) by {
                assert(old(self).detached_view().contains(s));
            }
            assert forall|s: u128| #[trigger] self.parked_view().contains(s) implies self.info_view().contains_key(s) by {
                assert(old(self).parked_view().contains(s));
            }
            let pages = self.pages@;
            assert(pages.subrange(0, before.len() as int) =~= before);
            assert(is_tab_of(pages, id, before.len() as int));
            assert forall|i: int, j: int|
                0 <= i < j < pages.len() && pages[i].owner is Session implies pages[i].owner
                != pages[j].owner by {
                if j == pages.len() - 1 {
                    if pages[i].owner == PageOwner::Session(id) {
                        assert(is_tab_of(before, id, i));
                    }
                } else {
                    assert(pages[i] == before[i] && pages[j] == before[j]);
                }
            }
            assert forall|i: int|
                0 <= i < pages.len() implies self.owner_ok(#[trigger] pages[i].owner) by {
                if i < pages.len() - 1 {
                    assert(pages[i] == before[i]);
                }
            }
            assert forall|s: u128| #[trigger]
                self.info_view().contains_key(s) implies (has_tab(self.pages@, s) || self.parked(s))
                && self.info_view()[s].id == s by {
                if s != id && has_tab(before, s) {
                    let w = choose|w: int| is_tab_of(before, s, w);
                    assert(is_tab_of(self.pages@, s, w));
                }
                if s != id {
                    assert(has_tab(before, s) == has_tab(old(self).pages_view(), s));
                }
            }
        }
        true
    }

    /// Terminates session `id` wherever it lives: a parked session gets its
    /// tab back first, then the tab is closed with the session's teardown.
    /// An unknown session changes nothing.
    pub fn close_session(&mut self, id: u128)
        requires
            old(self).wf(),
        ensures
            final(self).wf(),
            final(self).info_view() == old(self).info_view().remove(id),
            final(self).parked_view() == old(self).parked_view().remove(id),
            final(self).detached_view() == old(self).detached_view().remove(id),
            !has_tab(final(self).pages_view(), id),
            forall|s: u128| s != id ==> (has_tab(final(self).pages_view(), s) == has_tab(
                old(self).pages_view(),
                s,
            )),
            !old(self).info_view().contains_key(id) ==> final(self).pages_view() == old(self).pages_view(),
            (old(self).info_view().contains_key(id) && old(self).parked(id)) ==> final(self).pages_view() == orphaned(old(self).pages_view(), id),
            (old(self).info_view().contains_key(id) && !old(self).parked(id)) ==> exists|i: int|
                is_tab_of(old(self).pages_view(), id, i) && final(self).pages_view() == old(self).pages_view().remove(i),
    {
        let ghost start = self.pages@;
        let ghost was_parked = self.parked(id);
        self.restore_session_tab(id);
        let ghost mid = self.pages@;
        match self.find_tab(id) {
            Some(k) => {
                self.close_page(k);
                proof {
                    if was_parked {
                        assert(is_tab_of(mid, id, start.len() as int));
                        if k != start.len() {
                            if k < start.len() {
                                assert(mid[k as int].owner != mid[start.len() as int].owner);
                            }
                        }
                        assert(self.pages@ =~= orphaned(start, id));
                    } else {
                        assert(mid == start);
                        assert(is_tab_of(start, id, k as int));
                    }
                    let pages = self.pages@;
                    assert forall|i: int| 0 <= i < pages.len() implies !is_tab_of(pages, id, i) by {
                        if i < k {
                            assert(pages[i] == mid[i]);
                            assert(mid[i].owner != mid[k as int].owner);
                        } else {
                            assert(pages[i] == mid[i + 1]);
                            assert(mid[k as int].owner != mid[i + 1].owner);
                        }
                    }
                    assert forall|i: int, j: int|
                        0 <= i < j < pages.len() && pages[i].owner is Session implies pages[i].owner
                        != pages[j].owner by {
                        let i0 = if i < k { i } else { i + 1 };
                        let j0 = if j < k { j } else { j + 1 };
                        assert(pages[i] == mid[i0] && pages[j] == mid[j0]);
                    }
                    assert forall|i: int|
                        0 <= i < pages.len() implies self.owner_ok(#[trigger] pages[i].owner) by {
                        let i0 = if i < k { i } else { i + 1 };
                        assert(pages[i] == mid[i0]);
                        if pages[i].owner == PageOwner::Session(id) {
                            assert(is_tab_of(pages, id, i));
                        }
                    }
                    assert forall|s: u128| s != id implies has_tab(self.pages@, s) == has_tab(mid, s) by {
                        if has_tab(mid, s) {
                            let w = choose|w: int| is_tab_of(mid, s, w);
                            assert(w != k);
                            let w2 = if w < k { w } else { w - 1 };
                            assert(is_tab_of(self.pages@, s, w2));
                        }
                        if has_tab(self.pages@, s) {
                            let w = choose|w: int| is_tab_of(self.pages@, s, w);
                            let w0 = if w < k { w } else { w + 1 };
                            assert(is_tab_of(mid, s, w0));
                        }
                    }
                    assert forall|s: u128| #[trigger]
                        self.info_view().contains_key(s) implies (has_tab(self.pages@, s)
                        || self.parked(s)) && self.info_view()[s].id == s by {
                        assert(has_tab(self.pages@, s) == has_tab(mid, s));
                    }
                    assert(self.info_view() =~= old(self).info_view().remove(id));
                    assert(self.parked_view() =~= old(self).parked_view().remove(id));
                    assert(self.detached_view() =~= old(self).detached_view().remove(id));
                    assert forall|s: u128| s != id implies has_tab(mid, s) == has_tab(start, s) by {
                        if has_tab(start, s) {
                            let w = choose|w: int| is_tab_of(start, s, w);
                            if was_parked {
                                assert(mid.subrange(0, start.len() as int)[w] == orphaned(start, id)[w]);
                            }
                            assert(is_tab_of(mid, s, w));
                        }
                        if has_tab(mid, s) {
                            let w = choose|w: int| is_tab_of(mid, s, w);
                            if w < start.len() {
                                if was_parked {
                                    assert(mid.subrange(0, start.len() as int)[w] == orphaned(start, id)[w]);
                                }
                                assert(is_tab_of(start, s, w));
                            }
                        }
                    }
                }
            },
            None => {
                proof {
                    assert(!old(self).info_view().contains_key(id));
                    assert(self.info_view() =~= old(self).info_view().remove(id));
                    assert(self.parked_view() =~= old(self).parked_view().remove(id));
                    assert(self.detached_view() =~= old(self).detached_view().remove(id));
                }
            },
        }
    }

    /// Gives a session that leaves a split pane its tab back (no-op for a
    /// session that has one); the live widget is then moved into it.
    pub fn reparent_terminal_to_tab(&mut self, id: u128)
        requires
            old(self).wf(),
        ensures
            final(self).wf(),
            final(self).info_view() == old(self).info_view(),
            old(self).info_view().contains_key(id) ==> has_tab(final(self).pages_view(), id)
                && !final(self).parked(id),
            !old(self).parked(id) ==> final(self).pages_view() == old(self).pages_view()
                && final(self).parked_view() == old(self).parked_view()
                && final(self).detached_view() == old(self).detached_view(),
            old(self).parked(id) ==> final(self).parked_view() == old(self).parked_view().remove(id)
                && final(self).detached_view() == old(self).detached_view().remove(id)
                && final(self).pages_view().len() == old(self).pages_view().len() + 1
                && final(self).pages_view().subrange(0, old(self).pages_view().len() as int)
                == orphaned(old(self).pages_view(), id) && final(self).pages_view().last().owner
                == PageOwner::Session(id),
            old(self).parked(id) ==> ({
                let info = old(self).info_view()[id];
                &&& final(self).pages_view().last().title@ == title_text(
                    info.name@,
                    opt_view(info.tab_group),
                )
                &&& final(self).pages_view().last().tooltip@ == tooltip_text(
                    info.name@,
                    opt_view(info.host),
                    opt_view(info.tab_group),
                )
                &&& final(self).pages_view().last().icon@ == icon_for(
                    old(self).icons_view(),
                    info.protocol@,
                )
            }),
    {
        self.restore_session_tab(id);
    }
}

/// Every session the notebook knows has a place: a tab, or a park mark
/// (a split pane or a detached window); and no session has two tabs.
pub proof fn law_every_session_has_a_place(nb: &TerminalNotebook, id: u128)
    requires
        nb.wf(),
    ensures
        nb.info_view().contains_key(id) ==> (has_tab(nb.pages_view(), id) || nb.parked(id)),
        forall|i: int, j: int|
            is_tab_of(nb.pages_view(), id, i) && is_tab_of(nb.pages_view(), id, j) ==> i == j,
{
    assert forall|i: int, j: int|
        is_tab_of(nb.pages_view(), id, i) && is_tab_of(nb.pages_view(), id, j) implies i == j by {
        if i < j {
            assert(nb.pages_view()[i].owner != nb.pages_view()[j].owner);
        } else if j < i {
            assert(nb.pages_view()[j].owner != nb.pages_view()[i].owner);
        }
    }
}

} // verus!
