//! Choice of the FreeRDP client to launch.
//!
//! The maintained SDL3 client (`sdl-freerdp3`) is preferred on Wayland; the
//! deprecated `wlfreerdp` is a fallback there and the only client that can
//! be embedded as a subsurface. Which binaries are installed is probed by
//! the caller; the functions here decide from the probe's answer.

use vstd::prelude::*;

use crate::vault::keys::views;

verus! {

/// Candidate order on a Wayland session: SDL3 first, the deprecated
/// Wayland-native clients as fallback, X11 clients last.
pub open spec fn wayland_candidates() -> Seq<Seq<char>> {
    seq!["sdl-freerdp3"@, "sdl-freerdp"@, "wlfreerdp3"@, "wlfreerdp"@, "xfreerdp3"@, "xfreerdp"@]
}

/// Candidate order outside Wayland: X11 clients first.
pub open spec fn x11_candidates() -> Seq<Seq<char>> {
    seq!["xfreerdp3"@, "xfreerdp"@, "sdl-freerdp3"@, "sdl-freerdp"@, "wlfreerdp3"@, "wlfreerdp"@]
}

/// The only clients that support RemoteApp (RAIL) windows.
pub open spec fn remoteapp_candidates() -> Seq<Seq<char>> {
    seq!["xfreerdp3"@, "xfreerdp"@]
}

/// The candidate order for the session type.
pub open spec fn candidates(wayland: bool) -> Seq<Seq<char>> {
    if wayland {
        wayland_candidates()
    } else {
        x11_candidates()
    }
}

/// The first of `cands` that `installed` lists, if any.
pub open spec fn first_installed(cands: Seq<Seq<char>>, installed: Seq<Seq<char>>) -> Option<
    Seq<char>,
>
    decreases cands.len(),
{
    if cands.len() == 0 {
        None
    } else if installed.contains(cands[0]) {
        Some(cands[0])
    } else {
        first_installed(cands.drop_first(), installed)
    }
}

/// Detection takes the candidates in order: the client it finds is one of
/// them and is installed, no earlier candidate is installed, and it finds
/// none only when no candidate is installed.
pub proof fn law_detected_client_is_the_first_installed(cands: Seq<Seq<char>>, installed: Seq<Seq<char>>)
    ensures
        match first_installed(cands, installed) {
            Some(c) => exists|i: int|
                0 <= i < cands.len() && cands[i] == c && installed.contains(c) && forall|j: int|
                    0 <= j < i ==> !installed.contains(#[trigger] cands[j]),
            None => forall|i: int| 0 <= i < cands.len() ==> !installed.contains(#[trigger] cands[i]),
        },
    decreases cands.len(),
{
    if cands.len() > 0 {
        let rest = cands.drop_first();
        law_detected_client_is_the_first_installed(rest, installed);
        if !installed.contains(cands[0]) {
            match first_installed(rest, installed) {
                Some(c) => {
                    let i = choose|i: int|
                        0 <= i < rest.len() && rest[i] == c && installed.contains(c) && forall|
                            j: int,
                        | 0 <= j < i ==> !installed.contains(#[trigger] rest[j]);
                    assert(cands[i + 1] == c);
                    assert forall|j: int| 0 <= j < i + 1 implies !installed.contains(
                        #[trigger] cands[j],
                    ) by {
                        if j > 0 {
                            assert(cands[j] == rest[j - 1]);
                        }
                    }
                },
                None => {
                    assert forall|i: int| 0 <= i < cands.len() implies !installed.contains(
                        #[trigger] cands[i],
                    ) by {
                        if i > 0 {
                            assert(cands[i] == rest[i - 1]);
                        }
                    }
                },
            }
        } else {
            assert(cands[0] == cands[0]);
        }
    }
}

/// The preference between installed clients. Outside Wayland the FreeRDP
/// 3.x X11 client `xfreerdp3` wins, then the 2.x `xfreerdp`, then the SDL
/// clients `sdl-freerdp3` and `sdl-freerdp`, then `wlfreerdp3` and
/// `wlfreerdp`. On Wayland the maintained SDL client `sdl-freerdp3` wins,
/// then `sdl-freerdp`, the deprecated `wlfreerdp3` and `wlfreerdp`, and the
/// X11 clients last. No other name is ever chosen.
pub proof fn law_client_preference(installed: Seq<Seq<char>>)
    ensures
        first_installed(candidates(false), installed) == (if installed.contains("xfreerdp3"@) {
            Some("xfreerdp3"@)
        } else if installed.contains("xfreerdp"@) {
            Some("xfreerdp"@)
        } else if installed.contains("sdl-freerdp3"@) {
            Some("sdl-freerdp3"@)
        } else if installed.contains("sdl-freerdp"@) {
            Some("sdl-freerdp"@)
        } else if installed.contains("wlfreerdp3"@) {
            Some("wlfreerdp3"@)
        } else if installed.contains("wlfreerdp"@) {
            Some("wlfreerdp"@)
        } else {
            None
        }),
        first_installed(candidates(true), installed) == (if installed.contains("sdl-freerdp3"@) {
            Some("sdl-freerdp3"@)
        } else if installed.contains("sdl-freerdp"@) {
            Some("sdl-freerdp"@)
        } else if installed.contains("wlfreerdp3"@) {
            Some("wlfreerdp3"@)
        } else if installed.contains("wlfreerdp"@) {
            Some("wlfreerdp"@)
        } else if installed.contains("xfreerdp3"@) {
            Some("xfreerdp3"@)
        } else if installed.contains("xfreerdp"@) {
            Some("xfreerdp"@)
        } else {
            None
        }),
        first_installed(remoteapp_candidates(), installed) == (if installed.contains("xfreerdp3"@) {
            Some("xfreerdp3"@)
        } else if installed.contains("xfreerdp"@) {
            Some("xfreerdp"@)
        } else {
            None
        }),
{
    reveal_with_fuel(first_installed, 7);
    let x = candidates(false);
    assert(x.drop_first() =~= seq!["xfreerdp"@, "sdl-freerdp3"@, "sdl-freerdp"@, "wlfreerdp3"@, "wlfreerdp"@]);
    assert(x.drop_first().drop_first() =~= seq!["sdl-freerdp3"@, "sdl-freerdp"@, "wlfreerdp3"@, "wlfreerdp"@]);
    assert(x.drop_first().drop_first().drop_first() =~= seq!["sdl-freerdp"@, "wlfreerdp3"@, "wlfreerdp"@]);
    assert(x.drop_first().drop_first().drop_first().drop_first() =~= seq!["wlfreerdp3"@, "wlfreerdp"@]);
    assert(x.drop_first().drop_first().drop_first().drop_first().drop_first() =~= seq!["wlfreerdp"@]);
    assert(x.drop_first().drop_first().drop_first().drop_first().drop_first().drop_first() =~= Seq::<Seq<char>>::empty());
    let w = candidates(true);
    assert(w.drop_first() =~= seq!["sdl-freerdp"@, "wlfreerdp3"@, "wlfreerdp"@, "xfreerdp3"@, "xfreerdp"@]);
    assert(w.drop_first().drop_first() =~= seq!["wlfreerdp3"@, "wlfreerdp"@, "xfreerdp3"@, "xfreerdp"@]);
    assert(w.drop_first().drop_first().drop_first() =~= seq!["wlfreerdp"@, "xfreerdp3"@, "xfreerdp"@]);
    assert(w.drop_first().drop_first().drop_first().drop_first() =~= seq!["xfreerdp3"@, "xfreerdp"@]);
    assert(w.drop_first().drop_first().drop_first().drop_first().drop_first() =~= seq!["xfreerdp"@]);
    assert(w.drop_first().drop_first().drop_first().drop_first().drop_first().drop_first() =~= Seq::<Seq<char>>::empty());
    let r = remoteapp_candidates();
    assert(r.drop_first() =~= seq!["xfreerdp"@]);
    assert(r.drop_first().drop_first() =~= Seq::<Seq<char>>::empty());
}

/// Whether `name` is one of `names`.
fn listed(names: &Vec<String>, name: &str) -> (b: bool)
    ensures
        b == views(names@).contains(name@),
{
    let mut i: usize = 0;
    while i < names.len()
        invariant
            i <= names@.len(),
            forall|k: int| 0 <= k < i ==> views(names@)[k] != name@,
        decreases names@.len() - i,
    {
        if crate::text::str_eq(names[i].as_str(), name) {
            assert(views(names@)[i as int] == name@);
            return true;
        }
        i = i + 1;
    }
    false
}

/// The Wayland-first candidate list.
pub fn wayland_first_candidates() -> (v: Vec<String>)
    ensures
        views(v@) == wayland_candidates(),
{
    let mut v: Vec<String> = Vec::new();
    v.push(String::from_str("sdl-freerdp3"));
    v.push(String::from_str("sdl-freerdp"));
    v.push(String::from_str("wlfreerdp3"));
    v.push(String::from_str("wlfreerdp"));
    v.push(String::from_str("xfreerdp3"));
    v.push(String::from_str("xfreerdp"));
    assert(views(v@) =~= wayland_candidates());
    v
}

/// The X11-first candidate list.
pub fn x11_first_candidates() -> (v: Vec<String>)
    ensures
        views(v@) == x11_candidates(),
{
    let mut v: Vec<String> = Vec::new();
    v.push(String::from_str("xfreerdp3"));
    v.push(String::from_str("xfreerdp"));
    v.push(String::from_str("sdl-freerdp3"));
    v.push(String::from_str("sdl-freerdp"));
    v.push(String::from_str("wlfreerdp3"));
    v.push(String::from_str("wlfreerdp"));
    assert(views(v@) =~= x11_candidates());
    v
}

/// The RemoteApp candidate list.
pub fn remoteapp_first_candidates() -> (v: Vec<String>)
    ensures
        views(v@) == remoteapp_candidates(),
{
    let mut v: Vec<String> = Vec::new();
    v.push(String::from_str("xfreerdp3"));
    v.push(String::from_str("xfreerdp"));
    assert(views(v@) =~= remoteapp_candidates());
    v
}

/// The first of `cands` that `installed` lists.
pub(crate) fn pick_first(cands: &Vec<String>, installed: &Vec<String>) -> (r: Option<String>)
    ensures
        match r {
            Some(s) => first_installed(views(cands@), views(installed@)) == Some(s@),
            None => first_installed(views(cands@), views(installed@)) is None,
        },
{
    let ghost inst = views(installed@);
    let mut i: usize = 0;
    assert(views(cands@).subrange(0, cands@.len() as int) =~= views(cands@));
    while i < cands.len()
        invariant
            i <= cands@.len(),
            inst == views(installed@),
            first_installed(views(cands@), inst) == first_installed(
                views(cands@).subrange(i as int, cands@.len() as int),
                inst,
            ),
        decreases cands@.len() - i,
    {
        let ghost rest = views(cands@).subrange(i as int, cands@.len() as int);
        assert(rest[0] == cands@[i as int]@);
        assert(rest.drop_first() =~= views(cands@).subrange(i + 1, cands@.len() as int));
        if listed(installed, cands[i].as_str()) {
            return Some(cands[i].clone());
        }
        i = i + 1;
    }
    assert(views(cands@).subrange(i as int, cands@.len() as int).len() == 0);
    None
}

/// The best FreeRDP client among those installed.
///
/// `wayland` says whether the session is a Wayland session; `installed`
/// lists the candidate binaries found on `PATH`. The result is the first
/// candidate of the session's order that is installed, or `None` when no
/// FreeRDP client is installed.
pub fn detect_best_freerdp(wayland: bool, installed: &Vec<String>) -> (r: Option<String>)
    ensures
        match r {
            Some(s) => first_installed(candidates(wayland), views(installed@)) == Some(s@),
            None => first_installed(candidates(wayland), views(installed@)) is None,
        },
{
    let cands = if wayland {
        wayland_first_candidates()
    } else {
        x11_first_candidates()
    };
    pick_first(&cands, installed)
}

/// Whether the embedded (subsurface) client can be used: only on a Wayland
/// session with `wlfreerdp3` or `wlfreerdp` installed.
pub fn detect_wlfreerdp(wayland: bool, installed: &Vec<String>) -> (b: bool)
    ensures
        b == (wayland && (views(installed@).contains("wlfreerdp3"@) || views(installed@).contains(
            "wlfreerdp"@,
        ))),
{
    wayland && (listed(installed, "wlfreerdp3") || listed(installed, "wlfreerdp"))
}

/// The client for external mode: the same choice as [`detect_best_freerdp`].
pub fn detect_xfreerdp(wayland: bool, installed: &Vec<String>) -> (r: Option<String>)
    ensures
        match r {
            Some(s) => first_installed(candidates(wayland), views(installed@)) == Some(s@),
            None => first_installed(candidates(wayland), views(installed@)) is None,
        },
{
    detect_best_freerdp(wayland, installed)
}

/// The client for RemoteApp sessions.
///
/// Only the X11 clients support RAIL. The first one installed in the
/// sandbox wins; inside Flatpak the host is asked next, and a client found
/// there is returned as `host:{name}`.
pub fn detect_best_freerdp_for_remoteapp(
    installed: &Vec<String>,
    in_flatpak: bool,
    installed_on_host: &Vec<String>,
) -> (r: Option<String>)
    ensures
        match first_installed(remoteapp_candidates(), views(installed@)) {
            Some(c) => r matches Some(s) && s@ == c,
            None => if in_flatpak {
                match first_installed(remoteapp_candidates(), views(installed_on_host@)) {
                    Some(c) => r matches Some(s) && s@ == "host:"@ + c,
                    None => r is None,
                }
            } else {
                r is None
            },
        },
{
    let cands = remoteapp_first_candidates();
    match pick_first(&cands, installed) {
        Some(s) => Some(s),
        None => {
            if in_flatpak {
                match pick_first(&cands, installed_on_host) {
                    Some(c) => {
                        let mut s = String::from_str("host:");
                        s.append(c.as_str());
                        Some(s)
                    },
                    None => None,
                }
            } else {
                None
            }
        },
    }
}

} // verus!
