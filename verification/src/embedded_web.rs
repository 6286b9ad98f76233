//! The embedded web view: which URLs it opens, where each connection keeps
//! its browsing data, and how page loads move its state.

use vstd::prelude::*;

use crate::embedded_rdp::ephemeral_args::{join_path, join_paths};
use vstd::utf8::{encode_utf8, encode_utf8_decode_utf8, is_ascii_chars, is_ascii_chars_encode_utf8};
use crate::ids::{uuid_string, uuid_text};
use crate::sidebar::utf8_len;
use crate::text::str_eq;

verus! {

/// An error of an embedded session.
#[derive(Debug, Clone, PartialEq, Eq)]
pub enum EmbeddedError {
    /// The session is misconfigured.
    ConfigurationError(String),
    /// The connection failed.
    ConnectionFailed(String),
}

/// The code of `c` in ASCII lower case.
pub open spec fn ascii_lower(c: char) -> u32 {
    if 'A' <= c <= 'Z' {
        (c as u32 + 32) as u32
    } else {
        c as u32
    }
}

/// `s` begins with `p`, ignoring ASCII case.
pub open spec fn has_prefix_ignore_case(s: Seq<char>, p: Seq<char>) -> bool {
    p.len() <= s.len() && forall|i: int| 0 <= i < p.len() ==> #[trigger] ascii_lower(s[i]) == ascii_lower(p[i])
}

/// The URL starts with a scheme the browser opens: `http://`, `https://`
/// or `file://`, in any letter case.
pub open spec fn supported_scheme(url: Seq<char>) -> bool {
    has_prefix_ignore_case(url, "http://"@) || has_prefix_ignore_case(url, "https://"@)
        || has_prefix_ignore_case(url, "file://"@)
}

/// The rejection message for an unsupported URL, quoting at most its first
/// 50 characters.
pub open spec fn unsupported_scheme_text(url: Seq<char>) -> Seq<char> {
    "Unsupported URL scheme: URL must start with http://, https://, or file:// (got: "@ + (if url.len()
        <= 50 {
        url
    } else {
        url.subrange(0, 50)
    }) + ")"@
}

fn ascii_lower_exec(c: char) -> (r: u32)
    ensures
        r == ascii_lower(c),
{
    if 'A' <= c && c <= 'Z' {
        (c as u32) + 32
    } else {
        c as u32
    }
}

/// Whether `s` begins with `p`, ignoring ASCII case.
fn starts_with_ignore_case(s: &Vec<char>, p: &str) -> (b: bool)
    ensures
        b == has_prefix_ignore_case(s@, p@),
{
    let pv = crate::text::chars_of(p);
    if pv.len() > s.len() {
        return false;
    }
    let mut i: usize = 0;
    while i < pv.len()
        invariant
            pv@ == p@,
            pv@.len() <= s@.len(),
            i <= pv@.len(),
            forall|k: int| 0 <= k < i ==> #[trigger] ascii_lower(s@[k]) == ascii_lower(pv@[k]),
        decreases pv@.len() - i,
    {
        if ascii_lower_exec(s[i]) != ascii_lower_exec(pv[i]) {
            return false;
        }
        i = i + 1;
    }
    true
}

/// Checks that the browser can open `url`: it must not be empty and must
/// use `http://`, `https://` or `file://` (any letter case). Nothing is
/// fetched.
pub fn validate_url(url: &str) -> (r: Result<(), EmbeddedError>)
    ensures
        url@.len() == 0 ==> (r matches Err(EmbeddedError::ConfigurationError(m)) && m@
            == "URL is empty"@),
        url@.len() > 0 && supported_scheme(url@) ==> r is Ok,
        url@.len() > 0 && !supported_scheme(url@) ==> (r matches Err(
            EmbeddedError::ConfigurationError(m),
        ) && m@ == unsupported_scheme_text(url@)),
{
    if url.unicode_len() == 0 {
        return Err(EmbeddedError::ConfigurationError(String::from_str("URL is empty")));
    }
    let v = crate::text::chars_of(url);
    if starts_with_ignore_case(&v, "http://") || starts_with_ignore_case(&v, "https://")
        || starts_with_ignore_case(&v, "file://") {
        Ok(())
    } else {
        let mut m = String::from_str(
            "Unsupported URL scheme: URL must start with http://, https://, or file:// (got: ",
        );
        let n = if v.len() <= 50 {
            v.len()
        } else {
            50
        };
        let quoted = crate::text::string_from_chars(&v, 0, n);
        assert(v@.subrange(0, v@.len() as int) =~= v@);
        m.append(quoted.as_str());
        m.append(")");
        Err(EmbeddedError::ConfigurationError(m))
    }
}

/// The user's data directory (`dirs::data_dir()`), if it can be
/// determined, as the path's bytes (`OsString::into_encoded_bytes`).
///
/// The answer comes from the environment and the platform, so nothing is
/// stated of it.
#[verifier::external_body]
fn user_data_dir() -> (d: Option<Vec<u8>>) {
    dirs::data_dir().map(|p| p.into_os_string().into_encoded_bytes())
}

/// The user's cache directory (`dirs::cache_dir()`), if it can be
/// determined, as the path's bytes (`OsString::into_encoded_bytes`).
///
/// The answer comes from the environment and the platform, so nothing is
/// stated of it.
#[verifier::external_body]
fn user_cache_dir() -> (d: Option<Vec<u8>>) {
    dirs::cache_dir().map(|p| p.into_os_string().into_encoded_bytes())
}

/// `<base>/rustconn/webkit/<uuid>` as `Path::join` builds it, with
/// `fallback` as the base when none was found; paths are bytes.
pub open spec fn webkit_dir(base: Option<Seq<u8>>, fallback: Seq<u8>, id: u128) -> Seq<u8> {
    let b = match base {
        Some(x) => x,
        None => fallback,
    };
    join_path(
        join_path(join_path(b, encode_utf8("rustconn"@)), encode_utf8("webkit"@)),
        encode_utf8(uuid_text(id)),
    )
}

/// The webkit directory of connection `id` under `base` (or `fallback`).
pub fn webkit_dir_under(base: Option<&[u8]>, fallback: &[u8], id: u128) -> (r: Vec<u8>)
    ensures
        r@ == webkit_dir(
            match base {
                Some(b) => Some(b@),
                None => None,
            },
            fallback@,
            id,
        ),
{
    let b = match base {
        Some(x) => x,
        None => fallback,
    };
    let p1 = join_paths(b, "rustconn".as_bytes());
    let p2 = join_paths(p1.as_slice(), "webkit".as_bytes());
    let id_text = uuid_string(id);
    join_paths(p2.as_slice(), id_text.as_str().as_bytes())
}

/// Where connection `id` keeps its browsing data:
/// `<data dir>/rustconn/webkit/<uuid>`, under `.local/share` when the data
/// directory is unknown.
pub fn session_data_dir(id: u128) -> (r: Vec<u8>)
    ensures
        exists|base: Option<Seq<u8>>| r@ == webkit_dir(base, encode_utf8(".local/share"@), id),
        exists|pre: Seq<u8>| r@ == pre + webkit_tail(id) && (pre.len() == 0 || pre.last() == 47u8),
{
    let base = user_data_dir();
    let r = match &base {
        Some(b) => webkit_dir_under(Some(b.as_slice()), ".local/share".as_bytes(), id),
        None => webkit_dir_under(None, ".local/share".as_bytes(), id),
    };
    proof {
        let w: Option<Seq<u8>> = match base {
            Some(b) => Some(b@),
            None => None,
        };
        assert(r@ == webkit_dir(w, encode_utf8(".local/share"@), id));
        lemma_webkit_dir_shape(w, encode_utf8(".local/share"@), id);
        let b = match w {
            Some(x) => x,
            None => encode_utf8(".local/share"@),
        };
        let pre = dir_prefix(b);
        assert(pre.len() == 0 || pre.last() == 47u8);
        assert(r@ == pre + webkit_tail(id));
    }
    r
}

/// Where connection `id` keeps its browser cache:
/// `<cache dir>/rustconn/webkit/<uuid>`, under `.cache` when the cache
/// directory is unknown.
pub fn session_cache_dir(id: u128) -> (r: Vec<u8>)
    ensures
        exists|base: Option<Seq<u8>>| r@ == webkit_dir(base, encode_utf8(".cache"@), id),
        exists|pre: Seq<u8>| r@ == pre + webkit_tail(id) && (pre.len() == 0 || pre.last() == 47u8),
{
    let base = user_cache_dir();
    let r = match &base {
        Some(b) => webkit_dir_under(Some(b.as_slice()), ".cache".as_bytes(), id),
        None => webkit_dir_under(None, ".cache".as_bytes(), id),
    };
    proof {
        let w: Option<Seq<u8>> = match base {
            Some(b) => Some(b@),
            None => None,
        };
        assert(r@ == webkit_dir(w, encode_utf8(".cache"@), id));
        lemma_webkit_dir_shape(w, encode_utf8(".cache"@), id);
        let b = match w {
            Some(x) => x,
            None => encode_utf8(".cache"@),
        };
        let pre = dir_prefix(b);
        assert(pre.len() == 0 || pre.last() == 47u8);
        assert(r@ == pre + webkit_tail(id));
    }
    r
}

/// The back and forward buttons are sensitive exactly when the page can go
/// that way.
pub fn compute_nav_sensitivity(can_go_back: bool, can_go_forward: bool) -> (r: (bool, bool))
    ensures
        r == (can_go_back, can_go_forward),
{
    (can_go_back, can_go_forward)
}

/// The state of an embedded session.
#[derive(Debug, Clone, Copy, PartialEq, Eq, Structural)]
pub enum WebState {
    /// Not connected.
    Disconnected,
    /// A page is loading.
    Connecting,
    /// The page loaded.
    Connected,
    /// Loading failed or timed out.
    Error,
}

/// A page-load event of the web view.
#[derive(Debug, Clone, Copy, PartialEq, Eq, Structural)]
pub enum LoadEvent {
    /// Loading started.
    Started,
    /// The load was redirected.
    Redirected,
    /// The load was committed.
    Committed,
    /// Loading finished.
    Finished,
}

/// The state a load event leads to (`None`: unchanged); a finished load
/// also cancels the load time-out.
pub fn on_load_event(e: LoadEvent) -> (r: Option<WebState>)
    ensures
        (e == LoadEvent::Started || e == LoadEvent::Redirected) ==> r == Some(WebState::Connecting),
        e == LoadEvent::Finished ==> r == Some(WebState::Connected),
        e == LoadEvent::Committed ==> r is None,
{
    match e {
        LoadEvent::Started | LoadEvent::Redirected => Some(WebState::Connecting),
        LoadEvent::Committed => None,
        LoadEvent::Finished => Some(WebState::Connected),
    }
}

/// What the load time-out does when it fires: only a load still in
/// progress becomes an error, reported as timed out.
pub fn on_load_timeout(state: WebState) -> (r: Option<(WebState, EmbeddedError)>)
    ensures
        state == WebState::Connecting ==> (r matches Some((s, EmbeddedError::ConnectionFailed(m)))
            && s == WebState::Error && m@ == "Page load timed out after 60 seconds"@),
        state != WebState::Connecting ==> r is None,
{
    if state == WebState::Connecting {
        Some(
            (
                WebState::Error,
                EmbeddedError::ConnectionFailed(
                    String::from_str("Page load timed out after 60 seconds"),
                ),
            ),
        )
    } else {
        None
    }
}

/// `k` characters of `s` take exactly `bytes` UTF-8 bytes.
pub open spec fn char_boundary(s: Seq<char>, bytes: nat, k: int) -> bool {
    0 <= k <= s.len() && utf8_len(s.subrange(0, k)) == bytes
}

/// The error reported for a failed load: the description, cut to its first
/// 197 bytes and marked with `...` when it is longer than 200 bytes.
pub open spec fn load_failure_text(desc: Seq<char>) -> Seq<char> {
    if utf8_len(desc) > 200 {
        desc.subrange(0, choose|k: int| char_boundary(desc, 197, k)) + "..."@
    } else {
        desc
    }
}

proof fn lemma_prefix_len_step(s: Seq<char>, k: int)
    requires
        0 <= k < s.len(),
    ensures
        utf8_len(s.subrange(0, k + 1)) == utf8_len(s.subrange(0, k)) + crate::sidebar::utf8_width(
            s[k],
        ),
{
    assert(s.subrange(0, k + 1).drop_last() =~= s.subrange(0, k));
}

proof fn lemma_prefix_len_strict_mono(s: Seq<char>, a: int, b: int)
    requires
        0 <= a < b <= s.len(),
    ensures
        utf8_len(s.subrange(0, a)) < utf8_len(s.subrange(0, b)),
    decreases b - a,
{
    lemma_prefix_len_step(s, b - 1);
    if a < b - 1 {
        lemma_prefix_len_strict_mono(s, a, b - 1);
    }
}

/// The error for a failed page load (see [`load_failure_text`]). A long
/// description must have a character boundary at byte 197.
pub fn load_failure(desc: &str) -> (e: EmbeddedError)
    requires
        utf8_len(desc@) > 200 ==> exists|k: int| char_boundary(desc@, 197, k),
    ensures
        e matches EmbeddedError::ConnectionFailed(m) && m@ == load_failure_text(desc@),
{
    let v = crate::text::chars_of(desc);
    let n = v.len();
    let mut i: usize = 0;
    let mut bytes: u64 = 0;
    let mut cut: usize = 0;
    let mut over = false;
    assert(v@.subrange(0, 0) =~= Seq::<char>::empty());
    while i < n
        invariant
            n == v@.len(),
            v@ == desc@,
            i <= n,
            !over ==> bytes == utf8_len(v@.subrange(0, i as int)) && bytes <= 200,
            over ==> utf8_len(v@.subrange(0, i as int)) > 200,
            cut <= i,
            utf8_len(v@.subrange(0, cut as int)) <= 197,
            forall|k: int| cut < k <= i ==> utf8_len(#[trigger] v@.subrange(0, k)) > 197,
        decreases n - i,
    {
        proof {
            lemma_prefix_len_step(v@, i as int);
        }
        if !over {
            let nb = bytes + crate::sidebar::utf8_width_exec(v[i]);
            if nb <= 197 {
                cut = i + 1;
            }
            if nb > 200 {
                over = true;
            } else {
                bytes = nb;
            }
        } else {
            proof {
                lemma_prefix_len_strict_mono(v@, cut as int, i as int + 1);
            }
        }
        i = i + 1;
    }
    assert(v@.subrange(0, n as int) =~= v@);
    if over {
        proof {
            let c = choose|k: int| char_boundary(desc@, 197, k);
            assert(char_boundary(desc@, 197, c));
            if c > cut as int {
                assert(utf8_len(v@.subrange(0, c)) > 197);
            } else if c < cut as int {
                lemma_prefix_len_strict_mono(v@, c, cut as int);
            }
        }
        let mut m = crate::text::string_from_chars(&v, 0, cut);
        m.append("...");
        EmbeddedError::ConnectionFailed(m)
    } else {
        EmbeddedError::ConnectionFailed(desc.to_owned())
    }
}

/// The file name a download is saved under: the name the server suggests,
/// else the last path segment of the request URI without its query, else
/// `download`.
pub open spec fn download_name_spec(suggested: Option<Seq<char>>, uri: Option<Seq<char>>) -> Seq<char> {
    match suggested {
        Some(s) => s,
        None => match uri {
            Some(u) => crate::scan::before_first(crate::scan::after_last(u, "/"@), '?'),
            None => "download"@,
        },
    }
}

/// The file name a download is saved under (see [`download_name_spec`]).
pub fn download_file_name(suggested: Option<&str>, uri: Option<&str>) -> (r: String)
    ensures
        r@ == download_name_spec(
            match suggested {
                Some(s) => Some(s@),
                None => None,
            },
            match uri {
                Some(u) => Some(u@),
                None => None,
            },
        ),
{
    match suggested {
        Some(s) => s.to_owned(),
        None => match uri {
            Some(u) => {
                let v = crate::text::chars_of(u);
                let slash = crate::text::chars_of("/");
                proof {
                    reveal_strlit("/");
                }
                let vlen = v.len();
                let start: usize = match crate::scan::find_last(&v, &slash) {
                    Some(k) => {
                        assert(k + 1 <= vlen);
                        k + 1
                    },
                    None => 0,
                };
                let mut seg: Vec<char> = Vec::new();
                let mut i: usize = start;
                while i < v.len()
                    invariant
                        start <= i <= v@.len(),
                        seg@ == v@.subrange(start as int, i as int),
                    decreases v@.len() - i,
                {
                    seg.push(v[i]);
                    i = i + 1;
                    assert(seg@ =~= v@.subrange(start as int, i as int));
                }
                assert(seg@ == crate::scan::after_last(u@, "/"@));
                let n = crate::scan::span(&seg, '?');
                crate::text::string_from_chars(&seg, 0, n)
            },
            None => String::from_str("download"),
        },
    }
}

/// The destination URI of a download: `file://` and the path.
pub fn download_destination_uri(path: &str) -> (r: String)
    ensures
        r@ == "file://"@ + path@,
{
    let mut r = String::from_str("file://");
    r.append(path);
    r
}

/// `b` as `Path::join` continues it: followed by a `/` unless it is empty
/// or already ends with one.
pub open spec fn dir_prefix(b: Seq<u8>) -> Seq<u8> {
    if b.len() == 0 || b.last() == 47u8 {
        b
    } else {
        b.push(47u8)
    }
}

/// `rustconn/webkit/<uuid>` as bytes.
pub open spec fn webkit_tail(id: u128) -> Seq<u8> {
    encode_utf8("rustconn"@) + seq![47u8] + encode_utf8("webkit"@) + seq![47u8] + encode_utf8(uuid_text(id))
}

/// The webkit directory is its base continued by `rustconn/webkit/<uuid>`.
pub proof fn lemma_webkit_dir_shape(base: Option<Seq<u8>>, fallback: Seq<u8>, id: u128)
    ensures
        webkit_dir(base, fallback, id) == dir_prefix(
            match base {
                Some(x) => x,
                None => fallback,
            },
        ) + webkit_tail(id),
{
    let b = match base {
        Some(x) => x,
        None => fallback,
    };
    reveal_strlit("rustconn");
    reveal_strlit("webkit");
    let r = "rustconn"@;
    let w = "webkit"@;
    assert(is_ascii_chars(r));
    assert(is_ascii_chars(w));
    is_ascii_chars_encode_utf8(r);
    is_ascii_chars_encode_utf8(w);
    let er = encode_utf8(r);
    let ew = encode_utf8(w);
    let u = uuid_text(id);
    crate::ids::lemma_uuid_text_ascii(id);
    crate::ids::lemma_uuid_text_len(id);
    is_ascii_chars_encode_utf8(u);
    let eu = encode_utf8(u);
    assert(er[0] == r[0] as u8);
    assert(er[0] != 47u8);
    assert(er[7] == r[7] as u8);
    assert(er.last() != 47u8);
    assert(ew[0] == w[0] as u8);
    assert(ew[0] != 47u8);
    assert(ew[5] == w[5] as u8);
    assert(ew.last() != 47u8);
    assert(eu[0] == u[0] as u8);
    assert(eu[0] != 47u8);
    let p1 = join_path(b, er);
    assert(p1 == dir_prefix(b) + er);
    assert(p1.last() == er.last());
    let p2 = join_path(p1, ew);
    assert(p2 == p1.push(47u8) + ew);
    assert(p2.last() == ew.last());
    let p3 = join_path(p2, eu);
    assert(p3 == p2.push(47u8) + eu);
    assert(p3 =~= dir_prefix(b) + webkit_tail(id));
}

/// The browsing data of two different connections never share a directory,
/// nor does one live inside the other's: under the same base, each lives in
/// `rustconn/webkit/<its uuid>`, and their directories differ and have the
/// same length.
pub proof fn law_session_dirs_are_isolated(base: Option<Seq<u8>>, fallback: Seq<u8>, a: u128, b: u128)
    requires
        a != b,
    ensures
        webkit_dir(base, fallback, a) == dir_prefix(
            match base {
                Some(x) => x,
                None => fallback,
            },
        ) + webkit_tail(a),
        webkit_dir(base, fallback, a) != webkit_dir(base, fallback, b),
        webkit_dir(base, fallback, a).len() == webkit_dir(base, fallback, b).len(),
        !(webkit_dir(base, fallback, a).subrange(0, webkit_dir(base, fallback, b).len() as int)
            == webkit_dir(base, fallback, b)),
{
    lemma_webkit_dir_shape(base, fallback, a);
    let bs = match base {
        Some(x) => x,
        None => fallback,
    };
    let p = join_path(join_path(bs, encode_utf8("rustconn"@)), encode_utf8("webkit"@));
    let q = if p.len() == 0 || p.last() == 47u8 {
        p
    } else {
        p.push(47u8)
    };
    let ta = uuid_text(a);
    let tb = uuid_text(b);
    let ea = encode_utf8(ta);
    let eb = encode_utf8(tb);
    crate::ids::lemma_uuid_text_len(a);
    crate::ids::lemma_uuid_text_len(b);
    crate::ids::lemma_uuid_text_ascii(a);
    crate::ids::lemma_uuid_text_ascii(b);
    is_ascii_chars_encode_utf8(ta);
    is_ascii_chars_encode_utf8(tb);
    assert(ea[0] != 47u8) by {
        assert(ea[0] == ta[0] as u8);
    }
    assert(eb[0] != 47u8) by {
        assert(eb[0] == tb[0] as u8);
    }
    assert(webkit_dir(base, fallback, a) == q + ea);
    assert(webkit_dir(base, fallback, b) == q + eb);
    if ea == eb {
        encode_utf8_decode_utf8(ta);
        encode_utf8_decode_utf8(tb);
        crate::ids::lemma_uuid_text_injective(a, b);
    }
    if q + ea == q + eb {
        assert(ea =~= (q + ea).subrange(q.len() as int, (q.len() + 36) as int));
        assert(eb =~= (q + eb).subrange(q.len() as int, (q.len() + 36) as int));
    }
    assert((q + ea).subrange(0, (q + eb).len() as int) =~= q + ea);
}

/// What a key press in the web view's toolbar shortcuts does.
#[derive(Debug, Clone, Copy, PartialEq, Eq)]
pub enum WebShortcut {
    /// Zoom in one step.
    ZoomIn,
    /// Zoom out one step.
    ZoomOut,
    /// Back to the default zoom.
    ZoomReset,
    /// Copy the page's address to the clipboard.
    CopyUrl,
}

/// The shortcut bound to a key (by its GDK name) pressed with Ctrl.
pub open spec fn shortcut_for(key: Seq<char>) -> Option<WebShortcut> {
    if key == "plus"@ || key == "equal"@ || key == "KP_Add"@ {
        Some(WebShortcut::ZoomIn)
    } else if key == "minus"@ || key == "KP_Subtract"@ {
        Some(WebShortcut::ZoomOut)
    } else if key == "0"@ || key == "KP_0"@ {
        Some(WebShortcut::ZoomReset)
    } else if key == "l"@ {
        Some(WebShortcut::CopyUrl)
    } else {
        None
    }
}

/// The shortcut a key press triggers; `None` lets the press through to the
/// page. Only presses with Ctrl held are shortcuts.
pub fn web_shortcut(ctrl_held: bool, key_name: Option<&str>) -> (r: Option<WebShortcut>)
    ensures
        !ctrl_held ==> r is None,
        ctrl_held ==> r == match key_name {
            Some(k) => shortcut_for(k@),
            None => None,
        },
{
    if !ctrl_held {
        return None;
    }
    let k = match key_name {
        Some(k) => k,
        None => return None,
    };
    if str_eq(k, "plus") || str_eq(k, "equal") || str_eq(k, "KP_Add") {
        Some(WebShortcut::ZoomIn)
    } else if str_eq(k, "minus") || str_eq(k, "KP_Subtract") {
        Some(WebShortcut::ZoomOut)
    } else if str_eq(k, "0") || str_eq(k, "KP_0") {
        Some(WebShortcut::ZoomReset)
    } else if str_eq(k, "l") {
        Some(WebShortcut::CopyUrl)
    } else {
        None
    }
}

} // verus!
