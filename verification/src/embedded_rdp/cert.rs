//! Forgetting a server certificate FreeRDP stored on first use, so that the
//! next connection accepts the new one: which files hold it, and what a
//! `known_hosts2` file keeps once the host's lines are gone.

use vstd::prelude::*;

use crate::embedded_rdp::ephemeral_args::{join_path, join_paths};
use vstd::utf8::encode_utf8;
use crate::scan::{char_views, lines, lines_of};
use crate::text::{decimal, decimal_string, has_substr};
use crate::vault::keys::{join, join_strings, views};

verus! {

/// `{host} {port}`: how a `known_hosts2` line names a host.
pub open spec fn host_pattern(host: Seq<char>, port: u16) -> Seq<char> {
    host + " "@ + decimal(port as nat)
}

/// The lines of `content` that do not mention the host.
pub open spec fn kept_lines(content: Seq<char>, pattern: Seq<char>) -> Seq<Seq<char>> {
    lines(content).filter(|l: Seq<char>| !has_substr(l, pattern))
}

/// The new content of a `known_hosts2` file without the lines that name
/// `host` and `port`, newline-terminated; `None` when no line does (the file
/// is left alone).
pub open spec fn known_hosts_after(content: Seq<char>, host: Seq<char>, port: u16) -> Option<Seq<char>> {
    let kept = kept_lines(content, host_pattern(host, port));
    if kept.len() < lines(content).len() {
        Some(join(kept, "\n"@) + "\n"@)
    } else {
        None
    }
}

/// The new content of a `known_hosts2` file once the host's entries are
/// removed (see [`known_hosts_after`]).
pub fn known_hosts_without(content: &str, host: &str, port: u16) -> (r: Option<String>)
    ensures
        match known_hosts_after(content@, host@, port) {
            Some(c) => r matches Some(s) && s@ == c,
            None => r is None,
        },
{
    let mut pattern = host.to_owned();
    pattern.append(" ");
    let p = decimal_string(port as u64);
    pattern.append(p.as_str());
    let pat = crate::text::chars_of(pattern.as_str());
    let text = crate::text::chars_of(content);
    let ls = lines_of(&text);
    let ghost all = char_views(ls@);
    let ghost keep = |l: Seq<char>| !has_substr(l, pat@);
    let mut kept: Vec<String> = Vec::new();
    let mut i: usize = 0;
    assert(all.subrange(0, 0).filter(keep) =~= Seq::<Seq<char>>::empty());
    while i < ls.len()
        invariant
            i <= ls@.len(),
            all == char_views(ls@),
            keep == (|l: Seq<char>| !has_substr(l, pat@)),
            views(kept@) == all.subrange(0, i as int).filter(keep),
        decreases ls@.len() - i,
    {
        let ghost before = views(kept@);
        proof {
            assert(all.subrange(0, i + 1) =~= all.subrange(0, i as int).push(all[i as int]));
            all.subrange(0, i as int).lemma_filter_push(all[i as int], keep);
        }
        if !crate::text::contains_chars(&ls[i], &pat) {
            kept.push(crate::text::string_of(&ls[i]));
            proof {
                assert(views(kept@) =~= before.push(all[i as int]));
            }
        }
        i = i + 1;
    }
    assert(all.subrange(0, all.len() as int) =~= all);
    proof {
        all.lemma_filter_len(keep);
    }
    if kept.len() < ls.len() {
        let mut s = join_strings(&kept, "\n");
        s.append("\n");
        Some(s)
    } else {
        None
    }
}

/// The FreeRDP 2.x certificate file of a host: `{host}_{port}.pem`.
pub open spec fn pem_name(host: Seq<char>, port: u16) -> Seq<char> {
    host + "_"@ + decimal(port as nat) + ".pem"@
}

/// The files that may hold a host's stored certificate, under the user's
/// configuration directory (as bytes): the FreeRDP 2.x PEM file, then the
/// FreeRDP 3.x `known_hosts2` files (`freerdp3/`, and `freerdp/` on some
/// systems).
pub fn certificate_files(config_dir: &[u8], host: &str, port: u16) -> (r: (Vec<u8>, Vec<u8>, Vec<u8>))
    ensures
        r.0@ == join_path(
            join_path(join_path(config_dir@, encode_utf8("freerdp"@)), encode_utf8("server"@)),
            encode_utf8(pem_name(host@, port)),
        ),
        r.1@ == join_path(join_path(config_dir@, encode_utf8("freerdp3"@)), encode_utf8("known_hosts2"@)),
        r.2@ == join_path(join_path(config_dir@, encode_utf8("freerdp"@)), encode_utf8("known_hosts2"@)),
{
    let mut name = host.to_owned();
    name.append("_");
    let p = decimal_string(port as u64);
    name.append(p.as_str());
    name.append(".pem");
    let freerdp = join_paths(config_dir, "freerdp".as_bytes());
    let server = join_paths(freerdp.as_slice(), "server".as_bytes());
    let pem = join_paths(server.as_slice(), name.as_str().as_bytes());
    let freerdp3 = join_paths(config_dir, "freerdp3".as_bytes());
    let kh3 = join_paths(freerdp3.as_slice(), "known_hosts2".as_bytes());
    let kh2 = join_paths(freerdp.as_slice(), "known_hosts2".as_bytes());
    (pem, kh3, kh2)
}

} // verus!
