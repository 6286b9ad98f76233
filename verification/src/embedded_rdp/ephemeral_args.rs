//! The single-use arguments file handed to FreeRDP.
//!
//! FreeRDP 3.26+ requires `/args-from:file:<path>` to be the only argument on
//! its command line, so every connection parameter, secrets included, goes
//! into one file, one argument per line: the plain arguments first, then
//! each secret as `/<flag>:<secret>`. The file lives in the runtime
//! directory under a name made unique by a random UUID.

use vstd::prelude::*;

use crate::ids::{uuid_string, uuid_text};
use vstd::slice::slice_to_vec;
use vstd::utf8::encode_utf8;
use crate::vault::keys::views;

verus! {

/// The plain arguments, each followed by a newline.
pub open spec fn plain_lines(args: Seq<Seq<char>>) -> Seq<char>
    decreases args.len(),
{
    if args.len() == 0 {
        seq![]
    } else {
        plain_lines(args.drop_last()) + args.last() + "\n"@
    }
}

/// One secret argument line: `/<flag>:<secret>` and a newline.
pub open spec fn secret_line(flag: Seq<char>, secret: Seq<char>) -> Seq<char> {
    "/"@ + flag + ":"@ + secret + "\n"@
}

/// The secret arguments, one line each.
pub open spec fn secret_lines(secrets: Seq<(Seq<char>, Seq<char>)>) -> Seq<char>
    decreases secrets.len(),
{
    if secrets.len() == 0 {
        seq![]
    } else {
        secret_lines(secrets.drop_last()) + secret_line(secrets.last().0, secrets.last().1)
    }
}

/// The whole file: plain arguments first, secrets last.
pub open spec fn args_file_text(plain: Seq<Seq<char>>, secrets: Seq<(Seq<char>, Seq<char>)>) -> Seq<
    char,
> {
    plain_lines(plain) + secret_lines(secrets)
}

/// The views of a list of flag/secret pairs.
pub open spec fn pair_views(v: Seq<(String, String)>) -> Seq<(Seq<char>, Seq<char>)> {
    v.map_values(|p: (String, String)| (p.0@, p.1@))
}

/// The text written to the arguments file.
pub fn args_file_content(plain: &Vec<String>, secrets: &Vec<(String, String)>) -> (r: String)
    ensures
        r@ == args_file_text(views(plain@), pair_views(secrets@)),
{
    let mut r = String::new();
    let mut i: usize = 0;
    while i < plain.len()
        invariant
            i <= plain@.len(),
            r@ == plain_lines(views(plain@).subrange(0, i as int)),
        decreases plain@.len() - i,
    {
        r.append(plain[i].as_str());
        r.append("\n");
        proof {
            let s = views(plain@).subrange(0, i + 1);
            assert(s.drop_last() =~= views(plain@).subrange(0, i as int));
        }
        i = i + 1;
    }
    assert(views(plain@).subrange(0, plain@.len() as int) =~= views(plain@));
    let ghost head = r@;
    let mut j: usize = 0;
    while j < secrets.len()
        invariant
            j <= secrets@.len(),
            head == plain_lines(views(plain@)),
            r@ == head + secret_lines(pair_views(secrets@).subrange(0, j as int)),
        decreases secrets@.len() - j,
    {
        let ghost before = r@;
        r.append("/");
        r.append(secrets[j].0.as_str());
        r.append(":");
        r.append(secrets[j].1.as_str());
        r.append("\n");
        proof {
            let s = pair_views(secrets@).subrange(0, j + 1);
            assert(s.drop_last() =~= pair_views(secrets@).subrange(0, j as int));
            assert(r@ =~= before + secret_line(secrets@[j as int].0@, secrets@[j as int].1@));
        }
        j = j + 1;
    }
    assert(pair_views(secrets@).subrange(0, secrets@.len() as int) =~= pair_views(secrets@));
    r
}

/// The file name for the identifier whose UUID text is `id_text`.
pub open spec fn args_file_name(id_text: Seq<char>) -> Seq<char> {
    "rustconn-rdp-"@ + id_text + ".args"@
}

/// `dir.join(name)` for Unix paths held as bytes, as `Path::join` does it:
/// an absolute `name` (one that starts with `/`) replaces `dir`; otherwise
/// the two are joined with a `/`, unless `dir` is empty or already ends
/// with one.
pub open spec fn join_path(dir: Seq<u8>, name: Seq<u8>) -> Seq<u8> {
    if name.len() > 0 && name[0] == 47u8 {
        name
    } else if dir.len() == 0 || dir.last() == 47u8 {
        dir + name
    } else {
        dir.push(47u8) + name
    }
}

/// Exec form of [`join_path`].
pub(crate) fn join_paths(dir: &[u8], name: &[u8]) -> (r: Vec<u8>)
    ensures
        r@ == join_path(dir@, name@),
{
    let mut tail = slice_to_vec(name);
    if name.len() > 0 && name[0] == 47u8 {
        return tail;
    }
    let mut r = slice_to_vec(dir);
    if dir.len() > 0 && dir[dir.len() - 1] != 47u8 {
        r.push(47u8);
    }
    r.append(&mut tail);
    r
}

/// The location of an arguments file: where it will be written and what
/// FreeRDP is pointed at. Writing and removing the file are the caller's.
#[derive(Debug)]
pub struct EphemeralRdpArgs {
    path: Vec<u8>,
}

impl EphemeralRdpArgs {
    /// The path of the file, as bytes.
    pub closed spec fn path_view(&self) -> Seq<u8> {
        self.path@
    }

    /// The file for identifier `id` in directory `dir`.
    pub fn in_dir_with_id(dir: &[u8], id: u128) -> (r: Self)
        ensures
            r.path_view() == join_path(dir@, encode_utf8(args_file_name(uuid_text(id)))),
    {
        let mut name = String::from_str("rustconn-rdp-");
        let id_text = uuid_string(id);
        name.append(id_text.as_str());
        name.append(".args");
        let path = join_paths(dir, name.as_str().as_bytes());
        EphemeralRdpArgs { path }
    }

    /// A file in `dir` under a fresh random name.
    pub fn in_dir(dir: &[u8]) -> (r: Self)
        ensures
            exists|id: u128|
                r.path_view() == join_path(dir@, encode_utf8(args_file_name(uuid_text(id)))),
    {
        let id = crate::ids::random_id();
        Self::in_dir_with_id(dir, id)
    }

    /// The path FreeRDP reads its arguments from (`/args-from:file:<path>`).
    pub fn path(&self) -> (p: &[u8])
        ensures
            p@ == self.path_view(),
    {
        self.path.as_slice()
    }
}

} // verus!
