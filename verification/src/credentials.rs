//! Where the command line keeps its login to a roadmap server:
//! `~/.roadmap/credentials.json`, and paths under a directory.

use vstd::prelude::*;
use crate::text::{chars_of, owned, push_str};

verus! {

/// The login kept by the command line.
pub struct Credentials {
    pub server: String,
    pub access_token: String,
    pub refresh_token: String,
    pub user_email: String,
    pub user_name: String,
}

/// A path under a directory, as `Path::join` makes it of a relative name: the
/// name alone under an empty directory, else the directory and the name with
/// one `/` between them.
pub open spec fn joined_path(dir: Seq<char>, name: Seq<char>) -> Seq<char> {
    if dir.len() == 0 {
        name
    } else if dir.last() == '/' {
        dir + name
    } else {
        dir + "/"@ + name
    }
}

/// A relative name under a directory (see `joined_path`).
pub fn path_join(dir: &str, name: &str) -> (r: String)
    ensures
        r@ == joined_path(dir@, name@),
{
    let cs = chars_of(dir);
    if cs.len() == 0 {
        return owned(name);
    }
    let mut r = owned(dir);
    if cs[cs.len() - 1] != '/' {
        push_str(&mut r, "/");
    }
    push_str(&mut r, name);
    r
}

/// The directory of the credentials: `.roadmap` under the home directory,
/// or under `.` where none is known.
pub open spec fn credentials_dir(home: Option<Seq<char>>) -> Seq<char> {
    joined_path(
        match home {
            Some(h) => h,
            None => "."@,
        },
        ".roadmap"@,
    )
}

/// The directory of the credentials, given the home directory if known.
pub fn credentials_path(home: Option<&str>) -> (r: String)
    ensures
        r@ == credentials_dir(
            match home {
                Some(h) => Some(h@),
                None => None,
            },
        ),
{
    match home {
        Some(h) => path_join(h, ".roadmap"),
        None => path_join(".", ".roadmap"),
    }
}

/// The file of the credentials, given the home directory if known.
pub fn credentials_file(home: Option<&str>) -> (r: String)
    ensures
        r@ == joined_path(
            credentials_dir(
                match home {
                    Some(h) => Some(h@),
                    None => None,
                },
            ),
            "credentials.json"@,
        ),
{
    let dir = credentials_path(home);
    path_join(dir.as_str(), "credentials.json")
}

} // verus!
