//! Paths of the files that the program keeps. A path is the bytes that the
//! system knows it by.

use vstd::prelude::*;
use vstd::string::*;
use vstd::utf8::encode_utf8;

use crate::text::{copy_bytes, lemma_ascii_bytes};

verus! {

/// The byte that parts the names of a path.
pub const SLASH: u8 = 47;

/// A path behind another one. One that begins at the root stands for itself.
pub open spec fn joined_path(base: Seq<u8>, relative: Seq<u8>) -> Seq<u8> {
    if relative.len() > 0 && relative[0] == SLASH {
        relative
    } else if base.len() > 0 && base.last() != SLASH {
        base + seq![SLASH] + relative
    } else {
        base + relative
    }
}

/// Puts a path behind another one.
pub fn join_bytes(base: &[u8], relative: &[u8]) -> (r: Vec<u8>)
    ensures
        r@ == joined_path(base@, relative@),
{
    if relative.len() > 0 && relative[0] == SLASH {
        return copy_bytes(relative);
    }
    let mut path = copy_bytes(base);
    if base.len() > 0 && base[base.len() - 1] != SLASH {
        path.push(SLASH);
    }
    let ghost so_far = path@;
    path.extend_from_slice(relative);
    assert(path@ =~= so_far + relative@);
    assert(path@ =~= joined_path(base@, relative@));
    path
}

/// Puts a path that is text behind another one.
pub fn join(base: &[u8], relative: &str) -> (r: Vec<u8>)
    ensures
        r@ == joined_path(base@, encode_utf8(relative@)),
{
    join_bytes(base, relative.as_bytes())
}

/// The home directory is not known.
#[derive(Clone, Copy, Debug, PartialEq, Eq, Structural)]
pub struct NoHome;

impl NoHome {
    /// What the error says.
    pub open spec fn text(self) -> Seq<char> {
        "HOME is not set"@
    }

    /// What the error says.
    pub fn message(&self) -> (r: String)
        ensures
            r@ == self.text(),
    {
        "HOME is not set".to_owned()
    }
}

/// What the program keeps in the home directory.
#[derive(Clone, Copy, Debug, PartialEq, Eq, Structural)]
pub enum Place {
    /// The configuration file.
    Config,
    /// The directory of the registered keys.
    Users,
    /// The directory of the master key.
    Share,
    /// The directory of the running instances.
    State,
}

impl Place {
    /// The path below the home directory.
    pub open spec fn below_home(self) -> Seq<char> {
        match self {
            Place::Config => ".config/codex-rate-proxy/config.ini"@,
            Place::Users => ".config/codex-rate-proxy/users"@,
            Place::Share => ".local/share/codex-rate-proxy"@,
            Place::State => ".local/state/codex-rate-proxy"@,
        }
    }

    /// The path, given the home directory.
    pub open spec fn path_of(self, home: Seq<u8>) -> Seq<u8> {
        joined_path(home, encode_utf8(self.below_home()))
    }

    /// The path, if the home directory is known.
    pub fn path(&self, home: Option<&[u8]>) -> (r: Result<Vec<u8>, NoHome>)
        ensures
            match r {
                Ok(path) => home matches Some(h) && path@ == self.path_of(h@),
                Err(_) => home is None,
            },
    {
        let home = match home {
            Some(home) => home,
            None => return Err(NoHome),
        };
        Ok(
            match self {
                Place::Config => join(home, ".config/codex-rate-proxy/config.ini"),
                Place::Users => join(home, ".config/codex-rate-proxy/users"),
                Place::Share => join(home, ".local/share/codex-rate-proxy"),
                Place::State => join(home, ".local/state/codex-rate-proxy"),
            },
        )
    }
}

/// A path that should be a directory of the program's own is something else.
#[derive(Clone, Copy, Debug, PartialEq, Eq, Structural)]
pub struct NotADirectory;

impl NotADirectory {
    /// What the error says.
    pub open spec fn text(self) -> Seq<char> {
        "runtime path must be a real directory"@
    }

    /// What the error says.
    pub fn message(&self) -> (r: String)
        ensures
            r@ == self.text(),
    {
        "runtime path must be a real directory".to_owned()
    }
}

/// The permissions of a directory of the program's own: its owner alone.
pub const PRIVATE_DIRECTORY: u32 = 0o700;

/// The permissions of a file of the program's own: its owner alone.
pub const PRIVATE_FILE: u32 = 0o600;

/// Accepts a real directory and gives the permissions that it gets. A link to a
/// directory is none.
pub fn private_dir(is_dir: bool, is_symlink: bool) -> (r: Result<u32, NotADirectory>)
    ensures
        match r {
            Ok(mode) => is_dir && !is_symlink && mode == PRIVATE_DIRECTORY,
            Err(_) => !is_dir || is_symlink,
        },
{
    if !is_dir || is_symlink {
        Err(NotADirectory)
    } else {
        Ok(PRIVATE_DIRECTORY)
    }
}

/// A relative path stands behind the other one with exactly one slash between
/// them, or alone where there is no other; an absolute path stands for itself.
pub proof fn law_paths_are_joined_by_one_slash(base: Seq<u8>, relative: Seq<u8>)
    ensures
        relative.len() > 0 && relative[0] == 47 ==> joined_path(base, relative) == relative,
        relative.len() == 0 || relative[0] != 47 ==> {
            &&& base.len() > 0 && base.last() != 47 ==> joined_path(base, relative) == base + seq![
                47u8,
            ] + relative
            &&& base.len() > 0 && base.last() == 47 ==> joined_path(base, relative) == base
                + relative
            &&& base.len() == 0 ==> joined_path(base, relative) == relative
        },
{
    if base.len() == 0 {
        assert(base + relative =~= relative);
    }
}

/// Different relative paths behind one path stay different.
pub proof fn law_joined_paths_differ(base: Seq<u8>, relative: Seq<u8>, other: Seq<u8>)
    requires
        relative.len() == 0 || relative[0] != 47,
        other.len() == 0 || other[0] != 47,
        joined_path(base, relative) == joined_path(base, other),
    ensures
        relative == other,
{
    let a = joined_path(base, relative);
    let b = joined_path(base, other);
    let n = if base.len() > 0 && base.last() != 47 {
        base.len() + 1int
    } else {
        base.len() as int
    };
    assert(a.skip(n) =~= relative);
    assert(b.skip(n) =~= other);
}

/// What the program keeps stands where users expect it below the home directory.
pub proof fn law_places_are_below_home(home: Seq<u8>)
    requires
        home.len() > 0,
        home.last() != 47,
    ensures
        Place::Config.path_of(home) == home + seq![47u8] + encode_utf8(
            ".config/codex-rate-proxy/config.ini"@,
        ),
        Place::Users.path_of(home) == home + seq![47u8] + encode_utf8(
            ".config/codex-rate-proxy/users"@,
        ),
        Place::Share.path_of(home) == home + seq![47u8] + encode_utf8(
            ".local/share/codex-rate-proxy"@,
        ),
        Place::State.path_of(home) == home + seq![47u8] + encode_utf8(
            ".local/state/codex-rate-proxy"@,
        ),
{
    lemma_begins_with_a_dot(Place::Config);
    lemma_begins_with_a_dot(Place::Users);
    lemma_begins_with_a_dot(Place::Share);
    lemma_begins_with_a_dot(Place::State);
}

proof fn lemma_begins_with_a_dot(place: Place)
    ensures
        encode_utf8(place.below_home()).len() > 0,
        encode_utf8(place.below_home())[0] == 46,
{
    reveal_strlit(".config/codex-rate-proxy/config.ini");
    reveal_strlit(".config/codex-rate-proxy/users");
    reveal_strlit(".local/share/codex-rate-proxy");
    reveal_strlit(".local/state/codex-rate-proxy");
    lemma_ascii_bytes(place.below_home());
}

} // verus!
