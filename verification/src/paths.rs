//! Where FastsApp keeps its files.
//!
//! Configuration, session state, and caches use separate standard platform
//! directories. Clearing a cache does not remove device keys. Paths are
//! held as text; the standard directories come from the platform.

use vstd::prelude::*;

use crate::text::{chars_of, from_chars, is_ascii_alphanumeric, push_str};

verus! {

/// A path with a name appended, as the target platform's
/// `std::path::Path::join` writes it.
pub uninterp spec fn path_join(base: Seq<char>, name: Seq<char>) -> Seq<char>;

/// A character that separates the parts of a path on some platform.
pub open spec fn separator(c: char) -> bool {
    c == '/' || c == '\\'
}

/// A name of one path component: not empty, and with no separator and no
/// drive colon in it.
pub open spec fn plain_name(name: Seq<char>) -> bool {
    &&& name.len() > 0
    &&& forall|i: int| 0 <= i < name.len() ==> !separator(#[trigger] name[i]) && name[i] != ':'
}

/// A path that is `base`, then at most one separator, then `name`.
pub open spec fn joined_with(base: Seq<char>, sep: Seq<char>, name: Seq<char>, path: Seq<char>) -> bool {
    &&& sep.len() <= 1
    &&& sep.len() == 1 ==> separator(sep[0])
    &&& path == base + sep + name
}

/// A path that adjoins `name` to `base`.
pub open spec fn joined_after(base: Seq<char>, name: Seq<char>, path: Seq<char>) -> bool {
    exists|sep: Seq<char>| #[trigger] joined_with(base, sep, name, path)
}

/// `Path::join`, written back as text. For a base and a name that are
/// text the joined path is text as well, so nothing is lost in the
/// conversion; the result is the one named for the two arguments. A
/// relative component is adjoined after the base: a separator goes
/// between them unless the base ends in one, is empty, or is a bare drive
/// (`C:`). Only a base with a verbatim prefix (`\\?\`), which Windows
/// rewrites, is left out of that statement.
#[verifier::external_body]
fn join(base: &str, name: &str) -> (r: String)
    ensures
        r@ == path_join(base@, name@),
        plain_name(name@) && !base@.contains('?') ==> joined_after(base@, name@, r@),
{
    std::path::Path::new(base).join(name).to_string_lossy().into_owned()
}

#[derive(Clone, Debug, PartialEq)]
pub struct AppDirs {
    pub config: String,
    pub state: String,
    pub cache: String,
}

/// The file name stem of a cached profile picture: the id with every
/// character that is not an ASCII letter or digit made an underscore.
pub open spec fn avatar_stem(id: Seq<char>) -> Seq<char>
    decreases id.len(),
{
    if id.len() == 0 {
        Seq::empty()
    } else {
        avatar_stem(id.drop_last()).push(
            if is_ascii_alphanumeric(id.last()) {
                id.last()
            } else {
                '_'
            },
        )
    }
}

/// The file name of a cached profile picture.
pub open spec fn avatar_name(id: Seq<char>, full: bool) -> Seq<char> {
    avatar_stem(id) + (if full {
        "-full"@
    } else {
        Seq::empty()
    }) + ".jpg"@
}

impl AppDirs {
    /// Places all data under one directory for tests and temporary runs.
    pub fn under(root: &str) -> (r: Self)
        ensures
            r.config@ == path_join(root@, "config"@),
            r.state@ == path_join(root@, "state"@),
            r.cache@ == path_join(root@, "cache"@),
            !root@.contains('?') ==> joined_after(root@, "config"@, r.config@) && joined_after(
                root@,
                "state"@,
                r.state@,
            ) && joined_after(root@, "cache"@, r.cache@),
    {
        proof {
            reveal_strlit("config");
            reveal_strlit("state");
            reveal_strlit("cache");
        }
        AppDirs { config: join(root, "config"), state: join(root, "state"), cache: join(root, "cache") }
    }

    pub fn settings_file(&self) -> (r: String)
        ensures
            r@ == path_join(self.config@, "settings.json"@),
    {
        join(self.config.as_str(), "settings.json")
    }

    /// whatsapp-rust device identity, Signal sessions, and state keys.
    /// Deleting this database unlinks the computer.
    pub fn session_db(&self) -> (r: String)
        ensures
            r@ == path_join(self.state@, "session.db"@),
            !self.state@.contains('?') ==> joined_after(self.state@, "session.db"@, r@),
    {
        proof {
            reveal_strlit("session.db");
        }
        join(self.state.as_str(), "session.db")
    }

    /// Local message archive.
    pub fn archive_db(&self) -> (r: String)
        ensures
            r@ == path_join(self.state@, "archive.db"@),
            !self.state@.contains('?') ==> joined_after(self.state@, "archive.db"@, r@),
    {
        proof {
            reveal_strlit("archive.db");
        }
        join(self.state.as_str(), "archive.db")
    }

    /// Current-run log, replaced at startup.
    pub fn log_file(&self) -> (r: String)
        ensures
            r@ == path_join(self.state@, "fastsapp.log"@),
    {
        join(self.state.as_str(), "fastsapp.log")
    }

    /// Panic log written before process exit.
    pub fn panic_log(&self) -> (r: String)
        ensures
            r@ == path_join(self.state@, "panic.log"@),
    {
        join(self.state.as_str(), "panic.log")
    }

    /// Downloaded attachments keyed by message id.
    pub fn media_cache_dir(&self) -> (r: String)
        ensures
            r@ == path_join(self.cache@, "media"@),
    {
        join(self.cache.as_str(), "media")
    }

    /// Profile pictures keyed by chat.
    pub fn avatar_cache_dir(&self) -> (r: String)
        ensures
            r@ == path_join(self.cache@, "avatars"@),
    {
        join(self.cache.as_str(), "avatars")
    }

    /// Recent phone stickers keyed by file hash.
    pub fn sticker_cache_dir(&self) -> (r: String)
        ensures
            r@ == path_join(self.cache@, "stickers"@),
    {
        join(self.cache.as_str(), "stickers")
    }

    /// Saved stickers keyed by content hash. These are user data, not cache.
    pub fn saved_sticker_dir(&self) -> (r: String)
        ensures
            r@ == path_join(self.state@, "stickers"@),
    {
        join(self.state.as_str(), "stickers")
    }

    /// Cached profile-picture path. `full` selects the info-dialog size.
    pub fn avatar_file(&self, id: &str, full: bool) -> (r: String)
        ensures
            r@ == path_join(path_join(self.cache@, "avatars"@), avatar_name(id@, full)),
    {
        let chars = chars_of(id);
        let mut stem: Vec<char> = Vec::new();
        let mut i: usize = 0;
        while i < chars.len()
            invariant
                chars@ == id@,
                i <= chars@.len(),
                stem@ == avatar_stem(chars@.take(i as int)),
            decreases chars@.len() - i,
        {
            assert(chars@.take(i + 1).drop_last() =~= chars@.take(i as int));
            let c = chars[i];
            let ascii = ('0' <= c && c <= '9') || ('a' <= c && c <= 'z') || ('A' <= c && c <= 'Z');
            stem.push(if ascii { c } else { '_' });
            i = i + 1;
        }
        assert(chars@.take(chars@.len() as int) =~= chars@);
        let mut name = from_chars(stem.as_slice());
        if full {
            push_str(&mut name, "-full");
        } else {
            assert(name@ + Seq::<char>::empty() =~= name@);
        }
        push_str(&mut name, ".jpg");
        let dir = self.avatar_cache_dir();
        join(dir.as_str(), name.as_str())
    }
}

/// Clearing the cache does not remove device keys: with all data under one
/// directory, the cache directory lies beside the state directory, so no
/// file of the state directory (the session database with the device
/// identity among them) lies under the cache.
pub proof fn the_cache_holds_no_device_keys(
    root: Seq<char>,
    state: Seq<char>,
    cache: Seq<char>,
    name: Seq<char>,
    file: Seq<char>,
)
    requires
        joined_after(root, "state"@, state),
        joined_after(root, "cache"@, cache),
        joined_after(state, name, file),
    ensures
        !(cache.len() <= file.len() && file.take(cache.len() as int) == cache),
{
    reveal_strlit("state");
    reveal_strlit("cache");
    let s1 = choose|sep: Seq<char>| #[trigger] joined_with(root, sep, "state"@, state);
    let s3 = choose|sep: Seq<char>| #[trigger] joined_with(root, sep, "cache"@, cache);
    let s2 = choose|sep: Seq<char>| #[trigger] joined_with(state, sep, name, file);
    let n = root.len() as int;
    let j = if s1.len() == 1 && s3.len() == 1 {
        n + 1
    } else {
        n
    };
    assert(file == root + s1 + "state"@ + s2 + name);
    assert(j < cache.len());
    assert(j < file.len());
    assert(file[j] != cache[j]) by {
        if s1.len() == 1 && s3.len() == 1 {
            assert(file[j] == 's');
            assert(cache[j] == 'c');
        } else if s1.len() == 0 && s3.len() == 0 {
            assert(file[j] == 's');
            assert(cache[j] == 'c');
        } else if s1.len() == 0 {
            assert(file[j] == 's');
            assert(cache[j] == s3[0]);
        } else {
            assert(file[j] == s1[0]);
            assert(cache[j] == 'c');
        }
    }
    if cache.len() <= file.len() && file.take(cache.len() as int) == cache {
        assert(file.take(cache.len() as int)[j] == file[j]);
    }
}

} // verus!
