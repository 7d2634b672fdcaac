//! The list of funds that the user follows, and where it is kept.
use vstd::prelude::*;

verus! {

/// The user's configuration: the codes of the funds to list.
pub struct Config {
    pub funds: Vec<String>,
}

/// `p` names an absolute path.
pub open spec fn is_absolute(p: Seq<char>) -> bool {
    p.len() > 0 && p[0] == '/'
}

/// Appends the relative or absolute path `rel` to `base` as
/// `std::path::PathBuf::push` documents it on Unix: an absolute `rel`
/// replaces `base`; otherwise a separator is put between them unless `base`
/// is empty or already ends with one.
pub open spec fn spec_join(base: Seq<char>, rel: Seq<char>) -> Seq<char> {
    if is_absolute(rel) {
        rel
    } else if base.len() == 0 || base.last() == '/' {
        base + rel
    } else {
        base + seq!['/'] + rel
    }
}

/// The directory that holds the configuration under the home directory
/// `home`, or under the working directory when there is no home.
pub open spec fn spec_config_dir(home: Option<Seq<char>>) -> Seq<char> {
    let base = match home {
        Some(h) => h,
        None => "./"@,
    };
    spec_join(base, ".config/fds"@)
}

/// The configuration file in the directory `dir`.
pub open spec fn spec_config_file(dir: Seq<char>) -> Seq<char> {
    spec_join(dir, "config.toml"@)
}

/// An absolute path replaces the base; a relative one is appended to it
/// whole, after the base and at most one added separator.
pub proof fn lemma_join_shape(base: Seq<char>, rel: Seq<char>)
    ensures
        is_absolute(rel) ==> spec_join(base, rel) == rel,
        !is_absolute(rel) ==> {
            let j = spec_join(base, rel);
            &&& j.subrange(0, base.len() as int) == base
            &&& j.subrange(j.len() - rel.len(), j.len() as int) == rel
            &&& base.len() + rel.len() <= j.len() <= base.len() + rel.len() + 1
            &&& (j.len() == base.len() + rel.len() + 1 ==> j[base.len() as int] == '/')
        },
{
    if !is_absolute(rel) {
        let j = spec_join(base, rel);
        assert(j.subrange(0, base.len() as int) =~= base);
        assert(j.subrange(j.len() - rel.len(), j.len() as int) =~= rel);
    }
}

/// Joins two paths as `spec_join` says.
pub fn join_path(base: &str, rel: &str) -> (p: String)
    ensures
        p@ == spec_join(base@, rel@),
{
    if !rel.is_empty() && rel.get_char(0) == '/' {
        String::from_str(rel)
    } else if base.is_empty() || base.get_char(base.unicode_len() - 1) == '/' {
        let mut p = String::from_str(base);
        p.append(rel);
        p
    } else {
        let mut p = String::from_str(base);
        proof {
            reveal_strlit("/");
        }
        p.append("/");
        p.append(rel);
        p
    }
}

impl Config {
    /// The default place of the configuration: the directory to create and
    /// the file in it, under the home directory `home` (`./` when there is
    /// none).
    pub fn default_config_path(home: Option<&str>) -> (r: (String, String))
        ensures
            r.0@ == spec_config_dir(
                match home {
                    Some(h) => Some(h@),
                    None => None,
                },
            ),
            r.1@ == spec_config_file(r.0@),
    {
        let dir = match home {
            Some(h) => join_path(h, ".config/fds"),
            None => join_path("./", ".config/fds"),
        };
        let file = join_path(dir.as_str(), "config.toml");
        (dir, file)
    }
}

} // verus!
