//! Where the clipboard keeps its state, and how paths are put together.
use vstd::prelude::*;
use crate::error::Error;
use crate::text::str_eq;

verus! {

/// The qualifier handed to the platform's directory lookup.
pub const QUALIFIER: &'static str = "com";
/// The organization handed to the platform's directory lookup.
pub const ORGANIZATION: &'static str = "fynnsu";
/// The application name handed to the platform's directory lookup.
pub const APPLICATION: &'static str = "savepath";
/// The name of the file, inside the application's directory, that holds the clipboard.
pub const CONFIG_FILE: &'static str = "config.ron";

/// `name` resolved against the directory `base`, with `/` as separator: an
/// absolute `name` stands for itself; otherwise a separator is put between
/// the two unless `base` is empty or already ends in one.
pub open spec fn path_joined(base: Seq<char>, name: Seq<char>) -> Seq<char> {
    if name.len() > 0 && name[0] == '/' {
        name
    } else if base.len() > 0 && base.last() != '/' {
        base + seq!['/'] + name
    } else {
        base + name
    }
}

/// An absolute name stands for itself. Any other name is kept whole at the
/// end of the joined path, after the directory `base` unchanged and at most
/// one added separator (one exactly where `base` is not empty and does not
/// already end in `/`).
pub proof fn lemma_join_keeps_name(base: Seq<char>, name: Seq<char>)
    ensures
        name.len() > 0 && name[0] == '/' ==> path_joined(base, name) == name,
        !(name.len() > 0 && name[0] == '/') ==> {
            let r = path_joined(base, name);
            let sep_len: int = if base.len() > 0 && base[base.len() - 1] != '/' { 1 } else { 0 };
            &&& r.len() == base.len() + sep_len + name.len()
            &&& r.take(base.len() as int) == base
            &&& r.skip(r.len() - name.len()) == name
            &&& sep_len == 1 ==> r[base.len() as int] == '/'
        },
{
    if !(name.len() > 0 && name[0] == '/') {
        let r = path_joined(base, name);
        if base.len() > 0 && base.last() != '/' {
            assert(r.take(base.len() as int) =~= base);
            assert(r.skip(r.len() - name.len()) =~= name);
        } else {
            assert(r.take(base.len() as int) =~= base);
            assert(r.skip(r.len() - name.len()) =~= name);
        }
    }
}

/// Joins `name` to the directory `base`, as `Path::join` does with `/`
/// separated paths.
pub fn join_path(base: &str, name: &str) -> (r: String)
    ensures
        r@ == path_joined(base@, name@),
{
    proof {
        reveal_strlit("/");
    }
    let nl = name.unicode_len();
    if nl > 0 && name.get_char(0) == '/' {
        return String::from_str(name);
    }
    let bl = base.unicode_len();
    if bl > 0 && base.get_char(bl - 1) != '/' {
        String::from_str(base).concat("/").concat(name)
    } else {
        String::from_str(base).concat(name)
    }
}

/// Whether a piece between separators names a component: it is not empty
/// and not `.`.
pub open spec fn kept_part(p: Seq<char>) -> bool {
    p.len() > 0 && p != seq!['.']
}

/// The components of the rest `s` of a `/`-separated path, where `cur` is
/// the piece read so far since the last separator.
pub open spec fn parts_from(s: Seq<char>, cur: Seq<char>) -> Seq<Seq<char>>
    decreases s.len(),
{
    if s.len() == 0 {
        if kept_part(cur) { seq![cur] } else { Seq::empty() }
    } else if s[0] == '/' {
        (if kept_part(cur) { seq![cur] } else { Seq::empty() }) + parts_from(s.skip(1), Seq::empty())
    } else {
        parts_from(s.skip(1), cur.push(s[0]))
    }
}

/// The named components of a `/`-separated path, in order: the pieces between
/// separators, leaving out empty pieces and `.`.
pub open spec fn path_parts(s: Seq<char>) -> Seq<Seq<char>> {
    parts_from(s, Seq::empty())
}

/// Whether the path starts at the root.
pub open spec fn has_root(s: Seq<char>) -> bool {
    s.len() > 0 && s[0] == '/'
}

/// Whether a relative path starts with the component `.` (`.` alone, or
/// followed by a separator).
pub open spec fn leading_cur_dir(s: Seq<char>) -> bool {
    !has_root(s) && s.len() > 0 && s[0] == '.' && (s.len() == 1 || s[1] == '/')
}

/// Whether two `/`-separated paths have the same components, as `Path`
/// equality decides: repeated separators, a trailing separator and `.` pieces
/// (but a leading `.` of a relative path) make no difference.
pub open spec fn same_components(a: Seq<char>, b: Seq<char>) -> bool {
    &&& has_root(a) == has_root(b)
    &&& leading_cur_dir(a) == leading_cur_dir(b)
    &&& path_parts(a) == path_parts(b)
}

fn is_kept_part(p: &str) -> (r: bool)
    ensures
        r == kept_part(p@),
{
    proof {
        reveal_strlit(".");
    }
    assert("."@ =~= seq!['.']);
    p.unicode_len() > 0 && !str_eq(p, ".")
}

/// The named components of the path `s`.
pub fn components(s: &str) -> (r: Vec<String>)
    ensures
        r.deep_view() == path_parts(s@),
{
    let n = s.unicode_len();
    let mut parts: Vec<String> = Vec::new();
    let mut cur = String::new();
    let mut i: usize = 0;
    assert(s@.skip(0) =~= s@);
    assert(parts.deep_view() + parts_from(s@, cur@) =~= path_parts(s@));
    while i < n
        invariant
            n == s@.len(),
            i <= n,
            parts.deep_view() + parts_from(s@.skip(i as int), cur@) == path_parts(s@),
        decreases n - i,
    {
        let ghost rest = s@.skip(i as int);
        assert(rest.skip(1) =~= s@.skip(i + 1));
        let c = s.get_char(i);
        if c == '/' {
            if is_kept_part(cur.as_str()) {
                let ghost prev = parts.deep_view();
                let ghost piece = cur@;
                parts.push(cur);
                assert(parts.deep_view() =~= prev.push(piece));
                assert(prev + (seq![piece] + parts_from(s@.skip(i + 1), Seq::empty()))
                    =~= parts.deep_view() + parts_from(s@.skip(i + 1), Seq::empty()));
            } else {
                assert(parts.deep_view() + (Seq::<Seq<char>>::empty() + parts_from(s@.skip(i + 1), Seq::empty()))
                    =~= parts.deep_view() + parts_from(s@.skip(i + 1), Seq::empty()));
            }
            cur = String::new();
        } else {
            let piece = s.substring_char(i, i + 1);
            assert(piece@ =~= seq![c]);
            let ghost before = cur@;
            cur.append(piece);
            assert(cur@ =~= before.push(c));
        }
        i = i + 1;
    }
    assert(s@.skip(n as int) =~= Seq::<char>::empty());
    if is_kept_part(cur.as_str()) {
        let ghost prev = parts.deep_view();
        let ghost piece = cur@;
        parts.push(cur);
        assert(parts.deep_view() =~= prev + seq![piece]);
    } else {
        assert(parts.deep_view() + Seq::<Seq<char>>::empty() =~= parts.deep_view());
    }
    parts
}

fn starts_at_root(s: &str) -> (r: bool)
    ensures
        r == has_root(s@),
{
    s.unicode_len() > 0 && s.get_char(0) == '/'
}

fn starts_with_cur_dir(s: &str) -> (r: bool)
    ensures
        r == leading_cur_dir(s@),
{
    let n = s.unicode_len();
    if n == 0 {
        return false;
    }
    let c0 = s.get_char(0);
    if c0 != '.' {
        return false;
    }
    n == 1 || s.get_char(1) == '/'
}

/// Whether the paths `a` and `b` have the same components, as `Path`
/// equality decides for `/`-separated paths.
pub fn same_path(a: &str, b: &str) -> (r: bool)
    ensures
        r == same_components(a@, b@),
{
    if starts_at_root(a) != starts_at_root(b) || starts_with_cur_dir(a) != starts_with_cur_dir(b) {
        return false;
    }
    let pa = components(a);
    let pb = components(b);
    if pa.len() != pb.len() {
        assert(pa.deep_view().len() != pb.deep_view().len());
        return false;
    }
    let n = pa.len();
    let mut i: usize = 0;
    while i < n
        invariant
            n == pa.len(),
            n == pb.len(),
            i <= n,
            pa.deep_view() == path_parts(a@),
            pb.deep_view() == path_parts(b@),
            forall|j: int| 0 <= j < i ==> pa[j]@ == pb[j]@,
        decreases n - i,
    {
        if !str_eq(pa[i].as_str(), pb[i].as_str()) {
            assert(pa.deep_view()[i as int] == pa[i as int]@);
            assert(pb.deep_view()[i as int] == pb[i as int]@);
            assert(pa.deep_view()[i as int] != pb.deep_view()[i as int]);
            return false;
        }
        i = i + 1;
    }
    assert(pa.deep_view() =~= pb.deep_view());
    true
}

/// Asks `directories::ProjectDirs::from` for the application's directories and
/// hands back the cache directory as text, or `None` where that call finds no
/// home directory. What comes back depends on the environment of the process
/// (`$HOME`, `$XDG_CACHE_HOME`, the platform), so nothing is stated of it.
/// The lookup is made for this application only: its qualifier, organization
/// and name are the library's constants.
#[verifier::external_body]
fn project_cache_dir(qualifier: &str, organization: &str, application: &str) -> (r: Option<String>)
    requires
        qualifier@ == QUALIFIER@,
        organization@ == ORGANIZATION@,
        application@ == APPLICATION@,
{
    match directories::ProjectDirs::from(qualifier, organization, application) {
        Some(dirs) => Some(dirs.cache_dir().to_string_lossy().into_owned()),
        None => None,
    }
}

/// The application's data directory given what the directory lookup found:
/// the directory found, or an error where the lookup found none.
pub fn config_dir_from(found: Option<String>) -> (r: Result<String, Error>)
    ensures
        match found {
            Some(d) => r matches Ok(p) && p@ == d@,
            None => r == Err::<String, Error>(Error::ApplicationDirNotAccessible),
        },
{
    match found {
        Some(dir) => Ok(dir),
        None => Err(Error::ApplicationDirNotAccessible),
    }
}

/// The application's data directory (the cache directory that
/// `project_cache_dir` finds for this application), or an error where the
/// platform has none. Which of the two comes back depends on the environment;
/// `config_dir_from` states what is made of each outcome.
fn get_config_dir() -> (r: Result<String, Error>)
    ensures
        r is Err ==> r == Err::<String, Error>(Error::ApplicationDirNotAccessible),
{
    config_dir_from(project_cache_dir(QUALIFIER, ORGANIZATION, APPLICATION))
}

/// The path of the clipboard's file inside the data directory `dir`, where
/// one was found.
pub fn config_path_in(dir: Option<String>) -> (r: Result<String, Error>)
    ensures
        match dir {
            Some(d) => r matches Ok(p) && p@ == path_joined(d@, CONFIG_FILE@),
            None => r == Err::<String, Error>(Error::ApplicationDirNotAccessible),
        },
{
    match dir {
        Some(d) => Ok(join_path(d.as_str(), CONFIG_FILE)),
        None => Err(Error::ApplicationDirNotAccessible),
    }
}

/// The path of the file that holds the clipboard: `config.ron` inside the
/// application's cache directory.
pub fn get_config_path() -> (r: Result<String, Error>)
    ensures
        match r {
            Ok(p) => exists|d: Seq<char>| p@ == path_joined(d, CONFIG_FILE@),
            Err(e) => e == Error::ApplicationDirNotAccessible,
        },
{
    match get_config_dir() {
        Ok(dir) => config_path_in(Some(dir)),
        Err(e) => Err(e),
    }
}

} // verus!
