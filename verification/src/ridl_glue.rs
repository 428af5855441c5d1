//! Build-time rules that tie an application to its RIDL outputs: the
//! application id derived from the package name, the choice of the root
//! package, and the configuration file's version.

use crate::ridl::parser::chars_of;
use vstd::prelude::*;

verus! {

/// Calls `String::from_iter` on a vector of characters; as std documents,
/// the string holds those characters in order.
#[verifier::external_body]
pub(crate) fn string_from_chars(chars: Vec<char>) -> (r: String)
    ensures
        r@ == chars@,
{
    String::from_iter(chars)
}

/// Whether a character is kept in an application id: an ASCII letter or
/// digit, or `_`.
pub open spec fn app_id_char_kept(c: char) -> bool {
    ('a' <= c <= 'z') || ('A' <= c <= 'Z') || ('0' <= c <= '9') || c == '_'
}

/// The application id of a package name: every character that is not an
/// ASCII letter, digit or `_` becomes `_`.
pub open spec fn spec_app_id(s: Seq<char>) -> Seq<char> {
    s.map_values(|c: char| if app_id_char_kept(c) { c } else { '_' })
}

/// The application id of a package name.
pub fn normalize_app_id(s: &str) -> (r: String)
    ensures
        r@ == spec_app_id(s@),
{
    let mut out: Vec<char> = Vec::new();
    let ghost src = s@;
    for c in iter: s.chars()
        invariant
            iter.seq() == src,
            out@ == spec_app_id(src.take(iter.index() as int)),
    {
        let kept = ('a' <= c && c <= 'z') || ('A' <= c && c <= 'Z') || ('0' <= c && c <= '9') || c
            == '_';
        proof {
            assert(src.take(iter.index() + 1) =~= src.take(iter.index() as int).push(c));
        }
        if kept {
            out.push(c);
        } else {
            out.push('_');
        }
        proof {
            assert(out@ =~= spec_app_id(src.take(iter.index() + 1)));
        }
    }
    proof {
        assert(src.take(src.len() as int) =~= src);
    }
    string_from_chars(out)
}

/// A package of a workspace, by name and manifest path.
#[derive(Clone, Debug)]
pub struct CargoPackage {
    /// The package name.
    pub name: String,
    /// The canonical path of its manifest.
    pub manifest_path: String,
}

/// The segments of a path between `/` separators, `cur` being the segment
/// read so far.
pub open spec fn path_segments(s: Seq<char>, cur: Seq<char>) -> Seq<Seq<char>>
    decreases s.len(),
{
    if s.len() == 0 {
        seq![cur]
    } else if s[0] == '/' {
        seq![cur] + path_segments(s.drop_first(), Seq::empty())
    } else {
        path_segments(s.drop_first(), cur.push(s[0]))
    }
}

/// Whether the segment at position `i` names a component of the path:
/// empty segments (from repeated or trailing separators) never do, and `.`
/// only at the start.
pub open spec fn is_component(i: int, seg: Seq<char>) -> bool {
    seg.len() > 0 && (i == 0 || seg != seq!['.'])
}

/// The segments that name components, in order.
pub open spec fn kept_segments(segs: Seq<Seq<char>>) -> Seq<Seq<char>>
    decreases segs.len(),
{
    if segs.len() == 0 {
        Seq::empty()
    } else {
        let rest = kept_segments(segs.drop_last());
        if is_component(segs.len() - 1, segs.last()) {
            rest.push(segs.last())
        } else {
            rest
        }
    }
}

/// The components of a Unix path as `std::path::Path` reads them: the root
/// (written `/`) when the path starts with a separator, then the segments
/// between separators, without empty ones and without `.` past the start.
pub open spec fn path_components(s: Seq<char>) -> Seq<Seq<char>> {
    (if s.len() > 0 && s[0] == '/' {
        seq![seq!['/']]
    } else {
        Seq::empty()
    }) + kept_segments(path_segments(s, Seq::empty()))
}

/// Whether two paths are equal as `std::path::Path` compares them: by their
/// components.
pub open spec fn same_path(a: Seq<char>, b: Seq<char>) -> bool {
    path_components(a) == path_components(b)
}

/// The views of a list of character vectors.
pub open spec fn char_vecs_view(v: Seq<Vec<char>>) -> Seq<Seq<char>> {
    v.map_values(|x: Vec<char>| x@)
}

/// Whether the segment at position `index` names a component.
fn segment_is_component(index: usize, seg: &Vec<char>) -> (b: bool)
    ensures
        b == is_component(index as int, seg@),
{
    let b = seg.len() > 0 && (index == 0 || !(seg.len() == 1 && seg[0] == '.'));
    proof {
        if seg@.len() == 1 {
            if seg@[0] == '.' {
                assert(seg@ =~= seq!['.']);
            } else {
                assert(seq!['.'][0] == '.');
            }
        } else {
            assert(seg@.len() != seq!['.'].len());
        }
    }
    b
}

/// The components of a path.
fn components_of(text: &String) -> (r: Vec<Vec<char>>)
    ensures
        char_vecs_view(r@) == path_components(text@),
{
    let s = chars_of(text.as_str());
    let n = s.len();
    let mut out: Vec<Vec<char>> = Vec::new();
    if n > 0 && s[0] == '/' {
        let mut root: Vec<char> = Vec::new();
        root.push('/');
        out.push(root);
    }
    let ghost head = char_vecs_view(out@);
    assert(head == (if s@.len() > 0 && s@[0] == '/' {
        seq![seq!['/']]
    } else {
        Seq::<Seq<char>>::empty()
    }));
    let mut cur: Vec<char> = Vec::new();
    let mut index: usize = 0;
    let ghost mut done: Seq<Seq<char>> = Seq::empty();
    let mut i: usize = 0;
    assert(s@.subrange(0, n as int) =~= s@);
    while i < n
        invariant
            n == s@.len(),
            i <= n,
            index == done.len(),
            index <= i,
            path_segments(s@, Seq::empty()) == done + path_segments(s@.subrange(i as int, n as int), cur@),
            char_vecs_view(out@) == head + kept_segments(done),
        decreases n - i,
    {
        let c = s[i];
        let ghost rest = s@.subrange(i as int, n as int);
        assert(rest.drop_first() =~= s@.subrange(i + 1, n as int));
        if c == '/' {
            let seg = cur;
            cur = Vec::new();
            proof {
                assert(done.push(seg@).drop_last() =~= done);
                assert(done + (seq![seg@] + path_segments(s@.subrange(i + 1, n as int), Seq::empty()))
                    =~= done.push(seg@) + path_segments(s@.subrange(i + 1, n as int), Seq::empty()));
            }
            let keep = segment_is_component(index, &seg);
            let ghost before = out@;
            if keep {
                out.push(seg);
                assert(char_vecs_view(out@) =~= char_vecs_view(before).push(seg@));
            }
            proof {
                done = done.push(seg@);
            }
            index = index + 1;
        } else {
            cur.push(c);
        }
        i = i + 1;
    }
    assert(s@.subrange(n as int, n as int) =~= Seq::<char>::empty());
    let seg = cur;
    let keep = segment_is_component(index, &seg);
    assert(done.push(seg@).drop_last() =~= done);
    assert(done + seq![seg@] =~= done.push(seg@));
    let ghost before = out@;
    if keep {
        out.push(seg);
        assert(char_vecs_view(out@) =~= char_vecs_view(before).push(seg@));
    }
    out
}

/// Whether two character vectors hold the same characters.
fn same_chars(a: &Vec<char>, b: &Vec<char>) -> (r: bool)
    ensures
        r == (a@ == b@),
{
    if a.len() != b.len() {
        return false;
    }
    let mut i: usize = 0;
    while i < a.len()
        invariant
            a@.len() == b@.len(),
            i <= a@.len(),
            forall|k: int| 0 <= k < i ==> a@[k] == b@[k],
        decreases a@.len() - i,
    {
        if a[i] != b[i] {
            return false;
        }
        i = i + 1;
    }
    assert(a@ =~= b@);
    true
}

/// Whether two lists of components are equal.
fn same_components(a: &Vec<Vec<char>>, b: &Vec<Vec<char>>) -> (r: bool)
    ensures
        r == (char_vecs_view(a@) == char_vecs_view(b@)),
{
    if a.len() != b.len() {
        assert(char_vecs_view(a@).len() != char_vecs_view(b@).len());
        return false;
    }
    let mut i: usize = 0;
    while i < a.len()
        invariant
            a@.len() == b@.len(),
            i <= a@.len(),
            forall|k: int| 0 <= k < i ==> a@[k]@ == b@[k]@,
        decreases a@.len() - i,
    {
        if !same_chars(&a[i], &b[i]) {
            assert(char_vecs_view(a@)[i as int] != char_vecs_view(b@)[i as int]);
            return false;
        }
        i = i + 1;
    }
    assert(char_vecs_view(a@) =~= char_vecs_view(b@));
    true
}

/// Whether two paths are equal, component by component.
pub fn paths_equal(a: &String, b: &String) -> (r: bool)
    ensures
        r == same_path(a@, b@),
{
    let ca = components_of(a);
    let cb = components_of(b);
    same_components(&ca, &cb)
}

/// The first package whose manifest path is `want`, compared component by
/// component as paths are, if any.
pub fn select_root_package(packages: &Vec<CargoPackage>, want: &String) -> (r: Option<CargoPackage>)
    ensures
        r matches Some(p) ==> exists|i: int|
            0 <= i < packages@.len() && same_path(packages@[i].manifest_path@, want@) && p.name@
                == packages@[i].name@ && p.manifest_path@ == packages@[i].manifest_path@ && forall|j: int|
                0 <= j < i ==> !same_path(packages@[j].manifest_path@, want@),
        r is None ==> forall|j: int| 0 <= j < packages@.len() ==> !same_path(packages@[j].manifest_path@, want@),
{
    let n = packages.len();
    let mut i: usize = 0;
    while i < n
        invariant
            n == packages@.len(),
            i <= n,
            forall|j: int| 0 <= j < i ==> !same_path(packages@[j].manifest_path@, want@),
        decreases n - i,
    {
        if paths_equal(&packages[i].manifest_path, want) {
            let p = CargoPackage {
                name: packages[i].name.clone(),
                manifest_path: packages[i].manifest_path.clone(),
            };
            return Some(p);
        }
        i = i + 1;
    }
    None
}

/// The RIDL configuration of an application (`mquickjs.ridl.toml`).
#[derive(Clone, Debug)]
pub struct Config {
    /// Where the configuration file is.
    pub path: String,
    /// The directory of the root manifest.
    pub root_dir: String,
    /// Where build outputs go, if set.
    pub target_dir: Option<String>,
    /// The application id, if set.
    pub app_id: Option<String>,
}

/// Why a configuration file is refused.
#[derive(Clone, Debug, PartialEq, Eq, Structural)]
pub enum ConfigError {
    /// The file declares a format version other than 1.
    UnsupportedVersion(u32),
}

/// The only configuration format version understood.
pub const CONFIG_VERSION: u32 = 1;

/// Accepts a configuration of format version 1 and refuses any other.
pub fn check_config_version(version: u32) -> (r: Result<(), ConfigError>)
    ensures
        r is Ok <==> version == CONFIG_VERSION,
        r is Err ==> r == Err::<(), ConfigError>(ConfigError::UnsupportedVersion(version)),
{
    if version != CONFIG_VERSION {
        Err(ConfigError::UnsupportedVersion(version))
    } else {
        Ok(())
    }
}

/// An application id is normal already: normalizing it again changes
/// nothing, it is as long as the package name, and it holds only ASCII
/// letters, digits and `_`.
pub proof fn law_app_id_is_normal(s: Seq<char>)
    ensures
        spec_app_id(spec_app_id(s)) == spec_app_id(s),
        spec_app_id(s).len() == s.len(),
        forall|k: int| 0 <= k < s.len() ==> app_id_char_kept(#[trigger] spec_app_id(s)[k]),
{
    assert(spec_app_id(spec_app_id(s)) =~= spec_app_id(s));
}

/// The application id: the override from the environment if set, else the
/// one of the configuration file, else the root package's name normalized.
pub open spec fn spec_choose_app_id(
    env_app_id: Option<Seq<char>>,
    config_app_id: Option<Seq<char>>,
    package_name: Seq<char>,
) -> Seq<char> {
    match env_app_id {
        Some(a) => a,
        None => match config_app_id {
            Some(a) => a,
            None => spec_app_id(package_name),
        },
    }
}

pub open spec fn opt_view(o: Option<String>) -> Option<Seq<char>> {
    match o {
        Some(s) => Some(s@),
        None => None,
    }
}

/// Chooses the application id by priority: environment, configuration file,
/// normalized package name.
pub fn choose_app_id(env_app_id: Option<String>, config_app_id: Option<String>, package_name: &str) -> (r:
    String)
    ensures
        r@ == spec_choose_app_id(opt_view(env_app_id), opt_view(config_app_id), package_name@),
{
    match env_app_id {
        Some(a) => a,
        None => match config_app_id {
            Some(a) => a,
            None => normalize_app_id(package_name),
        },
    }
}

/// Chooses the target directory by priority: environment, configuration
/// file; `None` when neither sets it and cargo's metadata must tell.
pub fn choose_target_dir(env_dir: Option<String>, config_dir: Option<String>) -> (r: Option<String>)
    ensures
        opt_view(r) == match opt_view(env_dir) {
            Some(d) => Some(d),
            None => opt_view(config_dir),
        },
{
    match env_dir {
        Some(d) => Some(d),
        None => config_dir,
    }
}

/// Where the root manifest is named.
pub enum ManifestSource {
    /// The path the environment gives.
    Env(String),
    /// The directory of the configuration file, which holds `Cargo.toml`.
    ConfigRoot(String),
}

/// Chooses the root manifest by priority: environment, then the directory
/// of the configuration file; `None` when neither is there.
pub fn choose_manifest(env_manifest: Option<String>, config_root: Option<String>) -> (r: Option<
    ManifestSource,
>)
    ensures
        match r {
            Some(ManifestSource::Env(p)) => env_manifest == Some(p),
            Some(ManifestSource::ConfigRoot(d)) => env_manifest is None && config_root == Some(d),
            None => env_manifest is None && config_root is None,
        },
{
    match env_manifest {
        Some(p) => Some(ManifestSource::Env(p)),
        None => match config_root {
            Some(d) => Some(ManifestSource::ConfigRoot(d)),
            None => None,
        },
    }
}

/// Whether a string is the given text.
pub(crate) fn string_is(s: &String, text: &str) -> (r: bool)
    ensures
        r == (s@ == text@),
{
    let a = s.as_str();
    let n = a.unicode_len();
    if n != text.unicode_len() {
        return false;
    }
    let mut k: usize = 0;
    while k < n
        invariant
            n == a@.len(),
            n == text@.len(),
            a@ == s@,
            k <= n,
            forall|j: int| 0 <= j < k ==> a@[j] == text@[j],
        decreases n - k,
    {
        if a.get_char(k) != text.get_char(k) {
            return false;
        }
        k = k + 1;
    }
    assert(a@ =~= text@);
    true
}

/// The build mode directory of a cargo profile: `release` for the release
/// profile, `debug` for any other or none.
pub fn build_mode(profile: &Option<String>) -> (r: &'static str)
    ensures
        r@ == (if profile matches Some(p) && p@ == "release"@ {
            "release"@
        } else {
            "debug"@
        }),
{
    match profile {
        Some(p) => if string_is(p, "release") {
            "release"
        } else {
            "debug"
        },
        None => "debug",
    }
}

} // verus!
