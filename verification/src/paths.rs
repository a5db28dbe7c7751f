//! Working-directory addressing: the ephemeral project's directory is
//! keyed either by the invocation's source location or by a
//! well-distributed hash of the invocation-body text, and the enclosing
//! manifests are picked from the ancestor directories of the invocation's
//! file.

use vstd::prelude::*;
use crate::strutil::{str_eq, hex16_of, fmt_u64_hex16};
use crate::options::MacroOptions;

use std::collections::hash_map::DefaultHasher;
use std::hash::Hash;
use std::hash::Hasher;

verus! {

/// A filesystem path, modeled as its segments in order.
#[derive(Debug)]
pub struct FsPath {
    pub segments: Vec<String>,
}

/// The view of a path: the sequence of its segments' texts.
pub open spec fn path_view(p: &FsPath) -> Seq<Seq<char>> {
    p.segments@.map_values(|x: String| x@)
}

/// Why a path operation failed.
#[derive(Clone, Copy, PartialEq, Eq, Structural, Debug)]
pub enum PathError {
    /// The path has no parent.
    NoParent,
    /// No ancestor directory carries the wanted name.
    NoSuchAncestor,
    /// No manifest file was found in the ancestor directories.
    NoManifest,
}

impl FsPath {
    /// An empty path.
    pub fn empty() -> (r: FsPath)
        ensures
            path_view(&r).len() == 0,
    {
        let r = FsPath { segments: Vec::new() };
        proof {
            assert(path_view(&r) =~= Seq::<Seq<char>>::empty());
        }
        r
    }

    /// Copy a path.
    pub fn clone_path(&self) -> (r: FsPath)
        ensures
            path_view(&r) == path_view(self),
    {
        let mut segments: Vec<String> = Vec::new();
        let n = self.segments.len();
        let mut i: usize = 0;
        proof {
            assert(segments@.map_values(|x: String| x@) =~= path_view(self).take(0));
        }
        while i < n
            invariant
                i <= n,
                n == self.segments@.len(),
                segments@.map_values(|x: String| x@) == path_view(self).take(i as int),
            decreases n - i,
        {
            let ghost before = segments@;
            segments.push(self.segments[i].clone());
            proof {
                assert(segments@.map_values(|x: String| x@) =~= before.map_values(
                    |x: String| x@,
                ).push(self.segments@[i as int]@));
                assert(path_view(self).take(i + 1) =~= path_view(self).take(i as int).push(
                    path_view(self)[i as int],
                ));
            }
            i = i + 1;
        }
        proof {
            assert(path_view(self).take(n as int) =~= path_view(self));
        }
        FsPath { segments }
    }

    /// The path extended by one segment.
    pub fn join_str(&self, seg: &str) -> (r: FsPath)
        ensures
            path_view(&r) == path_view(self).push(seg@),
    {
        let mut r = self.clone_path();
        let ghost before = r.segments@;
        r.segments.push(seg.to_owned());
        proof {
            assert(path_view(&r) =~= before.map_values(|x: String| x@).push(seg@));
        }
        r
    }

    /// The path extended by another path's segments.
    pub fn join_path(&self, other: &FsPath) -> (r: FsPath)
        ensures
            path_view(&r) == path_view(self) + path_view(other),
    {
        let mut r = self.clone_path();
        let n = other.segments.len();
        let mut i: usize = 0;
        proof {
            assert(path_view(&r) =~= path_view(self) + path_view(other).take(0));
        }
        while i < n
            invariant
                i <= n,
                n == other.segments@.len(),
                path_view(&r) == path_view(self) + path_view(other).take(i as int),
            decreases n - i,
        {
            let ghost before = r.segments@;
            r.segments.push(other.segments[i].clone());
            proof {
                assert(path_view(&r) =~= before.map_values(|x: String| x@).push(
                    path_view(other)[i as int],
                ));
                assert(path_view(self) + path_view(other).take(i + 1) =~= (path_view(self)
                    + path_view(other).take(i as int)).push(path_view(other)[i as int]));
            }
            i = i + 1;
        }
        proof {
            assert(path_view(other).take(n as int) =~= path_view(other));
        }
        r
    }
}

/// The path without its final segment.
pub fn parent_dir(path: &FsPath) -> (r: Result<FsPath, PathError>)
    ensures
        match r {
            Ok(p) => path_view(path).len() > 0 && path_view(&p) == path_view(path).drop_last(),
            Err(e) => e == PathError::NoParent && path_view(path).len() == 0,
        },
{
    let n = path.segments.len();
    if n == 0 {
        return Err(PathError::NoParent);
    }
    let mut r = path.clone_path();
    let ghost before = r.segments@;
    r.segments.pop();
    proof {
        assert(path_view(&r) =~= path_view(path).drop_last());
    }
    Ok(r)
}

/// The length of the longest prefix of `segs` that ends in `name`, or
/// minus one where no prefix does.
pub open spec fn ancestor_prefix_len(segs: Seq<Seq<char>>, name: Seq<char>) -> int
    decreases segs.len(),
{
    if segs.len() == 0 {
        -1
    } else if segs.last() == name {
        segs.len() as int
    } else {
        ancestor_prefix_len(segs.drop_last(), name)
    }
}

/// The nearest ancestor directory, the path itself included, whose own
/// name is `dir_name`.
pub fn find_parent_dir(path: &FsPath, dir_name: &str) -> (r: Result<FsPath, PathError>)
    ensures
        match r {
            Ok(p) => ancestor_prefix_len(path_view(path), dir_name@) >= 0 && path_view(&p)
                == path_view(path).take(ancestor_prefix_len(path_view(path), dir_name@)),
            Err(e) => e == PathError::NoSuchAncestor && ancestor_prefix_len(
                path_view(path),
                dir_name@,
            ) < 0,
        },
{
    let ghost pv = path_view(path);
    let mut k = path.segments.len();
    proof {
        assert(pv.take(k as int) =~= pv);
    }
    while k > 0
        invariant
            k <= path.segments@.len(),
            pv == path_view(path),
            pv.len() == path.segments@.len(),
            ancestor_prefix_len(pv, dir_name@) == ancestor_prefix_len(
                pv.take(k as int),
                dir_name@,
            ),
        decreases k,
    {
        proof {
            assert(pv.take(k as int).last() == pv[k - 1]);
            assert(pv.take(k as int).drop_last() =~= pv.take(k - 1));
        }
        if str_eq(path.segments[k - 1].as_str(), dir_name) {
            let mut r = FsPath { segments: Vec::new() };
            let mut i: usize = 0;
            proof {
                assert(path_view(&r) =~= pv.take(0));
            }
            while i < k
                invariant
                    i <= k,
                    k <= path.segments@.len(),
                    pv == path_view(path),
                    pv.len() == path.segments@.len(),
                    path_view(&r) == pv.take(i as int),
                decreases k - i,
            {
                let ghost before = r.segments@;
                r.segments.push(path.segments[i].clone());
                proof {
                    assert(path_view(&r) =~= before.map_values(|x: String| x@).push(
                        pv[i as int],
                    ));
                    assert(pv.take(i + 1) =~= pv.take(i as int).push(pv[i as int]));
                }
                i = i + 1;
            }
            return Ok(r);
        }
        k = k - 1;
    }
    proof {
        assert(pv.take(0) =~= Seq::<Seq<char>>::empty());
    }
    Err(PathError::NoSuchAncestor)
}

/// A well-distributed fingerprint of the invocation-body text: the same
/// text always maps to the same value.
pub uninterp spec fn fingerprint_of(s: Seq<char>) -> u64;

/// Relies on std's `DefaultHasher`: the hash of a string depends on its
/// characters alone.
#[verifier::external_body]
fn content_fingerprint(s: &str) -> (r: u64)
    ensures
        r == fingerprint_of(s@),
{
    let mut hasher = DefaultHasher::new();
    s.hash(&mut hasher);
    hasher.finish()
}

/// The project name that an invocation-body text hashes to.
pub open spec fn project_name_of(input: Seq<char>) -> Seq<char> {
    "project_"@ + hex16_of(fingerprint_of(input))
}

/// Derive the working-project name from the invocation-body text: a fixed
/// prefix and the body's fingerprint, sixteen hexadecimal digits.
pub fn project_name_from_input(input_str: &str) -> (r: String)
    ensures
        r@ == project_name_of(input_str@),
{
    let mut s = "project_".to_owned();
    let h = fmt_u64_hex16(content_fingerprint(input_str));
    s.append(h.as_str());
    s
}

/// Identical body text gives the identical working-project name: the
/// content-hash address of the working directory is reused across runs.
pub proof fn lemma_caching_idempotent(a: Seq<char>, b: Seq<char>)
    requires
        a == b,
    ensures
        project_name_of(a) == project_name_of(b),
{
}

/// The manifest files that configure an invocation: the nearest one as
/// the crate-level configuration and, where present, the next-nearest as
/// the workspace-level configuration.
#[derive(Debug)]
pub struct CargoConfigPaths {
    pub crate_config: FsPath,
    pub workspace_config: Option<FsPath>,
}

/// Pick the crate-level and workspace-level configuration out of the
/// manifest files found in the ancestor directories, nearest first; at
/// least one must exist.
pub fn find_cargo_configs(found: &Vec<FsPath>) -> (r: Result<CargoConfigPaths, PathError>)
    ensures
        match r {
            Ok(c) => {
                &&& found@.len() >= 1
                &&& path_view(&c.crate_config) == path_view(&found@[0])
                &&& (match c.workspace_config {
                    Some(w) => found@.len() >= 2 && path_view(&w) == path_view(&found@[1]),
                    None => found@.len() == 1,
                })
            },
            Err(e) => e == PathError::NoManifest && found@.len() == 0,
        },
{
    if found.len() == 0 {
        return Err(PathError::NoManifest);
    }
    let crate_config = found[0].clone_path();
    if found.len() >= 2 {
        Ok(
            CargoConfigPaths {
                crate_config,
                workspace_config: Some(found[1].clone_path()),
            },
        )
    } else {
        Ok(CargoConfigPaths { crate_config, workspace_config: None })
    }
}

/// A nonnegative ancestor-prefix length names a real prefix ending in the
/// wanted segment.
pub proof fn lemma_ancestor_prefix(segs: Seq<Seq<char>>, name: Seq<char>)
    ensures
        ancestor_prefix_len(segs, name) >= 0 ==> 1 <= ancestor_prefix_len(segs, name)
            <= segs.len() && segs[ancestor_prefix_len(segs, name) - 1] == name,
    decreases segs.len(),
{
    if segs.len() > 0 && segs.last() != name {
        lemma_ancestor_prefix(segs.drop_last(), name);
        let k = ancestor_prefix_len(segs, name);
        if k >= 0 {
            assert(segs.drop_last()[k - 1] == segs[k - 1]);
        }
    }
}

/// The position of the last dot in a segment, or minus one.
pub open spec fn last_dot_index(s: Seq<char>) -> int
    decreases s.len(),
{
    if s.len() == 0 {
        -1
    } else if s.last() == '.' {
        s.len() - 1
    } else {
        last_dot_index(s.drop_last())
    }
}

/// A segment without its extension: cut at the last dot, except a dot in
/// first position, which begins a hidden name rather than an extension.
pub open spec fn strip_ext_of(s: Seq<char>) -> Seq<char> {
    let d = last_dot_index(s);
    if d > 0 {
        s.take(d)
    } else {
        s
    }
}

/// A path whose final segment has its extension removed.
pub open spec fn strip_path_ext_of(p: Seq<Seq<char>>) -> Seq<Seq<char>> {
    if p.len() == 0 {
        p
    } else {
        p.update(p.len() - 1, strip_ext_of(p.last()))
    }
}

/// Cut a segment at its last dot, keeping a leading dot's hidden name.
fn strip_ext(seg: &str) -> (r: String)
    ensures
        r@ == strip_ext_of(seg@),
{
    let chars = crate::strutil::to_chars(seg);
    let ghost sv = seg@;
    let n = chars.len();
    let mut k = n;
    proof {
        assert(sv.take(k as int) =~= sv);
        assert(last_dot_index(sv) == last_dot_index(sv.take(k as int)));
    }
    while k > 0
        invariant
            k <= n,
            n == chars@.len(),
            sv == seg@,
            chars@ == sv,
            last_dot_index(sv) == last_dot_index(sv.take(k as int)),
        decreases k,
    {
        proof {
            assert(sv.take(k as int).last() == sv[k - 1]);
            assert(sv.take(k as int).drop_last() =~= sv.take(k - 1));
        }
        if chars[k - 1] == '.' {
            proof {
                assert(last_dot_index(sv.take(k as int)) == k - 1);
                assert(last_dot_index(sv) == k - 1);
            }
            if k - 1 > 0 {
                let mut out: Vec<char> = Vec::new();
                let mut i: usize = 0;
                proof {
                    assert(out@ =~= sv.take(0));
                }
                while i < k - 1
                    invariant
                        1 <= k <= n,
                        i <= k - 1,
                        n == chars@.len(),
                        chars@ == sv,
                        last_dot_index(sv) == k - 1,
                        out@ == sv.take(i as int),
                    decreases k - i,
                {
                    out.push(chars[i]);
                    proof {
                        assert(sv.take(i + 1) =~= sv.take(i as int).push(sv[i as int]));
                    }
                    i = i + 1;
                }
                proof {
                    assert(out@ == strip_ext_of(sv));
                }
                return crate::strutil::from_chars(out.as_slice());
            } else {
                proof {
                    assert(strip_ext_of(sv) == sv);
                }
                return seg.to_owned();
            }
        }
        k = k - 1;
    }
    proof {
        assert(sv.take(0) =~= Seq::<char>::empty());
    }
    seg.to_owned()
}

/// A path with the extension of its final segment removed.
fn with_stripped_extension(p: &FsPath) -> (r: FsPath)
    ensures
        path_view(&r) == strip_path_ext_of(path_view(p)),
{
    let n = p.segments.len();
    if n == 0 {
        let r = FsPath::empty();
        proof {
            assert(path_view(&r) =~= strip_path_ext_of(path_view(p)));
        }
        return r;
    }
    let mut r = p.clone_path();
    let stripped = strip_ext(p.segments[n - 1].as_str());
    let ghost before = r.segments@;
    r.segments.pop();
    r.segments.push(stripped);
    proof {
        assert(path_view(&r) =~= strip_path_ext_of(path_view(p)));
    }
    r
}

/// The output root that a build-script output directory resolves to: the
/// enclosing `build` directory with the engine's own subdirectory.
pub open spec fn output_root_of(out: Seq<Seq<char>>) -> Option<Seq<Seq<char>>> {
    let k = ancestor_prefix_len(out, "build"@);
    if k < 0 {
        None
    } else {
        Some(out.take(k).push("crabtime"@))
    }
}

/// The working project's location and the manifests that configure it;
/// the manifests are absent where location-based addressing is not
/// available.
#[derive(Debug)]
pub struct Paths {
    pub output_dir: FsPath,
    pub cargo_toml_path: Option<CargoConfigPaths>,
}

impl Paths {
    /// Resolve the root under which all working projects live, from the
    /// build-script output directory of the enclosing build.
    pub fn get_output_root(out_dir: &FsPath) -> (r: Result<FsPath, PathError>)
        ensures
            match r {
                Ok(p) => output_root_of(path_view(out_dir)) matches Some(v) && path_view(&p)
                    == v,
                Err(e) => e == PathError::NoSuchAncestor && output_root_of(
                    path_view(out_dir),
                ) is None,
            },
    {
        match find_parent_dir(out_dir, "build") {
            Ok(build_dir) => Ok(build_dir.join_str("crabtime")),
            Err(e) => Err(e),
        }
    }

    /// Resolve the working project's directory and its configuring
    /// manifests. With a call-site path the directory is keyed by source
    /// location (or by content hash when asked), and the manifests found
    /// nearest the invocation's file apply; without one the directory is
    /// keyed by content hash alone and no manifest resolution happens.
    pub fn new(
        options: MacroOptions,
        macro_name: &str,
        input_str: &str,
        out_dir: &FsPath,
        call_site: Option<&FsPath>,
        manifests: &Vec<FsPath>,
    ) -> (r: Result<Paths, PathError>)
        ensures
            ({
                let root = output_root_of(path_view(out_dir));
                match r {
                    Ok(p) => {
                        &&& root matches Some(rt)
                        &&& (match call_site {
                            Some(cs) => {
                                &&& path_view(&p.output_dir) == rt + strip_path_ext_of(
                                    path_view(cs),
                                ).push(
                                    if options.content_base_name {
                                        project_name_of(input_str@)
                                    } else {
                                        macro_name@
                                    },
                                )
                                &&& (p.cargo_toml_path matches Some(c) && {
                                    &&& manifests@.len() >= 1
                                    &&& path_view(&c.crate_config) == path_view(&manifests@[0])
                                    &&& (match c.workspace_config {
                                        Some(w) => manifests@.len() >= 2 && path_view(&w)
                                            == path_view(&manifests@[1]),
                                        None => manifests@.len() == 1,
                                    })
                                })
                            },
                            None => {
                                &&& path_view(&p.output_dir) == rt.push("crabtime"@).push(
                                    project_name_of(input_str@),
                                )
                                &&& p.cargo_toml_path is None
                            },
                        })
                    },
                    Err(e) => (e == PathError::NoSuchAncestor && root is None) || (e
                        == PathError::NoManifest && root is Some && call_site is Some
                        && manifests@.len() == 0),
                }
            }),
    {
        let root = match Self::get_output_root(out_dir) {
            Ok(p) => p,
            Err(e) => {
                return Err(e);
            },
        };
        match call_site {
            Some(cs) => {
                let name = if options.content_base_name {
                    project_name_from_input(input_str)
                } else {
                    macro_name.to_owned()
                };
                let cs_stripped = with_stripped_extension(cs);
                let output_dir = root.join_path(&cs_stripped).join_str(name.as_str());
                let cargo = match find_cargo_configs(manifests) {
                    Ok(c) => c,
                    Err(e) => {
                        return Err(e);
                    },
                };
                proof {
                    assert(path_view(&output_dir) =~= output_root_of(
                        path_view(out_dir),
                    )->Some_0 + strip_path_ext_of(path_view(cs)).push(
                        if options.content_base_name {
                            project_name_of(input_str@)
                        } else {
                            macro_name@
                        },
                    ));
                }
                Ok(Paths { output_dir, cargo_toml_path: Some(cargo) })
            },
            None => {
                let name = project_name_from_input(input_str);
                let output_dir = root.join_str("crabtime").join_str(name.as_str());
                Ok(Paths { output_dir, cargo_toml_path: None })
            },
        }
    }
}

impl Paths {
    /// Whether the working directory is removed once the run is over: a
    /// content-hash-keyed directory always is, a location-keyed one stays
    /// exactly when caching is on.
    pub fn should_remove_after_run(&self, cache: bool) -> (r: bool)
        ensures
            r == !(cache && self.cargo_toml_path is Some),
    {
        match &self.cargo_toml_path {
            Some(_) => !cache,
            None => true,
        }
    }
}

/// The directory whose ancestors hold the manifests that configure the
/// invocation: the workspace above the enclosing `target` directory,
/// extended by the invocation file's path without its extension.
pub open spec fn search_root_of(
    out: Seq<Seq<char>>,
    call_site: Seq<Seq<char>>,
) -> Option<Seq<Seq<char>>> {
    let k = ancestor_prefix_len(out, "target"@);
    if k < 0 {
        None
    } else {
        Some(out.take(k - 1) + strip_path_ext_of(call_site))
    }
}

/// Resolve the directory from which the manifest search starts: the
/// workspace above the enclosing `target` directory, extended by the
/// invocation file's path without its extension.
pub fn manifest_search_root(out_dir: &FsPath, call_site: &FsPath) -> (r: Result<
    FsPath,
    PathError,
>)
    ensures
        match r {
            Ok(p) => search_root_of(path_view(out_dir), path_view(call_site)) matches Some(v)
                && path_view(&p) == v,
            Err(e) => e == PathError::NoSuchAncestor && search_root_of(
                path_view(out_dir),
                path_view(call_site),
            ) is None,
        },
{
    let target = match find_parent_dir(out_dir, "target") {
        Ok(p) => p,
        Err(e) => {
            return Err(e);
        },
    };
    proof {
        lemma_ancestor_prefix(path_view(out_dir), "target"@);
    }
    let workspace = match parent_dir(&target) {
        Ok(p) => p,
        Err(_) => {
            proof {
                assert(false);
            }
            return Err(PathError::NoParent);
        },
    };
    let cs_stripped = with_stripped_extension(call_site);
    let r = workspace.join_path(&cs_stripped);
    proof {
        let k = ancestor_prefix_len(path_view(out_dir), "target"@);
        assert(path_view(out_dir).take(k).drop_last() =~= path_view(out_dir).take(k - 1));
    }
    Ok(r)
}

} // verus!
