//! Build configuration: the dependency list and edition of the ephemeral
//! project, built fresh per invocation by merging the enclosing manifest's
//! build-time dependency declarations with inline per-invocation
//! overrides, and printed as the generated project's manifest.

use vstd::prelude::*;
use crate::strutil::{
    str_eq, to_chars, from_chars, remove_spaces, remove_spaces_of, first_index_of,
    lemma_first_index, find_char, tail_from,
};

verus! {

/// The default edition of the generated project.
pub open spec fn default_edition() -> Seq<char> {
    "2024"@
}

/// The default dependency resolver of the generated project.
pub open spec fn default_resolver() -> Seq<char> {
    "3"@
}

/// One build-time dependency: its label and its declaration text.
/// Identity is the label; duplicate labels are retained.
pub struct Dependency {
    pub label: String,
    pub tokens_str: String,
}

impl Dependency {
    /// Make a dependency from its label and declaration text.
    pub fn new(label: String, tokens_str: String) -> (r: Self)
        ensures
            r.label@ == label@,
            r.tokens_str@ == tokens_str@,
    {
        Self { label, tokens_str }
    }
}

/// The build configuration of one invocation's ephemeral project.
pub struct CargoConfig {
    pub edition: Option<String>,
    pub resolver: Option<String>,
    pub dependencies: Vec<Dependency>,
}

impl Default for CargoConfig {
    /// No edition or resolver chosen, no dependencies.
    fn default() -> (r: Self)
        ensures
            r.edition is None,
            r.resolver is None,
            r.dependencies@.len() == 0,
    {
        Self { edition: None, resolver: None, dependencies: Vec::new() }
    }
}

/// The view of a dependency list: each label with its declaration text.
pub open spec fn deps_view(ds: Seq<Dependency>) -> Seq<(Seq<char>, Seq<char>)> {
    ds.map_values(|d: Dependency| (d.label@, d.tokens_str@))
}

/// The dependency table's text: one `label = declaration` line per
/// dependency, joined with line breaks.
pub open spec fn deps_lines_of(ds: Seq<(Seq<char>, Seq<char>)>) -> Seq<char>
    decreases ds.len(),
{
    if ds.len() == 0 {
        Seq::empty()
    } else if ds.len() == 1 {
        ds[0].0 + " = "@ + ds[0].1
    } else {
        ds[0].0 + " = "@ + ds[0].1 + "\n"@ + deps_lines_of(ds.drop_first())
    }
}

/// The generated project's manifest text for a configuration: a workspace
/// of its own, a fixed package name and version, the chosen or default
/// edition and resolver, and the dependency table.
pub open spec fn manifest_text_of(
    edition: Option<Seq<char>>,
    resolver: Option<Seq<char>>,
    ds: Seq<(Seq<char>, Seq<char>)>,
) -> Seq<char> {
    let e = match edition {
        Some(s) => s,
        None => default_edition(),
    };
    let r = match resolver {
        Some(s) => s,
        None => default_resolver(),
    };
    "\n            [workspace]\n            [package]\n            name     = \"eval_project\"\n            version  = \"1.0.0\"\n            edition  = \""@
        + e
        + "\"\n            resolver = \""@
        + r
        + "\"\n\n            [dependencies]\n            "@
        + deps_lines_of(ds)
        + "\n        "@
}

/// The view of an optional string.
pub open spec fn opt_str_view(o: Option<String>) -> Option<Seq<char>> {
    match o {
        Some(s) => Some(s@),
        None => None,
    }
}

/// The build-dependency table that a manifest text declares: nothing when
/// the text is no well-formed manifest; otherwise each label of the
/// build-time dependency table with its declaration rendered back to text,
/// empty when the table is missing.
pub uninterp spec fn manifest_deps_of(s: Seq<char>) -> Option<Seq<(Seq<char>, Seq<char>)>>;

/// The package edition that a manifest text declares: nothing when the
/// text is no well-formed manifest; otherwise the edition entry of the
/// package table, where there is one.
pub uninterp spec fn manifest_edition_of(s: Seq<char>) -> Option<Option<Seq<char>>>;

/// Relies on `toml::from_str`, `Value::get`, `Value::as_table` and
/// `Value`'s `Display`: the build-time dependency entries of the manifest
/// text, each value rendered back to its declaration text, in the
/// table's order; nothing when the text does not parse.
#[verifier::external_body]
fn manifest_build_dependencies(text: &str) -> (r: Option<Vec<(String, String)>>)
    ensures
        match r {
            Some(v) => manifest_deps_of(text@) matches Some(s) && v@.map_values(
                |p: (String, String)| (p.0@, p.1@),
            ) == s,
            None => manifest_deps_of(text@) is None,
        },
{
    let parsed: toml::Value = match toml::from_str(text) {
        Ok(v) => v,
        Err(_) => {
            return None;
        },
    };
    let deps = parsed.get("build-dependencies").and_then(|v| v.as_table()).map_or(
        Vec::new(),
        |t| t.iter().map(|(k, v)| (k.clone(), format!("{v}"))).collect(),
    );
    Some(deps)
}

/// Relies on `toml::from_str`, `Value::get`, `Value::as_table` and
/// `Value::as_str`: the edition entry of the manifest text's package
/// table; nothing when the text does not parse.
#[verifier::external_body]
fn manifest_package_edition(text: &str) -> (r: Option<Option<String>>)
    ensures
        match r {
            Some(e) => manifest_edition_of(text@) matches Some(s) && opt_str_view(e) == s,
            None => manifest_edition_of(text@) is None,
        },
{
    let parsed: toml::Value = match toml::from_str(text) {
        Ok(v) => v,
        Err(_) => {
            return None;
        },
    };
    let edition = parsed.get("package").and_then(|v| v.as_table()).and_then(
        |t| t.get("edition"),
    ).and_then(|v| v.as_str()).map(|s| s.to_owned());
    Some(edition)
}

/// Why a configuration step failed.
#[derive(Clone, Copy, PartialEq, Eq, Structural, Debug)]
pub enum ConfigError {
    /// The enclosing manifest could not be parsed.
    ManifestParse,
    /// An inline attribute carries no argument list.
    AttributeArgs,
    /// An inline dependency declaration has no equals sign.
    IncorrectDependency,
}

impl CargoConfig {
    /// Whether a dependency with the given label is declared.
    pub fn contains_dependency(&self, name: &str) -> (r: bool)
        ensures
            r == exists|i: int|
                0 <= i < self.dependencies@.len() && self.dependencies@[i].label@ == name@,
    {
        let n = self.dependencies.len();
        let mut i: usize = 0;
        while i < n
            invariant
                i <= n,
                n == self.dependencies@.len(),
                forall|j: int| 0 <= j < i ==> self.dependencies@[j].label@ != name@,
            decreases n - i,
        {
            if str_eq(self.dependencies[i].label.as_str(), name) {
                return true;
            }
            i = i + 1;
        }
        false
    }

    /// Print the generated project's manifest for this configuration.
    pub fn print(&self) -> (r: String)
        ensures
            r@ == manifest_text_of(
                opt_str_view(self.edition),
                opt_str_view(self.resolver),
                deps_view(self.dependencies@),
            ),
    {
        let mut s =
            "\n            [workspace]\n            [package]\n            name     = \"eval_project\"\n            version  = \"1.0.0\"\n            edition  = \"".to_owned();
        match &self.edition {
            Some(e) => s.append(e.as_str()),
            None => s.append("2024"),
        }
        s.append("\"\n            resolver = \"");
        match &self.resolver {
            Some(v) => s.append(v.as_str()),
            None => s.append("3"),
        }
        s.append("\"\n\n            [dependencies]\n            ");
        let ghost dv = deps_view(self.dependencies@);
        let n = self.dependencies.len();
        proof {
            assert(dv.len() == n);
            assert(forall|j: int|
                0 <= j < n ==> dv[j] == (self.dependencies@[j].label@,
                self.dependencies@[j].tokens_str@));
            assert(dv.skip(0) =~= dv);
        }
        let ghost before = s@;
        let mut i: usize = 0;
        while i < n
            invariant
                i <= n,
                n == self.dependencies@.len(),
                dv == deps_view(self.dependencies@),
                dv.len() == n,
                forall|j: int|
                    0 <= j < n ==> dv[j] == (self.dependencies@[j].label@,
                    self.dependencies@[j].tokens_str@),
                s@ + deps_lines_of(dv.skip(i as int)) == before + deps_lines_of(dv),
            decreases n - i,
        {
            proof {
                assert(dv.skip(i as int)[0] == dv[i as int]);
                assert(dv.skip(i as int).drop_first() =~= dv.skip(i + 1));
            }
            s.append(self.dependencies[i].label.as_str());
            s.append(" = ");
            s.append(self.dependencies[i].tokens_str.as_str());
            if i + 1 < n {
                s.append("\n");
            }
            i = i + 1;
        }
        s.append("\n        ");
        proof {
            assert(deps_lines_of(dv.skip(n as int)) =~= Seq::<char>::empty());
        }
        s
    }

    /// Merge the enclosing manifest into this configuration: its
    /// build-time dependencies are appended, and its edition, or the
    /// default where it names none, replaces the edition.
    pub fn fill_from_cargo_toml(&mut self, manifest_text: &str) -> (r: Result<(), ConfigError>)
        ensures
            match r {
                Ok(_) => {
                    &&& manifest_deps_of(manifest_text@) matches Some(ds)
                    &&& deps_view(final(self).dependencies@) == deps_view(
                        old(self).dependencies@,
                    ) + ds
                    &&& manifest_edition_of(manifest_text@) matches Some(ed)
                    &&& opt_str_view(final(self).edition) == Some(
                        match ed {
                            Some(e) => e,
                            None => default_edition(),
                        },
                    )
                    &&& final(self).resolver == old(self).resolver
                },
                Err(e) => {
                    &&& e == ConfigError::ManifestParse
                    &&& *final(self) == *old(self)
                    &&& (manifest_deps_of(manifest_text@) is None || manifest_edition_of(
                        manifest_text@,
                    ) is None)
                },
            },
    {
        let deps = match manifest_build_dependencies(manifest_text) {
            Some(d) => d,
            None => {
                return Err(ConfigError::ManifestParse);
            },
        };
        let edition = match manifest_package_edition(manifest_text) {
            Some(e) => e,
            None => {
                return Err(ConfigError::ManifestParse);
            },
        };
        let ghost old_deps = self.dependencies@;
        let ghost pairs = deps@.map_values(|p: (String, String)| (p.0@, p.1@));
        let n = deps.len();
        let mut i: usize = 0;
        while i < n
            invariant
                i <= n,
                n == deps@.len(),
                pairs == deps@.map_values(|p: (String, String)| (p.0@, p.1@)),
                deps_view(self.dependencies@) == deps_view(old_deps) + pairs.take(i as int),
                self.edition == old(self).edition,
                self.resolver == old(self).resolver,
            decreases n - i,
        {
            let ghost before = self.dependencies@;
            let (k, v) = (deps[i].0.clone(), deps[i].1.clone());
            self.dependencies.push(Dependency { label: k, tokens_str: v });
            proof {
                assert(deps_view(self.dependencies@) =~= deps_view(before).push(
                    (deps@[i as int].0@, deps@[i as int].1@),
                ));
                assert(deps_view(old_deps) + pairs.take(i + 1) =~= (deps_view(old_deps)
                    + pairs.take(i as int)).push(pairs[i as int]));
            }
            i = i + 1;
        }
        proof {
            assert(pairs.take(n as int) =~= pairs);
        }
        match edition {
            Some(e) => {
                self.edition = Some(e);
            },
            None => {
                self.edition = Some("2024".to_owned());
            },
        }
        Ok(())
    }
}

/// One inline attribute of an invocation: its path identifier, its
/// argument tokens' text where it has any, and its full source text.
pub struct InlineAttr {
    pub name: String,
    pub args_text: Option<String>,
    pub full_text: String,
}

/// What extracting the inline attributes yields, or had yielded when the
/// first ill-formed attribute stopped it: the edition chosen so far, the
/// inline dependencies gathered so far, and the texts of the attributes
/// that are neither dependency nor edition declarations.
pub ghost struct ExtractResult {
    pub err: Option<ConfigError>,
    pub edition: Option<Seq<char>>,
    pub new_deps: Seq<(Seq<char>, Seq<char>)>,
    pub others: Seq<Seq<char>>,
}

/// The declaration split of an inline dependency: the text before the
/// first equals sign and the text after it.
pub open spec fn eq_split_of(s: Seq<char>) -> Option<(Seq<char>, Seq<char>)> {
    let i = first_index_of(s, '=');
    if i < 0 {
        None
    } else {
        Some((s.take(i), s.skip(i + 1)))
    }
}

/// How a list of inline attributes extracts, one by one: a `dependency`
/// attribute's spaceless argument text splits at its equals sign into a
/// new dependency; an `edition` attribute's text replaces the edition;
/// any other attribute is kept for the generated program; an attribute
/// without arguments, or a dependency without an equals sign, stops the
/// extraction.
pub open spec fn spec_extract(attrs: Seq<InlineAttr>, acc: ExtractResult) -> ExtractResult
    decreases attrs.len(),
{
    if acc.err is Some || attrs.len() == 0 {
        acc
    } else {
        let a = attrs[0];
        match a.args_text {
            None => ExtractResult { err: Some(ConfigError::AttributeArgs), ..acc },
            Some(args) => {
                let stripped = remove_spaces_of(args@);
                if a.name@ == "dependency"@ {
                    match eq_split_of(stripped) {
                        None => ExtractResult {
                            err: Some(ConfigError::IncorrectDependency),
                            ..acc
                        },
                        Some(kv) => spec_extract(
                            attrs.drop_first(),
                            ExtractResult { new_deps: acc.new_deps.push(kv), ..acc },
                        ),
                    }
                } else if a.name@ == "edition"@ {
                    spec_extract(
                        attrs.drop_first(),
                        ExtractResult { edition: Some(stripped), ..acc },
                    )
                } else {
                    spec_extract(
                        attrs.drop_first(),
                        ExtractResult { others: acc.others.push(a.full_text@), ..acc },
                    )
                }
            },
        }
    }
}

/// The extraction of a list of inline attributes, from nothing gathered.
pub open spec fn spec_extract_all(attrs: Seq<InlineAttr>) -> ExtractResult {
    spec_extract(
        attrs,
        ExtractResult { err: None, edition: None, new_deps: Seq::empty(), others: Seq::empty() },
    )
}

/// Lines joined with line breaks.
pub open spec fn join_lines_of(ls: Seq<Seq<char>>) -> Seq<char>
    decreases ls.len(),
{
    if ls.len() == 0 {
        Seq::empty()
    } else if ls.len() == 1 {
        ls[0]
    } else {
        ls[0] + "\n"@ + join_lines_of(ls.drop_first())
    }
}

/// Split a dependency declaration at its first equals sign.
fn eq_split(s: &str) -> (r: Option<(String, String)>)
    ensures
        match r {
            Some(kv) => eq_split_of(s@) matches Some(gkv) && kv.0@ == gkv.0 && kv.1@ == gkv.1,
            None => eq_split_of(s@) is None,
        },
{
    let chars = to_chars(s);
    match find_char(chars.as_slice(), '=') {
        Some(i) => {
            proof {
                lemma_first_index(s@, '=');
            }
            let clen = chars.len();
            assert(i < clen);
            let mut left: Vec<char> = Vec::new();
            let mut j: usize = 0;
            while j < i
                invariant
                    j <= i,
                    i < chars@.len(),
                    chars@ == s@,
                    left@ == s@.subrange(0, j as int),
                decreases i - j,
            {
                left.push(chars[j]);
                proof {
                    assert(s@.subrange(0, j + 1) =~= s@.subrange(0, j as int).push(s@[j as int]));
                }
                j = j + 1;
            }
            let right = tail_from(chars.as_slice(), i + 1);
            proof {
                assert(s@.take(i as int) =~= s@.subrange(0, i as int));
            }
            Some((from_chars(left.as_slice()), from_chars(right.as_slice())))
        },
        None => None,
    }
}

impl CargoConfig {
    /// Extract the inline attributes of an invocation into this
    /// configuration: inline dependencies are appended after all
    /// attributes are read, an inline edition replaces the edition at
    /// once, and the remaining attributes' texts are returned joined with
    /// line breaks; the first attribute without arguments, or dependency
    /// without an equals sign, stops the extraction with an error.
    pub fn extract_inline_attributes(&mut self, attributes: Vec<InlineAttr>) -> (r: Result<
        String,
        ConfigError,
    >)
        ensures
            ({
                let out = spec_extract_all(attributes@);
                match r {
                    Ok(s) => {
                        &&& out.err is None
                        &&& s@ == join_lines_of(out.others)
                        &&& deps_view(final(self).dependencies@) == deps_view(
                            old(self).dependencies@,
                        ) + out.new_deps
                        &&& opt_str_view(final(self).edition) == (match out.edition {
                            Some(e) => Some(e),
                            None => opt_str_view(old(self).edition),
                        })
                        &&& final(self).resolver == old(self).resolver
                    },
                    Err(e) => {
                        &&& out.err == Some(e)
                        &&& final(self).dependencies == old(self).dependencies
                        &&& opt_str_view(final(self).edition) == (match out.edition {
                            Some(ed) => Some(ed),
                            None => opt_str_view(old(self).edition),
                        })
                        &&& final(self).resolver == old(self).resolver
                    },
                }
            }),
    {
        let ghost attrs = attributes@;
        let mut new_deps: Vec<Dependency> = Vec::new();
        let mut others: Vec<String> = Vec::new();
        let ghost old_edition = opt_str_view(old(self).edition);
        let ghost mut acc_ed: Option<Seq<char>> = None;
        let n = attributes.len();
        let mut i: usize = 0;
        proof {
            assert(attrs.skip(0) =~= attrs);
            assert(deps_view(new_deps@) =~= Seq::<(Seq<char>, Seq<char>)>::empty());
            assert(others@.map_values(|x: String| x@) =~= Seq::<Seq<char>>::empty());
        }
        while i < n
            invariant
                i <= n,
                n == attributes@.len(),
                attrs == attributes@,
                spec_extract_all(attrs) == spec_extract(
                    attrs.skip(i as int),
                    ExtractResult {
                        err: None,
                        edition: acc_ed,
                        new_deps: deps_view(new_deps@),
                        others: others@.map_values(|x: String| x@),
                    },
                ),
                old_edition == opt_str_view(old(self).edition),
                opt_str_view(self.edition) == (match acc_ed {
                    Some(e) => Some(e),
                    None => old_edition,
                }),
                self.dependencies == old(self).dependencies,
                self.resolver == old(self).resolver,
            decreases n - i,
        {
            let ghost s = attrs.skip(i as int);
            let ghost acc = ExtractResult {
                err: None,
                edition: acc_ed,
                new_deps: deps_view(new_deps@),
                others: others@.map_values(|x: String| x@),
            };
            proof {
                assert(s[0] == attrs[i as int]);
                assert(s.drop_first() =~= attrs.skip(i + 1));
            }
            let stripped = match &attributes[i].args_text {
                Some(args) => remove_spaces(args.as_str()),
                None => {
                    proof {
                        assert(attrs[i as int].args_text is None);
                        assert(spec_extract(s, acc) == ExtractResult {
                            err: Some(ConfigError::AttributeArgs),
                            ..acc
                        });
                    }
                    return Err(ConfigError::AttributeArgs);
                },
            };
            let ghost stripped_view = stripped@;
            if str_eq(attributes[i].name.as_str(), "dependency") {
                match eq_split(stripped.as_str()) {
                    None => {
                        proof {
                            assert(attrs[i as int].args_text matches Some(ar) && remove_spaces_of(
                                ar@,
                            ) == stripped_view);
                            assert(spec_extract(s, acc) == ExtractResult {
                                err: Some(ConfigError::IncorrectDependency),
                                ..acc
                            });
                        }
                        return Err(ConfigError::IncorrectDependency);
                    },
                    Some((k, v)) => {
                        let ghost before = new_deps@;
                        let ghost kv = (k@, v@);
                        new_deps.push(Dependency { label: k, tokens_str: v });
                        proof {
                            assert(deps_view(new_deps@) =~= deps_view(before).push(kv));
                        }
                    },
                }
            } else if str_eq(attributes[i].name.as_str(), "edition") {
                self.edition = Some(stripped);
                proof {
                    acc_ed = Some(stripped_view);
                }
            } else {
                let ghost before = others@;
                others.push(attributes[i].full_text.clone());
                proof {
                    assert(others@.map_values(|x: String| x@) =~= before.map_values(
                        |s2: String| s2@,
                    ).push(attrs[i as int].full_text@));
                }
            }
            i = i + 1;
        }
        proof {
            assert(attrs.skip(n as int).len() == 0);
        }
        let ghost out = spec_extract_all(attrs);
        let ghost old_deps_self = self.dependencies@;
        let m = new_deps.len();
        let ghost pairs = deps_view(new_deps@);
        let mut j: usize = 0;
        while j < m
            invariant
                j <= m,
                m == new_deps@.len(),
                pairs == deps_view(new_deps@),
                pairs.len() == m,
                deps_view(self.dependencies@) == deps_view(old_deps_self) + pairs.take(j as int),
                old_deps_self == old(self).dependencies@,
                pairs == spec_extract_all(attrs).new_deps,
                opt_str_view(self.edition) == (match spec_extract_all(attrs).edition {
                    Some(e) => Some(e),
                    None => old_edition,
                }),
                self.resolver == old(self).resolver,
                new_deps@.map_values(|d: Dependency| (d.label@, d.tokens_str@)) == pairs,
            decreases m - j,
        {
            let ghost before = self.dependencies@;
            let d = Dependency {
                label: new_deps[j].label.clone(),
                tokens_str: new_deps[j].tokens_str.clone(),
            };
            self.dependencies.push(d);
            proof {
                assert(deps_view(self.dependencies@) =~= deps_view(before).push(
                    pairs[j as int],
                ));
                assert(deps_view(old_deps_self) + pairs.take(j + 1) =~= (deps_view(old_deps_self)
                    + pairs.take(j as int)).push(pairs[j as int]));
            }
            j = j + 1;
        }
        proof {
            assert(pairs.take(m as int) =~= pairs);
        }
        let ghost olines = others@.map_values(|x: String| x@);
        let mut joined = String::new();
        let c = others.len();
        let ghost jbefore = joined@;
        let mut t: usize = 0;
        proof {
            assert(olines.skip(0) =~= olines);
        }
        while t < c
            invariant
                t <= c,
                c == others@.len(),
                olines == others@.map_values(|x: String| x@),
                olines.len() == c,
                joined@ + join_lines_of(olines.skip(t as int)) == join_lines_of(olines),
            decreases c - t,
        {
            proof {
                assert(olines.skip(t as int)[0] == olines[t as int]);
                assert(olines.skip(t as int).drop_first() =~= olines.skip(t + 1));
            }
            joined.append(others[t].as_str());
            if t + 1 < c {
                joined.append("\n");
            }
            t = t + 1;
        }
        proof {
            assert(join_lines_of(olines.skip(c as int)) =~= Seq::<char>::empty());
        }
        Ok(joined)
    }
}

/// The position of the first attribute with the given name, or minus
/// one.
pub open spec fn attr_name_index(attrs: Seq<InlineAttr>, name: Seq<char>) -> int
    decreases attrs.len(),
{
    if attrs.len() == 0 {
        -1
    } else if attrs[0].name@ == name {
        0
    } else if attr_name_index(attrs.drop_first(), name) < 0 {
        -1
    } else {
        1 + attr_name_index(attrs.drop_first(), name)
    }
}

/// The first attribute with a name is at the index, and none stands
/// before it.
pub proof fn lemma_attr_name_index(attrs: Seq<InlineAttr>, name: Seq<char>)
    ensures
        attr_name_index(attrs, name) >= 0 ==> attr_name_index(attrs, name) < attrs.len()
            && attrs[attr_name_index(attrs, name)].name@ == name,
        forall|j: int| 0 <= j < attr_name_index(attrs, name) ==> attrs[j].name@ != name,
        attr_name_index(attrs, name) < 0 ==> forall|j: int|
            0 <= j < attrs.len() ==> attrs[j].name@ != name,
    decreases attrs.len(),
{
    if attrs.len() > 0 && attrs[0].name@ != name {
        lemma_attr_name_index(attrs.drop_first(), name);
        assert forall|j: int| 0 <= j < attr_name_index(attrs, name) implies attrs[j].name@
            != name by {
            if j > 0 {
                assert(attrs.drop_first()[j - 1] == attrs[j]);
            }
        }
        if attr_name_index(attrs, name) < 0 {
            assert forall|j: int| 0 <= j < attrs.len() implies attrs[j].name@ != name by {
                if j > 0 {
                    assert(attrs.drop_first()[j - 1] == attrs[j]);
                }
            }
        }
    }
}

/// Take the first `macro_export` attribute out of a list, where there is
/// one, and hand it back.
pub fn remove_macro_export_attribute(attrs: &mut Vec<InlineAttr>) -> (r: Option<InlineAttr>)
    ensures
        ({
            let i = attr_name_index(old(attrs)@, "macro_export"@);
            match r {
                Some(a) => i >= 0 && a == old(attrs)@[i] && final(attrs)@ == old(attrs)@.remove(
                    i,
                ),
                None => i < 0 && final(attrs)@ == old(attrs)@,
            }
        }),
{
    proof {
        lemma_attr_name_index(attrs@, "macro_export"@);
    }
    let n = attrs.len();
    let mut i: usize = 0;
    while i < n
        invariant
            i <= n,
            n == attrs@.len(),
            attrs@ == old(attrs)@,
            forall|j: int| 0 <= j < i ==> attrs@[j].name@ != "macro_export"@,
        decreases n - i,
    {
        if str_eq(attrs[i].name.as_str(), "macro_export") {
            proof {
                lemma_attr_name_index(attrs@, "macro_export"@);
                let f = attr_name_index(attrs@, "macro_export"@);
                if 0 <= f < i {
                    assert(attrs@[f].name@ != "macro_export"@);
                }
                if f > i || f < 0 {
                    assert(attrs@[i as int].name@ != "macro_export"@);
                }
            }
            let a = attrs.remove(i);
            return Some(a);
        }
        i = i + 1;
    }
    proof {
        lemma_attr_name_index(attrs@, "macro_export"@);
        if attr_name_index(attrs@, "macro_export"@) >= 0 {
            assert(attrs@[attr_name_index(attrs@, "macro_export"@)].name@ != "macro_export"@);
        }
    }
    None
}

} // verus!
