//! The generator's configuration (`dsl-config.toml`): where each kind of
//! output goes, which generators run, extra default fields and type mappings.

use vstd::prelude::*;
use crate::text::{chars_of, has_prefix_seq, law_replace_absent, occurs_in, replace_seq, replace_text, text_starts_with};
use crate::utils::pair_views;

verus! {

#[derive(Debug)]
pub struct AppConfig {
    pub output: OutputConfig,
    pub storage: StorageConfig,
    pub generate: GenerateConfig,
    pub type_mapping: Vec<TypeMapping>,
}

#[derive(Debug)]
pub struct OutputConfig {
    pub domain_type: String,
    pub diesel_schema: String,
    pub diesel_model: String,
    pub queries: String,
    pub sql: Vec<SqlOutputConfig>,
}

#[derive(Debug)]
pub struct SqlOutputConfig {
    pub path: String,
    pub database: String,
}

#[derive(Debug)]
pub struct StorageConfig {
    pub extra_default_fields: Vec<ExtraDefaultField>,
}

impl Default for StorageConfig {
    fn default() -> (r: StorageConfig)
        ensures
            r.extra_default_fields@.len() == 0,
    {
        StorageConfig { extra_default_fields: Vec::new() }
    }
}

/// A field that every table gets unless it declares one of that name.
#[derive(Debug)]
pub struct ExtraDefaultField {
    pub name: String,
    pub rust_type: String,
}

#[derive(Debug)]
pub struct GenerateConfig {
    pub generators: Vec<GeneratorKind>,
}

/// The kinds of output the generator can produce.
#[derive(Debug, Clone, Copy, PartialEq, Eq, Structural)]
pub enum GeneratorKind {
    DomainType,
    DieselSchema,
    DieselModel,
    Queries,
    SQL,
}

/// A user mapping from a Rust type to its SQL and diesel column types.
#[derive(Debug, Clone)]
pub struct TypeMapping {
    pub rust: String,
    pub sql: String,
    pub diesel: String,
}

/// The (name, rust type) pairs of the configured extra default fields.
pub open spec fn extra_field_views(v: Seq<ExtraDefaultField>) -> Seq<(Seq<char>, Seq<char>)> {
    v.map_values(|f: ExtraDefaultField| (f.name@, f.rust_type@))
}

/// The (rust, diesel) pairs of the type mappings, in their order.
pub open spec fn diesel_pairs(v: Seq<TypeMapping>) -> Seq<(Seq<char>, Seq<char>)> {
    v.map_values(|m: TypeMapping| (m.rust@, m.diesel@))
}

/// The (rust, sql) pairs of the type mappings, in their order.
pub open spec fn sql_pairs(v: Seq<TypeMapping>) -> Seq<(Seq<char>, Seq<char>)> {
    v.map_values(|m: TypeMapping| (m.rust@, m.sql@))
}

/// The placeholder in output paths that stands for the git root.
pub open spec fn git_root_marker() -> Seq<char> {
    "$GIT_ROOT"@
}

/// `path` joined to `root` as a path: an absolute path (one that starts with
/// `/`) stands for itself, and a relative one follows the root, with one `/`
/// between them unless the root is empty or already ends with one.
pub open spec fn joined_path(root: Seq<char>, path: Seq<char>) -> Seq<char> {
    if has_prefix_seq(path, "/"@) || root.len() == 0 {
        path
    } else if root.last() == '/' {
        root + path
    } else {
        root + "/"@ + path
    }
}

/// The output path that a configured path stands for: every `$GIT_ROOT`
/// replaced by the git root, then resolved against the git root.
pub open spec fn resolved_path(relative: Seq<char>, git_root: Seq<char>) -> Seq<char> {
    joined_path(git_root, replace_seq(relative, git_root_marker(), git_root))
}

impl AppConfig {
    /// Resolve a relative output path against the git root: every
    /// `$GIT_ROOT` in it is replaced by the root, and a path that is then
    /// still relative is joined to the root.
    pub fn resolve_path(&self, relative: &str, git_root: &str) -> (r: String)
        ensures
            r@ == resolved_path(relative@, git_root@),
    {
        let expanded = replace_text(relative, "$GIT_ROOT", git_root);
        if text_starts_with(expanded.as_str(), "/") {
            return expanded;
        }
        let root = chars_of(git_root);
        if root.len() == 0 {
            return expanded;
        }
        let mut r = git_root.to_string();
        if root[root.len() - 1] != '/' {
            r.append("/");
        }
        r.append(expanded.as_str());
        proof {
            reveal_strlit("/");
            if root@.last() == '/' {
            } else {
                assert(r@ =~= git_root@ + "/"@ + expanded@);
            }
        }
        r
    }

    /// Whether the configuration asks for this kind of output.
    pub fn should_generate(&self, kind: &GeneratorKind) -> (r: bool)
        ensures
            r == self.generate.generators@.contains(*kind),
    {
        let gens = &self.generate.generators;
        let mut i: usize = 0;
        while i < gens.len()
            invariant
                i <= gens.len(),
                gens@ == self.generate.generators@,
                forall|j: int| 0 <= j < i ==> gens@[j] != *kind,
            decreases gens.len() - i,
        {
            if gens[i] == *kind {
                assert(gens@[i as int] == *kind);
                return true;
            }
            i = i + 1;
        }
        false
    }

    /// Returns (rust_type, diesel_type) pairs for use in diesel schema generation.
    pub fn diesel_type_mappings(&self) -> (r: Vec<(String, String)>)
        ensures
            pair_views(r@) == diesel_pairs(self.type_mapping@),
    {
        let maps = &self.type_mapping;
        let mut r: Vec<(String, String)> = Vec::new();
        let mut i: usize = 0;
        while i < maps.len()
            invariant
                i <= maps.len(),
                pair_views(r@) == diesel_pairs(maps@).take(i as int),
            decreases maps.len() - i,
        {
            let a = maps[i].rust.clone();
            let b = maps[i].diesel.clone();
            assert(a@ == maps@[i as int].rust@ && b@ == maps@[i as int].diesel@);
            let ghost before = r@;
            r.push((a, b));
            assert(pair_views(r@) =~= pair_views(before).push((maps@[i as int].rust@, maps@[i as int].diesel@)));
            i = i + 1;
            assert(pair_views(r@) =~= diesel_pairs(maps@).take(i as int));
        }
        assert(diesel_pairs(maps@).take(maps.len() as int) =~= diesel_pairs(maps@));
        r
    }

    /// Returns (rust_type, sql_type) pairs for use in SQL generation.
    pub fn sql_type_mappings(&self) -> (r: Vec<(String, String)>)
        ensures
            pair_views(r@) == sql_pairs(self.type_mapping@),
    {
        let maps = &self.type_mapping;
        let mut r: Vec<(String, String)> = Vec::new();
        let mut i: usize = 0;
        while i < maps.len()
            invariant
                i <= maps.len(),
                pair_views(r@) == sql_pairs(maps@).take(i as int),
            decreases maps.len() - i,
        {
            let a = maps[i].rust.clone();
            let b = maps[i].sql.clone();
            assert(a@ == maps@[i as int].rust@ && b@ == maps@[i as int].sql@);
            let ghost before = r@;
            r.push((a, b));
            assert(pair_views(r@) =~= pair_views(before).push((maps@[i as int].rust@, maps@[i as int].sql@)));
            i = i + 1;
            assert(pair_views(r@) =~= sql_pairs(maps@).take(i as int));
        }
        assert(sql_pairs(maps@).take(maps.len() as int) =~= sql_pairs(maps@));
        r
    }
}

/// An output path that does not mention `$GIT_ROOT` is the path itself when
/// it is absolute, and the path under the git root when it is relative.
pub proof fn law_path_without_marker(relative: Seq<char>, git_root: Seq<char>)
    requires
        !occurs_in(relative, git_root_marker()),
    ensures
        resolved_path(relative, git_root) == joined_path(git_root, relative),
        has_prefix_seq(relative, "/"@) ==> resolved_path(relative, git_root) == relative,
{
    law_replace_absent(relative, git_root_marker(), git_root);
}

/// A path that starts with `$GIT_ROOT` under an absolute root lies under
/// that root: `$GIT_ROOT/x` resolves to `<root>/x`.
pub proof fn law_marker_prefix_resolves_under_root(rest: Seq<char>, git_root: Seq<char>)
    requires
        has_prefix_seq(git_root, "/"@),
        !occurs_in(rest, git_root_marker()),
    ensures
        resolved_path(git_root_marker() + rest, git_root) == git_root + rest,
{
    reveal_strlit("$GIT_ROOT");
    reveal_strlit("/");
    let s = git_root_marker() + rest;
    assert(s.take(9) =~= git_root_marker());
    assert(s.skip(9) =~= rest);
    law_replace_absent(rest, git_root_marker(), git_root);
    assert(replace_seq(s, git_root_marker(), git_root) == git_root + rest);
    let e = git_root + rest;
    assert(e.take(1) =~= git_root.take(1));
}

} // verus!
