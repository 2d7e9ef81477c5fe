//! Case conversion of identifiers, recognition of wrapper types in type
//! strings, the mappings from domain types to database, diesel and SQL column
//! types, and the decision of a spec file's state from what git reports.

use vstd::prelude::*;
use crate::text::{chars_of, has_prefix_seq, has_suffix_seq, range_has_prefix, text_eq, trim_seq, trim_text, views, words_seq, words_text};
use crate::yaml::opt_text;

verus! {

/// What `heck::ToSnakeCase::to_snake_case` gives for a text.
pub uninterp spec fn heck_snake_case(s: Seq<char>) -> Seq<char>;

/// What `heck::ToUpperCamelCase::to_upper_camel_case` gives for a text.
pub uninterp spec fn heck_upper_camel_case(s: Seq<char>) -> Seq<char>;

/// Calls `heck::ToSnakeCase::to_snake_case`; the contract names its result,
/// a function of the input text alone (word splitting and lowercasing are
/// heck's and are not restated here).
#[verifier::external_body]
fn heck_to_snake(s: &str) -> (r: String)
    ensures
        r@ == heck_snake_case(s@),
{
    heck::ToSnakeCase::to_snake_case(s)
}

/// Calls `heck::ToUpperCamelCase::to_upper_camel_case`; the contract names its
/// result, a function of the input text alone.
#[verifier::external_body]
fn heck_to_upper_camel(s: &str) -> (r: String)
    ensures
        r@ == heck_upper_camel_case(s@),
{
    heck::ToUpperCamelCase::to_upper_camel_case(s)
}

/// The snake_case form of an identifier (`CamelCase` -> `camel_case`).
pub fn to_snake(s: &str) -> (r: String)
    ensures
        r@ == heck_snake_case(s@),
{
    heck_to_snake(s)
}

/// The PascalCase form of an identifier (`camel_case` -> `CamelCase`).
pub fn to_pascal(s: &str) -> (r: String)
    ensures
        r@ == heck_upper_camel_case(s@),
{
    heck_to_upper_camel(s)
}

/// The views of a list of (from, to) string pairs.
pub open spec fn pair_views(v: Seq<(String, String)>) -> Seq<(Seq<char>, Seq<char>)> {
    v.map_values(|p: (String, String)| (p.0@, p.1@))
}

/// The value of the first pair whose key is `key`.
pub open spec fn lookup_seq<V>(pairs: Seq<(Seq<char>, V)>, key: Seq<char>) -> Option<V>
    decreases pairs.len(),
{
    if pairs.len() == 0 {
        None
    } else if pairs[0].0 == key {
        Some(pairs[0].1)
    } else {
        lookup_seq(pairs.drop_first(), key)
    }
}

/// A type string of the form `Option<...>`.
pub open spec fn spec_is_option_type(t: Seq<char>) -> bool {
    has_prefix_seq(t, "Option<"@) && has_suffix_seq(t, ">"@)
}

/// `X` for `Option<X>`; any other type string unchanged.
pub open spec fn spec_unwrap_option(t: Seq<char>) -> Seq<char> {
    if spec_is_option_type(t) {
        t.subrange("Option<"@.len() as int, t.len() - 1)
    } else {
        t
    }
}

/// A type string that is `Id<...>`, directly or inside one `Option<...>`.
pub open spec fn spec_is_id_type(t: Seq<char>) -> bool {
    has_prefix_seq(spec_unwrap_option(t), "Id<"@) && has_suffix_seq(spec_unwrap_option(t), ">"@)
}

/// A type string that is `Vec<...>`, directly or inside one `Option<...>`.
pub open spec fn spec_is_vec_type(t: Seq<char>) -> bool {
    has_prefix_seq(spec_unwrap_option(t), "Vec<"@) && has_suffix_seq(spec_unwrap_option(t), ">"@)
}

/// `X` for `Id<X>` or `Option<Id<X>>`; otherwise the type with one `Option`
/// removed.
pub open spec fn spec_extract_id_inner(t: Seq<char>) -> Seq<char> {
    let inner = spec_unwrap_option(t);
    if spec_is_id_type(t) {
        inner.subrange("Id<"@.len() as int, inner.len() - 1)
    } else {
        inner
    }
}

/// The field type that the diesel model uses for a domain type.
pub open spec fn spec_db_type(t: Seq<char>, enums: Seq<Seq<char>>) -> Seq<char>
    decreases t.len(),
{
    if spec_is_option_type(t) {
        proof {
            lemma_option_shrinks(t);
        }
        "Option<"@ + spec_db_type(spec_unwrap_option(t), enums) + ">"@
    } else if spec_is_id_type(t) {
        "String"@
    } else if t == "chrono::DateTime<chrono::Utc>"@ {
        "chrono::NaiveDateTime"@
    } else if t == "chrono::NaiveDate"@ {
        "chrono::NaiveDate"@
    } else if t == "chrono::NaiveTime"@ {
        "chrono::NaiveTime"@
    } else if enums.contains(t) {
        "String"@
    } else if spec_is_vec_type(t) {
        "serde_json::Value"@
    } else {
        t
    }
}

/// The diesel column type that `table!` uses for a domain type.
pub open spec fn spec_diesel_type(
    t: Seq<char>,
    enums: Seq<Seq<char>>,
    maps: Seq<(Seq<char>, Seq<char>)>,
) -> Seq<char>
    decreases t.len(),
{
    if spec_is_option_type(t) {
        proof {
            lemma_option_shrinks(t);
        }
        "Nullable<"@ + spec_diesel_type(spec_unwrap_option(t), enums, maps) + ">"@
    } else if spec_is_id_type(t) {
        "Varchar"@
    } else if enums.contains(t) {
        "Text"@
    } else if spec_is_vec_type(t) {
        "Jsonb"@
    } else {
        match lookup_seq(maps, t) {
            Some(d) => d,
            None => "Text"@,
        }
    }
}

/// The SQL column type for a domain type; one `Option` is ignored.
pub open spec fn spec_sql_type(
    t: Seq<char>,
    enums: Seq<Seq<char>>,
    maps: Seq<(Seq<char>, Seq<char>)>,
) -> Seq<char> {
    let inner = spec_unwrap_option(t);
    if spec_is_id_type(inner) {
        "character varying(36)"@
    } else if enums.contains(inner) {
        "text"@
    } else if spec_is_vec_type(inner) {
        "jsonb"@
    } else {
        match lookup_seq(maps, inner) {
            Some(s) => s,
            None => "text"@,
        }
    }
}

/// Whether `v` ends with the character `c`.
fn ends_with_char(v: &Vec<char>, c: char) -> (r: bool)
    ensures
        r == (v.len() > 0 && v@.last() == c),
{
    v.len() > 0 && v[v.len() - 1] == c
}

proof fn lemma_single_char_suffix(t: Seq<char>, c: char)
    ensures
        has_suffix_seq(t, seq![c]) == (t.len() > 0 && t.last() == c),
{
    if t.len() > 0 {
        assert(t.skip(t.len() - 1) =~= seq![t.last()]);
        if t.skip(t.len() - 1) == seq![c] {
            assert(seq![c][0] == c);
        }
    }
}

/// Whether `v` has the form `<open>...>`, where `open` ends in `<`.
fn wrapped_in(v: &Vec<char>, open: &str) -> (r: bool)
    ensures
        r == (has_prefix_seq(v@, open@) && has_suffix_seq(v@, ">"@)),
{
    let ov = chars_of(open);
    assert(v@.subrange(0, v.len() as int) =~= v@);
    let p = range_has_prefix(v, 0, v.len(), &ov);
    proof {
        reveal_strlit(">");
        lemma_single_char_suffix(v@, '>');
        assert(">"@ =~= seq!['>']);
    }
    p && ends_with_char(v, '>')
}

/// Checks whether a type string is wrapped in `Option<...>`.
pub fn is_option_type(ty: &str) -> (r: bool)
    ensures
        r == spec_is_option_type(ty@),
{
    let v = chars_of(ty);
    wrapped_in(&v, "Option<")
}

proof fn lemma_wrapped_len(t: Seq<char>, open: Seq<char>)
    requires
        has_prefix_seq(t, open),
        has_suffix_seq(t, ">"@),
        open.len() > 0,
        open.last() != '>',
    ensures
        open.len() < t.len(),
{
    reveal_strlit(">");
    lemma_single_char_suffix(t, '>');
    assert(">"@ =~= seq!['>']);
    if open.len() == t.len() {
        assert(t.take(open.len() as int) =~= t);
        assert(t.last() == open.last());
    }
}

/// Removing an `Option` wrapper shortens a type string.
pub proof fn lemma_option_shrinks(t: Seq<char>)
    requires
        spec_is_option_type(t),
    ensures
        spec_unwrap_option(t).len() < t.len(),
{
    reveal_strlit("Option<");
    lemma_wrapped_len(t, "Option<"@);
}

/// Extracts the inner type from `Option<X>` -> `X`.
pub fn unwrap_option(ty: &str) -> (r: &str)
    ensures
        r@ == spec_unwrap_option(ty@),
{
    if is_option_type(ty) {
        let n = ty.unicode_len();
        let open = chars_of("Option<");
        proof {
            reveal_strlit("Option<");
            lemma_wrapped_len(ty@, "Option<"@);
        }
        ty.substring_char(open.len(), n - 1)
    } else {
        ty
    }
}

/// Checks whether a type string is `Id<...>`.
pub fn is_id_type(ty: &str) -> (r: bool)
    ensures
        r == spec_is_id_type(ty@),
{
    let inner = unwrap_option(ty);
    let v = chars_of(inner);
    wrapped_in(&v, "Id<")
}

/// Checks whether a type string is `Vec<...>`.
pub fn is_vec_type(ty: &str) -> (r: bool)
    ensures
        r == spec_is_vec_type(ty@),
{
    let inner = unwrap_option(ty);
    let v = chars_of(inner);
    wrapped_in(&v, "Vec<")
}

/// Extracts `X` from `Id<X>` (works on already-unwrapped-from-Option types too).
pub fn extract_id_inner(ty: &str) -> (r: &str)
    ensures
        r@ == spec_extract_id_inner(ty@),
{
    let inner = unwrap_option(ty);
    let v = chars_of(inner);
    if wrapped_in(&v, "Id<") {
        let open = chars_of("Id<");
        proof {
            reveal_strlit("Id<");
            lemma_wrapped_len(inner@, "Id<"@);
        }
        inner.substring_char(open.len(), v.len() - 1)
    } else {
        inner
    }
}

/// Whether `name` is one of `names`.
pub fn contains_text(names: &[String], name: &str) -> (r: bool)
    ensures
        r == views(names@).contains(name@),
{
    let mut i: usize = 0;
    while i < names.len()
        invariant
            i <= names.len(),
            forall|j: int| 0 <= j < i ==> names@[j]@ != name@,
        decreases names.len() - i,
    {
        if text_eq(names[i].as_str(), name) {
            assert(views(names@)[i as int] == name@);
            return true;
        }
        i = i + 1;
    }
    assert forall|j: int| 0 <= j < views(names@).len() implies views(names@)[j] != name@ by {
        assert(views(names@)[j] == names@[j]@);
    }
    false
}

/// The target of the first pair whose source is `key`.
pub fn lookup_pair(pairs: &[(String, String)], key: &str) -> (r: Option<String>)
    ensures
        match r {
            Some(s) => lookup_seq(pair_views(pairs@), key@) == Some(s@),
            None => lookup_seq(pair_views(pairs@), key@) is None,
        },
{
    let mut i: usize = 0;
    assert(pair_views(pairs@).skip(0) =~= pair_views(pairs@));
    while i < pairs.len()
        invariant
            i <= pairs.len(),
            lookup_seq(pair_views(pairs@), key@) == lookup_seq(
                pair_views(pairs@).skip(i as int),
                key@,
            ),
        decreases pairs.len() - i,
    {
        let ghost rest = pair_views(pairs@).skip(i as int);
        assert(rest[0] == (pairs@[i as int].0@, pairs@[i as int].1@));
        if text_eq(pairs[i].0.as_str(), key) {
            return Some(pairs[i].1.clone());
        }
        assert(rest.drop_first() =~= pair_views(pairs@).skip(i + 1));
        i = i + 1;
    }
    None
}

/// Maps a domain Rust type to the "flattened" DB model type used in diesel structs.
/// `Id<X>` -> `String`, enums -> `String`, `DateTime<Utc>` -> `chrono::NaiveDateTime`.
pub fn domain_type_to_db_type(rust_type: &str, enum_names: &[String]) -> (r: String)
    ensures
        r@ == spec_db_type(rust_type@, views(enum_names@)),
    decreases rust_type@.len(),
{
    if is_option_type(rust_type) {
        let inner = unwrap_option(rust_type);
        proof {
            reveal_strlit("Option<");
            lemma_wrapped_len(rust_type@, "Option<"@);
        }
        let mapped = domain_type_to_db_type(inner, enum_names);
        let mut r = "Option<".to_string();
        r.append(mapped.as_str());
        r.append(">");
        r
    } else if is_id_type(rust_type) {
        "String".to_string()
    } else if text_eq(rust_type, "chrono::DateTime<chrono::Utc>") {
        "chrono::NaiveDateTime".to_string()
    } else if text_eq(rust_type, "chrono::NaiveDate") {
        "chrono::NaiveDate".to_string()
    } else if text_eq(rust_type, "chrono::NaiveTime") {
        "chrono::NaiveTime".to_string()
    } else if contains_text(enum_names, rust_type) {
        "String".to_string()
    } else if is_vec_type(rust_type) {
        "serde_json::Value".to_string()
    } else {
        rust_type.to_string()
    }
}

/// Maps a domain Rust type to the diesel column type used in `table!` macros.
pub fn rust_type_to_diesel_type(
    rust_type: &str,
    enum_names: &[String],
    type_mappings: &[(String, String)],
) -> (r: String)
    ensures
        r@ == spec_diesel_type(rust_type@, views(enum_names@), pair_views(type_mappings@)),
    decreases rust_type@.len(),
{
    if is_option_type(rust_type) {
        let inner = unwrap_option(rust_type);
        proof {
            reveal_strlit("Option<");
            lemma_wrapped_len(rust_type@, "Option<"@);
        }
        let mapped = rust_type_to_diesel_type(inner, enum_names, type_mappings);
        let mut r = "Nullable<".to_string();
        r.append(mapped.as_str());
        r.append(">");
        r
    } else if is_id_type(rust_type) {
        "Varchar".to_string()
    } else if contains_text(enum_names, rust_type) {
        "Text".to_string()
    } else if is_vec_type(rust_type) {
        "Jsonb".to_string()
    } else {
        match lookup_pair(type_mappings, rust_type) {
            Some(d) => d,
            None => "Text".to_string(),
        }
    }
}

/// Maps a domain Rust type to a SQL column type.
pub fn rust_type_to_sql_type(
    rust_type: &str,
    enum_names: &[String],
    type_mappings: &[(String, String)],
) -> (r: String)
    ensures
        r@ == spec_sql_type(rust_type@, views(enum_names@), pair_views(type_mappings@)),
{
    let inner = unwrap_option(rust_type);
    if is_id_type(inner) {
        return "character varying(36)".to_string();
    }
    if contains_text(enum_names, inner) {
        return "text".to_string();
    }
    if is_vec_type(inner) {
        return "jsonb".to_string();
    }
    match lookup_pair(type_mappings, inner) {
        Some(s) => s,
        None => "text".to_string(),
    }
}

/// The state of a spec file relative to the last commit.
#[derive(Debug, Clone, Copy, PartialEq, Eq, Structural)]
pub enum FileState {
    New,
    Changed,
    Unchanged,
    NotExist,
}

/// The state of a file from whether it exists, its blob hash at `HEAD` (if
/// git knows it there) and the hash of its current contents.
pub open spec fn spec_file_state(exists: bool, head: Option<Seq<char>>, current: Option<Seq<char>>) -> FileState {
    if !exists {
        FileState::NotExist
    } else {
        match (head, current) {
            (None, _) => FileState::New,
            (Some(h), Some(c)) => if h != c {
                FileState::Changed
            } else {
                FileState::Unchanged
            },
            _ => FileState::New,
        }
    }
}

/// Decides a spec file's state: absent files do not exist, files unknown at
/// `HEAD` are new, and known files are changed exactly when their hashes differ.
pub fn get_file_state(exists: bool, head_hash: Option<String>, current_hash: Option<String>) -> (r: FileState)
    ensures
        r == spec_file_state(exists, opt_text(head_hash), opt_text(current_hash)),
{
    if !exists {
        return FileState::NotExist;
    }
    match (head_hash, current_hash) {
        (None, _) => FileState::New,
        (Some(h), Some(c)) => if !text_eq(h.as_str(), c.as_str()) {
            FileState::Changed
        } else {
            FileState::Unchanged
        },
        _ => FileState::New,
    }
}

/// The blob hash that a `git ls-tree -r HEAD <path>` listing gives: its third
/// word, none for an empty listing.
pub open spec fn spec_ls_tree_hash(out: Seq<char>) -> Option<Seq<char>> {
    if out.len() == 0 {
        None
    } else if words_seq(out).len() > 2 {
        Some(words_seq(out)[2])
    } else {
        None
    }
}

/// The blob hash in the output of `git ls-tree -r HEAD <path>`.
pub fn hash_from_ls_tree(stdout: &str) -> (r: Option<String>)
    ensures
        opt_text(r) == spec_ls_tree_hash(stdout@),
{
    if stdout.is_empty() {
        return None;
    }
    let words = words_text(stdout);
    if words.len() > 2 {
        assert(words@[2]@ == views(words@)[2]);
        Some(words[2].clone())
    } else {
        None
    }
}

/// The hash in the output of `git hash-object <path>`: the trimmed output,
/// none when that is empty.
pub open spec fn spec_hash_object(out: Seq<char>) -> Option<Seq<char>> {
    if trim_seq(out).len() == 0 {
        None
    } else {
        Some(trim_seq(out))
    }
}

/// The hash in the output of `git hash-object <path>`.
pub fn hash_from_hash_object(stdout: &str) -> (r: Option<String>)
    ensures
        opt_text(r) == spec_hash_object(stdout@),
{
    let t = trim_text(stdout);
    if t.unicode_len() == 0 {
        None
    } else {
        Some(t)
    }
}

/// `Option<t>`.
pub open spec fn option_of(t: Seq<char>) -> Seq<char> {
    "Option<"@ + t + ">"@
}

/// `Id<x>`.
pub open spec fn id_of(x: Seq<char>) -> Seq<char> {
    "Id<"@ + x + ">"@
}

/// A type wrapped in `Option<...>` is recognised as optional, and unwrapping
/// it gives the type back.
pub proof fn law_option_wrap_unwrap(t: Seq<char>)
    ensures
        spec_is_option_type(option_of(t)),
        spec_unwrap_option(option_of(t)) == t,
{
    reveal_strlit("Option<");
    reveal_strlit(">");
    let w = option_of(t);
    assert(w.take(7) =~= "Option<"@);
    assert(w.skip(w.len() - 1) =~= ">"@);
    assert(w.subrange(7, w.len() - 1) =~= t);
}

/// Nullability does not change the SQL column type: for a type that is not
/// itself optional, `Option<t>` maps to the same SQL type as `t`.
pub proof fn law_sql_type_ignores_option(
    t: Seq<char>,
    enums: Seq<Seq<char>>,
    maps: Seq<(Seq<char>, Seq<char>)>,
)
    requires
        !spec_is_option_type(t),
    ensures
        spec_sql_type(option_of(t), enums, maps) == spec_sql_type(t, enums, maps),
{
    law_option_wrap_unwrap(t);
}

/// The database model type of `Option<t>` is the optional database type of `t`.
pub proof fn law_db_type_option(t: Seq<char>, enums: Seq<Seq<char>>)
    ensures
        spec_db_type(option_of(t), enums) == option_of(spec_db_type(t, enums)),
{
    law_option_wrap_unwrap(t);
}

/// The diesel column type of `Option<t>` is `Nullable` of the column type of `t`.
pub proof fn law_diesel_type_option(
    t: Seq<char>,
    enums: Seq<Seq<char>>,
    maps: Seq<(Seq<char>, Seq<char>)>,
)
    ensures
        spec_diesel_type(option_of(t), enums, maps) == "Nullable<"@ + spec_diesel_type(t, enums, maps)
            + ">"@,
{
    law_option_wrap_unwrap(t);
}

/// `Id<x>` and `Option<Id<x>>` are id types whose inner type is `x`.
pub proof fn law_id_inner(x: Seq<char>)
    ensures
        spec_is_id_type(id_of(x)),
        spec_extract_id_inner(id_of(x)) == x,
        spec_is_id_type(option_of(id_of(x))),
        spec_extract_id_inner(option_of(id_of(x))) == x,
{
    reveal_strlit("Option<");
    reveal_strlit("Id<");
    reveal_strlit(">");
    let w = id_of(x);
    assert(w.take(3) =~= "Id<"@);
    assert(w.skip(w.len() - 1) =~= ">"@);
    assert(w.subrange(3, w.len() - 1) =~= x);
    assert(!has_prefix_seq(w, "Option<"@)) by {
        if has_prefix_seq(w, "Option<"@) {
            assert(w.take(7)[0] == w[0]);
        }
    }
    law_option_wrap_unwrap(w);
}

/// A spec file is processed when everything is regenerated or when it is new
/// or changed since the last commit.
pub open spec fn spec_should_process(gen_all: bool, state: FileState) -> bool {
    gen_all || state == FileState::New || state == FileState::Changed
}

/// Whether a spec file in this state is processed.
pub fn should_process(gen_all: bool, state: FileState) -> (r: bool)
    ensures
        r == spec_should_process(gen_all, state),
{
    gen_all || state == FileState::New || state == FileState::Changed
}

/// Whether a directory walk enters an entry of this name: hidden entries,
/// `target` and `node_modules` are skipped.
pub fn is_searched_entry(name: &str) -> (r: bool)
    ensures
        r == !(has_prefix_seq(name@, "."@) || name@ == "target"@ || name@ == "node_modules"@),
{
    !(crate::text::text_starts_with(name, ".") || text_eq(name, "target") || text_eq(name, "node_modules"))
}

/// The name of the Rust file generated for a table: its name in snake_case
/// with `.rs`.
pub fn rust_file_name(table_name_rust: &str) -> (r: String)
    ensures
        r@ == heck_snake_case(table_name_rust@) + ".rs"@,
{
    let mut r = to_snake(table_name_rust);
    r.append(".rs");
    r
}

/// Without `--all`, a spec file whose contents hash as at `HEAD` is skipped,
/// while a file unknown at `HEAD` or with another hash is processed; with
/// `--all` every file is processed.
pub proof fn law_only_new_or_changed_files_processed(
    exists: bool,
    head: Option<Seq<char>>,
    current: Option<Seq<char>>,
)
    ensures
        exists && head is Some && head == current ==> !spec_should_process(
            false,
            spec_file_state(exists, head, current),
        ),
        exists && head is Some && current is Some && head != current ==> spec_should_process(
            false,
            spec_file_state(exists, head, current),
        ),
        exists && head is None ==> spec_should_process(false, spec_file_state(exists, head, current)),
        spec_should_process(true, spec_file_state(exists, head, current)),
{
}

/// Any other type than the special ones (an optional or id type, the chrono
/// types `chrono::DateTime<chrono::Utc>`, `chrono::NaiveDate` and
/// `chrono::NaiveTime` exactly, an enum of the table, a `Vec`) is its own
/// database model type.
pub proof fn law_db_type_plain(t: Seq<char>, enums: Seq<Seq<char>>)
    requires
        !spec_is_option_type(t),
        !spec_is_id_type(t),
        t != "chrono::DateTime<chrono::Utc>"@,
        t != "chrono::NaiveDate"@,
        t != "chrono::NaiveTime"@,
        !enums.contains(t),
        !spec_is_vec_type(t),
    ensures
        spec_db_type(t, enums) == t,
{
}

/// The database model types of the special types that are not optional: an
/// id type is a `String`; `chrono::DateTime<chrono::Utc>` is a
/// `chrono::NaiveDateTime`; `chrono::NaiveDate` and `chrono::NaiveTime` stay;
/// an enum of the table is a `String`; a `Vec` is a `serde_json::Value`.
pub proof fn law_db_type_special(t: Seq<char>, enums: Seq<Seq<char>>)
    requires
        !spec_is_option_type(t),
    ensures
        spec_is_id_type(t) ==> spec_db_type(t, enums) == "String"@,
        !spec_is_id_type(t) && t == "chrono::DateTime<chrono::Utc>"@ ==> spec_db_type(t, enums)
            == "chrono::NaiveDateTime"@,
        !spec_is_id_type(t) && t == "chrono::NaiveDate"@ ==> spec_db_type(t, enums) == "chrono::NaiveDate"@,
        !spec_is_id_type(t) && t == "chrono::NaiveTime"@ ==> spec_db_type(t, enums) == "chrono::NaiveTime"@,
        !spec_is_id_type(t) && t != "chrono::DateTime<chrono::Utc>"@ && t != "chrono::NaiveDate"@ && t
            != "chrono::NaiveTime"@ && enums.contains(t) ==> spec_db_type(t, enums) == "String"@,
        !spec_is_id_type(t) && t != "chrono::DateTime<chrono::Utc>"@ && t != "chrono::NaiveDate"@ && t
            != "chrono::NaiveTime"@ && !enums.contains(t) && spec_is_vec_type(t) ==> spec_db_type(t, enums)
            == "serde_json::Value"@,
{
    reveal_strlit("chrono::DateTime<chrono::Utc>");
    reveal_strlit("chrono::NaiveDate");
    reveal_strlit("chrono::NaiveTime");
    assert("chrono::NaiveDate"@.len() != "chrono::DateTime<chrono::Utc>"@.len());
    assert("chrono::NaiveTime"@.len() != "chrono::DateTime<chrono::Utc>"@.len());
    assert("chrono::NaiveDate"@[13] != "chrono::NaiveTime"@[13]);
}

/// The SQL column type of a domain type, after one `Option` is removed: an
/// id type is `character varying(36)`; an enum of the table is `text`; a
/// `Vec` is `jsonb`; any other type takes its configured mapping, and `text`
/// without one.
pub proof fn law_sql_type_cases(t: Seq<char>, enums: Seq<Seq<char>>, maps: Seq<(Seq<char>, Seq<char>)>)
    ensures
        ({
            let inner = spec_unwrap_option(t);
            &&& spec_is_id_type(inner) ==> spec_sql_type(t, enums, maps) == "character varying(36)"@
            &&& !spec_is_id_type(inner) && enums.contains(inner) ==> spec_sql_type(t, enums, maps) == "text"@
            &&& !spec_is_id_type(inner) && !enums.contains(inner) && spec_is_vec_type(inner) ==> spec_sql_type(
                t,
                enums,
                maps,
            ) == "jsonb"@
            &&& !spec_is_id_type(inner) && !enums.contains(inner) && !spec_is_vec_type(inner) ==> spec_sql_type(
                t,
                enums,
                maps,
            ) == match lookup_seq(maps, inner) {
                Some(m) => m,
                None => "text"@,
            }
        }),
{
}

/// The diesel column types of types that are not optional: an id type is
/// `Varchar`; an enum of the table is `Text`; a `Vec` is `Jsonb`; any other
/// type takes its configured mapping, and `Text` without one.
pub proof fn law_diesel_type_cases(t: Seq<char>, enums: Seq<Seq<char>>, maps: Seq<(Seq<char>, Seq<char>)>)
    requires
        !spec_is_option_type(t),
    ensures
        spec_is_id_type(t) ==> spec_diesel_type(t, enums, maps) == "Varchar"@,
        !spec_is_id_type(t) && enums.contains(t) ==> spec_diesel_type(t, enums, maps) == "Text"@,
        !spec_is_id_type(t) && !enums.contains(t) && spec_is_vec_type(t) ==> spec_diesel_type(t, enums, maps)
            == "Jsonb"@,
        !spec_is_id_type(t) && !enums.contains(t) && !spec_is_vec_type(t) ==> spec_diesel_type(t, enums, maps)
            == match lookup_seq(maps, t) {
            Some(m) => m,
            None => "Text"@,
        },
{
}

} // verus!
