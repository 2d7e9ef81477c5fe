//! The storage spec parser: from the YAML document of a storage spec to the
//! table definitions it declares. Every top-level mapping entry other than
//! `imports` whose value is a mapping is one model.

use vstd::prelude::*;
use crate::config::{AppConfig, extra_field_views};
use crate::text::{has_prefix_seq, split_seq, split_text, text_eq, text_starts_with, trim_seq, trim_text, views};
use crate::types::storage::{
    FieldConstraint, FieldDef, FieldView, IndexDef, IndexView, KvFunction, OrderBy, OrderByView,
    OrderDirection, QueryDef, TableDef, TypeObject, TypeObjectView, WhereClause, field_views,
    index_views, nested_views, type_views,
};
use crate::utils::{contains_text, heck_snake_case, lookup_seq, pair_views, to_snake};
use crate::yaml::{
    YamlValue, as_bool_of, as_mapping_of, as_sequence_of, as_str_of, get_str, get_str_list,
    get_str_list_of, get_str_of, map_get, map_lookup, value_text, yaml_document, yaml_document_of,
    yaml_value_to_string,
};

verus! {

/// Why a storage spec cannot be parsed.
#[derive(Debug, Clone, Copy, PartialEq, Eq, Structural)]
pub enum StorageError {
    /// The document is not a mapping.
    RootNotMapping,
    /// The text is not valid YAML.
    InvalidYaml,
}

/// The position of the first pair with key `k`.
pub open spec fn assoc_index<V>(list: Seq<(Seq<char>, V)>, k: Seq<char>) -> Option<int>
    decreases list.len(),
{
    if list.len() == 0 {
        None
    } else if list.last().0 == k && assoc_index(list.drop_last(), k) is None {
        Some(list.len() - 1)
    } else {
        assoc_index(list.drop_last(), k)
    }
}

/// The list with `k` mapped to `v`: the pair of key `k` replaced in place,
/// or a new pair at the end (as inserting into a map).
pub open spec fn assoc_insert<V>(list: Seq<(Seq<char>, V)>, k: Seq<char>, v: V) -> Seq<(Seq<char>, V)> {
    match assoc_index(list, k) {
        Some(i) => list.update(i, (k, v)),
        None => list.push((k, v)),
    }
}

/// The text of a string node, or the empty text.
pub open spec fn str_or_empty(v: YamlValue) -> Seq<char> {
    match as_str_of(v) {
        Some(s) => s,
        None => Seq::<char>::empty(),
    }
}

/// The entries of the mapping stored directly (untagged) under `key`.
pub open spec fn mapping_under(entries: Seq<(YamlValue, YamlValue)>, key: Seq<char>) -> Seq<(YamlValue, YamlValue)> {
    match map_get(entries, key) {
        Some(YamlValue::Mapping { entries: m, .. }) => m@,
        _ => Seq::<(YamlValue, YamlValue)>::empty(),
    }
}

/// The imports declared by string-to-string entries.
pub open spec fn imports_from(entries: Seq<(YamlValue, YamlValue)>) -> Seq<(Seq<char>, Seq<char>)>
    decreases entries.len(),
{
    if entries.len() == 0 {
        Seq::<(Seq<char>, Seq<char>)>::empty()
    } else {
        let prev = imports_from(entries.drop_last());
        match (as_str_of(entries.last().0), as_str_of(entries.last().1)) {
            (Some(k), Some(v)) => assoc_insert(prev, k, v),
            _ => prev,
        }
    }
}

/// The constraint that a text names, if any.
pub open spec fn constraint_of(s: Seq<char>) -> Option<FieldConstraint> {
    if s == "PrimaryKey"@ {
        Some(FieldConstraint::PrimaryKey)
    } else if s == "SecondaryKey"@ || s == "!SecondaryKey"@ {
        Some(FieldConstraint::SecondaryKey)
    } else if s == "NotNull"@ {
        Some(FieldConstraint::NotNull)
    } else {
        None
    }
}

/// The field constraints declared by the entries; unknown ones are skipped.
pub open spec fn constraints_from(entries: Seq<(YamlValue, YamlValue)>) -> Seq<(Seq<char>, FieldConstraint)>
    decreases entries.len(),
{
    if entries.len() == 0 {
        Seq::<(Seq<char>, FieldConstraint)>::empty()
    } else {
        let prev = constraints_from(entries.drop_last());
        match constraint_of(str_or_empty(entries.last().1)) {
            Some(c) => assoc_insert(prev, str_or_empty(entries.last().0), c),
            None => prev,
        }
    }
}

/// The default values declared by the entries.
pub open spec fn defaults_from(entries: Seq<(YamlValue, YamlValue)>) -> Seq<(Seq<char>, Seq<char>)>
    decreases entries.len(),
{
    if entries.len() == 0 {
        Seq::<(Seq<char>, Seq<char>)>::empty()
    } else {
        assoc_insert(
            defaults_from(entries.drop_last()),
            str_or_empty(entries.last().0),
            value_text(entries.last().1),
        )
    }
}

/// The imports of a storage spec (its `imports` mapping).
pub open spec fn spec_imports(root: Seq<(YamlValue, YamlValue)>) -> Seq<(Seq<char>, Seq<char>)> {
    imports_from(mapping_under(root, "imports"@))
}

/// The constraints of a model (its `constraints` mapping).
pub open spec fn spec_constraints(model: Seq<(YamlValue, YamlValue)>) -> Seq<(Seq<char>, FieldConstraint)> {
    constraints_from(mapping_under(model, "constraints"@))
}

/// The defaults of a model (its `default` mapping).
pub open spec fn spec_defaults(model: Seq<(YamlValue, YamlValue)>) -> Seq<(Seq<char>, Seq<char>)> {
    defaults_from(mapping_under(model, "default"@))
}

/// The field that a `fields` entry declares.
pub open spec fn field_of(
    k: YamlValue,
    v: YamlValue,
    cons: Seq<(Seq<char>, FieldConstraint)>,
    defs: Seq<(Seq<char>, Seq<char>)>,
) -> FieldView {
    let name = str_or_empty(k);
    let ty = str_or_empty(v);
    FieldView {
        field_name: name,
        field_name_snake: heck_snake_case(name),
        rust_type: ty,
        is_nullable: has_prefix_seq(ty, "Option<"@),
        is_primary_key: lookup_seq(cons, name) == Some(FieldConstraint::PrimaryKey),
        default_value: lookup_seq(defs, name),
    }
}

/// The fields that a model's `fields` mapping declares, in order.
pub open spec fn spec_yaml_fields(
    model: Seq<(YamlValue, YamlValue)>,
    cons: Seq<(Seq<char>, FieldConstraint)>,
    defs: Seq<(Seq<char>, Seq<char>)>,
) -> Seq<FieldView> {
    mapping_under(model, "fields"@).map_values(
        |e: (YamlValue, YamlValue)| field_of(e.0, e.1, cons, defs),
    )
}

/// Inserts `k` mapped to `v` into an association list of strings.
fn assoc_put_text(list: &mut Vec<(String, String)>, k: String, v: String)
    ensures
        pair_views(final(list)@) == assoc_insert(pair_views(old(list)@), k@, v@),
{
    let ghost old_list = pair_views(list@);
    let mut i: usize = 0;
    while i < list.len()
        invariant
            i <= list.len(),
            list@ == old(list)@,
            old_list == pair_views(list@),
            assoc_index(old_list.take(i as int), k@) is None,
        decreases list.len() - i,
    {
        assert(old_list.take(i + 1).drop_last() =~= old_list.take(i as int));
        if crate::text::text_eq(list[i].0.as_str(), k.as_str()) {
            proof {
                lemma_assoc_index_prefix(old_list, k@, i as int);
            }
            let ghost kv = k@;
            let ghost vv = v@;
            list.set(i, (k, v));
            assert(pair_views(list@) =~= old_list.update(i as int, (kv, vv)));
            return;
        }
        i = i + 1;
    }
    assert(old_list.take(list.len() as int) =~= old_list);
    let ghost kv = k@;
    let ghost vv = v@;
    list.push((k, v));
    assert(pair_views(list@) =~= old_list.push((kv, vv)));
}

/// If the first `i` pairs lack key `k` and pair `i` has it, `k` is first at `i`.
proof fn lemma_assoc_index_prefix<V>(list: Seq<(Seq<char>, V)>, k: Seq<char>, i: int)
    requires
        0 <= i < list.len(),
        assoc_index(list.take(i), k) is None,
        list[i].0 == k,
    ensures
        assoc_index(list, k) == Some(i),
    decreases list.len(),
{
    if i == list.len() - 1 {
        assert(list.drop_last() =~= list.take(i));
    } else {
        assert(list.drop_last().take(i) =~= list.take(i));
        lemma_assoc_index_prefix(list.drop_last(), k, i);
    }
}

/// The keyed views of an association list of constraints.
pub open spec fn constraint_views(v: Seq<(String, FieldConstraint)>) -> Seq<(Seq<char>, FieldConstraint)> {
    v.map_values(|p: (String, FieldConstraint)| (p.0@, p.1))
}

/// Inserts `k` mapped to `c` into an association list of constraints.
fn assoc_put_constraint(list: &mut Vec<(String, FieldConstraint)>, k: String, c: FieldConstraint)
    ensures
        constraint_views(final(list)@) == assoc_insert(constraint_views(old(list)@), k@, c),
{
    let ghost old_list = constraint_views(list@);
    let mut i: usize = 0;
    while i < list.len()
        invariant
            i <= list.len(),
            list@ == old(list)@,
            old_list == constraint_views(list@),
            assoc_index(old_list.take(i as int), k@) is None,
        decreases list.len() - i,
    {
        assert(old_list.take(i + 1).drop_last() =~= old_list.take(i as int));
        if crate::text::text_eq(list[i].0.as_str(), k.as_str()) {
            proof {
                lemma_assoc_index_prefix(old_list, k@, i as int);
            }
            let ghost kv = k@;
            list.set(i, (k, c));
            assert(constraint_views(list@) =~= old_list.update(i as int, (kv, c)));
            return;
        }
        i = i + 1;
    }
    assert(old_list.take(list.len() as int) =~= old_list);
    let ghost kv = k@;
    list.push((k, c));
    assert(constraint_views(list@) =~= old_list.push((kv, c)));
}

/// The text of a string node, or the empty text.
fn text_or_empty(v: &YamlValue) -> (r: String)
    ensures
        r@ == str_or_empty(*v),
{
    match v.as_str() {
        Some(s) => s.to_string(),
        None => String::new(),
    }
}

/// The entries of the mapping stored directly under `key`, if there is one.
fn mapping_entries<'a>(entries: &'a Vec<(YamlValue, YamlValue)>, key: &str) -> (r: Option<&'a Vec<(YamlValue, YamlValue)>>)
    ensures
        match r {
            Some(m) => mapping_under(entries@, key@) == m@,
            None => mapping_under(entries@, key@) == Seq::<(YamlValue, YamlValue)>::empty(),
        },
{
    match map_lookup(entries, key) {
        Some(YamlValue::Mapping { entries: m, .. }) => Some(m),
        _ => None,
    }
}

/// Parses the `imports` mapping of a storage spec.
pub fn parse_imports(root: &Vec<(YamlValue, YamlValue)>) -> (r: Vec<(String, String)>)
    ensures
        pair_views(r@) == spec_imports(root@),
{
    let mut imports: Vec<(String, String)> = Vec::new();
    match mapping_entries(root, "imports") {
        Some(map) => {
            let mut i: usize = 0;
            assert(map@.take(0) =~= Seq::<(YamlValue, YamlValue)>::empty());
            while i < map.len()
                invariant
                    i <= map.len(),
                    pair_views(imports@) == imports_from(map@.take(i as int)),
                decreases map.len() - i,
            {
                assert(map@.take(i + 1).drop_last() =~= map@.take(i as int));
                assert(map@.take(i + 1).last() == map@[i as int]);
                match (map[i].0.as_str(), map[i].1.as_str()) {
                    (Some(k), Some(v)) => {
                        assoc_put_text(&mut imports, k.to_string(), v.to_string());
                    },
                    _ => {},
                }
                i = i + 1;
            }
            assert(map@.take(map.len() as int) =~= map@);
        },
        None => {},
    }
    imports
}

/// Parses the `constraints` mapping of a model.
pub fn parse_constraints(model: &Vec<(YamlValue, YamlValue)>) -> (r: Vec<(String, FieldConstraint)>)
    ensures
        constraint_views(r@) == spec_constraints(model@),
{
    let mut out: Vec<(String, FieldConstraint)> = Vec::new();
    match mapping_entries(model, "constraints") {
        Some(cmap) => {
            let mut i: usize = 0;
            assert(cmap@.take(0) =~= Seq::<(YamlValue, YamlValue)>::empty());
            while i < cmap.len()
                invariant
                    i <= cmap.len(),
                    constraint_views(out@) == constraints_from(cmap@.take(i as int)),
                decreases cmap.len() - i,
            {
                assert(cmap@.take(i + 1).drop_last() =~= cmap@.take(i as int));
                assert(cmap@.take(i + 1).last() == cmap@[i as int]);
                let field = text_or_empty(&cmap[i].0);
                let cs = text_or_empty(&cmap[i].1);
                let constraint = if crate::text::text_eq(cs.as_str(), "PrimaryKey") {
                    Some(FieldConstraint::PrimaryKey)
                } else if crate::text::text_eq(cs.as_str(), "SecondaryKey")
                    || crate::text::text_eq(cs.as_str(), "!SecondaryKey") {
                    Some(FieldConstraint::SecondaryKey)
                } else if crate::text::text_eq(cs.as_str(), "NotNull") {
                    Some(FieldConstraint::NotNull)
                } else {
                    None
                };
                assert(constraint == constraint_of(cs@));
                match constraint {
                    Some(c) => assoc_put_constraint(&mut out, field, c),
                    None => {},
                }
                i = i + 1;
            }
            assert(cmap@.take(cmap.len() as int) =~= cmap@);
        },
        None => {},
    }
    out
}

/// Parses the `default` mapping of a model.
pub fn parse_defaults(model: &Vec<(YamlValue, YamlValue)>) -> (r: Vec<(String, String)>)
    ensures
        pair_views(r@) == spec_defaults(model@),
{
    let mut out: Vec<(String, String)> = Vec::new();
    match mapping_entries(model, "default") {
        Some(dmap) => {
            let mut i: usize = 0;
            assert(dmap@.take(0) =~= Seq::<(YamlValue, YamlValue)>::empty());
            while i < dmap.len()
                invariant
                    i <= dmap.len(),
                    pair_views(out@) == defaults_from(dmap@.take(i as int)),
                decreases dmap.len() - i,
            {
                assert(dmap@.take(i + 1).drop_last() =~= dmap@.take(i as int));
                assert(dmap@.take(i + 1).last() == dmap@[i as int]);
                let field = text_or_empty(&dmap[i].0);
                let val = yaml_value_to_string(&dmap[i].1);
                assoc_put_text(&mut out, field, val);
                i = i + 1;
            }
            assert(dmap@.take(dmap.len() as int) =~= dmap@);
        },
        None => {},
    }
    out
}

/// The value of the first constraint for `name`.
fn lookup_constraint(list: &Vec<(String, FieldConstraint)>, name: &str) -> (r: Option<FieldConstraint>)
    ensures
        r == lookup_seq(constraint_views(list@), name@),
{
    let mut i: usize = 0;
    assert(constraint_views(list@).skip(0) =~= constraint_views(list@));
    while i < list.len()
        invariant
            i <= list.len(),
            lookup_seq(constraint_views(list@), name@) == lookup_seq(
                constraint_views(list@).skip(i as int),
                name@,
            ),
        decreases list.len() - i,
    {
        let ghost rest = constraint_views(list@).skip(i as int);
        assert(rest[0] == (list@[i as int].0@, list@[i as int].1));
        if crate::text::text_eq(list[i].0.as_str(), name) {
            return Some(list[i].1);
        }
        assert(rest.drop_first() =~= constraint_views(list@).skip(i + 1));
        i = i + 1;
    }
    None
}

/// Parses the `fields` mapping of a model.
pub fn parse_fields(
    model: &Vec<(YamlValue, YamlValue)>,
    constraints: &Vec<(String, FieldConstraint)>,
    defaults: &Vec<(String, String)>,
) -> (r: Vec<FieldDef>)
    ensures
        field_views(r@) == spec_yaml_fields(model@, constraint_views(constraints@), pair_views(defaults@)),
{
    let ghost cons = constraint_views(constraints@);
    let ghost defs = pair_views(defaults@);
    let mut fields: Vec<FieldDef> = Vec::new();
    let ghost src = mapping_under(model@, "fields"@);
    match mapping_entries(model, "fields") {
        Some(map) => {
            let mut i: usize = 0;
            while i < map.len()
                invariant
                    i <= map.len(),
                    src == map@,
                    cons == constraint_views(constraints@),
                    defs == pair_views(defaults@),
                    field_views(fields@) == src.take(i as int).map_values(
                        |e: (YamlValue, YamlValue)| field_of(e.0, e.1, cons, defs),
                    ),
                decreases map.len() - i,
            {
                let name = text_or_empty(&map[i].0);
                let rust_type = text_or_empty(&map[i].1);
                let snake = to_snake(name.as_str());
                let is_nullable = text_starts_with(rust_type.as_str(), "Option<");
                let is_pk = match lookup_constraint(constraints, name.as_str()) {
                    Some(FieldConstraint::PrimaryKey) => true,
                    _ => false,
                };
                let default_value = crate::utils::lookup_pair(defaults.as_slice(), name.as_str());
                let f = FieldDef {
                    field_name: name,
                    field_name_snake: snake,
                    rust_type,
                    is_nullable,
                    is_primary_key: is_pk,
                    default_value,
                };
                assert(f@ == field_of(map@[i as int].0, map@[i as int].1, cons, defs));
                let ghost before = field_views(fields@);
                fields.push(f);
                assert(field_views(fields@) =~= before.push(f@));
                i = i + 1;
                assert(field_views(fields@) =~= src.take(i as int).map_values(
                    |e: (YamlValue, YamlValue)| field_of(e.0, e.1, cons, defs),
                ));
            }
            assert(src.take(map.len() as int) =~= src);
        },
        None => {
            assert(field_views(fields@) =~= src.map_values(
                |e: (YamlValue, YamlValue)| field_of(e.0, e.1, cons, defs),
            ));
        },
    }
    fields
}

/// The pieces of a comma-separated list, each trimmed.
pub open spec fn trimmed_pieces(s: Seq<char>) -> Seq<Seq<char>> {
    split_seq(s, ',').map_values(|p: Seq<char>| trim_seq(p))
}

/// The non-empty texts, in order.
pub open spec fn nonempty_texts(ps: Seq<Seq<char>>) -> Seq<Seq<char>>
    decreases ps.len(),
{
    if ps.len() == 0 {
        Seq::<Seq<char>>::empty()
    } else if ps.last().len() > 0 {
        nonempty_texts(ps.drop_last()).push(ps.last())
    } else {
        nonempty_texts(ps.drop_last())
    }
}

/// The pieces of a comma-separated list, each trimmed.
pub fn trimmed_list(s: &str) -> (r: Vec<String>)
    ensures
        views(r@) == trimmed_pieces(s@),
{
    let pieces = split_text(s, ',');
    let ghost want = trimmed_pieces(s@);
    let mut out: Vec<String> = Vec::new();
    let mut i: usize = 0;
    while i < pieces.len()
        invariant
            i <= pieces.len(),
            views(pieces@) == split_seq(s@, ','),
            want == trimmed_pieces(s@),
            views(out@) == want.take(i as int),
        decreases pieces.len() - i,
    {
        let t = trim_text(pieces[i].as_str());
        let ghost before = views(out@);
        out.push(t);
        assert(views(out@) =~= before.push(t@));
        assert(views(pieces@)[i as int] == pieces@[i as int]@);
        i = i + 1;
        assert(views(out@) =~= want.take(i as int));
    }
    assert(want.take(pieces.len() as int) =~= want);
    out
}

/// The enum type that a `types` entry declares, if it declares one.
pub open spec fn type_of(k: YamlValue, v: YamlValue) -> Option<TypeObjectView> {
    match as_mapping_of(v) {
        Some(inner) => match get_str_of(inner, "enum"@) {
            Some(vs) => Some(
                TypeObjectView {
                    name: str_or_empty(k),
                    variants: nonempty_texts(trimmed_pieces(vs)),
                    is_enum: true,
                    derives: match get_str_of(inner, "derive"@) {
                        Some(d) => trimmed_pieces(d),
                        None => Seq::<Seq<char>>::empty(),
                    },
                },
            ),
            None => None,
        },
        None => None,
    }
}

/// The enum types that `types` entries declare, in order.
pub open spec fn types_from(entries: Seq<(YamlValue, YamlValue)>) -> Seq<TypeObjectView>
    decreases entries.len(),
{
    if entries.len() == 0 {
        Seq::<TypeObjectView>::empty()
    } else {
        match type_of(entries.last().0, entries.last().1) {
            Some(t) => types_from(entries.drop_last()).push(t),
            None => types_from(entries.drop_last()),
        }
    }
}

/// The enum types of a model (its `types` mapping).
pub open spec fn spec_types(model: Seq<(YamlValue, YamlValue)>) -> Seq<TypeObjectView> {
    types_from(mapping_under(model, "types"@))
}

/// Parses the `types` mapping of a model: its enum types.
pub fn parse_types(model: &Vec<(YamlValue, YamlValue)>) -> (r: Vec<TypeObject>)
    ensures
        type_views(r@) == spec_types(model@),
{
    let mut result: Vec<TypeObject> = Vec::new();
    match mapping_entries(model, "types") {
        Some(map) => {
            let mut i: usize = 0;
            assert(map@.take(0) =~= Seq::<(YamlValue, YamlValue)>::empty());
            while i < map.len()
                invariant
                    i <= map.len(),
                    type_views(result@) == types_from(map@.take(i as int)),
                decreases map.len() - i,
            {
                assert(map@.take(i + 1).drop_last() =~= map@.take(i as int));
                assert(map@.take(i + 1).last() == map@[i as int]);
                let name = text_or_empty(&map[i].0);
                match map[i].1.as_mapping() {
                    Some(inner) => {
                        let enum_str = get_str(inner, "enum");
                        let extra_derives = match get_str(inner, "derive") {
                            Some(d) => trimmed_list(d.as_str()),
                            None => Vec::new(),
                        };
                        match enum_str {
                            Some(variants_str) => {
                                let pieces = trimmed_list(variants_str.as_str());
                                let variants = nonempty_only(&pieces);
                                let t = TypeObject {
                                    name,
                                    variants,
                                    is_enum: true,
                                    derives: extra_derives,
                                };
                                assert(t@.variants =~= nonempty_texts(trimmed_pieces(variants_str@)));
                                assert(t@.derives =~= match get_str_of(inner@, "derive"@) {
                                    Some(d) => trimmed_pieces(d),
                                    None => Seq::<Seq<char>>::empty(),
                                });
                                let ghost before = type_views(result@);
                                result.push(t);
                                assert(type_views(result@) =~= before.push(t@));
                            },
                            None => {},
                        }
                    },
                    None => {},
                }
                i = i + 1;
            }
            assert(map@.take(map.len() as int) =~= map@);
        },
        None => {},
    }
    result
}

/// The non-empty texts, in order.
fn nonempty_only(ps: &Vec<String>) -> (r: Vec<String>)
    ensures
        views(r@) == nonempty_texts(views(ps@)),
{
    let mut out: Vec<String> = Vec::new();
    let mut i: usize = 0;
    assert(views(ps@).take(0) =~= Seq::<Seq<char>>::empty());
    while i < ps.len()
        invariant
            i <= ps.len(),
            views(out@) == nonempty_texts(views(ps@).take(i as int)),
        decreases ps.len() - i,
    {
        assert(views(ps@).take(i + 1).drop_last() =~= views(ps@).take(i as int));
        assert(views(ps@).take(i + 1).last() == ps@[i as int]@);
        if ps[i].unicode_len() > 0 {
            let t = ps[i].clone();
            let ghost before = views(out@);
            out.push(t);
            assert(views(out@) =~= before.push(t@));
        }
        i = i + 1;
    }
    assert(views(ps@).take(ps.len() as int) =~= views(ps@));
    out
}

/// The index that an `extraIndexes` item declares, if it is a mapping.
pub open spec fn index_of_item(item: YamlValue) -> Option<IndexView> {
    match as_mapping_of(item) {
        Some(obj) => Some(
            IndexView {
                columns: get_str_list_of(obj, "columns"@),
                unique: match map_get(obj, "unique"@) {
                    Some(u) => match as_bool_of(u) {
                        Some(b) => b,
                        None => false,
                    },
                    None => false,
                },
            },
        ),
        None => None,
    }
}

/// The indexes that the items declare, in order.
pub open spec fn indexes_from(items: Seq<YamlValue>) -> Seq<IndexView>
    decreases items.len(),
{
    if items.len() == 0 {
        Seq::<IndexView>::empty()
    } else {
        match index_of_item(items.last()) {
            Some(x) => indexes_from(items.drop_last()).push(x),
            None => indexes_from(items.drop_last()),
        }
    }
}

/// The extra indexes of a model (its `extraIndexes` sequence).
pub open spec fn spec_indexes(model: Seq<(YamlValue, YamlValue)>) -> Seq<IndexView> {
    match map_get(model, "extraIndexes"@) {
        Some(YamlValue::Sequence { items, .. }) => indexes_from(items@),
        _ => Seq::<IndexView>::empty(),
    }
}

/// Parses the `extraIndexes` sequence of a model.
pub fn parse_extra_indexes(model: &Vec<(YamlValue, YamlValue)>) -> (r: Vec<IndexDef>)
    ensures
        index_views(r@) == spec_indexes(model@),
{
    let mut indexes: Vec<IndexDef> = Vec::new();
    match map_lookup(model, "extraIndexes") {
        Some(YamlValue::Sequence { items: seq, .. }) => {
            let mut i: usize = 0;
            assert(seq@.take(0) =~= Seq::<YamlValue>::empty());
            while i < seq.len()
                invariant
                    i <= seq.len(),
                    index_views(indexes@) == indexes_from(seq@.take(i as int)),
                decreases seq.len() - i,
            {
                assert(seq@.take(i + 1).drop_last() =~= seq@.take(i as int));
                assert(seq@.take(i + 1).last() == seq@[i as int]);
                match seq[i].as_mapping() {
                    Some(obj) => {
                        let columns = get_str_list(obj, "columns");
                        let unique = match map_lookup(obj, "unique") {
                            Some(u) => match u.as_bool() {
                                Some(b) => b,
                                None => false,
                            },
                            None => false,
                        };
                        let x = IndexDef { columns, unique };
                        let ghost before = index_views(indexes@);
                        indexes.push(x);
                        assert(index_views(indexes@) =~= before.push(x@));
                    },
                    None => {},
                }
                i = i + 1;
            }
            assert(seq@.take(seq.len() as int) =~= seq@);
        },
        _ => {},
    }
    indexes
}

/// The items of the sequence under `key` of a mapping, if there is one.
pub open spec fn sequence_under(entries: Seq<(YamlValue, YamlValue)>, key: Seq<char>) -> Option<Seq<YamlValue>> {
    match map_get(entries, key) {
        Some(v) => as_sequence_of(v),
        None => None,
    }
}

/// `w` is the condition that the YAML node `val` describes: a string is a
/// condition of its own; a mapping is an `and` of the conditions of its `and`
/// sequence, else an `or` of those of its `or` sequence, else an `in` over the
/// strings of its `in` sequence, else empty; any other node is empty.
pub open spec fn where_value_of(w: WhereClause, val: YamlValue) -> bool
    decreases w,
{
    match val {
        YamlValue::String(s) => w == WhereClause::Leaf(s),
        YamlValue::Mapping { entries, .. } => match sequence_under(entries@, "and"@) {
            Some(items) => match w {
                WhereClause::And(ws) => ws.len() == items.len() && forall|i: int|
                    0 <= i < items.len() ==> where_value_of(#[trigger] ws@[i], items[i]),
                _ => false,
            },
            None => match sequence_under(entries@, "or"@) {
                Some(items) => match w {
                    WhereClause::Or(ws) => ws.len() == items.len() && forall|i: int|
                        0 <= i < items.len() ==> where_value_of(#[trigger] ws@[i], items[i]),
                    _ => false,
                },
                None => match sequence_under(entries@, "in"@) {
                    Some(items) => match w {
                        WhereClause::In(names) => views(names@) == crate::yaml::strs_of(items),
                        _ => false,
                    },
                    None => w is Empty,
                },
            },
        },
        _ => w is Empty,
    }
}

/// `w` is the condition of a query definition: that of its `where` entry,
/// or empty without one.
pub open spec fn where_clause_of(w: WhereClause, qdef: Seq<(YamlValue, YamlValue)>) -> bool {
    match map_get(qdef, "where"@) {
        Some(v) => where_value_of(w, v),
        None => w is Empty,
    }
}

/// Parses a condition from its YAML node.
pub fn parse_where_value(val: &YamlValue) -> (r: WhereClause)
    ensures
        where_value_of(r, *val),
    decreases val,
{
    match val {
        YamlValue::String(s) => WhereClause::Leaf(s.clone()),
        YamlValue::Mapping { entries: map, .. } => {
            match map_lookup(map, "and") {
                Some(and_val) => match and_val.as_sequence() {
                    Some(seq) => {
                        proof {
                            lemma_nested_smaller(val, "and"@, seq@);
                        }
                        let clauses = parse_where_list(val, seq);
                        return WhereClause::And(clauses);
                    },
                    None => {},
                },
                None => {},
            }
            match map_lookup(map, "or") {
                Some(or_val) => match or_val.as_sequence() {
                    Some(seq) => {
                        proof {
                            lemma_nested_smaller(val, "or"@, seq@);
                        }
                        let clauses = parse_where_list(val, seq);
                        return WhereClause::Or(clauses);
                    },
                    None => {},
                },
                None => {},
            }
            match map_lookup(map, "in") {
                Some(in_val) => match in_val.as_sequence() {
                    Some(seq) => {
                        let fields = crate::yaml::strings_in(seq);
                        return WhereClause::In(fields);
                    },
                    None => {},
                },
                None => {},
            }
            WhereClause::Empty
        },
        _ => WhereClause::Empty,
    }
}

/// Parses the conditions of the items of a sequence nested in `parent`.
fn parse_where_list(parent: &YamlValue, seq: &Vec<YamlValue>) -> (r: Vec<WhereClause>)
    requires
        forall|i: int| 0 <= i < seq@.len() ==> decreases_to!(*parent => #[trigger] seq@[i]),
    ensures
        r.len() == seq.len(),
        forall|i: int| 0 <= i < seq.len() ==> where_value_of(#[trigger] r@[i], seq@[i]),
    decreases parent, 0nat,
{
    let mut clauses: Vec<WhereClause> = Vec::new();
    let mut i: usize = 0;
    while i < seq.len()
        invariant
            i <= seq.len(),
            clauses.len() == i,
            forall|k: int| 0 <= k < seq@.len() ==> decreases_to!(*parent => #[trigger] seq@[k]),
            forall|k: int| 0 <= k < i ==> where_value_of(#[trigger] clauses@[k], seq@[k]),
        decreases seq.len() - i,
    {
        assert(decreases_to!(*parent => seq@[i as int]));
        let c = parse_where_value(&seq[i]);
        clauses.push(c);
        i = i + 1;
    }
    clauses
}

/// The value found under a key is the value of one of the entries.
proof fn lemma_map_get_member(entries: Seq<(YamlValue, YamlValue)>, key: Seq<char>)
    requires
        map_get(entries, key) is Some,
    ensures
        exists|j: int| 0 <= j < entries.len() && entries[j].1 == map_get(entries, key)->0,
    decreases entries.len(),
{
    if !key_is_first(entries, key) {
        lemma_map_get_member(entries.drop_first(), key);
        let j = choose|j: int| 0 <= j < entries.drop_first().len() && entries.drop_first()[j].1
            == map_get(entries.drop_first(), key)->0;
        assert(entries[j + 1] == entries.drop_first()[j]);
    } else {
        assert(entries[0].1 == map_get(entries, key)->0);
    }
}

spec fn key_is_first(entries: Seq<(YamlValue, YamlValue)>, key: Seq<char>) -> bool {
    entries.len() > 0 && crate::yaml::key_is(entries[0].0, key)
}

/// The items of a sequence node, under any tags, are smaller than the node.
proof fn lemma_sequence_items_smaller(v: YamlValue, items: Seq<YamlValue>)
    requires
        as_sequence_of(v) == Some(items),
    ensures
        forall|i: int| 0 <= i < items.len() ==> decreases_to!(v => #[trigger] items[i]),
    decreases v,
{
    match v {
        YamlValue::Tagged { value, .. } => {
            lemma_sequence_items_smaller(*value, items);
            assert forall|i: int| 0 <= i < items.len() implies decreases_to!(v => #[trigger] items[i]) by {
                assert(decreases_to!(v => *value));
                assert(decreases_to!(*value => items[i]));
            }
        },
        YamlValue::Sequence { items: it, .. } => {
            assert forall|i: int| 0 <= i < items.len() implies decreases_to!(v => #[trigger] items[i]) by {
                assert(decreases_to!(v => it));
                assert(decreases_to!(it => it@));
                assert(decreases_to!(it@ => it@[i]));
            }
        },
        _ => {},
    }
}

/// Items of a sequence found under a key of a mapping node are smaller than
/// the mapping node.
proof fn lemma_nested_smaller(parent: &YamlValue, key: Seq<char>, items: Seq<YamlValue>)
    requires
        parent matches YamlValue::Mapping { entries, .. } && map_get(entries@, key) matches Some(
            child,
        ) && as_sequence_of(child) == Some(items),
    ensures
        forall|i: int| 0 <= i < items.len() ==> decreases_to!(*parent => #[trigger] items[i]),
{
    if let YamlValue::Mapping { entries, .. } = parent {
        let child = map_get(entries@, key)->0;
        lemma_map_get_member(entries@, key);
        let j = choose|j: int| 0 <= j < entries@.len() && entries@[j].1 == child;
        lemma_sequence_items_smaller(child, items);
        assert forall|i: int| 0 <= i < items.len() implies decreases_to!(*parent => #[trigger] items[i]) by {
            assert(decreases_to!(*parent => *entries));
            assert(decreases_to!(*entries => entries@));
            assert(decreases_to!(entries@ => entries@[j]));
            assert(decreases_to!(entries@[j] => entries@[j].1));
            assert(decreases_to!(child => items[i]));
        }
    }
}

/// The key-value function that a `kvFunction` text names; unknown names
/// (and none) give `FindOne`.
pub open spec fn kv_function_of(s: Seq<char>) -> KvFunction {
    if s == "findOneWithKV"@ || s == "findOne"@ {
        KvFunction::FindOne
    } else if s == "findOnePartialWithKV"@ || s == "findOnePartial"@ {
        KvFunction::FindOnePartial
    } else if s == "findAllWithKV"@ || s == "findAllWithOptionsKV"@ || s == "findAll"@ {
        KvFunction::FindAll
    } else if s == "findAllPartialWithKV"@ || s == "findAllPartial"@ {
        KvFunction::FindAllPartial
    } else if s == "updateWithKV"@ || s == "update"@ || s == "updateManyWithKV"@ {
        KvFunction::Update
    } else if s == "updateOneWithKV"@ || s == "updateOne"@ {
        KvFunction::UpdateOne
    } else if s == "deleteWithKV"@ || s == "delete"@ {
        KvFunction::Delete
    } else {
        KvFunction::FindOne
    }
}

/// The key-value function that a `kvFunction` text names.
pub fn kv_function_from(s: &str) -> (r: KvFunction)
    ensures
        r == kv_function_of(s@),
{
    if text_eq(s, "findOneWithKV") || text_eq(s, "findOne") {
        KvFunction::FindOne
    } else if text_eq(s, "findOnePartialWithKV") || text_eq(s, "findOnePartial") {
        KvFunction::FindOnePartial
    } else if text_eq(s, "findAllWithKV") || text_eq(s, "findAllWithOptionsKV") || text_eq(
        s,
        "findAll",
    ) {
        KvFunction::FindAll
    } else if text_eq(s, "findAllPartialWithKV") || text_eq(s, "findAllPartial") {
        KvFunction::FindAllPartial
    } else if text_eq(s, "updateWithKV") || text_eq(s, "update") || text_eq(s, "updateManyWithKV") {
        KvFunction::Update
    } else if text_eq(s, "updateOneWithKV") || text_eq(s, "updateOne") {
        KvFunction::UpdateOne
    } else if text_eq(s, "deleteWithKV") || text_eq(s, "delete") {
        KvFunction::Delete
    } else {
        KvFunction::FindOne
    }
}

/// The ordering that an `orderBy` text gives: descending on the field after a
/// leading `-`, ascending on the whole text otherwise.
pub open spec fn order_of(s: Option<Seq<char>>) -> Option<OrderByView> {
    match s {
        Some(t) => if has_prefix_seq(t, "-"@) {
            Some(OrderByView { field: t.drop_first(), direction: OrderDirection::Desc })
        } else {
            Some(OrderByView { field: t, direction: OrderDirection::Asc })
        },
        None => None,
    }
}

/// The view of an optional ordering.
pub open spec fn order_view(o: Option<OrderBy>) -> Option<OrderByView> {
    match o {
        Some(x) => Some(x@),
        None => None,
    }
}

/// `q` is the query that the entry with key `k` and definition `qdef` declares.
pub open spec fn query_of(q: QueryDef, k: YamlValue, qdef: Seq<(YamlValue, YamlValue)>) -> bool {
    &&& q.name@ == str_or_empty(k)
    &&& q.name_snake@ == heck_snake_case(str_or_empty(k))
    &&& q.kv_function == kv_function_of(
        match get_str_of(qdef, "kvFunction"@) {
            Some(s) => s,
            None => Seq::<char>::empty(),
        },
    )
    &&& views(q.params@) == get_str_list_of(qdef, "params"@)
    &&& where_clause_of(q.where_clause, qdef)
    &&& order_view(q.order_by) == order_of(get_str_of(qdef, "orderBy"@))
}

/// The (key, definition) pairs of the `queries` entries whose value is a
/// mapping, in order.
pub open spec fn query_sources_from(entries: Seq<(YamlValue, YamlValue)>) -> Seq<(YamlValue, Seq<(YamlValue, YamlValue)>)>
    decreases entries.len(),
{
    if entries.len() == 0 {
        Seq::<(YamlValue, Seq<(YamlValue, YamlValue)>)>::empty()
    } else {
        match as_mapping_of(entries.last().1) {
            Some(m) => query_sources_from(entries.drop_last()).push((entries.last().0, m)),
            None => query_sources_from(entries.drop_last()),
        }
    }
}

/// The query sources of a model (its `queries` mapping).
pub open spec fn spec_query_sources(model: Seq<(YamlValue, YamlValue)>) -> Seq<(YamlValue, Seq<(YamlValue, YamlValue)>)> {
    query_sources_from(mapping_under(model, "queries"@))
}

/// The queries are those that the sources declare, one for one.
pub open spec fn queries_of(qs: Seq<QueryDef>, srcs: Seq<(YamlValue, Seq<(YamlValue, YamlValue)>)>) -> bool {
    &&& qs.len() == srcs.len()
    &&& forall|i: int| 0 <= i < qs.len() ==> query_of(#[trigger] qs[i], srcs[i].0, srcs[i].1)
}

/// Parses the `where` entry of a query definition.
pub fn parse_where_clause(qdef: &Vec<(YamlValue, YamlValue)>) -> (r: WhereClause)
    ensures
        where_clause_of(r, qdef@),
{
    match map_lookup(qdef, "where") {
        Some(v) => parse_where_value(v),
        None => WhereClause::Empty,
    }
}

/// Parses a query definition.
fn parse_query(k: &YamlValue, qdef: &Vec<(YamlValue, YamlValue)>) -> (q: QueryDef)
    ensures
        query_of(q, *k, qdef@),
{
    let name = text_or_empty(k);
    let name_snake = to_snake(name.as_str());
    let kv_fn_str = match get_str(qdef, "kvFunction") {
        Some(s) => s,
        None => String::new(),
    };
    let kv_function = kv_function_from(kv_fn_str.as_str());
    let params = get_str_list(qdef, "params");
    let where_clause = parse_where_clause(qdef);
    let order_by = match get_str(qdef, "orderBy") {
        Some(s) => {
            if text_starts_with(s.as_str(), "-") {
                let n = s.unicode_len();
                proof {
                    reveal_strlit("-");
                }
                let field = s.as_str().substring_char(1, n).to_string();
                assert(field@ =~= s@.drop_first());
                Some(OrderBy { field, direction: OrderDirection::Desc })
            } else {
                Some(OrderBy { field: s, direction: OrderDirection::Asc })
            }
        },
        None => None,
    };
    QueryDef { name, name_snake, kv_function, params, where_clause, order_by }
}

/// Parses the `queries` mapping of a model.
pub fn parse_queries(model: &Vec<(YamlValue, YamlValue)>) -> (r: Vec<QueryDef>)
    ensures
        queries_of(r@, spec_query_sources(model@)),
{
    let mut queries: Vec<QueryDef> = Vec::new();
    let ghost src = mapping_under(model@, "queries"@);
    match mapping_entries(model, "queries") {
        Some(qmap) => {
            let mut i: usize = 0;
            assert(qmap@.take(0) =~= Seq::<(YamlValue, YamlValue)>::empty());
            while i < qmap.len()
                invariant
                    i <= qmap.len(),
                    src == qmap@,
                    queries_of(queries@, query_sources_from(qmap@.take(i as int))),
                decreases qmap.len() - i,
            {
                assert(qmap@.take(i + 1).drop_last() =~= qmap@.take(i as int));
                assert(qmap@.take(i + 1).last() == qmap@[i as int]);
                match qmap[i].1.as_mapping() {
                    Some(qdef) => {
                        let q = parse_query(&qmap[i].0, qdef);
                        queries.push(q);
                    },
                    None => {},
                }
                i = i + 1;
            }
            assert(qmap@.take(qmap.len() as int) =~= qmap@);
        },
        None => {},
    }
    queries
}

/// The derives used when a model declares none.
pub open spec fn default_derives() -> Seq<Seq<char>> {
    seq!["Debug"@, "Clone"@, "Serialize"@, "Deserialize"@]
}

/// The derives of a model: its comma-separated `derives`, or the defaults.
pub open spec fn spec_derives(model: Seq<(YamlValue, YamlValue)>) -> Seq<Seq<char>> {
    match get_str_of(model, "derives"@) {
        Some(s) => trimmed_pieces(s),
        None => default_derives(),
    }
}

/// The SQL table name of a model: its `tableName`, or its name in snake_case.
pub open spec fn spec_table_sql_name(name: Seq<char>, model: Seq<(YamlValue, YamlValue)>) -> Seq<char> {
    match get_str_of(model, "tableName"@) {
        Some(s) => s,
        None => heck_snake_case(name),
    }
}

/// Some field has this name.
pub open spec fn has_field_named(fs: Seq<FieldView>, name: Seq<char>) -> bool {
    exists|i: int| 0 <= i < fs.len() && #[trigger] fs[i].field_name == name
}

/// The field added for a configured extra default field.
pub open spec fn extra_field(name: Seq<char>, ty: Seq<char>) -> FieldView {
    FieldView {
        field_name: name,
        field_name_snake: heck_snake_case(name),
        rust_type: ty,
        is_nullable: has_prefix_seq(ty, "Option<"@),
        is_primary_key: false,
        default_value: Some("CURRENT_TIMESTAMP"@),
    }
}

/// The fields followed by each configured extra default field whose name no
/// field has yet.
pub open spec fn with_extras(fs: Seq<FieldView>, extras: Seq<(Seq<char>, Seq<char>)>) -> Seq<FieldView>
    decreases extras.len(),
{
    if extras.len() == 0 {
        fs
    } else {
        let prev = with_extras(fs, extras.drop_last());
        if has_field_named(prev, extras.last().0) {
            prev
        } else {
            prev.push(extra_field(extras.last().0, extras.last().1))
        }
    }
}

/// The names that carry constraint `c`, in order.
pub open spec fn keys_with(cons: Seq<(Seq<char>, FieldConstraint)>, c: FieldConstraint) -> Seq<Seq<char>>
    decreases cons.len(),
{
    if cons.len() == 0 {
        Seq::<Seq<char>>::empty()
    } else if cons.last().1 == c {
        keys_with(cons.drop_last(), c).push(cons.last().0)
    } else {
        keys_with(cons.drop_last(), c)
    }
}

/// The field, marked as part of the primary key if its name is a key column.
pub open spec fn mark_primary(f: FieldView, pk: Seq<Seq<char>>) -> FieldView {
    FieldView {
        field_name: f.field_name,
        field_name_snake: f.field_name_snake,
        rust_type: f.rust_type,
        is_nullable: f.is_nullable,
        is_primary_key: f.is_primary_key || pk.contains(f.field_name),
        default_value: f.default_value,
    }
}

/// The fields of a model: those of its `fields` mapping, then the extra
/// default fields it lacks, each marked if it is a primary key column.
pub open spec fn spec_fields(
    model: Seq<(YamlValue, YamlValue)>,
    extras: Seq<(Seq<char>, Seq<char>)>,
) -> Seq<FieldView> {
    let cons = spec_constraints(model);
    let defs = spec_defaults(model);
    let pk = keys_with(cons, FieldConstraint::PrimaryKey);
    with_extras(spec_yaml_fields(model, cons, defs), extras).map_values(
        |f: FieldView| mark_primary(f, pk),
    )
}

/// `t` is the table that the model `name` with definition `model` declares,
/// given the spec's imports and the configured extra default fields.
pub open spec fn table_of(
    t: TableDef,
    name: Seq<char>,
    model: Seq<(YamlValue, YamlValue)>,
    imports: Seq<(Seq<char>, Seq<char>)>,
    extras: Seq<(Seq<char>, Seq<char>)>,
) -> bool {
    let cons = spec_constraints(model);
    &&& t.table_name_rust@ == name
    &&& t.table_name_sql@ == spec_table_sql_name(name, model)
    &&& field_views(t.fields@) == spec_fields(model, extras)
    &&& type_views(t.types@) == spec_types(model)
    &&& pair_views(t.imports@) == imports
    &&& queries_of(t.queries@, spec_query_sources(model))
    &&& views(t.primary_key@) == keys_with(cons, FieldConstraint::PrimaryKey)
    &&& nested_views(t.secondary_keys@) == keys_with(cons, FieldConstraint::SecondaryKey).map_values(
        |k: Seq<char>| seq![k],
    )
    &&& views(t.derives@) == spec_derives(model)
    &&& pair_views(t.defaults@) == spec_defaults(model)
    &&& index_views(t.extra_indexes@) == spec_indexes(model)
}

/// The names that carry constraint `c`, in order.
fn constraint_keys(cons: &Vec<(String, FieldConstraint)>, c: FieldConstraint) -> (r: Vec<String>)
    ensures
        views(r@) == keys_with(constraint_views(cons@), c),
{
    let ghost cv = constraint_views(cons@);
    let mut r: Vec<String> = Vec::new();
    let mut i: usize = 0;
    assert(cv.take(0) =~= Seq::<(Seq<char>, FieldConstraint)>::empty());
    while i < cons.len()
        invariant
            i <= cons.len(),
            cv == constraint_views(cons@),
            views(r@) == keys_with(cv.take(i as int), c),
        decreases cons.len() - i,
    {
        assert(cv.take(i + 1).drop_last() =~= cv.take(i as int));
        assert(cv.take(i + 1).last() == (cons@[i as int].0@, cons@[i as int].1));
        if cons[i].1 == c {
            let k = cons[i].0.clone();
            let ghost before = views(r@);
            r.push(k);
            assert(views(r@) =~= before.push(k@));
        }
        i = i + 1;
    }
    assert(cv.take(cons.len() as int) =~= cv);
    r
}

/// A copy of an association list of strings.
fn copy_pairs(v: &Vec<(String, String)>) -> (r: Vec<(String, String)>)
    ensures
        pair_views(r@) == pair_views(v@),
{
    let mut r: Vec<(String, String)> = Vec::new();
    let mut i: usize = 0;
    while i < v.len()
        invariant
            i <= v.len(),
            pair_views(r@) == pair_views(v@).take(i as int),
        decreases v.len() - i,
    {
        let a = v[i].0.clone();
        let b = v[i].1.clone();
        let ghost before = pair_views(r@);
        r.push((a, b));
        assert(pair_views(r@) =~= before.push((v@[i as int].0@, v@[i as int].1@)));
        i = i + 1;
        assert(pair_views(r@) =~= pair_views(v@).take(i as int));
    }
    assert(pair_views(v@).take(v.len() as int) =~= pair_views(v@));
    r
}

/// Whether some field has this name.
fn any_field_named(fields: &Vec<FieldDef>, name: &str) -> (r: bool)
    ensures
        r == has_field_named(field_views(fields@), name@),
{
    let mut i: usize = 0;
    while i < fields.len()
        invariant
            i <= fields.len(),
            forall|j: int| 0 <= j < i ==> fields@[j].field_name@ != name@,
        decreases fields.len() - i,
    {
        if text_eq(fields[i].field_name.as_str(), name) {
            assert(field_views(fields@)[i as int].field_name == name@);
            return true;
        }
        i = i + 1;
    }
    assert forall|j: int| 0 <= j < field_views(fields@).len() implies #[trigger] field_views(fields@)[j].field_name != name@ by {
        assert(field_views(fields@)[j] == fields@[j]@);
    }
    false
}

/// Parse one model of a storage spec into its table definition.
pub fn parse_single_model(
    model_name: &str,
    model: &Vec<(YamlValue, YamlValue)>,
    imports: &Vec<(String, String)>,
    config: &AppConfig,
) -> (r: TableDef)
    ensures
        table_of(
            r,
            model_name@,
            model@,
            pair_views(imports@),
            extra_field_views(config.storage.extra_default_fields@),
        ),
{
    let table_name_sql = match get_str(model, "tableName") {
        Some(s) => s,
        None => to_snake(model_name),
    };
    let derives = match get_str(model, "derives") {
        Some(s) => trimmed_list(s.as_str()),
        None => {
            let v = vec![
                "Debug".to_string(),
                "Clone".to_string(),
                "Serialize".to_string(),
                "Deserialize".to_string(),
            ];
            assert(views(v@) =~= default_derives());
            v
        },
    };
    let types = parse_types(model);
    let constraints = parse_constraints(model);
    let defaults = parse_defaults(model);
    let extra_indexes = parse_extra_indexes(model);
    let mut fields = parse_fields(model, &constraints, &defaults);
    let ghost cons = constraint_views(constraints@);
    let ghost defs = pair_views(defaults@);
    let ghost yaml_fields = spec_yaml_fields(model@, cons, defs);
    let extras = &config.storage.extra_default_fields;
    let ghost ex = extra_field_views(extras@);
    let mut e: usize = 0;
    assert(ex.take(0) =~= Seq::<(Seq<char>, Seq<char>)>::empty());
    while e < extras.len()
        invariant
            e <= extras.len(),
            ex == extra_field_views(extras@),
            field_views(fields@) == with_extras(yaml_fields, ex.take(e as int)),
        decreases extras.len() - e,
    {
        let edf = &extras[e];
        assert(ex.take(e + 1).drop_last() =~= ex.take(e as int));
        assert(ex.take(e + 1).last() == (edf.name@, edf.rust_type@));
        if !any_field_named(&fields, edf.name.as_str()) {
            let name = edf.name.clone();
            let snake = to_snake(name.as_str());
            let is_nullable = text_starts_with(edf.rust_type.as_str(), "Option<");
            let f = FieldDef {
                field_name: name,
                field_name_snake: snake,
                rust_type: edf.rust_type.clone(),
                is_nullable,
                is_primary_key: false,
                default_value: Some("CURRENT_TIMESTAMP".to_string()),
            };
            assert(f@ == extra_field(edf.name@, edf.rust_type@));
            let ghost before = field_views(fields@);
            fields.push(f);
            assert(field_views(fields@) =~= before.push(f@));
        }
        e = e + 1;
    }
    assert(ex.take(extras.len() as int) =~= ex);
    let primary_key = constraint_keys(&constraints, FieldConstraint::PrimaryKey);
    let ghost pk = views(primary_key@);
    let ghost unmarked = field_views(fields@);
    let mut i: usize = 0;
    while i < fields.len()
        invariant
            i <= fields.len(),
            unmarked.len() == fields.len(),
            pk == views(primary_key@),
            forall|j: int| 0 <= j < i ==> #[trigger] field_views(fields@)[j] == mark_primary(unmarked[j], pk),
            forall|j: int| i <= j < fields.len() ==> #[trigger] field_views(fields@)[j] == unmarked[j],
        decreases fields.len() - i,
    {
        let ghost before = fields@;
        assert(field_views(fields@)[i as int] == unmarked[i as int]);
        assert(field_views(fields@)[i as int] == fields@[i as int]@);
        let is_key = contains_text(primary_key.as_slice(), fields[i].field_name.as_str());
        assert(is_key == pk.contains(unmarked[i as int].field_name));
        if is_key {
            fields[i].is_primary_key = true;
        }
        assert(fields@.len() == before.len());
        assert(fields@[i as int].field_name == before[i as int].field_name);
        assert(fields@[i as int].is_primary_key == (before[i as int].is_primary_key || is_key));
        assert(forall|j: int| 0 <= j < fields@.len() && j != i ==> fields@[j] == before[j]);
        assert(field_views(fields@)[i as int] == mark_primary(unmarked[i as int], pk));
        assert forall|j: int| 0 <= j < fields@.len() && j != i implies #[trigger] field_views(fields@)[j] == field_views(before)[j] by {
            assert(fields@[j] == before[j]);
        }
        i = i + 1;
    }
    assert(field_views(fields@) =~= unmarked.map_values(|f: FieldView| mark_primary(f, pk)));
    let sk_names = constraint_keys(&constraints, FieldConstraint::SecondaryKey);
    let mut secondary_keys: Vec<Vec<String>> = Vec::new();
    let ghost want_sk = views(sk_names@).map_values(|k: Seq<char>| seq![k]);
    let mut k: usize = 0;
    while k < sk_names.len()
        invariant
            k <= sk_names.len(),
            want_sk == views(sk_names@).map_values(|k: Seq<char>| seq![k]),
            nested_views(secondary_keys@) == want_sk.take(k as int),
        decreases sk_names.len() - k,
    {
        let one = vec![sk_names[k].clone()];
        let ghost before = nested_views(secondary_keys@);
        assert(views(one@) =~= seq![sk_names@[k as int]@]);
        secondary_keys.push(one);
        assert(nested_views(secondary_keys@) =~= before.push(seq![sk_names@[k as int]@]));
        k = k + 1;
        assert(nested_views(secondary_keys@) =~= want_sk.take(k as int));
    }
    assert(want_sk.take(sk_names.len() as int) =~= want_sk);
    let queries = parse_queries(model);
    TableDef {
        table_name_rust: model_name.to_string(),
        table_name_sql,
        fields,
        types,
        imports: copy_pairs(imports),
        queries,
        primary_key,
        secondary_keys,
        derives,
        defaults,
        extra_indexes,
    }
}

/// The (name, definition) of each model: every entry of the document with a
/// string key other than `imports` and a mapping value, in order.
pub open spec fn model_sources_from(entries: Seq<(YamlValue, YamlValue)>) -> Seq<(Seq<char>, Seq<(YamlValue, YamlValue)>)>
    decreases entries.len(),
{
    if entries.len() == 0 {
        Seq::<(Seq<char>, Seq<(YamlValue, YamlValue)>)>::empty()
    } else {
        let prev = model_sources_from(entries.drop_last());
        match (as_str_of(entries.last().0), as_mapping_of(entries.last().1)) {
            (Some(name), Some(m)) => if name == "imports"@ {
                prev
            } else {
                prev.push((name, m))
            },
            _ => prev,
        }
    }
}

/// The tables are those that the models of the document declare, one for one.
pub open spec fn tables_of(
    ts: Seq<TableDef>,
    root: Seq<(YamlValue, YamlValue)>,
    extras: Seq<(Seq<char>, Seq<char>)>,
) -> bool {
    let srcs = model_sources_from(root);
    &&& ts.len() == srcs.len()
    &&& forall|i: int|
        0 <= i < ts.len() ==> table_of(#[trigger] ts[i], srcs[i].0, srcs[i].1, spec_imports(root), extras)
}

/// The result of parsing a storage spec document: an error exactly when it
/// is not a mapping, otherwise the tables of its models.
pub open spec fn storage_parsed(
    r: Result<Vec<TableDef>, StorageError>,
    root: YamlValue,
    extras: Seq<(Seq<char>, Seq<char>)>,
) -> bool {
    match r {
        Ok(ts) => as_mapping_of(root) matches Some(m) && tables_of(ts@, m, extras),
        Err(e) => e == StorageError::RootNotMapping && as_mapping_of(root) is None,
    }
}

/// Parse a storage spec document into a list of TableDefs.
/// A single document can define multiple models (like Seat.yaml defines Seat, SeatLayout, etc.).
pub fn parse_storage_yaml(root: &YamlValue, config: &AppConfig) -> (r: Result<Vec<TableDef>, StorageError>)
    ensures
        storage_parsed(r, *root, extra_field_views(config.storage.extra_default_fields@)),
{
    let root_map = match root.as_mapping() {
        Some(m) => m,
        None => return Err(StorageError::RootNotMapping),
    };
    let imports = parse_imports(root_map);
    let ghost extras = extra_field_views(config.storage.extra_default_fields@);
    let ghost imps = spec_imports(root_map@);
    let mut tables: Vec<TableDef> = Vec::new();
    let mut i: usize = 0;
    assert(root_map@.take(0) =~= Seq::<(YamlValue, YamlValue)>::empty());
    while i < root_map.len()
        invariant
            i <= root_map.len(),
            extras == extra_field_views(config.storage.extra_default_fields@),
            imps == spec_imports(root_map@),
            pair_views(imports@) == imps,
            tables.len() == model_sources_from(root_map@.take(i as int)).len(),
            forall|j: int|
                0 <= j < tables.len() ==> table_of(
                    #[trigger] tables@[j],
                    model_sources_from(root_map@.take(i as int))[j].0,
                    model_sources_from(root_map@.take(i as int))[j].1,
                    imps,
                    extras,
                ),
        decreases root_map.len() - i,
    {
        assert(root_map@.take(i + 1).drop_last() =~= root_map@.take(i as int));
        assert(root_map@.take(i + 1).last() == root_map@[i as int]);
        let ghost prev = model_sources_from(root_map@.take(i as int));
        let key = &root_map[i].0;
        let value = &root_map[i].1;
        match key.as_str() {
            Some(model_name) => {
                if !text_eq(model_name, "imports") {
                    match value.as_mapping() {
                        Some(model_map) => {
                            let table = parse_single_model(model_name, model_map, &imports, config);
                            tables.push(table);
                        },
                        None => {},
                    }
                }
            },
            None => {},
        }
        i = i + 1;
    }
    assert(root_map@.take(root_map.len() as int) =~= root_map@);
    Ok(tables)
}

/// The fields before the extra default fields stay as they are, the added
/// ones are not key columns, and every extra default field's name ends up
/// among the fields.
proof fn lemma_with_extras_shape(fs: Seq<FieldView>, extras: Seq<(Seq<char>, Seq<char>)>)
    ensures
        with_extras(fs, extras).len() >= fs.len(),
        forall|i: int| 0 <= i < fs.len() ==> #[trigger] with_extras(fs, extras)[i] == fs[i],
        forall|i: int|
            fs.len() <= i < with_extras(fs, extras).len() ==> !(#[trigger] with_extras(
                fs,
                extras,
            )[i]).is_primary_key,
        forall|k: int|
            0 <= k < extras.len() ==> has_field_named(with_extras(fs, extras), #[trigger] extras[k].0),
    decreases extras.len(),
{
    if extras.len() > 0 {
        let prev = with_extras(fs, extras.drop_last());
        lemma_with_extras_shape(fs, extras.drop_last());
        let r = with_extras(fs, extras);
        assert forall|k: int| 0 <= k < extras.len() implies has_field_named(r, #[trigger] extras[k].0) by {
            if k < extras.len() - 1 {
                assert(extras.drop_last()[k] == extras[k]);
                let j = choose|j: int| 0 <= j < prev.len() && #[trigger] prev[j].field_name == extras[k].0;
                assert(r[j] == prev[j]);
            } else if !has_field_named(prev, extras.last().0) {
                assert(r[prev.len() as int].field_name == extras[k].0);
            }
        }
    }
}

/// A name that maps to `v` has a pair `(name, v)`.
proof fn lemma_lookup_member<V>(cons: Seq<(Seq<char>, V)>, k: Seq<char>)
    requires
        lookup_seq(cons, k) is Some,
    ensures
        exists|j: int| 0 <= j < cons.len() && #[trigger] cons[j] == (k, lookup_seq(cons, k)->0),
    decreases cons.len(),
{
    if cons[0].0 != k {
        lemma_lookup_member(cons.drop_first(), k);
        let j = choose|j: int| 0 <= j < cons.drop_first().len() && #[trigger] cons.drop_first()[j] == (
            k,
            lookup_seq(cons.drop_first(), k)->0,
        );
        assert(cons[j + 1] == cons.drop_first()[j]);
    } else {
        assert(cons[0] == (k, lookup_seq(cons, k)->0));
    }
}

/// The names that carry constraint `c` are exactly those of the pairs `(name, c)`.
proof fn lemma_keys_with_contains(cons: Seq<(Seq<char>, FieldConstraint)>, c: FieldConstraint, k: Seq<char>)
    ensures
        keys_with(cons, c).contains(k) <==> exists|j: int|
            0 <= j < cons.len() && #[trigger] cons[j] == (k, c),
    decreases cons.len(),
{
    if cons.len() > 0 {
        let prev = cons.drop_last();
        lemma_keys_with_contains(prev, c, k);
        if exists|j: int| 0 <= j < cons.len() && #[trigger] cons[j] == (k, c) {
            let j = choose|j: int| 0 <= j < cons.len() && #[trigger] cons[j] == (k, c);
            if j < cons.len() - 1 {
                assert(prev[j] == cons[j]);
                let w = keys_with(prev, c);
                let m = choose|m: int| 0 <= m < w.len() && w[m] == k;
                if cons.last().1 == c {
                    assert(keys_with(cons, c)[m] == k);
                }
            } else {
                assert(keys_with(cons, c).last() == k);
            }
        } else if keys_with(cons, c).contains(k) {
            let w = keys_with(cons, c);
            let m = choose|m: int| 0 <= m < w.len() && w[m] == k;
            if cons.last().1 == c && m == w.len() - 1 {
                assert(cons[cons.len() - 1] == (k, c));
            } else {
                assert(keys_with(prev, c)[m] == k);
                let j = choose|j: int| 0 <= j < prev.len() && #[trigger] prev[j] == (k, c);
                assert(cons[j] == prev[j]);
            }
        }
    }
}

/// Every configured extra default field is among a parsed table's fields.
pub proof fn law_extra_fields_present(
    t: TableDef,
    name: Seq<char>,
    model: Seq<(YamlValue, YamlValue)>,
    imports: Seq<(Seq<char>, Seq<char>)>,
    extras: Seq<(Seq<char>, Seq<char>)>,
)
    requires
        table_of(t, name, model, imports, extras),
    ensures
        forall|k: int|
            0 <= k < extras.len() ==> has_field_named(field_views(t.fields@), #[trigger] extras[k].0),
{
    let cons = spec_constraints(model);
    let pk = keys_with(cons, FieldConstraint::PrimaryKey);
    let base = spec_yaml_fields(model, cons, spec_defaults(model));
    let w = with_extras(base, extras);
    lemma_with_extras_shape(base, extras);
    assert forall|k: int| 0 <= k < extras.len() implies has_field_named(
        field_views(t.fields@),
        #[trigger] extras[k].0,
    ) by {
        assert(has_field_named(w, extras[k].0));
        let j = choose|j: int| 0 <= j < w.len() && #[trigger] w[j].field_name == extras[k].0;
        assert(field_views(t.fields@) == w.map_values(|f: FieldView| mark_primary(f, pk)));
        assert(field_views(t.fields@)[j] == mark_primary(w[j], pk));
        assert(field_views(t.fields@)[j].field_name == extras[k].0);
    }
}

/// In a parsed table, a field is marked as a primary key column exactly when
/// its name is one of the table's primary key columns.
pub proof fn law_primary_key_marking(
    t: TableDef,
    name: Seq<char>,
    model: Seq<(YamlValue, YamlValue)>,
    imports: Seq<(Seq<char>, Seq<char>)>,
    extras: Seq<(Seq<char>, Seq<char>)>,
)
    requires
        table_of(t, name, model, imports, extras),
    ensures
        forall|i: int|
            0 <= i < t.fields@.len() ==> (#[trigger] field_views(t.fields@)[i]).is_primary_key
                == views(t.primary_key@).contains(field_views(t.fields@)[i].field_name),
{
    let cons = spec_constraints(model);
    let defs = spec_defaults(model);
    let pk = keys_with(cons, FieldConstraint::PrimaryKey);
    let base = spec_yaml_fields(model, cons, defs);
    let w = with_extras(base, extras);
    lemma_with_extras_shape(base, extras);
    assert forall|i: int| 0 <= i < t.fields@.len() implies (#[trigger] field_views(t.fields@)[i]).is_primary_key
        == views(t.primary_key@).contains(field_views(t.fields@)[i].field_name) by {
        let f = w[i];
        assert(field_views(t.fields@) == w.map_values(|g: FieldView| mark_primary(g, pk)));
        assert(field_views(t.fields@).len() == w.len());
        assert(field_views(t.fields@)[i] == mark_primary(f, pk));
        if f.is_primary_key {
            assert(i < base.len());
            let e = mapping_under(model, "fields"@)[i];
            assert(f == field_of(e.0, e.1, cons, defs));
            lemma_lookup_member(cons, f.field_name);
            lemma_keys_with_contains(cons, FieldConstraint::PrimaryKey, f.field_name);
        }
    }
}

/// No key occurs twice in the list.
pub open spec fn keys_unique<V>(list: Seq<(Seq<char>, V)>) -> bool {
    forall|i: int, j: int| 0 <= i < j < list.len() ==> list[i].0 != list[j].0
}

/// The position of a key holds that key; without a position, no pair has it.
proof fn lemma_assoc_index<V>(list: Seq<(Seq<char>, V)>, k: Seq<char>)
    ensures
        match assoc_index(list, k) {
            Some(i) => 0 <= i < list.len() && list[i].0 == k,
            None => forall|j: int| 0 <= j < list.len() ==> list[j].0 != k,
        },
    decreases list.len(),
{
    if list.len() > 0 {
        lemma_assoc_index(list.drop_last(), k);
        match assoc_index(list.drop_last(), k) {
            Some(i) => {
                assert(list[i] == list.drop_last()[i]);
            },
            None => {
                assert forall|j: int| 0 <= j < list.len() - 1 implies list[j].0 != k by {
                    assert(list[j] == list.drop_last()[j]);
                }
            },
        }
    }
}

/// Inserting into a list without repeated keys keeps it so.
proof fn lemma_assoc_insert_unique<V>(list: Seq<(Seq<char>, V)>, k: Seq<char>, v: V)
    requires
        keys_unique(list),
    ensures
        keys_unique(assoc_insert(list, k, v)),
{
    lemma_assoc_index(list, k);
    let r = assoc_insert(list, k, v);
    assert forall|i: int, j: int| 0 <= i < j < r.len() implies r[i].0 != r[j].0 by {
        match assoc_index(list, k) {
            Some(p) => {
                if i != p && j != p {
                    assert(r[i] == list[i] && r[j] == list[j]);
                }
            },
            None => {
                if j < list.len() {
                    assert(r[i] == list[i] && r[j] == list[j]);
                }
            },
        }
    }
}

proof fn lemma_imports_unique(entries: Seq<(YamlValue, YamlValue)>)
    ensures
        keys_unique(imports_from(entries)),
    decreases entries.len(),
{
    if entries.len() > 0 {
        lemma_imports_unique(entries.drop_last());
        if let (Some(k), Some(v)) = (as_str_of(entries.last().0), as_str_of(entries.last().1)) {
            lemma_assoc_insert_unique(imports_from(entries.drop_last()), k, v);
        }
    }
}

proof fn lemma_defaults_unique(entries: Seq<(YamlValue, YamlValue)>)
    ensures
        keys_unique(defaults_from(entries)),
    decreases entries.len(),
{
    if entries.len() > 0 {
        lemma_defaults_unique(entries.drop_last());
        lemma_assoc_insert_unique(
            defaults_from(entries.drop_last()),
            str_or_empty(entries.last().0),
            value_text(entries.last().1),
        );
    }
}

proof fn lemma_constraints_unique(entries: Seq<(YamlValue, YamlValue)>)
    ensures
        keys_unique(constraints_from(entries)),
    decreases entries.len(),
{
    if entries.len() > 0 {
        lemma_constraints_unique(entries.drop_last());
        if let Some(c) = constraint_of(str_or_empty(entries.last().1)) {
            lemma_assoc_insert_unique(constraints_from(entries.drop_last()), str_or_empty(entries.last().0), c);
        }
    }
}

/// In every parsed table, imports, defaults and constraints map each name at
/// most once, as maps do; a name is a primary key column at most once.
pub proof fn law_parsed_maps_have_unique_keys(
    ts: Seq<TableDef>,
    root: Seq<(YamlValue, YamlValue)>,
    extras: Seq<(Seq<char>, Seq<char>)>,
)
    requires
        tables_of(ts, root, extras),
    ensures
        forall|i: int|
            0 <= i < ts.len() ==> keys_unique(pair_views((#[trigger] ts[i]).imports@))
                && keys_unique(pair_views(ts[i].defaults@)),
        forall|i: int| 0 <= i < ts.len() ==> views((#[trigger] ts[i]).primary_key@).no_duplicates(),
{
    lemma_imports_unique(mapping_under(root, "imports"@));
    let srcs = model_sources_from(root);
    assert forall|i: int| 0 <= i < ts.len() implies keys_unique(pair_views((#[trigger] ts[i]).imports@))
        && keys_unique(pair_views(ts[i].defaults@)) by {
        lemma_defaults_unique(mapping_under(srcs[i].1, "default"@));
    }
    assert forall|i: int| 0 <= i < ts.len() implies views((#[trigger] ts[i]).primary_key@).no_duplicates() by {
        let cons = spec_constraints(srcs[i].1);
        lemma_constraints_unique(mapping_under(srcs[i].1, "constraints"@));
        lemma_keys_with_distinct(cons, FieldConstraint::PrimaryKey);
    }
}

/// Over a list without repeated keys, the keys carrying a constraint are distinct.
proof fn lemma_keys_with_distinct(cons: Seq<(Seq<char>, FieldConstraint)>, c: FieldConstraint)
    requires
        keys_unique(cons),
    ensures
        keys_with(cons, c).no_duplicates(),
    decreases cons.len(),
{
    if cons.len() > 0 {
        let prev = cons.drop_last();
        assert(keys_unique(prev)) by {
            assert forall|i: int, j: int| 0 <= i < j < prev.len() implies prev[i].0 != prev[j].0 by {
                assert(prev[i] == cons[i] && prev[j] == cons[j]);
            }
        }
        lemma_keys_with_distinct(prev, c);
        if cons.last().1 == c {
            let k = cons.last().0;
            lemma_keys_with_contains(prev, c, k);
            if keys_with(prev, c).contains(k) {
                let j = choose|j: int| 0 <= j < prev.len() && #[trigger] prev[j] == (k, c);
                assert(cons[j] == prev[j]);
                assert(cons[j].0 == cons[cons.len() - 1].0);
            }
        }
    }
}

/// Parse the text of a storage spec: `InvalidYaml` when it is not valid
/// YAML, otherwise what `parse_storage_yaml` gives for its document.
pub fn parse_storage_text(contents: &str, config: &AppConfig) -> (r: Result<Vec<TableDef>, StorageError>)
    ensures
        match yaml_document_of(contents@) {
            None => r == Err::<Vec<TableDef>, StorageError>(StorageError::InvalidYaml),
            Some(doc) => storage_parsed(r, doc, extra_field_views(config.storage.extra_default_fields@)),
        },
{
    match yaml_document(contents) {
        None => Err(StorageError::InvalidYaml),
        Some(doc) => parse_storage_yaml(&doc, config),
    }
}

/// In a list without repeated keys, a key's pair gives its lookup.
proof fn lemma_lookup_unique<V>(cons: Seq<(Seq<char>, V)>, j: int)
    requires
        keys_unique(cons),
        0 <= j < cons.len(),
    ensures
        lookup_seq(cons, cons[j].0) == Some(cons[j].1),
    decreases cons.len(),
{
    if j > 0 {
        let rest = cons.drop_first();
        assert(keys_unique(rest)) by {
            assert forall|a: int, b: int| 0 <= a < b < rest.len() implies rest[a].0 != rest[b].0 by {
                assert(rest[a] == cons[a + 1] && rest[b] == cons[b + 1]);
            }
        }
        assert(rest[j - 1] == cons[j]);
        assert(cons[0].0 != cons[j].0);
        lemma_lookup_unique(rest, j - 1);
    }
}

/// The names carrying constraint `c` are the names whose constraint is `c`.
proof fn lemma_keys_with_lookup(cons: Seq<(Seq<char>, FieldConstraint)>, c: FieldConstraint, k: Seq<char>)
    requires
        keys_unique(cons),
    ensures
        keys_with(cons, c).contains(k) <==> lookup_seq(cons, k) == Some(c),
{
    lemma_keys_with_contains(cons, c, k);
    if keys_with(cons, c).contains(k) {
        let j = choose|j: int| 0 <= j < cons.len() && #[trigger] cons[j] == (k, c);
        lemma_lookup_unique(cons, j);
    }
    if lookup_seq(cons, k) == Some(c) {
        lemma_lookup_member(cons, k);
    }
}

/// A parsed model's primary key lists each name whose constraint is
/// `PrimaryKey` once and no other name; its secondary keys are one single
/// column per name whose constraint is a secondary key, each once; and a
/// field is marked as a key column exactly when its name is in the primary key.
pub proof fn law_single_model_keys(
    t: TableDef,
    name: Seq<char>,
    model: Seq<(YamlValue, YamlValue)>,
    imports: Seq<(Seq<char>, Seq<char>)>,
    extras: Seq<(Seq<char>, Seq<char>)>,
)
    requires
        table_of(t, name, model, imports, extras),
    ensures
        views(t.primary_key@).no_duplicates(),
        forall|k: Seq<char>|
            #[trigger] views(t.primary_key@).contains(k) <==> lookup_seq(spec_constraints(model), k)
                == Some(FieldConstraint::PrimaryKey),
        nested_views(t.secondary_keys@).no_duplicates(),
        forall|k: Seq<char>|
            #[trigger] nested_views(t.secondary_keys@).contains(seq![k]) <==> lookup_seq(
                spec_constraints(model),
                k,
            ) == Some(FieldConstraint::SecondaryKey),
        forall|i: int|
            0 <= i < t.fields@.len() ==> (#[trigger] field_views(t.fields@)[i]).is_primary_key
                == views(t.primary_key@).contains(field_views(t.fields@)[i].field_name),
{
    let cons = spec_constraints(model);
    lemma_constraints_unique(mapping_under(model, "constraints"@));
    lemma_keys_with_distinct(cons, FieldConstraint::PrimaryKey);
    lemma_keys_with_distinct(cons, FieldConstraint::SecondaryKey);
    assert forall|k: Seq<char>| #[trigger] views(t.primary_key@).contains(k) <==> lookup_seq(cons, k)
        == Some(FieldConstraint::PrimaryKey) by {
        lemma_keys_with_lookup(cons, FieldConstraint::PrimaryKey, k);
    }
    let sk = keys_with(cons, FieldConstraint::SecondaryKey);
    let nv = nested_views(t.secondary_keys@);
    assert(nv == sk.map_values(|k: Seq<char>| seq![k]));
    assert forall|a: int, b: int| 0 <= a < nv.len() && 0 <= b < nv.len() && a != b implies nv[a] != nv[b] by {
        if nv[a] == nv[b] {
            assert(nv[a][0] == sk[a]);
            assert(nv[b][0] == sk[b]);
        }
    }
    assert forall|k: Seq<char>| #[trigger] nv.contains(seq![k]) <==> lookup_seq(cons, k)
        == Some(FieldConstraint::SecondaryKey) by {
        lemma_keys_with_lookup(cons, FieldConstraint::SecondaryKey, k);
        if nv.contains(seq![k]) {
            let i = choose|i: int| 0 <= i < nv.len() && nv[i] == seq![k];
            assert(nv[i][0] == sk[i]);
            assert(seq![k][0] == k);
        }
        if sk.contains(k) {
            let i = choose|i: int| 0 <= i < sk.len() && sk[i] == k;
            assert(nv[i] == seq![k]);
        }
    }
    law_primary_key_marking(t, name, model, imports, extras);
}

/// The names of the key-value functions: `updateWithKV`, `update` and
/// `updateManyWithKV` name `Update` (every matching row) and only
/// `updateOneWithKV` and `updateOne` name `UpdateOne`; `deleteWithKV` and
/// `delete` name `Delete`; `findAllWithKV`, `findAllWithOptionsKV` and
/// `findAll` name `FindAll`; the partial finds have their two names each;
/// every other name means `FindOne`.
pub proof fn law_kv_function_names(s: Seq<char>)
    ensures
        (kv_function_of(s) == KvFunction::Update) == (s == "updateWithKV"@ || s == "update"@ || s
            == "updateManyWithKV"@),
        (kv_function_of(s) == KvFunction::UpdateOne) == (s == "updateOneWithKV"@ || s == "updateOne"@),
        (kv_function_of(s) == KvFunction::Delete) == (s == "deleteWithKV"@ || s == "delete"@),
        (kv_function_of(s) == KvFunction::FindAll) == (s == "findAllWithKV"@ || s
            == "findAllWithOptionsKV"@ || s == "findAll"@),
        (kv_function_of(s) == KvFunction::FindAllPartial) == (s == "findAllPartialWithKV"@ || s
            == "findAllPartial"@),
        (kv_function_of(s) == KvFunction::FindOnePartial) == (s == "findOnePartialWithKV"@ || s
            == "findOnePartial"@),
{
    reveal_strlit("findOneWithKV");
    reveal_strlit("findOne");
    reveal_strlit("findOnePartialWithKV");
    reveal_strlit("findOnePartial");
    reveal_strlit("findAllWithKV");
    reveal_strlit("findAllWithOptionsKV");
    reveal_strlit("findAll");
    reveal_strlit("findAllPartialWithKV");
    reveal_strlit("findAllPartial");
    reveal_strlit("updateWithKV");
    reveal_strlit("update");
    reveal_strlit("updateManyWithKV");
    reveal_strlit("updateOneWithKV");
    reveal_strlit("updateOne");
    reveal_strlit("deleteWithKV");
    reveal_strlit("delete");
    assert("findOneWithKV"@ != "findOne"@) by { assert("findOneWithKV"@.len() != "findOne"@.len()); }
    assert("findOneWithKV"@ != "findOnePartialWithKV"@) by { assert("findOneWithKV"@.len() != "findOnePartialWithKV"@.len()); }
    assert("findOneWithKV"@ != "findOnePartial"@) by { assert("findOneWithKV"@.len() != "findOnePartial"@.len()); }
    assert("findOneWithKV"@ != "findAllWithKV"@) by { assert("findOneWithKV"@[4] != "findAllWithKV"@[4]); }
    assert("findOneWithKV"@ != "findAllWithOptionsKV"@) by { assert("findOneWithKV"@.len() != "findAllWithOptionsKV"@.len()); }
    assert("findOneWithKV"@ != "findAll"@) by { assert("findOneWithKV"@.len() != "findAll"@.len()); }
    assert("findOneWithKV"@ != "findAllPartialWithKV"@) by { assert("findOneWithKV"@.len() != "findAllPartialWithKV"@.len()); }
    assert("findOneWithKV"@ != "findAllPartial"@) by { assert("findOneWithKV"@.len() != "findAllPartial"@.len()); }
    assert("findOneWithKV"@ != "updateWithKV"@) by { assert("findOneWithKV"@.len() != "updateWithKV"@.len()); }
    assert("findOneWithKV"@ != "update"@) by { assert("findOneWithKV"@.len() != "update"@.len()); }
    assert("findOneWithKV"@ != "updateManyWithKV"@) by { assert("findOneWithKV"@.len() != "updateManyWithKV"@.len()); }
    assert("findOneWithKV"@ != "updateOneWithKV"@) by { assert("findOneWithKV"@.len() != "updateOneWithKV"@.len()); }
    assert("findOneWithKV"@ != "updateOne"@) by { assert("findOneWithKV"@.len() != "updateOne"@.len()); }
    assert("findOneWithKV"@ != "deleteWithKV"@) by { assert("findOneWithKV"@.len() != "deleteWithKV"@.len()); }
    assert("findOneWithKV"@ != "delete"@) by { assert("findOneWithKV"@.len() != "delete"@.len()); }
    assert("findOne"@ != "findOnePartialWithKV"@) by { assert("findOne"@.len() != "findOnePartialWithKV"@.len()); }
    assert("findOne"@ != "findOnePartial"@) by { assert("findOne"@.len() != "findOnePartial"@.len()); }
    assert("findOne"@ != "findAllWithKV"@) by { assert("findOne"@.len() != "findAllWithKV"@.len()); }
    assert("findOne"@ != "findAllWithOptionsKV"@) by { assert("findOne"@.len() != "findAllWithOptionsKV"@.len()); }
    assert("findOne"@ != "findAll"@) by { assert("findOne"@[4] != "findAll"@[4]); }
    assert("findOne"@ != "findAllPartialWithKV"@) by { assert("findOne"@.len() != "findAllPartialWithKV"@.len()); }
    assert("findOne"@ != "findAllPartial"@) by { assert("findOne"@.len() != "findAllPartial"@.len()); }
    assert("findOne"@ != "updateWithKV"@) by { assert("findOne"@.len() != "updateWithKV"@.len()); }
    assert("findOne"@ != "update"@) by { assert("findOne"@.len() != "update"@.len()); }
    assert("findOne"@ != "updateManyWithKV"@) by { assert("findOne"@.len() != "updateManyWithKV"@.len()); }
    assert("findOne"@ != "updateOneWithKV"@) by { assert("findOne"@.len() != "updateOneWithKV"@.len()); }
    assert("findOne"@ != "updateOne"@) by { assert("findOne"@.len() != "updateOne"@.len()); }
    assert("findOne"@ != "deleteWithKV"@) by { assert("findOne"@.len() != "deleteWithKV"@.len()); }
    assert("findOne"@ != "delete"@) by { assert("findOne"@.len() != "delete"@.len()); }
    assert("findOnePartialWithKV"@ != "findOnePartial"@) by { assert("findOnePartialWithKV"@.len() != "findOnePartial"@.len()); }
    assert("findOnePartialWithKV"@ != "findAllWithKV"@) by { assert("findOnePartialWithKV"@.len() != "findAllWithKV"@.len()); }
    assert("findOnePartialWithKV"@ != "findAllWithOptionsKV"@) by { assert("findOnePartialWithKV"@[4] != "findAllWithOptionsKV"@[4]); }
    assert("findOnePartialWithKV"@ != "findAll"@) by { assert("findOnePartialWithKV"@.len() != "findAll"@.len()); }
    assert("findOnePartialWithKV"@ != "findAllPartialWithKV"@) by { assert("findOnePartialWithKV"@[4] != "findAllPartialWithKV"@[4]); }
    assert("findOnePartialWithKV"@ != "findAllPartial"@) by { assert("findOnePartialWithKV"@.len() != "findAllPartial"@.len()); }
    assert("findOnePartialWithKV"@ != "updateWithKV"@) by { assert("findOnePartialWithKV"@.len() != "updateWithKV"@.len()); }
    assert("findOnePartialWithKV"@ != "update"@) by { assert("findOnePartialWithKV"@.len() != "update"@.len()); }
    assert("findOnePartialWithKV"@ != "updateManyWithKV"@) by { assert("findOnePartialWithKV"@.len() != "updateManyWithKV"@.len()); }
    assert("findOnePartialWithKV"@ != "updateOneWithKV"@) by { assert("findOnePartialWithKV"@.len() != "updateOneWithKV"@.len()); }
    assert("findOnePartialWithKV"@ != "updateOne"@) by { assert("findOnePartialWithKV"@.len() != "updateOne"@.len()); }
    assert("findOnePartialWithKV"@ != "deleteWithKV"@) by { assert("findOnePartialWithKV"@.len() != "deleteWithKV"@.len()); }
    assert("findOnePartialWithKV"@ != "delete"@) by { assert("findOnePartialWithKV"@.len() != "delete"@.len()); }
    assert("findOnePartial"@ != "findAllWithKV"@) by { assert("findOnePartial"@.len() != "findAllWithKV"@.len()); }
    assert("findOnePartial"@ != "findAllWithOptionsKV"@) by { assert("findOnePartial"@.len() != "findAllWithOptionsKV"@.len()); }
    assert("findOnePartial"@ != "findAll"@) by { assert("findOnePartial"@.len() != "findAll"@.len()); }
    assert("findOnePartial"@ != "findAllPartialWithKV"@) by { assert("findOnePartial"@.len() != "findAllPartialWithKV"@.len()); }
    assert("findOnePartial"@ != "findAllPartial"@) by { assert("findOnePartial"@[4] != "findAllPartial"@[4]); }
    assert("findOnePartial"@ != "updateWithKV"@) by { assert("findOnePartial"@.len() != "updateWithKV"@.len()); }
    assert("findOnePartial"@ != "update"@) by { assert("findOnePartial"@.len() != "update"@.len()); }
    assert("findOnePartial"@ != "updateManyWithKV"@) by { assert("findOnePartial"@.len() != "updateManyWithKV"@.len()); }
    assert("findOnePartial"@ != "updateOneWithKV"@) by { assert("findOnePartial"@.len() != "updateOneWithKV"@.len()); }
    assert("findOnePartial"@ != "updateOne"@) by { assert("findOnePartial"@.len() != "updateOne"@.len()); }
    assert("findOnePartial"@ != "deleteWithKV"@) by { assert("findOnePartial"@.len() != "deleteWithKV"@.len()); }
    assert("findOnePartial"@ != "delete"@) by { assert("findOnePartial"@.len() != "delete"@.len()); }
    assert("findAllWithKV"@ != "findAllWithOptionsKV"@) by { assert("findAllWithKV"@.len() != "findAllWithOptionsKV"@.len()); }
    assert("findAllWithKV"@ != "findAll"@) by { assert("findAllWithKV"@.len() != "findAll"@.len()); }
    assert("findAllWithKV"@ != "findAllPartialWithKV"@) by { assert("findAllWithKV"@.len() != "findAllPartialWithKV"@.len()); }
    assert("findAllWithKV"@ != "findAllPartial"@) by { assert("findAllWithKV"@.len() != "findAllPartial"@.len()); }
    assert("findAllWithKV"@ != "updateWithKV"@) by { assert("findAllWithKV"@.len() != "updateWithKV"@.len()); }
    assert("findAllWithKV"@ != "update"@) by { assert("findAllWithKV"@.len() != "update"@.len()); }
    assert("findAllWithKV"@ != "updateManyWithKV"@) by { assert("findAllWithKV"@.len() != "updateManyWithKV"@.len()); }
    assert("findAllWithKV"@ != "updateOneWithKV"@) by { assert("findAllWithKV"@.len() != "updateOneWithKV"@.len()); }
    assert("findAllWithKV"@ != "updateOne"@) by { assert("findAllWithKV"@.len() != "updateOne"@.len()); }
    assert("findAllWithKV"@ != "deleteWithKV"@) by { assert("findAllWithKV"@.len() != "deleteWithKV"@.len()); }
    assert("findAllWithKV"@ != "delete"@) by { assert("findAllWithKV"@.len() != "delete"@.len()); }
    assert("findAllWithOptionsKV"@ != "findAll"@) by { assert("findAllWithOptionsKV"@.len() != "findAll"@.len()); }
    assert("findAllWithOptionsKV"@ != "findAllPartialWithKV"@) by { assert("findAllWithOptionsKV"@[7] != "findAllPartialWithKV"@[7]); }
    assert("findAllWithOptionsKV"@ != "findAllPartial"@) by { assert("findAllWithOptionsKV"@.len() != "findAllPartial"@.len()); }
    assert("findAllWithOptionsKV"@ != "updateWithKV"@) by { assert("findAllWithOptionsKV"@.len() != "updateWithKV"@.len()); }
    assert("findAllWithOptionsKV"@ != "update"@) by { assert("findAllWithOptionsKV"@.len() != "update"@.len()); }
    assert("findAllWithOptionsKV"@ != "updateManyWithKV"@) by { assert("findAllWithOptionsKV"@.len() != "updateManyWithKV"@.len()); }
    assert("findAllWithOptionsKV"@ != "updateOneWithKV"@) by { assert("findAllWithOptionsKV"@.len() != "updateOneWithKV"@.len()); }
    assert("findAllWithOptionsKV"@ != "updateOne"@) by { assert("findAllWithOptionsKV"@.len() != "updateOne"@.len()); }
    assert("findAllWithOptionsKV"@ != "deleteWithKV"@) by { assert("findAllWithOptionsKV"@.len() != "deleteWithKV"@.len()); }
    assert("findAllWithOptionsKV"@ != "delete"@) by { assert("findAllWithOptionsKV"@.len() != "delete"@.len()); }
    assert("findAll"@ != "findAllPartialWithKV"@) by { assert("findAll"@.len() != "findAllPartialWithKV"@.len()); }
    assert("findAll"@ != "findAllPartial"@) by { assert("findAll"@.len() != "findAllPartial"@.len()); }
    assert("findAll"@ != "updateWithKV"@) by { assert("findAll"@.len() != "updateWithKV"@.len()); }
    assert("findAll"@ != "update"@) by { assert("findAll"@.len() != "update"@.len()); }
    assert("findAll"@ != "updateManyWithKV"@) by { assert("findAll"@.len() != "updateManyWithKV"@.len()); }
    assert("findAll"@ != "updateOneWithKV"@) by { assert("findAll"@.len() != "updateOneWithKV"@.len()); }
    assert("findAll"@ != "updateOne"@) by { assert("findAll"@.len() != "updateOne"@.len()); }
    assert("findAll"@ != "deleteWithKV"@) by { assert("findAll"@.len() != "deleteWithKV"@.len()); }
    assert("findAll"@ != "delete"@) by { assert("findAll"@.len() != "delete"@.len()); }
    assert("findAllPartialWithKV"@ != "findAllPartial"@) by { assert("findAllPartialWithKV"@.len() != "findAllPartial"@.len()); }
    assert("findAllPartialWithKV"@ != "updateWithKV"@) by { assert("findAllPartialWithKV"@.len() != "updateWithKV"@.len()); }
    assert("findAllPartialWithKV"@ != "update"@) by { assert("findAllPartialWithKV"@.len() != "update"@.len()); }
    assert("findAllPartialWithKV"@ != "updateManyWithKV"@) by { assert("findAllPartialWithKV"@.len() != "updateManyWithKV"@.len()); }
    assert("findAllPartialWithKV"@ != "updateOneWithKV"@) by { assert("findAllPartialWithKV"@.len() != "updateOneWithKV"@.len()); }
    assert("findAllPartialWithKV"@ != "updateOne"@) by { assert("findAllPartialWithKV"@.len() != "updateOne"@.len()); }
    assert("findAllPartialWithKV"@ != "deleteWithKV"@) by { assert("findAllPartialWithKV"@.len() != "deleteWithKV"@.len()); }
    assert("findAllPartialWithKV"@ != "delete"@) by { assert("findAllPartialWithKV"@.len() != "delete"@.len()); }
    assert("findAllPartial"@ != "updateWithKV"@) by { assert("findAllPartial"@.len() != "updateWithKV"@.len()); }
    assert("findAllPartial"@ != "update"@) by { assert("findAllPartial"@.len() != "update"@.len()); }
    assert("findAllPartial"@ != "updateManyWithKV"@) by { assert("findAllPartial"@.len() != "updateManyWithKV"@.len()); }
    assert("findAllPartial"@ != "updateOneWithKV"@) by { assert("findAllPartial"@.len() != "updateOneWithKV"@.len()); }
    assert("findAllPartial"@ != "updateOne"@) by { assert("findAllPartial"@.len() != "updateOne"@.len()); }
    assert("findAllPartial"@ != "deleteWithKV"@) by { assert("findAllPartial"@.len() != "deleteWithKV"@.len()); }
    assert("findAllPartial"@ != "delete"@) by { assert("findAllPartial"@.len() != "delete"@.len()); }
    assert("updateWithKV"@ != "update"@) by { assert("updateWithKV"@.len() != "update"@.len()); }
    assert("updateWithKV"@ != "updateManyWithKV"@) by { assert("updateWithKV"@.len() != "updateManyWithKV"@.len()); }
    assert("updateWithKV"@ != "updateOneWithKV"@) by { assert("updateWithKV"@.len() != "updateOneWithKV"@.len()); }
    assert("updateWithKV"@ != "updateOne"@) by { assert("updateWithKV"@.len() != "updateOne"@.len()); }
    assert("updateWithKV"@ != "deleteWithKV"@) by { assert("updateWithKV"@[0] != "deleteWithKV"@[0]); }
    assert("updateWithKV"@ != "delete"@) by { assert("updateWithKV"@.len() != "delete"@.len()); }
    assert("update"@ != "updateManyWithKV"@) by { assert("update"@.len() != "updateManyWithKV"@.len()); }
    assert("update"@ != "updateOneWithKV"@) by { assert("update"@.len() != "updateOneWithKV"@.len()); }
    assert("update"@ != "updateOne"@) by { assert("update"@.len() != "updateOne"@.len()); }
    assert("update"@ != "deleteWithKV"@) by { assert("update"@.len() != "deleteWithKV"@.len()); }
    assert("update"@ != "delete"@) by { assert("update"@[0] != "delete"@[0]); }
    assert("updateManyWithKV"@ != "updateOneWithKV"@) by { assert("updateManyWithKV"@.len() != "updateOneWithKV"@.len()); }
    assert("updateManyWithKV"@ != "updateOne"@) by { assert("updateManyWithKV"@.len() != "updateOne"@.len()); }
    assert("updateManyWithKV"@ != "deleteWithKV"@) by { assert("updateManyWithKV"@.len() != "deleteWithKV"@.len()); }
    assert("updateManyWithKV"@ != "delete"@) by { assert("updateManyWithKV"@.len() != "delete"@.len()); }
    assert("updateOneWithKV"@ != "updateOne"@) by { assert("updateOneWithKV"@.len() != "updateOne"@.len()); }
    assert("updateOneWithKV"@ != "deleteWithKV"@) by { assert("updateOneWithKV"@.len() != "deleteWithKV"@.len()); }
    assert("updateOneWithKV"@ != "delete"@) by { assert("updateOneWithKV"@.len() != "delete"@.len()); }
    assert("updateOne"@ != "deleteWithKV"@) by { assert("updateOne"@.len() != "deleteWithKV"@.len()); }
    assert("updateOne"@ != "delete"@) by { assert("updateOne"@.len() != "delete"@.len()); }
    assert("deleteWithKV"@ != "delete"@) by { assert("deleteWithKV"@.len() != "delete"@.len()); }
}

/// The constraint names: `PrimaryKey` names a primary key column, both
/// `SecondaryKey` and `!SecondaryKey` a secondary key, `NotNull` a column
/// that is not nullable; every other text names no constraint.
pub proof fn law_constraint_names(s: Seq<char>)
    ensures
        (constraint_of(s) == Some(FieldConstraint::PrimaryKey)) == (s == "PrimaryKey"@),
        (constraint_of(s) == Some(FieldConstraint::SecondaryKey)) == (s == "SecondaryKey"@ || s
            == "!SecondaryKey"@),
        (constraint_of(s) == Some(FieldConstraint::NotNull)) == (s == "NotNull"@),
        constraint_of(s) is None == (s != "PrimaryKey"@ && s != "SecondaryKey"@ && s != "!SecondaryKey"@
            && s != "NotNull"@),
{
    reveal_strlit("PrimaryKey");
    reveal_strlit("SecondaryKey");
    reveal_strlit("!SecondaryKey");
    reveal_strlit("NotNull");
    assert("PrimaryKey"@.len() != "SecondaryKey"@.len());
    assert("PrimaryKey"@.len() != "!SecondaryKey"@.len());
    assert("PrimaryKey"@.len() != "NotNull"@.len());
    assert("SecondaryKey"@.len() != "NotNull"@.len());
    assert("!SecondaryKey"@.len() != "NotNull"@.len());
}

/// An `orderBy` text that starts with `-` orders descending on the field
/// after the `-`; any other text orders ascending on the whole text.
pub proof fn law_order_by(f: Seq<char>, t: Seq<char>)
    ensures
        order_of(Some("-"@ + f)) == Some(OrderByView { field: f, direction: OrderDirection::Desc }),
        !has_prefix_seq(t, "-"@) ==> order_of(Some(t)) == Some(
            OrderByView { field: t, direction: OrderDirection::Asc },
        ),
        order_of(None) is None,
{
    reveal_strlit("-");
    assert(("-"@ + f).take(1) =~= "-"@);
    assert(("-"@ + f).drop_first() =~= f);
}

} // verus!
