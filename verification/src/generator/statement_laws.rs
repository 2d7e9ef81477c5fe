//! Which statements the generated migrations hold, in the words of SQL: the
//! table and each column under its snake_case name with its type, `NOT NULL`
//! for a field that is not nullable and its default whenever it has one; the
//! primary key and the indexes over the snake_case names of their columns.

use vstd::prelude::*;
use crate::generator::migration_laws::lemma_column_lines_all_missing;
use crate::generator::sql::{
    column_line_seq, column_lines, columns_of, create_index_line, extra_index_lines, fresh_sql_seq,
    full_table_name, incremental_sql_seq, index_unique_flags, missing_column_lines,
    secondary_key_lines, snake_names, unique_line,
};
use crate::text::{has_prefix_seq, join_seq, occurs_in, trim_end_seq, views};
use crate::types::storage::{FieldDef, IndexDef, TableDef, field_views};
use crate::utils::{heck_snake_case, spec_sql_type};

verus! {

/// The snake_case forms of some names, in order.
pub open spec fn snake_columns(names: Seq<String>) -> Seq<Seq<char>> {
    Seq::new(names.len(), |i: int| heck_snake_case(names[i]@))
}

/// The statement that adds a field's column to `db.table`, written out: its
/// snake_case name and SQL type, ` NOT NULL` when the field is not nullable,
/// and ` default <value>` whenever the field has a default.
pub open spec fn add_column_text(db: Seq<char>, table_sql: Seq<char>, f: FieldDef, sql_type: Seq<char>) -> Seq<char> {
    "ALTER TABLE "@ + db + "."@ + table_sql + " ADD COLUMN "@ + f.field_name_snake@ + " "@ + sql_type + (
    if f.is_nullable {
        Seq::<char>::empty()
    } else {
        " NOT NULL"@
    }) + (match f.default_value {
        Some(d) => " default "@ + d@,
        None => Seq::<char>::empty(),
    }) + ";\n"@
}

/// A text occurs in a longer text that contains it.
proof fn lemma_occurs_at(a: Seq<char>, p: Seq<char>, b: Seq<char>)
    ensures
        occurs_in(a + p + b, p),
{
    let s = a + p + b;
    assert(s.subrange(a.len() as int, (a.len() + p.len()) as int) =~= p);
}

/// A text that occurs in a part occurs in the whole.
proof fn lemma_occurs_extend(a: Seq<char>, s: Seq<char>, b: Seq<char>, p: Seq<char>)
    requires
        occurs_in(s, p),
    ensures
        occurs_in(a + s + b, p),
{
    let i = choose|i: int| 0 <= i && i + p.len() <= s.len() && #[trigger] s.subrange(i, i + p.len()) == p;
    let w = a + s + b;
    assert(w.subrange(a.len() + i, a.len() + i + p.len()) =~= s.subrange(i, i + p.len()));
}

/// Each key's index statement is among the secondary key statements.
proof fn lemma_secondary_lines_hold(table_sql: Seq<char>, full: Seq<char>, keys: Seq<Seq<Seq<char>>>, j: int)
    requires
        0 <= j < keys.len(),
    ensures
        occurs_in(secondary_key_lines(table_sql, full, keys), create_index_line(table_sql, full, keys[j])),
    decreases keys.len(),
{
    let e = Seq::<char>::empty();
    let prev = secondary_key_lines(table_sql, full, keys.drop_last());
    let line = create_index_line(table_sql, full, keys.last());
    assert(prev + line + e =~= prev + line);
    if j == keys.len() - 1 {
        lemma_occurs_at(prev, line, e);
    } else {
        assert(keys.drop_last()[j] == keys[j]);
        lemma_secondary_lines_hold(table_sql, full, keys.drop_last(), j);
        assert(e + prev + line =~= prev + line);
        lemma_occurs_extend(e, prev, line, create_index_line(table_sql, full, keys[j]));
    }
}

/// Each extra index's statement is among the extra index statements.
proof fn lemma_extra_lines_hold(
    table_sql: Seq<char>,
    full: Seq<char>,
    cols: Seq<Seq<Seq<char>>>,
    unique: Seq<bool>,
    j: int,
)
    requires
        0 <= j < cols.len(),
    ensures
        occurs_in(
            extra_index_lines(table_sql, full, cols, unique),
            if unique[j] {
                unique_line(table_sql, full, cols[j])
            } else {
                create_index_line(table_sql, full, cols[j])
            },
        ),
    decreases cols.len(),
{
    let e = Seq::<char>::empty();
    let n = cols.len() - 1;
    let prev = extra_index_lines(table_sql, full, cols.drop_last(), unique);
    let line = if unique[n] {
        unique_line(table_sql, full, cols.last())
    } else {
        create_index_line(table_sql, full, cols.last())
    };
    assert(prev + line + e =~= prev + line);
    if j == n {
        lemma_occurs_at(prev, line, e);
    } else {
        assert(cols.drop_last()[j] == cols[j]);
        lemma_extra_lines_hold(table_sql, full, cols.drop_last(), unique, j);
        assert(e + prev + line =~= prev + line);
        lemma_occurs_extend(
            e,
            prev,
            line,
            if unique[j] {
                unique_line(table_sql, full, cols[j])
            } else {
                create_index_line(table_sql, full, cols[j])
            },
        );
    }
}

/// The statement of each missing column is among the added statements.
proof fn lemma_missing_lines_hold(
    full: Seq<char>,
    fs: Seq<crate::types::storage::FieldView>,
    enums: Seq<Seq<char>>,
    maps: Seq<(Seq<char>, Seq<char>)>,
    existing: Seq<Seq<char>>,
    i: int,
)
    requires
        0 <= i < fs.len(),
        !existing.contains(fs[i].field_name_snake),
    ensures
        occurs_in(
            missing_column_lines(full, fs, enums, maps, existing),
            column_line_seq(full, fs[i], spec_sql_type(fs[i].rust_type, enums, maps)),
        ),
    decreases fs.len(),
{
    let e = Seq::<char>::empty();
    let n = fs.len() - 1;
    let prev = missing_column_lines(full, fs.drop_last(), enums, maps, existing);
    let want = column_line_seq(full, fs[i], spec_sql_type(fs[i].rust_type, enums, maps));
    if i == n {
        assert(fs.last() == fs[i]);
        assert(prev + want + e =~= prev + want);
        lemma_occurs_at(prev, want, e);
    } else {
        assert(fs.drop_last()[i] == fs[i]);
        lemma_missing_lines_hold(full, fs.drop_last(), enums, maps, existing, i);
        if existing.contains(fs.last().field_name_snake) {
            assert(e + prev + e =~= prev);
            lemma_occurs_extend(e, prev, e, want);
        } else {
            let line = column_line_seq(full, fs.last(), spec_sql_type(fs.last().rust_type, enums, maps));
            assert(e + prev + line =~= prev + line);
            lemma_occurs_extend(e, prev, line, want);
        }
    }
}

/// A field's column statement, written out.
proof fn lemma_column_line_text(
    db: Seq<char>,
    table_sql: Seq<char>,
    f: FieldDef,
    sql_type: Seq<char>,
)
    ensures
        column_line_seq(full_table_name(db, table_sql), f@, sql_type) == add_column_text(
            db,
            table_sql,
            f,
            sql_type,
        ),
{
    assert(column_line_seq(full_table_name(db, table_sql), f@, sql_type) =~= add_column_text(
        db,
        table_sql,
        f,
        sql_type,
    ));
}

/// The primary key statement over some columns, written out.
pub open spec fn primary_key_text(db: Seq<char>, table_sql: Seq<char>, cols: Seq<Seq<char>>) -> Seq<char> {
    "ALTER TABLE "@ + db + "."@ + table_sql + " ADD PRIMARY KEY ( "@ + join_seq(cols, ", "@) + ");\n"@
}

/// The statement that creates an index over some columns, written out: the
/// index is named `idx_<table>_<col>_<col>...`.
pub open spec fn index_text(db: Seq<char>, table_sql: Seq<char>, cols: Seq<Seq<char>>) -> Seq<char> {
    "CREATE INDEX "@ + "idx_"@ + table_sql + "_"@ + join_seq(cols, "_"@) + " ON "@ + db + "."@
        + table_sql + " ("@ + join_seq(cols, ", "@) + ");\n"@
}

/// The statement that adds a unique constraint over some columns, written
/// out, under the same name as an index over them.
pub open spec fn unique_text(db: Seq<char>, table_sql: Seq<char>, cols: Seq<Seq<char>>) -> Seq<char> {
    "ALTER TABLE "@ + db + "."@ + table_sql + " ADD CONSTRAINT "@ + "idx_"@ + table_sql + "_"@
        + join_seq(cols, "_"@) + " UNIQUE ("@ + join_seq(cols, ", "@) + ");\n"@
}

/// The parts of a fresh migration: the table, the columns, the primary key,
/// the secondary key indexes and the extra indexes, one after the other.
proof fn lemma_fresh_parts(t: TableDef, db: Seq<char>, enums: Seq<Seq<char>>, maps: Seq<(Seq<char>, Seq<char>)>)
    ensures
        ({
            let tsql = t.table_name_sql@;
            let full = full_table_name(db, tsql);
            let pkc = snake_names(views(t.primary_key@));
            fresh_sql_seq(t, db, enums, maps) == ("CREATE TABLE "@ + db + "."@ + tsql + " ();\n"@ + "\n"@)
                + column_lines(full, field_views(t.fields@), enums, maps) + (if pkc.len() == 0 {
                Seq::<char>::empty()
            } else {
                primary_key_text(db, tsql, pkc)
            }) + secondary_key_lines(
                tsql,
                full,
                t.secondary_keys@.map_values(|k: Vec<String>| snake_names(views(k@))),
            ) + extra_index_lines(
                tsql,
                full,
                t.extra_indexes@.map_values(|i: IndexDef| snake_names(views(i.columns@))),
                index_unique_flags(t.extra_indexes@),
            )
        }),
{
    let tsql = t.table_name_sql@;
    let full = full_table_name(db, tsql);
    assert("CREATE TABLE "@ + full + " ();\n"@ + "\n"@ =~= "CREATE TABLE "@ + db + "."@ + tsql + " ();\n"@ + "\n"@);
    let pkc = snake_names(views(t.primary_key@));
    if pkc.len() > 0 {
        assert("ALTER TABLE "@ + full + " ADD PRIMARY KEY ( "@ + join_seq(pkc, ", "@) + ");\n"@ =~= primary_key_text(db, tsql, pkc));
    }
}

/// A fresh migration starts by creating the table `db.table`.
pub proof fn law_fresh_creates_table(
    t: TableDef,
    db: Seq<char>,
    enums: Seq<Seq<char>>,
    maps: Seq<(Seq<char>, Seq<char>)>,
)
    ensures
        has_prefix_seq(
            fresh_sql_seq(t, db, enums, maps),
            "CREATE TABLE "@ + db + "."@ + t.table_name_sql@ + " ();\n"@ + "\n"@,
        ),
{
    lemma_fresh_parts(t, db, enums, maps);
    let h = "CREATE TABLE "@ + db + "."@ + t.table_name_sql@ + " ();\n"@ + "\n"@;
    assert(fresh_sql_seq(t, db, enums, maps).take(h.len() as int) =~= h);
}

/// A fresh migration adds each field's column under the field's snake_case
/// column name, with its SQL type, ` NOT NULL` exactly when the field is not
/// nullable, and ` default <value>` whenever the field has a default,
/// nullable or not.
pub proof fn law_fresh_adds_columns(
    t: TableDef,
    db: Seq<char>,
    enums: Seq<Seq<char>>,
    maps: Seq<(Seq<char>, Seq<char>)>,
)
    ensures
        forall|i: int|
            0 <= i < t.fields@.len() ==> occurs_in(
                fresh_sql_seq(t, db, enums, maps),
                add_column_text(
                    db,
                    t.table_name_sql@,
                    #[trigger] t.fields@[i],
                    spec_sql_type(t.fields@[i].rust_type@, enums, maps),
                ),
            ),
{
    lemma_fresh_parts(t, db, enums, maps);
    let tsql = t.table_name_sql@;
    let full = full_table_name(db, tsql);
    let fs = field_views(t.fields@);
    let fresh = fresh_sql_seq(t, db, enums, maps);
    let h = "CREATE TABLE "@ + db + "."@ + tsql + " ();\n"@ + "\n"@;
    let c = column_lines(full, fs, enums, maps);
    let rest = fresh.skip((h.len() + c.len()) as int);
    assert(fresh =~= h + c + rest);
    lemma_column_lines_all_missing(full, fs, enums, maps);
    assert forall|i: int|
        0 <= i < t.fields@.len() implies occurs_in(
        fresh,
        add_column_text(db, tsql, #[trigger] t.fields@[i], spec_sql_type(t.fields@[i].rust_type@, enums, maps)),
    ) by {
        let f = t.fields@[i];
        let ty = spec_sql_type(f.rust_type@, enums, maps);
        assert(fs[i] == f@);
        assert(!Seq::<Seq<char>>::empty().contains(fs[i].field_name_snake));
        lemma_missing_lines_hold(full, fs, enums, maps, Seq::<Seq<char>>::empty(), i);
        lemma_column_line_text(db, tsql, f, ty);
        lemma_occurs_extend(h, c, rest, add_column_text(db, tsql, f, ty));
    }
}

/// A fresh migration of a table with a primary key adds the key over the
/// snake_case forms of the key's names, the column names that its column
/// statements use.
pub proof fn law_fresh_primary_key(
    t: TableDef,
    db: Seq<char>,
    enums: Seq<Seq<char>>,
    maps: Seq<(Seq<char>, Seq<char>)>,
)
    requires
        t.primary_key@.len() > 0,
    ensures
        occurs_in(
            fresh_sql_seq(t, db, enums, maps),
            primary_key_text(db, t.table_name_sql@, snake_columns(t.primary_key@)),
        ),
{
    lemma_fresh_parts(t, db, enums, maps);
    let tsql = t.table_name_sql@;
    let full = full_table_name(db, tsql);
    let fresh = fresh_sql_seq(t, db, enums, maps);
    let pkc = snake_names(views(t.primary_key@));
    assert(pkc =~= snake_columns(t.primary_key@));
    let pk = primary_key_text(db, tsql, pkc);
    let h = "CREATE TABLE "@ + db + "."@ + tsql + " ();\n"@ + "\n"@;
    let before = h + column_lines(full, field_views(t.fields@), enums, maps);
    let rest = fresh.skip((before.len() + pk.len()) as int);
    assert(fresh =~= before + pk + rest);
    lemma_occurs_at(before, pk, rest);
}

/// A fresh migration creates an index for each secondary key, named after
/// and over the snake_case forms of the key's names.
pub proof fn law_fresh_secondary_indexes(
    t: TableDef,
    db: Seq<char>,
    enums: Seq<Seq<char>>,
    maps: Seq<(Seq<char>, Seq<char>)>,
)
    ensures
        forall|j: int|
            0 <= j < t.secondary_keys@.len() ==> occurs_in(
                fresh_sql_seq(t, db, enums, maps),
                index_text(db, t.table_name_sql@, snake_columns((#[trigger] t.secondary_keys@[j])@)),
            ),
{
    lemma_fresh_parts(t, db, enums, maps);
    let tsql = t.table_name_sql@;
    let full = full_table_name(db, tsql);
    let fresh = fresh_sql_seq(t, db, enums, maps);
    let skc = t.secondary_keys@.map_values(|k: Vec<String>| snake_names(views(k@)));
    let sk = secondary_key_lines(tsql, full, skc);
    let ix = extra_index_lines(
        tsql,
        full,
        t.extra_indexes@.map_values(|i: IndexDef| snake_names(views(i.columns@))),
        index_unique_flags(t.extra_indexes@),
    );
    let before = fresh.take(fresh.len() - sk.len() - ix.len());
    assert(fresh =~= before + sk + ix);
    assert forall|j: int|
        0 <= j < t.secondary_keys@.len() implies occurs_in(
        fresh,
        index_text(db, tsql, snake_columns((#[trigger] t.secondary_keys@[j])@)),
    ) by {
        assert(skc[j] =~= snake_columns(t.secondary_keys@[j]@));
        lemma_secondary_lines_hold(tsql, full, skc, j);
        assert(create_index_line(tsql, full, skc[j]) =~= index_text(db, tsql, skc[j]));
        lemma_occurs_extend(before, sk, ix, index_text(db, tsql, skc[j]));
    }
}

/// The extra index statements hold each index's statement, written out.
proof fn lemma_extra_text_holds(
    db: Seq<char>,
    tsql: Seq<char>,
    cols: Seq<Seq<Seq<char>>>,
    uniq: Seq<bool>,
    j: int,
)
    requires
        0 <= j < cols.len(),
    ensures
        occurs_in(
            extra_index_lines(tsql, full_table_name(db, tsql), cols, uniq),
            if uniq[j] {
                unique_text(db, tsql, cols[j])
            } else {
                index_text(db, tsql, cols[j])
            },
        ),
{
    let full = full_table_name(db, tsql);
    lemma_extra_lines_hold(tsql, full, cols, uniq, j);
    assert(unique_line(tsql, full, cols[j]) =~= unique_text(db, tsql, cols[j]));
    assert(create_index_line(tsql, full, cols[j]) =~= index_text(db, tsql, cols[j]));
}

/// A fresh migration ends with its extra index statements.
proof fn lemma_fresh_ends_with_extra(
    t: TableDef,
    db: Seq<char>,
    enums: Seq<Seq<char>>,
    maps: Seq<(Seq<char>, Seq<char>)>,
)
    ensures
        ({
            let ix = extra_index_lines(
                t.table_name_sql@,
                full_table_name(db, t.table_name_sql@),
                t.extra_indexes@.map_values(|i: IndexDef| snake_names(views(i.columns@))),
                index_unique_flags(t.extra_indexes@),
            );
            let fresh = fresh_sql_seq(t, db, enums, maps);
            fresh == fresh.take(fresh.len() - ix.len()) + ix
        }),
{
    let ix = extra_index_lines(
        t.table_name_sql@,
        full_table_name(db, t.table_name_sql@),
        t.extra_indexes@.map_values(|i: IndexDef| snake_names(views(i.columns@))),
        index_unique_flags(t.extra_indexes@),
    );
    let fresh = fresh_sql_seq(t, db, enums, maps);
    assert(fresh =~= fresh.take(fresh.len() - ix.len()) + ix);
}

/// The extra index statement at one position of a fresh migration.
proof fn lemma_fresh_extra_index(
    t: TableDef,
    db: Seq<char>,
    enums: Seq<Seq<char>>,
    maps: Seq<(Seq<char>, Seq<char>)>,
    j: int,
)
    requires
        0 <= j < t.extra_indexes@.len(),
    ensures
        occurs_in(
            fresh_sql_seq(t, db, enums, maps),
            if t.extra_indexes@[j].unique {
                unique_text(db, t.table_name_sql@, snake_columns(t.extra_indexes@[j].columns@))
            } else {
                index_text(db, t.table_name_sql@, snake_columns(t.extra_indexes@[j].columns@))
            },
        ),
{
    let tsql = t.table_name_sql@;
    let fresh = fresh_sql_seq(t, db, enums, maps);
    let ixc = t.extra_indexes@.map_values(|i: IndexDef| snake_names(views(i.columns@)));
    let uniq = index_unique_flags(t.extra_indexes@);
    let ix = extra_index_lines(tsql, full_table_name(db, tsql), ixc, uniq);
    lemma_fresh_ends_with_extra(t, db, enums, maps);
    let e = Seq::<char>::empty();
    let before = fresh.take(fresh.len() - ix.len());
    assert(before + ix + e =~= before + ix);
    let x = t.extra_indexes@[j];
    assert(ixc[j] =~= snake_columns(x.columns@));
    assert(uniq[j] == x.unique);
    lemma_extra_text_holds(db, tsql, ixc, uniq, j);
    let want = if uniq[j] {
        unique_text(db, tsql, ixc[j])
    } else {
        index_text(db, tsql, ixc[j])
    };
    lemma_occurs_extend(before, ix, e, want);
}

/// A fresh migration adds, for each extra index, a unique constraint when
/// the index is unique and a plain index otherwise, named after and over the
/// snake_case forms of the index's column names.
pub proof fn law_fresh_extra_indexes(
    t: TableDef,
    db: Seq<char>,
    enums: Seq<Seq<char>>,
    maps: Seq<(Seq<char>, Seq<char>)>,
)
    ensures
        forall|j: int|
            0 <= j < t.extra_indexes@.len() ==> occurs_in(
                fresh_sql_seq(t, db, enums, maps),
                if (#[trigger] t.extra_indexes@[j]).unique {
                    unique_text(db, t.table_name_sql@, snake_columns(t.extra_indexes@[j].columns@))
                } else {
                    index_text(db, t.table_name_sql@, snake_columns(t.extra_indexes@[j].columns@))
                },
            ),
{
    assert forall|j: int| 0 <= j < t.extra_indexes@.len() implies occurs_in(
        fresh_sql_seq(t, db, enums, maps),
        if (#[trigger] t.extra_indexes@[j]).unique {
            unique_text(db, t.table_name_sql@, snake_columns(t.extra_indexes@[j].columns@))
        } else {
            index_text(db, t.table_name_sql@, snake_columns(t.extra_indexes@[j].columns@))
        },
    ) by {
        lemma_fresh_extra_index(t, db, enums, maps, j);
    }
}

/// One missing column of an incremental run.
proof fn lemma_incremental_adds(
    t: TableDef,
    db: Seq<char>,
    enums: Seq<Seq<char>>,
    maps: Seq<(Seq<char>, Seq<char>)>,
    existing: Seq<char>,
    i: int,
)
    requires
        0 <= i < t.fields@.len(),
        !columns_of(existing).contains(t.fields@[i].field_name_snake@),
    ensures
        has_prefix_seq(
            incremental_sql_seq(t, db, enums, maps, existing),
            trim_end_seq(existing) + "\n"@ + "\n"@ + "------- SQL updates -------\n"@ + "\n"@,
        ),
        occurs_in(
            incremental_sql_seq(t, db, enums, maps, existing),
            add_column_text(db, t.table_name_sql@, t.fields@[i], spec_sql_type(t.fields@[i].rust_type@, enums, maps)),
        ),
{
    let tsql = t.table_name_sql@;
    let full = full_table_name(db, tsql);
    let fs = field_views(t.fields@);
    let ex = columns_of(existing);
    let f = t.fields@[i];
    let ty = spec_sql_type(f.rust_type@, enums, maps);
    assert(fs[i] == f@);
    lemma_missing_lines_hold(full, fs, enums, maps, ex, i);
    lemma_column_line_text(db, tsql, f, ty);
    let adds = missing_column_lines(full, fs, enums, maps, ex);
    let want = add_column_text(db, tsql, f, ty);
    reveal_strlit("ALTER TABLE ");
    assert(want.len() > 0);
    let k = choose|k: int| 0 <= k && k + want.len() <= adds.len() && #[trigger] adds.subrange(k, k + want.len()) == want;
    assert(adds.len() > 0);
    let head = trim_end_seq(existing) + "\n"@ + "\n"@ + "------- SQL updates -------\n"@ + "\n"@;
    let inc = incremental_sql_seq(t, db, enums, maps, existing);
    assert(inc == head + adds);
    assert(inc.take(head.len() as int) =~= head);
    let e = Seq::<char>::empty();
    assert(head + adds + e =~= inc);
    lemma_occurs_extend(head, adds, e, want);
}

/// An incremental run against a migration that lacks some field's column
/// keeps the migration (without its trailing whitespace), opens a
/// `------- SQL updates -------` section and adds that column under the
/// field's snake_case name, with its SQL type, ` NOT NULL` exactly when the
/// field is not nullable, and ` default <value>` whenever the field has a
/// default, nullable or not.
pub proof fn law_incremental_adds_missing_columns(
    t: TableDef,
    db: Seq<char>,
    enums: Seq<Seq<char>>,
    maps: Seq<(Seq<char>, Seq<char>)>,
    existing: Seq<char>,
)
    ensures
        forall|i: int|
            0 <= i < t.fields@.len() && !columns_of(existing).contains(
                (#[trigger] t.fields@[i]).field_name_snake@,
            ) ==> has_prefix_seq(
                incremental_sql_seq(t, db, enums, maps, existing),
                trim_end_seq(existing) + "\n"@ + "\n"@ + "------- SQL updates -------\n"@ + "\n"@,
            ) && occurs_in(
                incremental_sql_seq(t, db, enums, maps, existing),
                add_column_text(db, t.table_name_sql@, t.fields@[i], spec_sql_type(t.fields@[i].rust_type@, enums, maps)),
            ),
{
    assert forall|i: int|
        0 <= i < t.fields@.len() && !columns_of(existing).contains(
            (#[trigger] t.fields@[i]).field_name_snake@,
        ) implies has_prefix_seq(
            incremental_sql_seq(t, db, enums, maps, existing),
            trim_end_seq(existing) + "\n"@ + "\n"@ + "------- SQL updates -------\n"@ + "\n"@,
        ) && occurs_in(
            incremental_sql_seq(t, db, enums, maps, existing),
            add_column_text(db, t.table_name_sql@, t.fields@[i], spec_sql_type(t.fields@[i].rust_type@, enums, maps)),
        ) by {
        lemma_incremental_adds(t, db, enums, maps, existing, i);
    }
}

} // verus!
