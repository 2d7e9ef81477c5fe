//! SQL migrations for a table: a fresh migration that creates the table, its
//! columns, primary key and indexes, or, against an existing migration, the
//! `ADD COLUMN` statements for the columns that it does not have yet.

use vstd::prelude::*;
use crate::text::{join_seq, join_texts, lines_seq, lines_text, trim_end_seq, trim_end_text, trim_seq, trim_text, views, words_seq, words_text};
use vstd::utf8::{decode_utf8, encode_utf8, is_ascii_chars, is_char_boundary};
use crate::types::storage::{FieldDef, FieldView, IndexDef, TableDef, TypeObject, field_views, nested_views};
use crate::utils::{contains_text, heck_snake_case, pair_views, rust_type_to_sql_type, spec_sql_type, to_snake};

verus! {

/// `db.table`.
pub open spec fn full_table_name(db: Seq<char>, table_sql: Seq<char>) -> Seq<char> {
    db + "."@ + table_sql
}

/// The SQL type with a space before it.
pub open spec fn padded_seq(sql_type: Seq<char>) -> Seq<char> {
    " "@ + sql_type
}

/// ` NOT NULL` for a field that is not nullable.
pub open spec fn not_null_part(f: FieldView) -> Seq<char> {
    if !f.is_nullable {
        " NOT NULL"@
    } else {
        Seq::<char>::empty()
    }
}

/// ` default <value>` for a field with a default.
pub open spec fn default_part(f: FieldView) -> Seq<char> {
    match f.default_value {
        Some(d) => " default "@ + d,
        None => Seq::<char>::empty(),
    }
}

/// The statement that adds a field's column.
pub open spec fn column_line_seq(full: Seq<char>, f: FieldView, sql_type: Seq<char>) -> Seq<char> {
    "ALTER TABLE "@ + full + " ADD COLUMN "@ + f.field_name_snake + padded_seq(sql_type)
        + not_null_part(f) + default_part(f) + ";\n"@
}

/// The statements that add the columns of the fields, in field order.
pub open spec fn column_lines(
    full: Seq<char>,
    fs: Seq<FieldView>,
    enums: Seq<Seq<char>>,
    maps: Seq<(Seq<char>, Seq<char>)>,
) -> Seq<char>
    decreases fs.len(),
{
    if fs.len() == 0 {
        Seq::<char>::empty()
    } else {
        column_lines(full, fs.drop_last(), enums, maps) + column_line_seq(
            full,
            fs.last(),
            spec_sql_type(fs.last().rust_type, enums, maps),
        )
    }
}

/// The statements that add the columns of the fields whose column name is
/// not among `existing`, in field order.
pub open spec fn missing_column_lines(
    full: Seq<char>,
    fs: Seq<FieldView>,
    enums: Seq<Seq<char>>,
    maps: Seq<(Seq<char>, Seq<char>)>,
    existing: Seq<Seq<char>>,
) -> Seq<char>
    decreases fs.len(),
{
    if fs.len() == 0 {
        Seq::<char>::empty()
    } else if existing.contains(fs.last().field_name_snake) {
        missing_column_lines(full, fs.drop_last(), enums, maps, existing)
    } else {
        missing_column_lines(full, fs.drop_last(), enums, maps, existing) + column_line_seq(
            full,
            fs.last(),
            spec_sql_type(fs.last().rust_type, enums, maps),
        )
    }
}

/// The primary key statement, or nothing without key columns.
pub open spec fn primary_key_line(full: Seq<char>, cols: Seq<Seq<char>>) -> Seq<char> {
    if cols.len() == 0 {
        Seq::<char>::empty()
    } else {
        "ALTER TABLE "@ + full + " ADD PRIMARY KEY ( "@ + join_seq(cols, ", "@) + ");\n"@
    }
}

/// `idx_<table>_<col1>_<col2>...`.
pub open spec fn index_name(table_sql: Seq<char>, cols: Seq<Seq<char>>) -> Seq<char> {
    "idx_"@ + table_sql + "_"@ + join_seq(cols, "_"@)
}

/// The statement that creates a (non-unique) index.
pub open spec fn create_index_line(table_sql: Seq<char>, full: Seq<char>, cols: Seq<Seq<char>>) -> Seq<char> {
    "CREATE INDEX "@ + index_name(table_sql, cols) + " ON "@ + full + " ("@ + join_seq(cols, ", "@)
        + ");\n"@
}

/// The statement that adds a unique constraint.
pub open spec fn unique_line(table_sql: Seq<char>, full: Seq<char>, cols: Seq<Seq<char>>) -> Seq<char> {
    "ALTER TABLE "@ + full + " ADD CONSTRAINT "@ + index_name(table_sql, cols) + " UNIQUE ("@
        + join_seq(cols, ", "@) + ");\n"@
}

/// One index statement per secondary key.
pub open spec fn secondary_key_lines(
    table_sql: Seq<char>,
    full: Seq<char>,
    keys: Seq<Seq<Seq<char>>>,
) -> Seq<char>
    decreases keys.len(),
{
    if keys.len() == 0 {
        Seq::<char>::empty()
    } else {
        secondary_key_lines(table_sql, full, keys.drop_last()) + create_index_line(
            table_sql,
            full,
            keys.last(),
        )
    }
}

/// One statement per extra index: a unique constraint or a plain index.
pub open spec fn extra_index_lines(
    table_sql: Seq<char>,
    full: Seq<char>,
    cols: Seq<Seq<Seq<char>>>,
    unique: Seq<bool>,
) -> Seq<char>
    decreases cols.len(),
{
    if cols.len() == 0 {
        Seq::<char>::empty()
    } else {
        extra_index_lines(table_sql, full, cols.drop_last(), unique) + if unique[cols.len() - 1] {
            unique_line(table_sql, full, cols.last())
        } else {
            create_index_line(table_sql, full, cols.last())
        }
    }
}

/// The statement that creates the table, and an empty line.
pub open spec fn header_lines(full: Seq<char>) -> Seq<char> {
    "CREATE TABLE "@ + full + " ();\n"@ + "\n"@
}

/// The names of the table's enum types.
pub open spec fn type_names(types: Seq<TypeObject>) -> Seq<Seq<char>> {
    types.map_values(|t: TypeObject| t.name@)
}

/// The uniqueness flags of the table's extra indexes.
pub open spec fn index_unique_flags(idx: Seq<IndexDef>) -> Seq<bool> {
    idx.map_values(|i: IndexDef| i.unique)
}

/// The snake_case forms of some names.
pub open spec fn snake_names(names: Seq<Seq<char>>) -> Seq<Seq<char>> {
    names.map_values(|n: Seq<char>| heck_snake_case(n))
}

/// A fresh migration for a table, given the column names of its primary key,
/// of each secondary key and of each extra index.
pub open spec fn render_fresh_seq(
    t: TableDef,
    db: Seq<char>,
    enums: Seq<Seq<char>>,
    maps: Seq<(Seq<char>, Seq<char>)>,
    pk_cols: Seq<Seq<char>>,
    sk_cols: Seq<Seq<Seq<char>>>,
    idx_cols: Seq<Seq<Seq<char>>>,
) -> Seq<char> {
    let full = full_table_name(db, t.table_name_sql@);
    header_lines(full) + column_lines(full, field_views(t.fields@), enums, maps) + primary_key_line(
        full,
        pk_cols,
    ) + secondary_key_lines(t.table_name_sql@, full, sk_cols) + extra_index_lines(
        t.table_name_sql@,
        full,
        idx_cols,
        index_unique_flags(t.extra_indexes@),
    )
}

/// A fresh migration for a table; key and index columns are snake_cased.
pub open spec fn fresh_sql_seq(
    t: TableDef,
    db: Seq<char>,
    enums: Seq<Seq<char>>,
    maps: Seq<(Seq<char>, Seq<char>)>,
) -> Seq<char> {
    render_fresh_seq(
        t,
        db,
        enums,
        maps,
        snake_names(views(t.primary_key@)),
        t.secondary_keys@.map_values(|k: Vec<String>| snake_names(views(k@))),
        t.extra_indexes@.map_values(|i: IndexDef| snake_names(views(i.columns@))),
    )
}

/// The SQL type with a space before it.
pub fn sql_type_padded(sql_type: &str) -> (r: String)
    ensures
        r@ == padded_seq(sql_type@),
{
    let mut r = " ".to_string();
    r.append(sql_type);
    r
}

/// The statement that adds a field's column with the given SQL type.
pub fn column_line(full: &str, f: &FieldDef, sql_type: &str) -> (r: String)
    ensures
        r@ == column_line_seq(full@, f@, sql_type@),
{
    let mut r = "ALTER TABLE ".to_string();
    r.append(full);
    r.append(" ADD COLUMN ");
    r.append(f.field_name_snake.as_str());
    let p = sql_type_padded(sql_type);
    r.append(p.as_str());
    let ghost before_nn = r@;
    if !f.is_nullable {
        r.append(" NOT NULL");
    }
    assert(r@ =~= before_nn + not_null_part(f@));
    let ghost before_default = r@;
    match &f.default_value {
        Some(d) => {
            r.append(" default ");
            r.append(d.as_str());
        },
        None => {},
    }
    assert(r@ =~= before_default + default_part(f@));
    r.append(";\n");
    r
}

/// The snake_case forms of some names.
pub fn snake_all(names: &Vec<String>) -> (r: Vec<String>)
    ensures
        views(r@) == snake_names(views(names@)),
{
    let mut r: Vec<String> = Vec::new();
    let mut i: usize = 0;
    while i < names.len()
        invariant
            i <= names.len(),
            views(r@) == snake_names(views(names@)).take(i as int),
        decreases names.len() - i,
    {
        let s = to_snake(names[i].as_str());
        let ghost before = views(r@);
        r.push(s);
        assert(views(r@) =~= before.push(s@));
        i = i + 1;
        assert(views(r@) =~= snake_names(views(names@)).take(i as int));
    }
    assert(snake_names(views(names@)).take(names.len() as int) =~= snake_names(views(names@)));
    r
}

/// The name of an index over some columns.
fn index_name_text(table_sql: &str, cols: &Vec<String>) -> (r: String)
    ensures
        r@ == index_name(table_sql@, views(cols@)),
{
    let mut r = "idx_".to_string();
    r.append(table_sql);
    r.append("_");
    let j = join_texts(cols, "_");
    r.append(j.as_str());
    r
}

/// The statement that creates an index, or adds a unique constraint.
fn index_line(table_sql: &str, full: &str, cols: &Vec<String>, unique: bool) -> (r: String)
    ensures
        r@ == if unique {
            unique_line(table_sql@, full@, views(cols@))
        } else {
            create_index_line(table_sql@, full@, views(cols@))
        },
{
    let name = index_name_text(table_sql, cols);
    let joined = join_texts(cols, ", ");
    if unique {
        let mut r = "ALTER TABLE ".to_string();
        r.append(full);
        r.append(" ADD CONSTRAINT ");
        r.append(name.as_str());
        r.append(" UNIQUE (");
        r.append(joined.as_str());
        r.append(");\n");
        r
    } else {
        let mut r = "CREATE INDEX ".to_string();
        r.append(name.as_str());
        r.append(" ON ");
        r.append(full);
        r.append(" (");
        r.append(joined.as_str());
        r.append(");\n");
        r
    }
}

/// `db.table` for a table.
fn full_table_text(database: &str, table_sql: &str) -> (r: String)
    ensures
        r@ == full_table_name(database@, table_sql@),
{
    let mut r = database.to_string();
    r.append(".");
    r.append(table_sql);
    r
}

/// A fresh migration for a table, given the column names of its primary key,
/// of each secondary key and of each extra index (in the table's order).
pub fn render_fresh_sql(
    table: &TableDef,
    database: &str,
    enum_names: &[String],
    type_mappings: &[(String, String)],
    pk_columns: &Vec<String>,
    secondary_columns: &Vec<Vec<String>>,
    index_columns: &Vec<Vec<String>>,
) -> (r: String)
    requires
        index_columns.len() == table.extra_indexes.len(),
    ensures
        r@ == render_fresh_seq(
            *table,
            database@,
            views(enum_names@),
            pair_views(type_mappings@),
            views(pk_columns@),
            nested_views(secondary_columns@),
            nested_views(index_columns@),
        ),
{
    let ghost enums = views(enum_names@);
    let ghost maps = pair_views(type_mappings@);
    let full = full_table_text(database, table.table_name_sql.as_str());
    let mut out = "CREATE TABLE ".to_string();
    out.append(full.as_str());
    out.append(" ();\n");
    out.append("\n");
    let ghost header = out@;
    assert(header =~= header_lines(full@));
    let ghost fs = field_views(table.fields@);
    let mut i: usize = 0;
    assert(fs.take(0) =~= Seq::<FieldView>::empty());
    while i < table.fields.len()
        invariant
            i <= table.fields.len(),
            fs == field_views(table.fields@),
            enums == views(enum_names@),
            maps == pair_views(type_mappings@),
            out@ == header + column_lines(full@, fs.take(i as int), enums, maps),
        decreases table.fields.len() - i,
    {
        let f = &table.fields[i];
        let sql_type = rust_type_to_sql_type(f.rust_type.as_str(), enum_names, type_mappings);
        let line = column_line(full.as_str(), f, sql_type.as_str());
        out.append(line.as_str());
        assert(fs.take(i + 1).drop_last() =~= fs.take(i as int));
        assert(fs.take(i + 1).last() == f@);
        i = i + 1;
        assert(out@ =~= header + column_lines(full@, fs.take(i as int), enums, maps));
    }
    assert(fs.take(table.fields.len() as int) =~= fs);
    let ghost cols_part = out@;
    if pk_columns.len() > 0 {
        out.append("ALTER TABLE ");
        out.append(full.as_str());
        out.append(" ADD PRIMARY KEY ( ");
        let joined = join_texts(pk_columns, ", ");
        out.append(joined.as_str());
        out.append(");\n");
    }
    assert(out@ =~= cols_part + primary_key_line(full@, views(pk_columns@)));
    let ghost pk_part = out@;
    let ghost sks = nested_views(secondary_columns@);
    let mut k: usize = 0;
    assert(pk_part + secondary_key_lines(table.table_name_sql@, full@, sks.take(0)) =~= pk_part);
    while k < secondary_columns.len()
        invariant
            k <= secondary_columns.len(),
            sks == nested_views(secondary_columns@),
            out@ == pk_part + secondary_key_lines(table.table_name_sql@, full@, sks.take(k as int)),
        decreases secondary_columns.len() - k,
    {
        let line = index_line(table.table_name_sql.as_str(), full.as_str(), &secondary_columns[k], false);
        out.append(line.as_str());
        assert(sks.take(k + 1).drop_last() =~= sks.take(k as int));
        assert(sks.take(k + 1).last() == views(secondary_columns@[k as int]@));
        k = k + 1;
        assert(out@ =~= pk_part + secondary_key_lines(table.table_name_sql@, full@, sks.take(k as int)));
    }
    assert(sks.take(secondary_columns.len() as int) =~= sks);
    let ghost sk_part = out@;
    let ghost ics = nested_views(index_columns@);
    let ghost uniq = index_unique_flags(table.extra_indexes@);
    let mut m: usize = 0;
    assert(sk_part + extra_index_lines(table.table_name_sql@, full@, ics.take(0), uniq) =~= sk_part);
    while m < index_columns.len()
        invariant
            m <= index_columns.len(),
            index_columns.len() == table.extra_indexes.len(),
            ics == nested_views(index_columns@),
            uniq == index_unique_flags(table.extra_indexes@),
            out@ == sk_part + extra_index_lines(table.table_name_sql@, full@, ics.take(m as int), uniq),
        decreases index_columns.len() - m,
    {
        let unique = table.extra_indexes[m].unique;
        let line = index_line(table.table_name_sql.as_str(), full.as_str(), &index_columns[m], unique);
        out.append(line.as_str());
        assert(ics.take(m + 1).drop_last() =~= ics.take(m as int));
        assert(ics.take(m + 1).last() == views(index_columns@[m as int]@));
        assert(uniq[m as int] == unique);
        m = m + 1;
        assert(out@ =~= sk_part + extra_index_lines(table.table_name_sql@, full@, ics.take(m as int), uniq));
    }
    assert(ics.take(index_columns.len() as int) =~= ics);
    out
}

/// A fresh migration for a table: the table, one statement per column, the
/// primary key, an index per secondary key and one statement per extra index.
pub fn generate_fresh_sql(
    table: &TableDef,
    database: &str,
    enum_names: &[String],
    type_mappings: &[(String, String)],
) -> (r: String)
    ensures
        r@ == fresh_sql_seq(*table, database@, views(enum_names@), pair_views(type_mappings@)),
{
    let pk = snake_all(&table.primary_key);
    let mut sk: Vec<Vec<String>> = Vec::new();
    let ghost want_sk = table.secondary_keys@.map_values(|k: Vec<String>| snake_names(views(k@)));
    let mut i: usize = 0;
    while i < table.secondary_keys.len()
        invariant
            i <= table.secondary_keys.len(),
            want_sk == table.secondary_keys@.map_values(|k: Vec<String>| snake_names(views(k@))),
            nested_views(sk@) == want_sk.take(i as int),
        decreases table.secondary_keys.len() - i,
    {
        let cols = snake_all(&table.secondary_keys[i]);
        let ghost before = nested_views(sk@);
        sk.push(cols);
        assert(nested_views(sk@) =~= before.push(views(cols@)));
        i = i + 1;
        assert(nested_views(sk@) =~= want_sk.take(i as int));
    }
    assert(want_sk.take(table.secondary_keys.len() as int) =~= want_sk);
    let mut ix: Vec<Vec<String>> = Vec::new();
    let ghost want_ix = table.extra_indexes@.map_values(|x: IndexDef| snake_names(views(x.columns@)));
    let mut j: usize = 0;
    while j < table.extra_indexes.len()
        invariant
            j <= table.extra_indexes.len(),
            ix.len() == j,
            want_ix == table.extra_indexes@.map_values(|x: IndexDef| snake_names(views(x.columns@))),
            nested_views(ix@) == want_ix.take(j as int),
        decreases table.extra_indexes.len() - j,
    {
        let cols = snake_all(&table.extra_indexes[j].columns);
        let ghost before = nested_views(ix@);
        ix.push(cols);
        assert(nested_views(ix@) =~= before.push(views(cols@)));
        j = j + 1;
        assert(nested_views(ix@) =~= want_ix.take(j as int));
    }
    assert(want_ix.take(table.extra_indexes.len() as int) =~= want_ix);
    render_fresh_sql(table, database, enum_names, type_mappings, &pk, &sk, &ix)
}

/// What `str::to_uppercase` gives for a text.
pub uninterp spec fn spec_to_uppercase(s: Seq<char>) -> Seq<char>;

/// ASCII uppercase of one character: `a` to `z` become `A` to `Z`, any other
/// character stays.
pub open spec fn ascii_upper_char(c: char) -> char {
    if 'a' <= c <= 'z' {
        ((c as int) - 32) as char
    } else {
        c
    }
}

/// ASCII uppercase of a text, character by character.
pub open spec fn ascii_upper_seq(s: Seq<char>) -> Seq<char> {
    s.map_values(|c: char| ascii_upper_char(c))
}

/// The uppercase form of a text: for an ASCII text, its ASCII uppercase;
/// otherwise what `str::to_uppercase` gives.
pub open spec fn uppercase_seq(s: Seq<char>) -> Seq<char> {
    if is_ascii_chars(s) {
        ascii_upper_seq(s)
    } else {
        spec_to_uppercase(s)
    }
}

/// Calls `str::to_uppercase`. For an ASCII text the contract states the
/// result: each ASCII letter has the one-to-one uppercase mapping of the
/// Unicode data, which maps `a` to `z` onto `A` to `Z` and leaves every other
/// ASCII character as it is. For other texts it names the result, a function
/// of the text alone; the general Unicode case mapping is not restated.
#[verifier::external_body]
fn upper_case(s: &str) -> (r: String)
    ensures
        is_ascii_chars(s@) ==> r@ == ascii_upper_seq(s@),
        !is_ascii_chars(s@) ==> r@ == spec_to_uppercase(s@),
{
    s.to_uppercase()
}

/// The text that introduces a column in a migration statement.
pub open spec fn column_marker() -> Seq<char> {
    "ADD COLUMN "@
}

/// The UTF-8 bytes of the column marker.
pub open spec fn marker_bytes() -> Seq<u8> {
    encode_utf8(column_marker())
}

/// The first position at or after `i` where `needle` occurs in `hay`.
pub open spec fn match_from(hay: Seq<u8>, needle: Seq<u8>, i: int) -> Option<int>
    decreases hay.len() - i,
{
    if needle.len() == 0 {
        Some(i)
    } else if i < 0 || i + needle.len() > hay.len() {
        None
    } else if hay.subrange(i, i + needle.len()) == needle {
        Some(i)
    } else {
        match_from(hay, needle, i + 1)
    }
}

/// The column named in a trimmed line, given the line's uppercase form:
/// after the first `ADD COLUMN ` of the uppercase form, at the same byte
/// position, the first word of the trimmed line. `None` where that byte
/// position is not a character boundary of the trimmed line (where slicing
/// the line there panics); `Some(None)` where the line names no column.
pub open spec fn column_after(t: Seq<char>, u: Seq<char>) -> Option<Option<Seq<char>>> {
    match match_from(encode_utf8(u), marker_bytes(), 0) {
        None => Some(None),
        Some(p) => {
            let tb = encode_utf8(t);
            let mid = p + marker_bytes().len();
            if is_char_boundary(tb, mid) {
                let w = words_seq(decode_utf8(tb.subrange(mid, tb.len() as int)));
                Some(
                    if w.len() > 0 {
                        Some(w[0])
                    } else {
                        None
                    },
                )
            } else {
                None
            }
        },
    }
}

/// The scan of one line of a migration.
pub open spec fn line_scan(line: Seq<char>) -> Option<Option<Seq<char>>> {
    column_after(trim_seq(line), uppercase_seq(trim_seq(line)))
}

/// A line that can be scanned without slicing inside a character.
pub open spec fn line_readable(line: Seq<char>) -> bool {
    line_scan(line) is Some
}

/// The column that a line of a migration adds, if any.
pub open spec fn line_column(line: Seq<char>) -> Option<Seq<char>> {
    match line_scan(line) {
        Some(c) => c,
        None => None,
    }
}

/// The columns that the lines add, in line order.
pub open spec fn columns_in(lines: Seq<Seq<char>>) -> Seq<Seq<char>>
    decreases lines.len(),
{
    if lines.len() == 0 {
        Seq::<Seq<char>>::empty()
    } else {
        match line_column(lines.last()) {
            Some(c) => columns_in(lines.drop_last()).push(c),
            None => columns_in(lines.drop_last()),
        }
    }
}

/// The columns that an existing migration adds.
pub open spec fn columns_of(sql: Seq<char>) -> Seq<Seq<char>> {
    columns_in(lines_seq(sql))
}

/// Every line of the migration can be scanned.
pub open spec fn columns_readable(sql: Seq<char>) -> bool {
    forall|i: int| 0 <= i < lines_seq(sql).len() ==> line_readable(#[trigger] lines_seq(sql)[i])
}

/// The view of an optional string.
pub open spec fn opt_view(o: Option<String>) -> Option<Seq<char>> {
    match o {
        Some(s) => Some(s@),
        None => None,
    }
}

/// The first position where `needle` occurs in `hay`, as `str::find` gives it
/// in bytes.
pub fn find_bytes(hay: &[u8], needle: &[u8]) -> (r: Option<usize>)
    ensures
        match r {
            Some(p) => match_from(hay@, needle@, 0) == Some(p as int) && p + needle.len() <= hay.len(),
            None => match_from(hay@, needle@, 0) is None,
        },
{
    if needle.len() == 0 {
        return Some(0);
    }
    let mut i: usize = 0;
    while i <= hay.len() && needle.len() <= hay.len() - i
        invariant
            needle.len() > 0,
            i <= hay.len() + 1,
            match_from(hay@, needle@, 0) == match_from(hay@, needle@, i as int),
        decreases hay.len() + 1 - i,
    {
        let mut j: usize = 0;
        while j < needle.len() && hay[i + j] == needle[j]
            invariant
                i + needle.len() <= hay.len(),
                j <= needle.len(),
                forall|k: int| 0 <= k < j ==> hay@[i + k] == needle@[k],
            decreases needle.len() - j,
        {
            j = j + 1;
        }
        if j == needle.len() {
            assert(hay@.subrange(i as int, i + needle.len()) =~= needle@);
            return Some(i);
        }
        assert(hay@.subrange(i as int, i + needle.len())[j as int] != needle@[j as int]);
        i = i + 1;
    }
    None
}

/// The column named in a trimmed line, given its uppercase form (see
/// `column_after`): `None` where slicing the trimmed line at the marker's
/// end would fall inside a character.
pub fn column_in_line(trimmed: &str, upper: &str) -> (r: Option<Option<String>>)
    ensures
        match r {
            Some(o) => column_after(trimmed@, upper@) == Some(opt_view(o)),
            None => column_after(trimmed@, upper@) is None,
        },
{
    let ub = upper.as_bytes();
    let mb = "ADD COLUMN ".as_bytes();
    match find_bytes(ub, mb) {
        None => Some(None),
        Some(p) => {
            let mid = p + mb.len();
            if trimmed.is_char_boundary(mid) {
                let (_, rest) = trimmed.split_at(mid);
                proof {
                    vstd::utf8::encode_utf8_decode_utf8(rest@);
                }
                let ws = words_text(rest);
                if ws.len() > 0 {
                    assert(ws@[0]@ == views(ws@)[0]);
                    Some(Some(ws[0].clone()))
                } else {
                    Some(None)
                }
            } else {
                None
            }
        },
    }
}

/// The scan of one line: its column, `Some(None)` if it names none, and
/// `None` if the line cannot be scanned.
fn scan_line(line: &str) -> (r: Option<Option<String>>)
    ensures
        match r {
            Some(o) => line_scan(line@) == Some(opt_view(o)),
            None => line_scan(line@) is None,
        },
{
    let t = trim_text(line);
    let u = upper_case(t.as_str());
    column_in_line(t.as_str(), u.as_str())
}

/// The columns an existing migration adds, or `None` if one of its lines
/// cannot be scanned.
pub fn scan_existing_columns(sql: &str) -> (r: Option<Vec<String>>)
    ensures
        r is None <==> !columns_readable(sql@),
        r matches Some(v) ==> views(v@) == columns_of(sql@),
{
    let lines = lines_text(sql);
    let ghost ls = lines_seq(sql@);
    let mut cols: Vec<String> = Vec::new();
    let mut i: usize = 0;
    assert(ls.take(0) =~= Seq::<Seq<char>>::empty());
    while i < lines.len()
        invariant
            i <= lines.len(),
            views(lines@) == ls,
            ls == lines_seq(sql@),
            forall|k: int| 0 <= k < i ==> line_readable(#[trigger] ls[k]),
            views(cols@) == columns_in(ls.take(i as int)),
        decreases lines.len() - i,
    {
        assert(lines@[i as int]@ == ls[i as int]);
        let scanned = scan_line(lines[i].as_str());
        assert(ls.take(i + 1).drop_last() =~= ls.take(i as int));
        assert(ls.take(i + 1).last() == ls[i as int]);
        match scanned {
            None => {
                assert(!line_readable(ls[i as int]));
                return None;
            },
            Some(found) => {
                match found {
                    Some(c) => {
                        let ghost before = views(cols@);
                        cols.push(c);
                        assert(views(cols@) =~= before.push(c@));
                    },
                    None => {},
                }
            },
        }
        i = i + 1;
        assert(views(cols@) == columns_in(ls.take(i as int)));
    }
    assert(ls.take(lines.len() as int) =~= ls);
    Some(cols)
}

/// The columns that the `ADD COLUMN` statements of an existing migration add.
pub fn parse_existing_columns(sql: &str) -> (r: Vec<String>)
    requires
        columns_readable(sql@),
    ensures
        views(r@) == columns_of(sql@),
{
    match scan_existing_columns(sql) {
        Some(v) => v,
        None => {
            assert(false);
            Vec::new()
        },
    }
}

/// Against an existing migration: the existing text unchanged when every
/// field's column is already there; otherwise the existing text, trimmed at
/// its end, a `------- SQL updates -------` section and a statement per
/// missing column.
pub open spec fn incremental_sql_seq(
    t: TableDef,
    db: Seq<char>,
    enums: Seq<Seq<char>>,
    maps: Seq<(Seq<char>, Seq<char>)>,
    existing: Seq<char>,
) -> Seq<char> {
    let adds = missing_column_lines(
        full_table_name(db, t.table_name_sql@),
        field_views(t.fields@),
        enums,
        maps,
        columns_of(existing),
    );
    if adds.len() == 0 {
        existing
    } else {
        trim_end_seq(existing) + "\n"@ + "\n"@ + "------- SQL updates -------\n"@ + "\n"@ + adds
    }
}

/// The migration for a table: incremental against an existing one, fresh
/// otherwise; enum types map to text columns.
pub open spec fn generate_sql_seq(
    t: TableDef,
    db: Seq<char>,
    maps: Seq<(Seq<char>, Seq<char>)>,
    existing: Option<Seq<char>>,
) -> Seq<char> {
    match existing {
        Some(e) => incremental_sql_seq(t, db, type_names(t.types@), maps, e),
        None => fresh_sql_seq(t, db, type_names(t.types@), maps),
    }
}

/// Appends to an existing migration the columns it does not add yet.
pub fn generate_incremental_sql(
    table: &TableDef,
    database: &str,
    enum_names: &[String],
    type_mappings: &[(String, String)],
    existing: &str,
) -> (r: String)
    requires
        columns_readable(existing@),
    ensures
        r@ == incremental_sql_seq(
            *table,
            database@,
            views(enum_names@),
            pair_views(type_mappings@),
            existing@,
        ),
{
    let ghost enums = views(enum_names@);
    let ghost maps = pair_views(type_mappings@);
    let full = full_table_text(database, table.table_name_sql.as_str());
    let existing_columns = parse_existing_columns(existing);
    let ghost ex = columns_of(existing@);
    let ghost fs = field_views(table.fields@);
    let mut additions = String::new();
    let mut i: usize = 0;
    assert(fs.take(0) =~= Seq::<FieldView>::empty());
    while i < table.fields.len()
        invariant
            i <= table.fields.len(),
            fs == field_views(table.fields@),
            enums == views(enum_names@),
            maps == pair_views(type_mappings@),
            views(existing_columns@) == ex,
            additions@ == missing_column_lines(full@, fs.take(i as int), enums, maps, ex),
        decreases table.fields.len() - i,
    {
        let f = &table.fields[i];
        assert(fs.take(i + 1).drop_last() =~= fs.take(i as int));
        assert(fs.take(i + 1).last() == f@);
        if !contains_text(existing_columns.as_slice(), f.field_name_snake.as_str()) {
            let sql_type = rust_type_to_sql_type(f.rust_type.as_str(), enum_names, type_mappings);
            let line = column_line(full.as_str(), f, sql_type.as_str());
            additions.append(line.as_str());
        }
        i = i + 1;
        assert(additions@ =~= missing_column_lines(full@, fs.take(i as int), enums, maps, ex));
    }
    assert(fs.take(table.fields.len() as int) =~= fs);
    if additions.unicode_len() == 0 {
        return existing.to_string();
    }
    let mut out = trim_end_text(existing);
    out.append("\n");
    out.append("\n");
    out.append("------- SQL updates -------\n");
    out.append("\n");
    out.append(additions.as_str());
    out
}

/// The names of a table's enum types.
fn table_type_names(table: &TableDef) -> (r: Vec<String>)
    ensures
        views(r@) == type_names(table.types@),
{
    let mut r: Vec<String> = Vec::new();
    let mut i: usize = 0;
    while i < table.types.len()
        invariant
            i <= table.types.len(),
            views(r@) == type_names(table.types@).take(i as int),
        decreases table.types.len() - i,
    {
        let n = table.types[i].name.clone();
        let ghost before = views(r@);
        r.push(n);
        assert(views(r@) =~= before.push(table.types@[i as int].name@));
        i = i + 1;
        assert(views(r@) =~= type_names(table.types@).take(i as int));
    }
    assert(type_names(table.types@).take(table.types.len() as int) =~= type_names(table.types@));
    r
}

/// Generate SQL migration statements for a single table.
/// If an existing migration is given, appends incremental changes.
pub fn generate_sql(
    table: &TableDef,
    database: &str,
    sql_type_mappings: &[(String, String)],
    existing_content: Option<&str>,
) -> (r: String)
    requires
        existing_content matches Some(e) ==> columns_readable(e@),
    ensures
        r@ == generate_sql_seq(
            *table,
            database@,
            pair_views(sql_type_mappings@),
            match existing_content {
                Some(e) => Some(e@),
                None => None,
            },
        ),
{
    let enum_names = table_type_names(table);
    match existing_content {
        Some(existing) => generate_incremental_sql(
            table,
            database,
            enum_names.as_slice(),
            sql_type_mappings,
            existing,
        ),
        None => generate_fresh_sql(table, database, enum_names.as_slice(), sql_type_mappings),
    }
}

/// `generate_sql`, or `None` where an existing migration has a line that
/// cannot be scanned (where slicing it would fall inside a character).
pub fn try_generate_sql(
    table: &TableDef,
    database: &str,
    sql_type_mappings: &[(String, String)],
    existing_content: Option<&str>,
) -> (r: Option<String>)
    ensures
        r is None <==> (existing_content matches Some(e) && !columns_readable(e@)),
        r matches Some(s) ==> s@ == generate_sql_seq(
            *table,
            database@,
            pair_views(sql_type_mappings@),
            match existing_content {
                Some(e) => Some(e@),
                None => None,
            },
        ),
{
    match existing_content {
        Some(existing) => {
            if scan_existing_columns(existing).is_none() {
                return None;
            }
        },
        None => {},
    }
    Some(generate_sql(table, database, sql_type_mappings, existing_content))
}

/// No statement is added for fields whose columns all exist.
proof fn lemma_missing_none(
    full: Seq<char>,
    fs: Seq<FieldView>,
    enums: Seq<Seq<char>>,
    maps: Seq<(Seq<char>, Seq<char>)>,
    existing: Seq<Seq<char>>,
)
    requires
        forall|i: int| 0 <= i < fs.len() ==> existing.contains(#[trigger] fs[i].field_name_snake),
    ensures
        missing_column_lines(full, fs, enums, maps, existing).len() == 0,
    decreases fs.len(),
{
    if fs.len() > 0 {
        assert forall|i: int| 0 <= i < fs.drop_last().len() implies existing.contains(
            #[trigger] fs.drop_last()[i].field_name_snake,
        ) by {
            assert(fs.drop_last()[i] == fs[i]);
        }
        lemma_missing_none(full, fs.drop_last(), enums, maps, existing);
        assert(existing.contains(fs[fs.len() - 1].field_name_snake));
    }
}

/// Regenerating against a migration that already adds every field's column
/// leaves that migration unchanged.
pub proof fn law_incremental_unchanged_when_complete(
    t: TableDef,
    db: Seq<char>,
    enums: Seq<Seq<char>>,
    maps: Seq<(Seq<char>, Seq<char>)>,
    existing: Seq<char>,
)
    requires
        forall|i: int|
            0 <= i < t.fields@.len() ==> columns_of(existing).contains(
                #[trigger] t.fields@[i].field_name_snake@,
            ),
    ensures
        incremental_sql_seq(t, db, enums, maps, existing) == existing,
{
    let fs = field_views(t.fields@);
    assert forall|i: int| 0 <= i < fs.len() implies columns_of(existing).contains(
        #[trigger] fs[i].field_name_snake,
    ) by {
        assert(fs[i] == t.fields@[i]@);
    }
    lemma_missing_none(full_table_name(db, t.table_name_sql@), fs, enums, maps, columns_of(existing));
}

/// An incremental migration keeps what the existing one says: it is either
/// the existing migration itself or starts with it (trailing whitespace
/// removed) and only appends.
pub proof fn law_incremental_appends(
    t: TableDef,
    db: Seq<char>,
    enums: Seq<Seq<char>>,
    maps: Seq<(Seq<char>, Seq<char>)>,
    existing: Seq<char>,
)
    ensures
        ({
            let r = incremental_sql_seq(t, db, enums, maps, existing);
            r == existing || crate::text::has_prefix_seq(r, trim_end_seq(existing))
        }),
{
    let r = incremental_sql_seq(t, db, enums, maps, existing);
    let te = trim_end_seq(existing);
    if r != existing {
        assert(r.take(te.len() as int) =~= te);
    }
}

/// A fresh migration starts by creating the table `db.table`.
pub proof fn law_fresh_starts_with_create(
    t: TableDef,
    db: Seq<char>,
    enums: Seq<Seq<char>>,
    maps: Seq<(Seq<char>, Seq<char>)>,
)
    ensures
        crate::text::has_prefix_seq(
            fresh_sql_seq(t, db, enums, maps),
            header_lines(full_table_name(db, t.table_name_sql@)),
        ),
{
    let r = fresh_sql_seq(t, db, enums, maps);
    let h = header_lines(full_table_name(db, t.table_name_sql@));
    assert(r.take(h.len() as int) =~= h);
}

/// The name of a table's migration file: `<table>.sql`.
pub fn migration_file_name(table: &TableDef) -> (r: String)
    ensures
        r@ == table.table_name_sql@ + ".sql"@,
{
    let mut r = table.table_name_sql.clone();
    r.append(".sql");
    r
}

} // verus!
