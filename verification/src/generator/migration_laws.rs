//! What the generator's own migrations say when they are scanned again: the
//! column of each `ADD COLUMN` statement that the generator writes is found
//! in it, so an incremental run over a fresh migration or over its own output
//! adds nothing; and every line of an ASCII migration can be scanned.

use vstd::prelude::*;
use vstd::utf8::{
    encode_utf8, encode_utf8_decode_utf8, encode_utf8_valid_utf8, is_ascii_chars,
    is_ascii_chars_encode_utf8, is_char_boundary, is_char_boundary_iff_is_leading_byte,
    is_char_boundary_start_end_of_seq,
};
use crate::generator::sql::{
    ascii_upper_char, ascii_upper_seq, column_after, column_line_seq, column_lines, column_marker,
    columns_in, columns_of, columns_readable, line_readable, default_part, fresh_sql_seq, full_table_name, header_lines,
    incremental_sql_seq, law_incremental_unchanged_when_complete, line_column, line_scan,
    marker_bytes, match_from, missing_column_lines, not_null_part, padded_seq, uppercase_seq,
};
use crate::text::{
    lemma_lines_concat, lemma_split_first, lemma_split_free_prefix, lemma_split_nonempty,
    lemma_trim_end_concat, lemma_trim_end_prefix, lemma_trim_push_whitespace,
    lemma_word_prefix_concat, lines_seq, spec_is_whitespace, split_seq, strip_cr_seq, trim_end_seq,
    trim_seq, trim_start_seq, word_prefix_seq, words_seq,
};
use crate::types::storage::{FieldView, TableDef, field_views};
use crate::utils::{lookup_seq, spec_sql_type, spec_unwrap_option};

verus! {

/// A text of ASCII characters none of which is whitespace.
pub open spec fn plain_text(s: Seq<char>) -> bool {
    is_ascii_chars(s) && forall|i: int| 0 <= i < s.len() ==> !spec_is_whitespace(#[trigger] s[i])
}

/// The UTF-8 encoding of two texts one after the other.
proof fn lemma_encode_concat(a: Seq<char>, b: Seq<char>)
    ensures
        encode_utf8(a + b) == encode_utf8(a) + encode_utf8(b),
    decreases a.len(),
{
    if a.len() == 0 {
        assert(a + b =~= b);
        assert(encode_utf8(a) + encode_utf8(b) =~= encode_utf8(b));
    } else {
        assert((a + b)[0] == a[0]);
        assert((a + b).drop_first() =~= a.drop_first() + b);
        lemma_encode_concat(a.drop_first(), b);
        assert(encode_utf8(a + b) =~= encode_utf8(a) + encode_utf8(b));
    }
}

/// The uppercase of an ASCII character is an ASCII character, and a space
/// only for a space.
proof fn lemma_ascii_upper_char(c: char)
    ensures
        c <= '\u{7f}' ==> ascii_upper_char(c) <= '\u{7f}',
        ascii_upper_char(c) == ' ' ==> c == ' ',
        !('a' <= c <= 'z') ==> ascii_upper_char(c) == c,
{
}

/// The uppercase of an ASCII text is an ASCII text of the same length.
proof fn lemma_ascii_upper_seq(s: Seq<char>)
    requires
        is_ascii_chars(s),
    ensures
        is_ascii_chars(ascii_upper_seq(s)),
        ascii_upper_seq(s).len() == s.len(),
{
    assert forall|i: int| 0 <= i < ascii_upper_seq(s).len() implies '\0' <= #[trigger] ascii_upper_seq(
        s,
    )[i] <= '\u{7f}' by {
        lemma_ascii_upper_char(s[i]);
    }
}

/// In an ASCII text, a window of bytes equals the encoding of a text exactly
/// when the same window of characters equals that text.
proof fn lemma_ascii_window(u: Seq<char>, k: int, n: Seq<char>)
    requires
        is_ascii_chars(u),
        0 <= k,
        k + n.len() <= u.len(),
    ensures
        (encode_utf8(u).subrange(k, k + n.len()) == encode_utf8(n)) == (u.subrange(k, k + n.len()) == n),
{
    let a = u.subrange(0, k);
    let m = u.subrange(k, k + n.len());
    let c = u.subrange(k + n.len(), u.len() as int);
    assert(u =~= a + m + c);
    assert(is_ascii_chars(a));
    assert(is_ascii_chars(m));
    lemma_encode_concat(a + m, c);
    lemma_encode_concat(a, m);
    is_ascii_chars_encode_utf8(a);
    is_ascii_chars_encode_utf8(m);
    assert(encode_utf8(u).subrange(k, k + n.len()) =~= encode_utf8(m));
    encode_utf8_decode_utf8(m);
    encode_utf8_decode_utf8(n);
}

/// The first match found from `i` on is at `j` when the needle stands at `j`
/// and at no position from `i` up to `j`.
proof fn lemma_match_at(hay: Seq<u8>, needle: Seq<u8>, i: int, j: int)
    requires
        needle.len() > 0,
        0 <= i <= j,
        j + needle.len() <= hay.len(),
        hay.subrange(j, j + needle.len()) == needle,
        forall|k: int| i <= k < j ==> #[trigger] hay.subrange(k, k + needle.len()) != needle,
    ensures
        match_from(hay, needle, i) == Some(j),
    decreases j - i,
{
    if i < j {
        lemma_match_at(hay, needle, i + 1, j);
    }
}

/// The start of a column statement written by the generator.
pub open spec fn column_statement_head(full: Seq<char>) -> Seq<char> {
    "ALTER TABLE "@ + full + " ADD COLUMN "@
}

/// In the capitals of a text that starts with a column statement's head for
/// a table name without whitespace, the first `ADD COLUMN ` is the head's own.
proof fn lemma_marker_position(full: Seq<char>, rest: Seq<char>)
    requires
        full.len() > 0,
        plain_text(full),
        is_ascii_chars(rest),
    ensures
        match_from(
            encode_utf8(ascii_upper_seq(column_statement_head(full) + rest)),
            marker_bytes(),
            0,
        ) == Some(full.len() + 13int),
{
    reveal_strlit("ALTER TABLE ");
    reveal_strlit(" ADD COLUMN ");
    reveal_strlit("ADD COLUMN ");
    let t = column_statement_head(full) + rest;
    let u = ascii_upper_seq(t);
    let n = column_marker();
    let m: int = full.len() as int + 12;
    assert(t.len() == m + 12 + rest.len());
    assert(is_ascii_chars(t)) by {
        assert forall|i: int| 0 <= i < t.len() implies '\0' <= #[trigger] t[i] <= '\u{7f}' by {
            if i < 12 {
            } else if i < m {
                assert(t[i] == full[i - 12]);
            } else if i < m + 12 {
            } else {
                assert(t[i] == rest[i - m - 12]);
            }
        }
    }
    lemma_ascii_upper_seq(t);
    assert forall|k: int| 0 <= k < m + 1 implies #[trigger] u.subrange(k, k + 11) != n by {
        if 12 <= k + 3 < m {
            assert(t[k + 3] == full[k + 3 - 12]);
            lemma_ascii_upper_char(t[k + 3]);
            assert(u.subrange(k, k + 11)[3] != n[3]);
        } else if k + 3 < 12 {
            if k == 0 || k == 7 {
                assert(u.subrange(k, k + 11)[3] != n[3]);
            } else {
                assert(u.subrange(k, k + 11)[0] != n[0]);
            }
        } else {
            assert(t[k + 10] == " ADD COLUMN "@[k + 10 - m]);
            assert(u.subrange(k, k + 11)[10] != n[10]);
        }
    }
    assert(u.subrange(m + 1, m + 12) =~= n);
    let hay = encode_utf8(u);
    is_ascii_chars_encode_utf8(u);
    is_ascii_chars_encode_utf8(n);
    assert forall|k: int| 0 <= k < m + 1 implies #[trigger] hay.subrange(k, k + marker_bytes().len()) != marker_bytes() by {
        lemma_ascii_window(u, k, n);
    }
    lemma_ascii_window(u, m + 1, n);
    lemma_match_at(hay, marker_bytes(), 0, m + 1);
}

/// A line that starts with a column statement's head for a table name
/// without whitespace, then a column name without whitespace, then nothing or
/// whitespace and more ASCII text, adds that column.
proof fn lemma_column_line(full: Seq<char>, snake: Seq<char>, w: Seq<char>)
    requires
        full.len() > 0,
        plain_text(full),
        snake.len() > 0,
        plain_text(snake),
        is_ascii_chars(w),
        w.len() == 0 || spec_is_whitespace(w[0]),
    ensures
        line_column(column_statement_head(full) + snake + w) == Some(snake),
{
    reveal_strlit("ALTER TABLE ");
    reveal_strlit(" ADD COLUMN ");
    reveal_strlit("ADD COLUMN ");
    let head = column_statement_head(full);
    let x = head + snake;
    let line = x + w;
    assert(line[0] == 'A');
    assert(trim_start_seq(line) == line);
    assert(x.last() == snake.last());
    lemma_trim_end_concat(x, w);
    lemma_trim_end_prefix(w);
    let w2 = trim_end_seq(w);
    let t = x + w2;
    assert(trim_seq(line) == t);
    let r = snake + w2;
    assert(t =~= head + r);
    assert(w2.len() > 0 ==> w2[0] == w[0]);
    assert(is_ascii_chars(r)) by {
        assert forall|i: int| 0 <= i < r.len() implies '\0' <= #[trigger] r[i] <= '\u{7f}' by {
            if i < snake.len() {
            } else {
                assert(r[i] == w[i - snake.len()]);
            }
        }
    }
    assert(is_ascii_chars(head)) by {
        assert forall|i: int| 0 <= i < head.len() implies '\0' <= #[trigger] head[i] <= '\u{7f}' by {
            if 12 <= i < full.len() + 12 {
                assert(head[i] == full[i - 12]);
            }
        }
    }
    assert(is_ascii_chars(t)) by {
        assert forall|i: int| 0 <= i < t.len() implies '\0' <= #[trigger] t[i] <= '\u{7f}' by {
            if i < head.len() {
                assert(t[i] == head[i]);
            } else {
                assert(t[i] == r[i - head.len()]);
            }
        }
    }
    assert(uppercase_seq(t) == ascii_upper_seq(t));
    lemma_marker_position(full, r);
    is_ascii_chars_encode_utf8(column_marker());
    let mid = head.len() as int;
    assert(mid == full.len() + 13 + marker_bytes().len());
    let tb = encode_utf8(t);
    lemma_encode_concat(head, r);
    is_ascii_chars_encode_utf8(head);
    is_ascii_chars_encode_utf8(t);
    encode_utf8_valid_utf8(t);
    assert(tb[mid] == t[mid] as u8);
    assert(t[mid] == snake[0]);
    is_char_boundary_iff_is_leading_byte(tb, mid);
    assert(is_char_boundary(tb, mid));
    assert(tb.subrange(mid, tb.len() as int) =~= encode_utf8(r));
    encode_utf8_decode_utf8(r);
    assert(r[0] == snake[0]);
    lemma_word_prefix_concat(snake, w2);
    assert(words_seq(r)[0] == word_prefix_seq(r));
    assert(column_after(t, uppercase_seq(t)) == Some(Some(snake)));
    assert(line_scan(line) == Some(Some(snake)));
}

/// The columns of two runs of lines, one after the other.
proof fn lemma_columns_in_concat(a: Seq<Seq<char>>, b: Seq<Seq<char>>)
    ensures
        columns_in(a + b) == columns_in(a) + columns_in(b),
    decreases b.len(),
{
    if b.len() == 0 {
        assert(a + b =~= a);
        assert(columns_in(a) + columns_in(b) =~= columns_in(a));
    } else {
        assert((a + b).drop_last() =~= a + b.drop_last());
        assert((a + b).last() == b.last());
        lemma_columns_in_concat(a, b.drop_last());
        match line_column(b.last()) {
            Some(c) => {
                assert(columns_in(a) + columns_in(b.drop_last()).push(c) =~= (columns_in(a)
                    + columns_in(b.drop_last())).push(c));
            },
            None => {},
        }
    }
}

/// The lines of a column statement written by the generator start with one
/// that adds the field's column.
proof fn lemma_column_statement_lines(full: Seq<char>, f: FieldView, ty: Seq<char>)
    requires
        full.len() > 0,
        plain_text(full),
        f.field_name_snake.len() > 0,
        plain_text(f.field_name_snake),
        is_ascii_chars(column_line_seq(full, f, ty)),
    ensures
        columns_in(lines_seq(column_line_seq(full, f, ty))).len() > 0,
        columns_in(lines_seq(column_line_seq(full, f, ty)))[0] == f.field_name_snake,
{
    reveal_strlit("ALTER TABLE ");
    reveal_strlit(" ADD COLUMN ");
    reveal_strlit(" ");
    reveal_strlit(";\n");
    let snake = f.field_name_snake;
    let head = column_statement_head(full);
    let x = head + snake;
    let line = column_line_seq(full, f, ty);
    let y0 = padded_seq(ty) + not_null_part(f) + default_part(f) + ";"@;
    reveal_strlit(";");
    let y = padded_seq(ty) + not_null_part(f) + default_part(f) + ";\n"@;
    assert(line =~= x + y);
    assert(y =~= y0.push('\n'));
    assert(!x.contains('\n')) by {
        if x.contains('\n') {
            let i = choose|i: int| 0 <= i < x.len() && x[i] == '\n';
            if 12 <= i < full.len() + 12 {
                assert(x[i] == full[i - 12]);
            } else if i >= head.len() {
                assert(x[i] == snake[i - head.len()]);
            }
        }
    }
    lemma_split_free_prefix(x, y, '\n');
    lemma_split_nonempty(y0, '\n');
    assert(y.drop_last() =~= y0);
    assert(y.last() == '\n');
    assert(split_seq(y, '\n') == split_seq(y0, '\n').push(Seq::<char>::empty()));
    lemma_split_first(y, '\n');
    assert(y[0] == ' ');
    let p = split_seq(line, '\n');
    let first = split_seq(y, '\n')[0];
    assert(p[0] == x + first);
    assert(p.len() >= 2);
    let ls = lines_seq(line);
    assert(p.drop_last()[0] == p[0]);
    assert(ls[0] == strip_cr_seq(x + first));
    let w = strip_cr_seq(first);
    assert((x + first).last() == first.last());
    assert(strip_cr_seq(x + first) =~= x + w);
    assert(w.len() > 0 ==> w[0] == ' ');
    assert(is_ascii_chars(w)) by {
        assert forall|i: int| 0 <= i < w.len() implies '\0' <= #[trigger] w[i] <= '\u{7f}' by {
            assert(w[i] == first[i]);
            assert(first[i] == y[i]);
            assert(line[x.len() + i] == y[i]);
        }
    }
    assert(is_ascii_chars(full));
    lemma_column_line(full, snake, w);
    assert(ls =~= seq![ls[0]] + ls.skip(1));
    lemma_columns_in_concat(seq![ls[0]], ls.skip(1));
    let one = seq![ls[0]];
    assert(one.drop_last() =~= Seq::<Seq<char>>::empty());
    assert(one.last() == ls[0]);
    assert(columns_in(one.drop_last()) == Seq::<Seq<char>>::empty());
    assert(columns_in(one) =~= seq![snake]);
}

/// A value found among the first or the second part is found in both together.
proof fn lemma_contains_concat<A>(a: Seq<A>, b: Seq<A>, x: A)
    ensures
        a.contains(x) ==> (a + b).contains(x),
        b.contains(x) ==> (a + b).contains(x),
{
    if a.contains(x) {
        let i = choose|i: int| 0 <= i < a.len() && a[i] == x;
        assert((a + b)[i] == x);
    }
    if b.contains(x) {
        let i = choose|i: int| 0 <= i < b.len() && b[i] == x;
        assert((a + b)[a.len() + i] == x);
    }
}

/// The statements for every field are those for the fields missing from an
/// empty list.
pub(crate) proof fn lemma_column_lines_all_missing(
    full: Seq<char>,
    fs: Seq<FieldView>,
    enums: Seq<Seq<char>>,
    maps: Seq<(Seq<char>, Seq<char>)>,
)
    ensures
        column_lines(full, fs, enums, maps) == missing_column_lines(
            full,
            fs,
            enums,
            maps,
            Seq::<Seq<char>>::empty(),
        ),
    decreases fs.len(),
{
    if fs.len() > 0 {
        lemma_column_lines_all_missing(full, fs.drop_last(), enums, maps);
    }
}

/// The statements for the missing columns end with a line break, and
/// scanning them finds the column of every field that was missing.
proof fn lemma_missing_lines_columns(
    full: Seq<char>,
    fs: Seq<FieldView>,
    enums: Seq<Seq<char>>,
    maps: Seq<(Seq<char>, Seq<char>)>,
    existing: Seq<Seq<char>>,
)
    requires
        full.len() > 0,
        plain_text(full),
        forall|i: int|
            0 <= i < fs.len() ==> (#[trigger] fs[i]).field_name_snake.len() > 0 && plain_text(
                fs[i].field_name_snake,
            ) && is_ascii_chars(
                column_line_seq(full, fs[i], spec_sql_type(fs[i].rust_type, enums, maps)),
            ),
    ensures
        ({
            let m = missing_column_lines(full, fs, enums, maps, existing);
            &&& m.len() == 0 || m.last() == '\n'
            &&& forall|i: int|
                0 <= i < fs.len() && !existing.contains(#[trigger] fs[i].field_name_snake)
                    ==> columns_in(lines_seq(m)).contains(fs[i].field_name_snake)
        }),
    decreases fs.len(),
{
    if fs.len() > 0 {
        let fs2 = fs.drop_last();
        assert forall|i: int| 0 <= i < fs2.len() implies (#[trigger] fs2[i]).field_name_snake.len() > 0
            && plain_text(fs2[i].field_name_snake) && is_ascii_chars(
            column_line_seq(full, fs2[i], spec_sql_type(fs2[i].rust_type, enums, maps)),
        ) by {
            assert(fs2[i] == fs[i]);
        }
        lemma_missing_lines_columns(full, fs2, enums, maps, existing);
        let m2 = missing_column_lines(full, fs2, enums, maps, existing);
        let f = fs.last();
        let n = fs.len() - 1;
        assert(f == fs[n]);
        if !existing.contains(f.field_name_snake) {
            let ty = spec_sql_type(f.rust_type, enums, maps);
            let l = column_line_seq(full, f, ty);
            reveal_strlit(";\n");
            assert(l.last() == '\n');
            lemma_lines_concat(m2, l);
            lemma_columns_in_concat(lines_seq(m2), lines_seq(l));
            lemma_column_statement_lines(full, f, ty);
            assert forall|i: int|
                0 <= i < fs.len() && !existing.contains(#[trigger] fs[i].field_name_snake)
                    implies columns_in(lines_seq(m2 + l)).contains(fs[i].field_name_snake) by {
                if i < n {
                    assert(fs2[i] == fs[i]);
                    lemma_contains_concat(columns_in(lines_seq(m2)), columns_in(lines_seq(l)), fs[i].field_name_snake);
                } else {
                    assert(columns_in(lines_seq(l))[0] == f.field_name_snake);
                    lemma_contains_concat(columns_in(lines_seq(m2)), columns_in(lines_seq(l)), fs[i].field_name_snake);
                }
            }
            assert((m2 + l).last() == '\n');
        } else {
            assert forall|i: int|
                0 <= i < fs.len() && !existing.contains(#[trigger] fs[i].field_name_snake)
                    implies columns_in(lines_seq(m2)).contains(fs[i].field_name_snake) by {
                if i < n {
                    assert(fs2[i] == fs[i]);
                }
            }
        }
    }
}

/// A line with nothing but whitespace adds no column.
proof fn lemma_blank_line(l: Seq<char>)
    requires
        trim_seq(l).len() == 0,
    ensures
        line_column(l) is None,
{
    let t = trim_seq(l);
    assert(t =~= Seq::<char>::empty());
    assert(is_ascii_chars(t));
    assert(uppercase_seq(t) =~= Seq::<char>::empty());
    reveal_strlit("ADD COLUMN ");
    is_ascii_chars_encode_utf8(column_marker());
    assert(encode_utf8(Seq::<char>::empty()) =~= Seq::<u8>::empty());
    assert(match_from(encode_utf8(uppercase_seq(t)), marker_bytes(), 0) is None);
}

/// Whitespace at the end of a line does not change the column it adds.
proof fn lemma_line_column_push_whitespace(l: Seq<char>, c: char)
    requires
        spec_is_whitespace(c),
    ensures
        line_column(l.push(c)) == line_column(l),
{
    lemma_trim_push_whitespace(l, c);
}

/// A carriage return at the end of a line does not change the column it adds.
proof fn lemma_line_column_strip_cr(l: Seq<char>)
    ensures
        line_column(strip_cr_seq(l)) == line_column(l),
{
    if l.len() > 0 && l.last() == '\r' {
        assert(l.drop_last().push('\r') =~= l);
        lemma_line_column_push_whitespace(l.drop_last(), '\r');
    }
}

/// The columns of some lines with one more at their end.
proof fn lemma_columns_in_push(ls: Seq<Seq<char>>, l: Seq<char>)
    ensures
        columns_in(ls.push(l)) == match line_column(l) {
            Some(c) => columns_in(ls).push(c),
            None => columns_in(ls),
        },
{
    assert(ls.push(l).drop_last() =~= ls);
    assert(ls.push(l).last() == l);
}

/// A line break at the end of a migration adds no column.
proof fn lemma_columns_of_newline(x: Seq<char>)
    ensures
        columns_of(x.push('\n')) == columns_of(x),
{
    lemma_split_nonempty(x, '\n');
    let p = split_seq(x, '\n');
    assert(x.push('\n').drop_last() =~= x);
    assert(split_seq(x.push('\n'), '\n') == p.push(Seq::<char>::empty()));
    let body = p.drop_last().map_values(|l: Seq<char>| strip_cr_seq(l));
    assert(p.push(Seq::<char>::empty()).drop_last() =~= p);
    assert(lines_seq(x.push('\n')) =~= body.push(strip_cr_seq(p.last())));
    lemma_columns_in_push(body, strip_cr_seq(p.last()));
    lemma_line_column_strip_cr(p.last());
    if p.last().len() > 0 {
        lemma_columns_in_push(body, p.last());
    } else {
        lemma_blank_line(p.last());
    }
}

/// A whitespace character at the end of a migration adds no column.
proof fn lemma_columns_of_push_whitespace(x: Seq<char>, c: char)
    requires
        spec_is_whitespace(c),
    ensures
        columns_of(x.push(c)) == columns_of(x),
{
    if c == '\n' {
        lemma_columns_of_newline(x);
    } else {
        lemma_split_nonempty(x, '\n');
        let p = split_seq(x, '\n');
        assert(x.push(c).drop_last() =~= x);
        assert(x.push(c).last() == c);
        let q = p.update(p.len() - 1, p.last().push(c));
        assert(split_seq(x.push(c), '\n') == q);
        assert(q.drop_last() =~= p.drop_last());
        let body = p.drop_last().map_values(|l: Seq<char>| strip_cr_seq(l));
        assert(lines_seq(x.push(c)) =~= body.push(p.last().push(c)));
        lemma_columns_in_push(body, p.last().push(c));
        lemma_line_column_push_whitespace(p.last(), c);
        if p.last().len() > 0 {
            lemma_columns_in_push(body, p.last());
        } else {
            lemma_blank_line(p.last());
        }
    }
}

/// Trailing whitespace of a migration adds no column.
proof fn lemma_columns_of_trim_end(x: Seq<char>)
    ensures
        columns_of(trim_end_seq(x)) == columns_of(x),
    decreases x.len(),
{
    if x.len() > 0 && spec_is_whitespace(x.last()) {
        lemma_columns_of_trim_end(x.drop_last());
        assert(x.drop_last().push(x.last()) =~= x);
        lemma_columns_of_push_whitespace(x.drop_last(), x.last());
    }
}

/// The texts of a table, a database and type mappings from which the
/// generator writes ASCII column statements that name the table and each
/// column by a word without whitespace: the database and table names, each
/// column name, default value and mapped SQL type are ASCII, and the names
/// have no whitespace, the column names at least one character.
pub open spec fn plain_table_texts(t: TableDef, db: Seq<char>, maps: Seq<(Seq<char>, Seq<char>)>) -> bool {
    &&& plain_text(db)
    &&& plain_text(t.table_name_sql@)
    &&& forall|i: int|
        0 <= i < t.fields@.len() ==> {
            let f = #[trigger] t.fields@[i];
            &&& f.field_name_snake@.len() > 0
            &&& plain_text(f.field_name_snake@)
            &&& match f.default_value {
                Some(d) => is_ascii_chars(d@),
                None => true,
            }
        }
    &&& forall|i: int| 0 <= i < maps.len() ==> is_ascii_chars(#[trigger] maps[i].1)
}

/// Two ASCII texts one after the other form an ASCII text.
proof fn lemma_ascii_concat(a: Seq<char>, b: Seq<char>)
    requires
        is_ascii_chars(a),
        is_ascii_chars(b),
    ensures
        is_ascii_chars(a + b),
{
    assert forall|i: int| 0 <= i < (a + b).len() implies '\0' <= #[trigger] (a + b)[i] <= '\u{7f}' by {
        if i < a.len() {
            assert((a + b)[i] == a[i]);
        } else {
            assert((a + b)[i] == b[i - a.len()]);
        }
    }
}

/// A type found in ASCII mappings is ASCII.
proof fn lemma_lookup_ascii(maps: Seq<(Seq<char>, Seq<char>)>, k: Seq<char>)
    requires
        forall|i: int| 0 <= i < maps.len() ==> is_ascii_chars(#[trigger] maps[i].1),
    ensures
        lookup_seq(maps, k) matches Some(v) ==> is_ascii_chars(v),
    decreases maps.len(),
{
    if maps.len() > 0 && maps[0].0 != k {
        assert forall|i: int| 0 <= i < maps.drop_first().len() implies is_ascii_chars(
            #[trigger] maps.drop_first()[i].1,
        ) by {
            assert(maps.drop_first()[i] == maps[i + 1]);
        }
        lemma_lookup_ascii(maps.drop_first(), k);
    }
}

/// From plain table texts, the generator's column statements are ASCII and
/// name the table and each column by a word without whitespace.
proof fn lemma_plain_statements(
    t: TableDef,
    db: Seq<char>,
    enums: Seq<Seq<char>>,
    maps: Seq<(Seq<char>, Seq<char>)>,
)
    requires
        plain_table_texts(t, db, maps),
    ensures
        full_table_name(db, t.table_name_sql@).len() > 0,
        plain_text(full_table_name(db, t.table_name_sql@)),
        forall|i: int|
            0 <= i < field_views(t.fields@).len() ==> (#[trigger] field_views(t.fields@)[i]).field_name_snake.len()
                > 0 && plain_text(field_views(t.fields@)[i].field_name_snake) && is_ascii_chars(
                column_line_seq(
                    full_table_name(db, t.table_name_sql@),
                    field_views(t.fields@)[i],
                    spec_sql_type(field_views(t.fields@)[i].rust_type, enums, maps),
                ),
            ),
{
    reveal_strlit(".");
    reveal_strlit("ALTER TABLE ");
    reveal_strlit(" ADD COLUMN ");
    reveal_strlit(" ");
    reveal_strlit(" NOT NULL");
    reveal_strlit(" default ");
    reveal_strlit(";\n");
    reveal_strlit("character varying(36)");
    reveal_strlit("text");
    reveal_strlit("jsonb");
    let full = full_table_name(db, t.table_name_sql@);
    let tsql = t.table_name_sql@;
    assert(plain_text(full)) by {
        assert forall|i: int| 0 <= i < full.len() implies !spec_is_whitespace(#[trigger] full[i]) && '\0' <= full[i] <= '\u{7f}' by {
            if i < db.len() {
                assert(full[i] == db[i]);
            } else if i > db.len() {
                assert(full[i] == tsql[i - db.len() - 1]);
            }
        }
    }
    let fs = field_views(t.fields@);
    assert forall|i: int| 0 <= i < fs.len() implies (#[trigger] fs[i]).field_name_snake.len() > 0
        && plain_text(fs[i].field_name_snake) && is_ascii_chars(
        column_line_seq(full, fs[i], spec_sql_type(fs[i].rust_type, enums, maps)),
    ) by {
        let f = fs[i];
        assert(f == t.fields@[i]@);
        let ty = spec_sql_type(f.rust_type, enums, maps);
        lemma_lookup_ascii(maps, spec_unwrap_option(f.rust_type));
        assert(is_ascii_chars(ty));
        assert(is_ascii_chars(full));
        assert(is_ascii_chars(f.field_name_snake));
        lemma_ascii_concat("ALTER TABLE "@, full);
        lemma_ascii_concat("ALTER TABLE "@ + full, " ADD COLUMN "@);
        lemma_ascii_concat("ALTER TABLE "@ + full + " ADD COLUMN "@, f.field_name_snake);
        lemma_ascii_concat(" "@, ty);
        let a = "ALTER TABLE "@ + full + " ADD COLUMN "@ + f.field_name_snake;
        lemma_ascii_concat(a, padded_seq(ty));
        assert(is_ascii_chars(not_null_part(f)));
        lemma_ascii_concat(a + padded_seq(ty), not_null_part(f));
        match f.default_value {
            Some(d) => {
                lemma_ascii_concat(" default "@, d);
            },
            None => {},
        }
        assert(is_ascii_chars(default_part(f)));
        lemma_ascii_concat(a + padded_seq(ty) + not_null_part(f), default_part(f));
        lemma_ascii_concat(a + padded_seq(ty) + not_null_part(f) + default_part(f), ";\n"@);
    }
}

/// A fresh migration needs no update: an incremental run against the fresh
/// migration of the same table, written from plain table texts, returns it
/// unchanged.
pub proof fn law_incremental_keeps_fresh(
    t: TableDef,
    db: Seq<char>,
    enums: Seq<Seq<char>>,
    maps: Seq<(Seq<char>, Seq<char>)>,
)
    requires
        plain_table_texts(t, db, maps),
    ensures
        incremental_sql_seq(t, db, enums, maps, fresh_sql_seq(t, db, enums, maps)) == fresh_sql_seq(
            t,
            db,
            enums,
            maps,
        ),
{
    reveal_strlit(" ();\n");
    reveal_strlit("\n");
    let full = full_table_name(db, t.table_name_sql@);
    let fs = field_views(t.fields@);
    let none = Seq::<Seq<char>>::empty();
    lemma_plain_statements(t, db, enums, maps);
    lemma_column_lines_all_missing(full, fs, enums, maps);
    lemma_missing_lines_columns(full, fs, enums, maps, none);
    let h = header_lines(full);
    let c = column_lines(full, fs, enums, maps);
    let fresh = fresh_sql_seq(t, db, enums, maps);
    let hc = h + c;
    let rest = fresh.skip(hc.len() as int);
    assert(fresh =~= hc + rest);
    assert(h.last() == '\n');
    if c.len() == 0 {
        assert(hc =~= h);
    } else {
        assert(hc.last() == c.last());
    }
    lemma_lines_concat(h, c);
    lemma_lines_concat(hc, rest);
    lemma_columns_in_concat(lines_seq(h), lines_seq(c));
    lemma_columns_in_concat(lines_seq(h) + lines_seq(c), lines_seq(rest));
    let cols = columns_of(fresh);
    assert(cols == columns_in(lines_seq(h)) + columns_in(lines_seq(c)) + columns_in(lines_seq(rest)));
    assert forall|i: int| 0 <= i < t.fields@.len() implies cols.contains(
        #[trigger] t.fields@[i].field_name_snake@,
    ) by {
        assert(fs[i] == t.fields@[i]@);
        assert(!none.contains(fs[i].field_name_snake));
        let x = fs[i].field_name_snake;
        lemma_contains_concat(columns_in(lines_seq(h)), columns_in(lines_seq(c)), x);
        lemma_contains_concat(columns_in(lines_seq(h)) + columns_in(lines_seq(c)), columns_in(lines_seq(rest)), x);
    }
    law_incremental_unchanged_when_complete(t, db, enums, maps, fresh);
}

/// A second incremental run over its own output adds nothing: for plain
/// table texts, regenerating against an incremental migration returns it
/// unchanged, whatever the migration it was made from.
pub proof fn law_incremental_idempotent(
    t: TableDef,
    db: Seq<char>,
    enums: Seq<Seq<char>>,
    maps: Seq<(Seq<char>, Seq<char>)>,
    existing: Seq<char>,
)
    requires
        plain_table_texts(t, db, maps),
    ensures
        ({
            let once = incremental_sql_seq(t, db, enums, maps, existing);
            incremental_sql_seq(t, db, enums, maps, once) == once
        }),
{
    reveal_strlit("\n");
    reveal_strlit("------- SQL updates -------\n");
    let full = full_table_name(db, t.table_name_sql@);
    let fs = field_views(t.fields@);
    let ex = columns_of(existing);
    let adds = missing_column_lines(full, fs, enums, maps, ex);
    let once = incremental_sql_seq(t, db, enums, maps, existing);
    if adds.len() > 0 {
        lemma_plain_statements(t, db, enums, maps);
        lemma_missing_lines_columns(full, fs, enums, maps, ex);
        let te = trim_end_seq(existing);
        let a = te.push('\n');
        let mid = "\n"@ + "------- SQL updates -------\n"@ + "\n"@;
        assert(once =~= a + (mid + adds));
        assert(mid.last() == '\n');
        assert(a.last() == '\n');
        lemma_lines_concat(mid, adds);
        lemma_lines_concat(a, mid + adds);
        lemma_columns_in_concat(lines_seq(mid), lines_seq(adds));
        lemma_columns_in_concat(lines_seq(a), lines_seq(mid) + lines_seq(adds));
        lemma_columns_of_newline(te);
        lemma_columns_of_trim_end(existing);
        let ca = columns_in(lines_seq(a));
        let cm = columns_in(lines_seq(mid));
        let cd = columns_in(lines_seq(adds));
        assert(ca == ex);
        let cols = columns_of(once);
        assert(cols == ca + (cm + cd));
        assert forall|i: int| 0 <= i < t.fields@.len() implies cols.contains(
            #[trigger] t.fields@[i].field_name_snake@,
        ) by {
            assert(fs[i] == t.fields@[i]@);
            let x = fs[i].field_name_snake;
            lemma_contains_concat(cm, cd, x);
            lemma_contains_concat(ca, cm + cd, x);
        }
        law_incremental_unchanged_when_complete(t, db, enums, maps, once);
    }
}

/// The pieces of an ASCII text split at a separator are ASCII.
proof fn lemma_split_ascii(s: Seq<char>, sep: char)
    requires
        is_ascii_chars(s),
    ensures
        forall|i: int| 0 <= i < split_seq(s, sep).len() ==> is_ascii_chars(#[trigger] split_seq(s, sep)[i]),
    decreases s.len(),
{
    lemma_split_nonempty(s, sep);
    if s.len() > 0 {
        let s2 = s.drop_last();
        assert(is_ascii_chars(s2)) by {
            assert forall|i: int| 0 <= i < s2.len() implies '\0' <= #[trigger] s2[i] <= '\u{7f}' by {
                assert(s2[i] == s[i]);
            }
        }
        lemma_split_ascii(s2, sep);
        let p = split_seq(s2, sep);
        lemma_split_nonempty(s2, sep);
        if s.last() != sep {
            let l = p.last().push(s.last());
            assert(is_ascii_chars(p[p.len() - 1]));
            assert(is_ascii_chars(l)) by {
                assert forall|i: int| 0 <= i < l.len() implies '\0' <= #[trigger] l[i] <= '\u{7f}' by {
                    if i < p.last().len() {
                        assert(l[i] == p.last()[i]);
                    } else {
                        assert(s[s.len() - 1] == s.last());
                    }
                }
            }
        }
    }
}

/// The lines of an ASCII text are ASCII.
proof fn lemma_lines_ascii(s: Seq<char>)
    requires
        is_ascii_chars(s),
    ensures
        forall|i: int| 0 <= i < lines_seq(s).len() ==> is_ascii_chars(#[trigger] lines_seq(s)[i]),
{
    lemma_split_ascii(s, '\n');
    lemma_split_nonempty(s, '\n');
    let p = split_seq(s, '\n');
    assert forall|i: int| 0 <= i < lines_seq(s).len() implies is_ascii_chars(#[trigger] lines_seq(s)[i]) by {
        if i < p.len() - 1 {
            let l = p[i];
            assert(is_ascii_chars(l));
            assert(lines_seq(s)[i] == strip_cr_seq(l));
            assert(is_ascii_chars(strip_cr_seq(l))) by {
                assert forall|j: int| 0 <= j < strip_cr_seq(l).len() implies '\0' <= #[trigger] strip_cr_seq(l)[j]
                    <= '\u{7f}' by {
                    assert(strip_cr_seq(l)[j] == l[j]);
                }
            }
        } else {
            assert(lines_seq(s)[i] == p[p.len() - 1]);
        }
    }
}

/// Trimming an ASCII text leaves an ASCII text.
proof fn lemma_trim_ascii(s: Seq<char>)
    requires
        is_ascii_chars(s),
    ensures
        is_ascii_chars(trim_start_seq(s)),
        is_ascii_chars(trim_seq(s)),
    decreases s.len(),
{
    if s.len() > 0 && spec_is_whitespace(s[0]) {
        assert(is_ascii_chars(s.drop_first())) by {
            assert forall|i: int| 0 <= i < s.drop_first().len() implies '\0' <= #[trigger] s.drop_first()[i]
                <= '\u{7f}' by {
                assert(s.drop_first()[i] == s[i + 1]);
            }
        }
        lemma_trim_ascii(s.drop_first());
    }
    lemma_trim_ascii_end(trim_start_seq(s));
}

/// Trimming the end of an ASCII text leaves an ASCII text.
proof fn lemma_trim_ascii_end(s: Seq<char>)
    requires
        is_ascii_chars(s),
    ensures
        is_ascii_chars(trim_end_seq(s)),
{
    lemma_trim_end_prefix(s);
    let t = trim_end_seq(s);
    assert forall|i: int| 0 <= i < t.len() implies '\0' <= #[trigger] t[i] <= '\u{7f}' by {
        assert(t[i] == s[i]);
    }
}

/// A match found by `match_from` lies inside the text.
proof fn lemma_match_in_bounds(hay: Seq<u8>, needle: Seq<u8>, i: int)
    requires
        needle.len() > 0,
    ensures
        match_from(hay, needle, i) matches Some(j) ==> i <= j && j + needle.len() <= hay.len(),
    decreases hay.len() - i,
{
    if !(i < 0 || i + needle.len() > hay.len()) && hay.subrange(i, i + needle.len()) != needle {
        lemma_match_in_bounds(hay, needle, i + 1);
    }
}

/// An ASCII line can be scanned.
proof fn lemma_ascii_line_readable(l: Seq<char>)
    requires
        is_ascii_chars(l),
    ensures
        line_readable(l),
{
    lemma_trim_ascii(l);
    let t = trim_seq(l);
    let u = uppercase_seq(t);
    lemma_ascii_upper_seq(t);
    assert(u == ascii_upper_seq(t));
    reveal_strlit("ADD COLUMN ");
    is_ascii_chars_encode_utf8(column_marker());
    is_ascii_chars_encode_utf8(u);
    is_ascii_chars_encode_utf8(t);
    encode_utf8_valid_utf8(t);
    lemma_match_in_bounds(encode_utf8(u), marker_bytes(), 0);
    let tb = encode_utf8(t);
    match match_from(encode_utf8(u), marker_bytes(), 0) {
        None => {},
        Some(p) => {
            let mid = p + marker_bytes().len();
            if mid == tb.len() {
                is_char_boundary_start_end_of_seq(tb);
            } else {
                assert(tb[mid] == t[mid] as u8);
                is_char_boundary_iff_is_leading_byte(tb, mid);
            }
            assert(is_char_boundary(tb, mid));
        },
    }
}

/// Every line of an ASCII migration can be scanned, so its columns can be
/// read.
pub proof fn law_ascii_migration_readable(sql: Seq<char>)
    requires
        is_ascii_chars(sql),
    ensures
        columns_readable(sql),
{
    lemma_lines_ascii(sql);
    assert forall|i: int| 0 <= i < lines_seq(sql).len() implies line_readable(#[trigger] lines_seq(sql)[i]) by {
        lemma_ascii_line_readable(lines_seq(sql)[i]);
    }
}

} // verus!
