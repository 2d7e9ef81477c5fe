//! Storage definitions: tables, their fields, queries, enum types and indexes.
//! Maps keyed by a name (imports, defaults) are association lists in which a
//! name occurs at most once.

use vstd::prelude::*;

verus! {

/// One model of a storage spec: a table with its fields, types and queries.
#[derive(Debug)]
pub struct TableDef {
    pub table_name_rust: String,
    pub table_name_sql: String,
    pub fields: Vec<FieldDef>,
    pub types: Vec<TypeObject>,
    /// Type name to module path.
    pub imports: Vec<(String, String)>,
    pub queries: Vec<QueryDef>,
    pub primary_key: Vec<String>,
    pub secondary_keys: Vec<Vec<String>>,
    pub derives: Vec<String>,
    /// Field name to default value.
    pub defaults: Vec<(String, String)>,
    pub extra_indexes: Vec<IndexDef>,
}

/// A column of a table.
#[derive(Debug, Clone)]
pub struct FieldDef {
    pub field_name: String,
    pub field_name_snake: String,
    pub rust_type: String,
    pub is_nullable: bool,
    pub is_primary_key: bool,
    pub default_value: Option<String>,
}

/// A query declared for a table.
#[derive(Debug)]
pub struct QueryDef {
    pub name: String,
    pub name_snake: String,
    pub kv_function: KvFunction,
    pub params: Vec<String>,
    pub where_clause: WhereClause,
    pub order_by: Option<OrderBy>,
}

/// The condition of a query.
#[derive(Debug)]
pub enum WhereClause {
    Empty,
    Leaf(String),
    And(Vec<WhereClause>),
    Or(Vec<WhereClause>),
    In(Vec<String>),
}

/// The key-value store function that a query is generated with.
#[derive(Debug, Clone, Copy, PartialEq, Eq, Structural)]
pub enum KvFunction {
    FindOne,
    FindOnePartial,
    FindAll,
    FindAllPartial,
    Update,
    UpdateOne,
    Delete,
}

/// The ordering of a query's results.
#[derive(Debug, Clone)]
pub struct OrderBy {
    pub field: String,
    pub direction: OrderDirection,
}

#[derive(Debug, Clone, Copy, PartialEq, Eq, Structural)]
pub enum OrderDirection {
    Asc,
    Desc,
}

/// A constraint declared on a field.
#[derive(Debug, Clone, Copy, PartialEq, Eq, Structural)]
pub enum FieldConstraint {
    PrimaryKey,
    SecondaryKey,
    NotNull,
}

/// An enum type declared for a table.
#[derive(Debug, Clone)]
pub struct TypeObject {
    pub name: String,
    pub variants: Vec<String>,
    pub is_enum: bool,
    pub derives: Vec<String>,
}

/// An index over some columns, unique or not.
#[derive(Debug, Clone)]
pub struct IndexDef {
    pub columns: Vec<String>,
    pub unique: bool,
}

/// A type imported from a module.
#[derive(Debug, Clone)]
pub struct Import {
    pub imported_type: String,
    pub source_module: String,
}

/// The view of a field.
pub struct FieldView {
    pub field_name: Seq<char>,
    pub field_name_snake: Seq<char>,
    pub rust_type: Seq<char>,
    pub is_nullable: bool,
    pub is_primary_key: bool,
    pub default_value: Option<Seq<char>>,
}

impl View for FieldDef {
    type V = FieldView;

    open spec fn view(&self) -> FieldView {
        FieldView {
            field_name: self.field_name@,
            field_name_snake: self.field_name_snake@,
            rust_type: self.rust_type@,
            is_nullable: self.is_nullable,
            is_primary_key: self.is_primary_key,
            default_value: match self.default_value {
                Some(d) => Some(d@),
                None => None,
            },
        }
    }
}

/// The view of an enum type.
pub struct TypeObjectView {
    pub name: Seq<char>,
    pub variants: Seq<Seq<char>>,
    pub is_enum: bool,
    pub derives: Seq<Seq<char>>,
}

impl View for TypeObject {
    type V = TypeObjectView;

    open spec fn view(&self) -> TypeObjectView {
        TypeObjectView {
            name: self.name@,
            variants: self.variants@.map_values(|s: String| s@),
            is_enum: self.is_enum,
            derives: self.derives@.map_values(|s: String| s@),
        }
    }
}

/// The view of an index.
pub struct IndexView {
    pub columns: Seq<Seq<char>>,
    pub unique: bool,
}

impl View for IndexDef {
    type V = IndexView;

    open spec fn view(&self) -> IndexView {
        IndexView { columns: self.columns@.map_values(|s: String| s@), unique: self.unique }
    }
}

/// The view of an ordering.
pub struct OrderByView {
    pub field: Seq<char>,
    pub direction: OrderDirection,
}

impl View for OrderBy {
    type V = OrderByView;

    open spec fn view(&self) -> OrderByView {
        OrderByView { field: self.field@, direction: self.direction }
    }
}

/// The views of a list of fields.
pub open spec fn field_views(v: Seq<FieldDef>) -> Seq<FieldView> {
    v.map_values(|f: FieldDef| f@)
}

/// The views of a list of enum types.
pub open spec fn type_views(v: Seq<TypeObject>) -> Seq<TypeObjectView> {
    v.map_values(|t: TypeObject| t@)
}

/// The views of a list of indexes.
pub open spec fn index_views(v: Seq<IndexDef>) -> Seq<IndexView> {
    v.map_values(|i: IndexDef| i@)
}

/// The views of a list of lists of strings.
pub open spec fn nested_views(v: Seq<Vec<String>>) -> Seq<Seq<Seq<char>>> {
    v.map_values(|w: Vec<String>| w@.map_values(|s: String| s@))
}

} // verus!
