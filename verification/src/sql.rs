use vstd::prelude::*;

verus! {

/// Name of the implicit primary-key column of every entity table.
pub const BASE_ID: &'static str = "id";

/// A storage type of the DDL grammar.
#[derive(Clone, Copy, Debug)]
pub enum Type {
    Integer,
    Real,
    Text,
    Boolean,
    Date,
}

impl Default for Type {
    fn default() -> (r: Self)
        ensures
            r == Type::Integer,
    {
        Type::Integer
    }
}

/// The DDL keyword for a storage type.
pub open spec fn type_sql(t: Type) -> Seq<char> {
    match t {
        Type::Integer => "INTEGER"@,
        Type::Real => "REAL"@,
        Type::Text => "TEXT"@,
        Type::Boolean => "BOOLEAN"@,
        Type::Date => "DATETIME"@,
    }
}

impl Type {
    /// The DDL keyword for this storage type.
    fn as_str(&self) -> (r: &'static str)
        ensures
            r@ == type_sql(*self),
    {
        match self {
            Type::Integer => "INTEGER",
            Type::Real => "REAL",
            Type::Text => "TEXT",
            Type::Boolean => "BOOLEAN",
            Type::Date => "DATETIME",
        }
    }
}

/// Ghost image of a `Column`.
pub struct ColumnV {
    pub name: Seq<char>,
    pub ty: Type,
    pub not_null: bool,
    pub default: Option<Seq<char>>,
    pub auto_increment: bool,
    pub primary_key: bool,
    pub unique: bool,
}

/// One column of a table statement.
#[derive(Debug)]
pub struct Column {
    pub name: String,
    pub ty: Type,
    pub not_null: bool,
    pub default: Option<String>,
    pub auto_increment: bool,
    pub primary_key: bool,
    pub unique: bool,
}

impl View for Column {
    type V = ColumnV;

    open spec fn view(&self) -> ColumnV {
        ColumnV {
            name: self.name@,
            ty: self.ty,
            not_null: self.not_null,
            default: match self.default {
                Some(d) => Some(d@),
                None => None,
            },
            auto_increment: self.auto_increment,
            primary_key: self.primary_key,
            unique: self.unique,
        }
    }
}

impl DeepView for Column {
    type V = ColumnV;

    open spec fn deep_view(&self) -> ColumnV {
        self.view()
    }
}

impl Default for Column {
    fn default() -> (r: Self)
        ensures
            r@ == (ColumnV {
                name: Seq::<char>::empty(),
                ty: Type::Integer,
                not_null: false,
                default: None,
                auto_increment: false,
                primary_key: false,
                unique: false,
            }),
    {
        Column {
            name: String::new(),
            ty: Type::Integer,
            not_null: false,
            default: None,
            auto_increment: false,
            primary_key: false,
            unique: false,
        }
    }
}

/// The rendering of one column: its name and type, then each enabled option.
pub open spec fn column_sql(c: ColumnV) -> Seq<char> {
    c.name + " "@ + type_sql(c.ty) + (if c.primary_key {
        " PRIMARY KEY"@
    } else {
        Seq::<char>::empty()
    }) + (if c.auto_increment {
        " AUTOINCREMENT"@
    } else {
        Seq::<char>::empty()
    }) + (if c.unique {
        " UNIQUE"@
    } else {
        Seq::<char>::empty()
    }) + (match c.default {
        Some(d) => if d.len() == 0 {
            " DEFAULT"@
        } else {
            " DEFAULT "@ + d
        },
        None => Seq::<char>::empty(),
    }) + (if c.not_null {
        " NOT NULL"@
    } else {
        Seq::<char>::empty()
    })
}

impl Column {
    /// Renders this column as its DDL fragment.
    pub fn to_string(&self) -> (r: String)
        ensures
            r@ == column_sql(self@),
    {
        let mut r = self.name.clone();
        r.append(" ");
        r.append(self.ty.as_str());
        if self.primary_key {
            r.append(" PRIMARY KEY");
        }
        if self.auto_increment {
            r.append(" AUTOINCREMENT");
        }
        if self.unique {
            r.append(" UNIQUE");
        }
        match &self.default {
            Some(d) => {
                if d.as_str().unicode_len() == 0 {
                    r.append(" DEFAULT");
                } else {
                    r.append(" DEFAULT ");
                    r.append(d.as_str());
                }
            },
            None => {},
        }
        if self.not_null {
            r.append(" NOT NULL");
        }
        proof {
            assert(r@ =~= column_sql(self@));
        }
        r
    }
}

/// Ghost image of a `ForeignKey`.
pub struct ForeignKeyV {
    pub key: Seq<char>,
    pub table_name: Seq<char>,
    pub table_key: Seq<char>,
    pub on_delete_cascade: bool,
}

/// A foreign-key clause of a table statement.
#[derive(Debug)]
pub struct ForeignKey {
    pub key: String,
    pub table_name: String,
    pub table_key: String,
    pub on_delete_cascade: bool,
}

impl View for ForeignKey {
    type V = ForeignKeyV;

    open spec fn view(&self) -> ForeignKeyV {
        ForeignKeyV {
            key: self.key@,
            table_name: self.table_name@,
            table_key: self.table_key@,
            on_delete_cascade: self.on_delete_cascade,
        }
    }
}

impl DeepView for ForeignKey {
    type V = ForeignKeyV;

    open spec fn deep_view(&self) -> ForeignKeyV {
        self.view()
    }
}

/// The rendering of one foreign-key clause.
pub open spec fn foreign_key_sql(fk: ForeignKeyV) -> Seq<char> {
    "FOREIGN KEY ("@ + fk.key + ") REFERENCES "@ + fk.table_name + " ("@ + fk.table_key + ")"@
        + (if fk.on_delete_cascade {
        " ON DELETE CASCADE"@
    } else {
        Seq::<char>::empty()
    })
}

impl ForeignKey {
    /// Renders this foreign key as its DDL fragment.
    pub fn to_string(&self) -> (r: String)
        ensures
            r@ == foreign_key_sql(self@),
    {
        let mut r = "FOREIGN KEY (".to_owned();
        r.append(self.key.as_str());
        r.append(") REFERENCES ");
        r.append(self.table_name.as_str());
        r.append(" (");
        r.append(self.table_key.as_str());
        r.append(")");
        if self.on_delete_cascade {
            r.append(" ON DELETE CASCADE");
        }
        proof {
            assert(r@ =~= foreign_key_sql(self@));
        }
        r
    }
}

/// The column names joined by `", "`.
pub open spec fn comma_join(parts: Seq<Seq<char>>) -> Seq<char>
    decreases parts.len(),
{
    if parts.len() == 0 {
        Seq::<char>::empty()
    } else if parts.len() == 1 {
        parts[0]
    } else {
        comma_join(parts.drop_last()) + ", "@ + parts.last()
    }
}

/// Joins `parts` with `", "` between consecutive entries.
pub fn join_comma(parts: &Vec<String>) -> (r: String)
    ensures
        r@ == comma_join(parts.deep_view()),
{
    let ghost pv = parts.deep_view();
    let mut r = String::new();
    let mut i: usize = 0;
    while i < parts.len()
        invariant
            i <= parts.len(),
            pv == parts.deep_view(),
            pv.len() == parts.len(),
            r@ == comma_join(pv.take(i as int)),
        decreases parts.len() - i,
    {
        if i > 0 {
            r.append(", ");
        }
        r.append(parts[i].as_str());
        proof {
            assert(pv.take(i + 1).drop_last() =~= pv.take(i as int));
            assert(pv.take(i + 1).last() == pv[i as int]);
            if i == 0 {
                assert(r@ =~= comma_join(pv.take(i + 1)));
            }
        }
        i = i + 1;
    }
    proof {
        assert(pv.take(parts.len() as int) =~= pv);
    }
    r
}

/// A table-level composite uniqueness clause over a list of column names.
#[derive(Debug)]
pub struct UniqueConstraint(Vec<String>);

impl View for UniqueConstraint {
    type V = Seq<Seq<char>>;

    closed spec fn view(&self) -> Seq<Seq<char>> {
        self.0.deep_view()
    }
}

impl DeepView for UniqueConstraint {
    type V = Seq<Seq<char>>;

    open spec fn deep_view(&self) -> Seq<Seq<char>> {
        self.view()
    }
}

/// The rendering of one composite uniqueness clause.
pub open spec fn unique_constraint_sql(cols: Seq<Seq<char>>) -> Seq<char> {
    "UNIQUE ("@ + comma_join(cols) + ")"@
}

impl UniqueConstraint {
    /// A uniqueness clause over the given column names, in order.
    pub fn new(list: Vec<String>) -> (r: Self)
        ensures
            r@ == list.deep_view(),
    {
        UniqueConstraint(list)
    }

    /// Renders this clause as its DDL fragment.
    pub fn to_string(&self) -> (r: String)
        ensures
            r@ == unique_constraint_sql(self@),
    {
        let mut r = "UNIQUE (".to_owned();
        let cols = join_comma(&self.0);
        r.append(cols.as_str());
        r.append(")");
        proof {
            assert(r@ =~= unique_constraint_sql(self@));
        }
        r
    }
}

/// Ghost image of a `Table`.
pub struct TableV {
    pub name: Seq<char>,
    pub columns: Seq<ColumnV>,
    pub foreign_keys: Seq<ForeignKeyV>,
    pub unique_constraints: Seq<Seq<Seq<char>>>,
}

/// A full table statement: columns, then foreign keys, then uniqueness clauses.
#[derive(Debug)]
pub struct Table {
    pub name: String,
    pub columns: Vec<Column>,
    pub foreign_keys: Vec<ForeignKey>,
    pub unique_constraints: Vec<UniqueConstraint>,
}

impl View for Table {
    type V = TableV;

    open spec fn view(&self) -> TableV {
        TableV {
            name: self.name@,
            columns: self.columns.deep_view(),
            foreign_keys: self.foreign_keys.deep_view(),
            unique_constraints: self.unique_constraints.deep_view(),
        }
    }
}

impl DeepView for Table {
    type V = TableV;

    open spec fn deep_view(&self) -> TableV {
        self.view()
    }
}

/// The fragments inside a table statement's parentheses, in rendering order.
pub open spec fn table_parts(t: TableV) -> Seq<Seq<char>> {
    t.columns.map_values(|c: ColumnV| column_sql(c)) + t.foreign_keys.map_values(
        |fk: ForeignKeyV| foreign_key_sql(fk),
    ) + t.unique_constraints.map_values(|uc: Seq<Seq<char>>| unique_constraint_sql(uc))
}

/// The rendering of a full table statement.
pub open spec fn table_sql(t: TableV) -> Seq<char> {
    "CREATE TABLE "@ + t.name + "("@ + comma_join(table_parts(t)) + ");"@
}

/// The implicit primary-key column of every entity table.
pub open spec fn id_column() -> ColumnV {
    ColumnV {
        name: "id"@,
        ty: Type::Integer,
        not_null: false,
        default: None,
        auto_increment: true,
        primary_key: true,
        unique: false,
    }
}

/// An implicit audit column, defaulted to the current timestamp.
pub open spec fn audit_column(name: Seq<char>) -> ColumnV {
    ColumnV {
        name: name,
        ty: Type::Date,
        not_null: true,
        default: Some("CURRENT_TIMESTAMP"@),
        auto_increment: false,
        primary_key: false,
        unique: false,
    }
}

/// The three implicit columns every entity table starts with.
pub open spec fn base_columns() -> Seq<ColumnV> {
    seq![id_column(), audit_column("created_at"@), audit_column("updated_at"@)]
}

impl Table {
    /// A table of the given name holding only the implicit id and audit columns.
    pub fn new_base(name: &str) -> (t: Table)
        ensures
            t@ == (TableV {
                name: name@,
                columns: base_columns(),
                foreign_keys: Seq::<ForeignKeyV>::empty(),
                unique_constraints: Seq::<Seq<Seq<char>>>::empty(),
            }),
    {
        let mut columns: Vec<Column> = Vec::new();
        columns.push(
            Column {
                name: BASE_ID.to_owned(),
                ty: Type::Integer,
                not_null: false,
                default: None,
                auto_increment: true,
                primary_key: true,
                unique: false,
            },
        );
        columns.push(
            Column {
                name: "created_at".to_owned(),
                ty: Type::Date,
                not_null: true,
                default: Some("CURRENT_TIMESTAMP".to_owned()),
                auto_increment: false,
                primary_key: false,
                unique: false,
            },
        );
        columns.push(
            Column {
                name: "updated_at".to_owned(),
                ty: Type::Date,
                not_null: true,
                default: Some("CURRENT_TIMESTAMP".to_owned()),
                auto_increment: false,
                primary_key: false,
                unique: false,
            },
        );
        let t = Table { name: name.to_owned(), columns, foreign_keys: Vec::new(), unique_constraints: Vec::new() };
        proof {
            assert(t.columns.deep_view() =~= base_columns());
            assert(t.foreign_keys.deep_view() =~= Seq::<ForeignKeyV>::empty());
            assert(t.unique_constraints.deep_view() =~= Seq::<Seq<Seq<char>>>::empty());
        }
        t
    }

    /// Renders this table as one `CREATE TABLE` statement.
    pub fn to_string(&self) -> (r: String)
        ensures
            r@ == table_sql(self@),
    {
        let nc = self.columns.len();
        let nf = self.foreign_keys.len();
        let nu = self.unique_constraints.len();
        let mut parts: Vec<String> = Vec::new();
        let mut i: usize = 0;
        while i < nc
            invariant
                i <= nc,
                nc == self.columns@.len(),
                parts@.len() == i,
                forall|j: int| 0 <= j < i ==> (#[trigger] parts@[j])@ == column_sql(
                    self.columns@[j]@,
                ),
            decreases nc - i,
        {
            parts.push(self.columns[i].to_string());
            i = i + 1;
        }
        let mut i: usize = 0;
        while i < nf
            invariant
                i <= nf,
                nc == self.columns@.len(),
                nf == self.foreign_keys@.len(),
                parts@.len() == nc + i,
                forall|j: int| 0 <= j < nc ==> (#[trigger] parts@[j])@ == column_sql(
                    self.columns@[j]@,
                ),
                forall|j: int| 0 <= j < i ==> (#[trigger] parts@[nc + j])@ == foreign_key_sql(
                    self.foreign_keys@[j]@,
                ),
            decreases nf - i,
        {
            parts.push(self.foreign_keys[i].to_string());
            i = i + 1;
        }
        let mut i: usize = 0;
        while i < nu
            invariant
                i <= nu,
                nc == self.columns@.len(),
                nf == self.foreign_keys@.len(),
                nu == self.unique_constraints@.len(),
                parts@.len() == nc + nf + i,
                forall|j: int| 0 <= j < nc ==> (#[trigger] parts@[j])@ == column_sql(
                    self.columns@[j]@,
                ),
                forall|j: int| 0 <= j < nf ==> (#[trigger] parts@[nc + j])@ == foreign_key_sql(
                    self.foreign_keys@[j]@,
                ),
                forall|j: int| 0 <= j < i ==> (#[trigger] parts@[nc + nf + j])@
                    == unique_constraint_sql(self.unique_constraints@[j]@),
            decreases nu - i,
        {
            parts.push(self.unique_constraints[i].to_string());
            i = i + 1;
        }
        proof {
            let pv = parts.deep_view();
            let tp = table_parts(self@);
            assert forall|j: int| 0 <= j < pv.len() implies pv[j] == tp[j] by {
                assert(pv[j] == parts@[j]@);
                if j < nc {
                    assert(tp[j] == column_sql(self.columns.deep_view()[j]));
                } else if j < nc + nf {
                    let k = j - nc;
                    assert(tp[j] == foreign_key_sql(self.foreign_keys.deep_view()[k]));
                    assert((parts@[nc + k])@ == foreign_key_sql(self.foreign_keys@[k]@));
                } else {
                    let k = j - nc - nf;
                    assert(tp[j] == unique_constraint_sql(
                        self.unique_constraints.deep_view()[k],
                    ));
                    assert((parts@[nc + nf + k])@ == unique_constraint_sql(
                        self.unique_constraints@[k]@,
                    ));
                }
            }
            assert(parts.deep_view() =~= table_parts(self@));
        }
        let inner = join_comma(&parts);
        let mut r = "CREATE TABLE ".to_owned();
        r.append(self.name.as_str());
        r.append("(");
        r.append(inner.as_str());
        r.append(");");
        proof {
            assert(r@ =~= table_sql(self@));
        }
        r
    }
}

/// Ghost image of a `Trigger`.
pub struct TriggerV {
    pub table_name: Seq<char>,
    pub column: Seq<char>,
    pub id: Seq<char>,
    pub value: Seq<char>,
}

/// A maintenance trigger refreshing one column of a table after updates.
#[derive(Debug)]
pub struct Trigger {
    pub table_name: String,
    pub column: String,
    pub id: String,
    pub value: String,
}

impl View for Trigger {
    type V = TriggerV;

    open spec fn view(&self) -> TriggerV {
        TriggerV {
            table_name: self.table_name@,
            column: self.column@,
            id: self.id@,
            value: self.value@,
        }
    }
}

/// The rendering of a trigger statement.
pub open spec fn trigger_sql(t: TriggerV) -> Seq<char> {
    "CREATE TRIGGER "@ + t.table_name + "_"@ + t.column + " AFTER UPDATE ON "@ + t.table_name
        + " WHEN old."@ + t.column + " < "@ + t.value + " BEGIN UPDATE "@ + t.table_name + " SET "@
        + t.column + " = "@ + t.value + " WHERE "@ + t.id + " = old."@ + t.id + "; END;"@
}

/// The trigger that refreshes `updated_at` on the given table.
pub open spec fn update_trigger(table_name: Seq<char>) -> TriggerV {
    TriggerV {
        table_name: table_name,
        column: "updated_at"@,
        id: "id"@,
        value: "CURRENT_TIMESTAMP"@,
    }
}

impl Trigger {
    /// The trigger that refreshes `updated_at` on the table named `name`.
    pub fn new_update_trigger(name: &str) -> (t: Trigger)
        ensures
            t@ == update_trigger(name@),
    {
        Trigger {
            table_name: name.to_owned(),
            column: "updated_at".to_owned(),
            id: BASE_ID.to_owned(),
            value: "CURRENT_TIMESTAMP".to_owned(),
        }
    }

    /// Renders this trigger as one `CREATE TRIGGER` statement.
    pub fn to_string(&self) -> (r: String)
        ensures
            r@ == trigger_sql(self@),
    {
        let mut r = "CREATE TRIGGER ".to_owned();
        r.append(self.table_name.as_str());
        r.append("_");
        r.append(self.column.as_str());
        r.append(" AFTER UPDATE ON ");
        r.append(self.table_name.as_str());
        r.append(" WHEN old.");
        r.append(self.column.as_str());
        r.append(" < ");
        r.append(self.value.as_str());
        r.append(" BEGIN UPDATE ");
        r.append(self.table_name.as_str());
        r.append(" SET ");
        r.append(self.column.as_str());
        r.append(" = ");
        r.append(self.value.as_str());
        r.append(" WHERE ");
        r.append(self.id.as_str());
        r.append(" = old.");
        r.append(self.id.as_str());
        r.append("; END;");
        proof {
            assert(r@ =~= trigger_sql(self@));
        }
        r
    }
}

/// The name of the foreign-key column referencing the thing named `base`.
pub open spec fn fk_name(base: Seq<char>) -> Seq<char> {
    base + "_id"@
}

/// The name of the foreign-key column referencing the thing named `base`.
pub fn fk_column_name(base: &str) -> (r: String)
    ensures
        r@ == fk_name(base@),
{
    let mut r = base.to_owned();
    r.append("_id");
    r
}

/// Something that renders as an ordered list of DDL statements.
pub trait GenerateSql {
    /// When the statements may be generated.
    spec fn sql_wf(&self) -> bool;

    /// The statements, as sequences of characters.
    spec fn sql_view(&self) -> Seq<Seq<char>>;

    /// Renders the DDL statements, in order.
    fn generate_sql(&self) -> (r: Vec<String>)
        requires
            self.sql_wf(),
        ensures
            r.deep_view() == self.sql_view(),
    ;
}

} // verus!
