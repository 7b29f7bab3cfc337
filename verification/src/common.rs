use vstd::prelude::*;

use crate::error::{Error, ErrorKind};
use crate::json_schema;
use crate::sql;
use crate::utils;

verus! {

/// Who may see an entity or relation.
#[derive(Clone, Copy, Debug)]
pub enum Visibility {
    User,
    Global,
    Tenant,
}

/// The declared type of an attribute.
#[derive(Clone, Copy, Debug)]
pub enum AttributeType {
    String,
    Integer,
    Real,
    Bool,
    Timestamp,
}

impl Default for AttributeType {
    fn default() -> (r: Self)
        ensures
            r == AttributeType::String,
    {
        AttributeType::String
    }
}

/// Ghost image of an `Attribute`.
pub struct AttributeV {
    pub id: Seq<char>,
    pub name: Seq<char>,
    pub description: Seq<char>,
    pub required: bool,
    pub unique: bool,
    pub ty: AttributeType,
}

/// A typed, named field of an entity or relation.
#[derive(Clone, Debug)]
pub struct Attribute {
    pub id: String,
    pub name: String,
    pub description: String,
    pub required: bool,
    pub unique: bool,
    pub ty: AttributeType,
}

impl View for Attribute {
    type V = AttributeV;

    open spec fn view(&self) -> AttributeV {
        AttributeV {
            id: self.id@,
            name: self.name@,
            description: self.description@,
            required: self.required,
            unique: self.unique,
            ty: self.ty,
        }
    }
}

impl DeepView for Attribute {
    type V = AttributeV;

    open spec fn deep_view(&self) -> AttributeV {
        self.view()
    }
}

impl Default for Attribute {
    fn default() -> (r: Self)
        ensures
            r@ == (AttributeV {
                id: Seq::<char>::empty(),
                name: Seq::<char>::empty(),
                description: Seq::<char>::empty(),
                required: false,
                unique: false,
                ty: AttributeType::String,
            }),
    {
        Attribute {
            id: String::new(),
            name: String::new(),
            description: String::new(),
            required: false,
            unique: false,
            ty: AttributeType::String,
        }
    }
}

/// The identifiers no attribute may use: they name the implicit columns.
pub open spec fn reserved_id(s: Seq<char>) -> bool {
    s == "id"@ || s == "created_at"@ || s == "updated_at"@ || s == "rev"@
}

/// A valid attribute id: non-empty lowercase snake_case, not reserved.
pub open spec fn attr_id_valid(s: Seq<char>) -> bool {
    &&& s.len() > 0
    &&& utils::snake_case(s)
    &&& !reserved_id(s)
}

/// An attribute is valid when its id is.
pub open spec fn attr_valid(a: AttributeV) -> bool {
    attr_id_valid(a.id)
}

/// Every valid attribute id is snake_case and outside the reserved set, and
/// an id that is not both is never valid.
pub proof fn lemma_attr_id_valid(id: Seq<char>)
    ensures
        attr_id_valid(id) ==> utils::snake_case(id) && !reserved_id(id),
        !(utils::snake_case(id) && !reserved_id(id)) ==> !attr_id_valid(id),
{
}

/// The storage type of each declared attribute type.
pub open spec fn storage_type(t: AttributeType) -> sql::Type {
    match t {
        AttributeType::String => sql::Type::Text,
        AttributeType::Integer => sql::Type::Integer,
        AttributeType::Real => sql::Type::Real,
        AttributeType::Bool => sql::Type::Boolean,
        AttributeType::Timestamp => sql::Type::Date,
    }
}

/// The schema type name of each declared attribute type; timestamps validate
/// as integers.
pub open spec fn schema_type_name(t: AttributeType) -> Seq<char> {
    match t {
        AttributeType::String => "string"@,
        AttributeType::Integer => "integer"@,
        AttributeType::Real => "number"@,
        AttributeType::Bool => "boolean"@,
        AttributeType::Timestamp => "integer"@,
    }
}

/// The table column an attribute declares: named by its id, typed by its
/// storage type, non-null when required, unique when flagged so.
pub open spec fn attr_column(a: AttributeV) -> sql::ColumnV {
    sql::ColumnV {
        name: a.id,
        ty: storage_type(a.ty),
        not_null: a.required,
        default: None,
        auto_increment: false,
        primary_key: false,
        unique: a.unique,
    }
}

impl Attribute {
    /// The storage type this attribute maps to.
    pub fn as_sql_type(&self) -> (r: sql::Type)
        ensures
            r == storage_type(self.ty),
    {
        match self.ty {
            AttributeType::String => sql::Type::Text,
            AttributeType::Integer => sql::Type::Integer,
            AttributeType::Real => sql::Type::Real,
            AttributeType::Bool => sql::Type::Boolean,
            AttributeType::Timestamp => sql::Type::Date,
        }
    }

    /// The schema type this attribute maps to.
    pub fn as_json_schema_type(&self) -> (r: json_schema::Type)
        ensures
            r@ == json_schema::TypeV::Single(schema_type_name(self.ty)),
    {
        let as_str = match self.ty {
            AttributeType::String => "string",
            AttributeType::Integer => "integer",
            AttributeType::Real => "number",
            AttributeType::Bool => "boolean",
            AttributeType::Timestamp => "integer",
        };
        json_schema::Type::new_from_str(as_str)
    }

    /// The table column this attribute declares.
    pub fn as_sql_column(&self) -> (r: sql::Column)
        ensures
            r@ == attr_column(self@),
    {
        sql::Column {
            name: self.id.clone(),
            ty: self.as_sql_type(),
            not_null: self.required,
            default: None,
            auto_increment: false,
            primary_key: false,
            unique: self.unique,
        }
    }

    /// Checks the id rules: rejects a reserved id, then an id that is empty or
    /// not lowercase snake_case.
    pub fn validate(&self) -> (r: Result<(), Error>)
        ensures
            r is Ok <==> attr_valid(self@),
            r is Err && reserved_id(self.id@) ==> r->Err_0.spec_kind() == Some(
                ErrorKind::ReservedIdentifier,
            ),
            r is Err && !reserved_id(self.id@) ==> r->Err_0.spec_kind() == Some(
                ErrorKind::InvalidCase,
            ),
    {
        let id = self.id.as_str();
        if utils::str_eq(id, "id") || utils::str_eq(id, "created_at") || utils::str_eq(
            id,
            "updated_at",
        ) || utils::str_eq(id, "rev") {
            return Err(Error::tagged(ErrorKind::ReservedIdentifier, id));
        }
        if id.unicode_len() == 0 || !utils::is_snake_case(id) {
            return Err(Error::tagged(ErrorKind::InvalidCase, id));
        }
        Ok(())
    }
}

/// Ghost image of a `UniqueConstraint`.
pub struct UniqueConstraintV {
    pub attributes: Seq<Seq<char>>,
    pub relations: Seq<Seq<char>>,
}

/// A composite uniqueness rule over an entity's own attribute ids and the
/// foreign keys implied by named relations.
#[derive(Clone, Debug)]
pub struct UniqueConstraint {
    pub attributes: Vec<String>,
    pub relations: Vec<String>,
}

impl View for UniqueConstraint {
    type V = UniqueConstraintV;

    open spec fn view(&self) -> UniqueConstraintV {
        UniqueConstraintV { attributes: self.attributes.deep_view(), relations: self.relations.deep_view() }
    }
}

impl DeepView for UniqueConstraint {
    type V = UniqueConstraintV;

    open spec fn deep_view(&self) -> UniqueConstraintV {
        self.view()
    }
}

impl Default for UniqueConstraint {
    fn default() -> (r: Self)
        ensures
            r@.attributes == Seq::<Seq<char>>::empty(),
            r@.relations == Seq::<Seq<char>>::empty(),
    {
        let r = UniqueConstraint { attributes: Vec::new(), relations: Vec::new() };
        proof {
            assert(r@.attributes =~= Seq::<Seq<char>>::empty());
            assert(r@.relations =~= Seq::<Seq<char>>::empty());
        }
        r
    }
}

} // verus!
