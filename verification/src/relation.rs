use vstd::prelude::*;

use crate::common::{attr_valid, Attribute, AttributeV, Visibility};
use crate::error::{Error, ErrorKind};
use crate::json_schema;
use crate::json_schema::{add_attrs, attrs_addable, doc_add, empty_schema, JsonSchema, JsonSchemaV,
    TypeV};
use crate::sql;
use crate::urn;
use crate::utils;

verus! {

/// Whether a relation maps one origin to many destinations, or many to many.
#[derive(Clone, Copy, Debug, PartialEq, Eq, Structural)]
pub enum Cardinality {
    OneToMany,
    ManyToMany,
}

/// Ghost image of a `Relation`.
pub struct RelationV {
    pub id: u32,
    pub urn: Seq<char>,
    pub name: Seq<char>,
    pub description: Seq<char>,
    pub visibility: Visibility,
    pub origin: Seq<char>,
    pub destination: Seq<char>,
    pub cardinality: Cardinality,
    pub attributes: Seq<AttributeV>,
}

/// A named, directed, cardinality-typed edge between two entity urns,
/// optionally carrying its own attributes.
#[derive(Clone, Debug)]
pub struct Relation {
    pub id: u32,
    pub urn: String,
    pub name: String,
    pub description: String,
    pub visibility: Visibility,
    pub origin: String,
    pub destination: String,
    pub cardinality: Cardinality,
    pub attributes: Vec<Attribute>,
}

impl View for Relation {
    type V = RelationV;

    open spec fn view(&self) -> RelationV {
        RelationV {
            id: self.id,
            urn: self.urn@,
            name: self.name@,
            description: self.description@,
            visibility: self.visibility,
            origin: self.origin@,
            destination: self.destination@,
            cardinality: self.cardinality,
            attributes: self.attributes.deep_view(),
        }
    }
}

impl DeepView for Relation {
    type V = RelationV;

    open spec fn deep_view(&self) -> RelationV {
        self.view()
    }
}

/// The relation invariants: a urn of valid characters whose namespace equals
/// both endpoints' namespaces, no attributes on a OneToMany relation, no
/// attribute id ending in the reserved `_id` suffix, and every attribute
/// itself valid.
pub open spec fn relation_valid(r: RelationV) -> bool {
    &&& urn::urn_chars_ok(r.urn)
    &&& urn::namespace_of(r.urn) == urn::namespace_of(r.origin)
    &&& urn::namespace_of(r.urn) == urn::namespace_of(r.destination)
    &&& r.cardinality == Cardinality::OneToMany ==> r.attributes.len() == 0
    &&& forall|i: int|
        0 <= i < r.attributes.len() ==> !utils::ends_with(
            (#[trigger] r.attributes[i]).id,
            "_id"@,
        )
    &&& forall|i: int| 0 <= i < r.attributes.len() ==> attr_valid(#[trigger] r.attributes[i])
}

impl Relation {
    /// Checks the relation invariants in order, stopping at the first failure.
    #[verifier::loop_isolation(false)]
    pub fn validate(&self) -> (r: Result<(), Error>)
        ensures
            r is Ok <==> relation_valid(self@),
            r is Err ==> r->Err_0.spec_kind() is Some,
            !urn::urn_chars_ok(self@.urn) ==> r is Err && r->Err_0.spec_kind() == Some(
                ErrorKind::InvalidIdentifierChar,
            ),
            urn::urn_chars_ok(self@.urn) && (urn::namespace_of(self@.urn) != urn::namespace_of(
                self@.origin,
            ) || urn::namespace_of(self@.urn) != urn::namespace_of(self@.destination)) ==> r is Err
                && r->Err_0.spec_kind() == Some(ErrorKind::NamespaceMismatch),
            urn::urn_chars_ok(self@.urn) && urn::namespace_of(self@.urn) == urn::namespace_of(
                self@.origin,
            ) && urn::namespace_of(self@.urn) == urn::namespace_of(self@.destination)
                && self@.cardinality == Cardinality::OneToMany && self@.attributes.len() > 0
                ==> r is Err && r->Err_0.spec_kind() == Some(ErrorKind::AttributesNotAllowed),
            urn::urn_chars_ok(self@.urn) && urn::namespace_of(self@.urn) == urn::namespace_of(
                self@.origin,
            ) && urn::namespace_of(self@.urn) == urn::namespace_of(self@.destination) && (
            self@.cardinality == Cardinality::OneToMany ==> self@.attributes.len() == 0) && (
            exists|i: int|
                0 <= i < self@.attributes.len() && utils::ends_with(
                    (#[trigger] self@.attributes[i]).id,
                    "_id"@,
                )) ==> r is Err && r->Err_0.spec_kind() == Some(ErrorKind::ReservedAttributeSuffix),
            urn::urn_chars_ok(self@.urn) && urn::namespace_of(self@.urn) == urn::namespace_of(
                self@.origin,
            ) && urn::namespace_of(self@.urn) == urn::namespace_of(self@.destination) && (
            self@.cardinality == Cardinality::OneToMany ==> self@.attributes.len() == 0) && (
            forall|i: int|
                0 <= i < self@.attributes.len() ==> !utils::ends_with(
                    (#[trigger] self@.attributes[i]).id,
                    "_id"@,
                )) && r is Err ==> (r->Err_0.spec_kind() == Some(ErrorKind::ReservedIdentifier)
                || r->Err_0.spec_kind() == Some(ErrorKind::InvalidCase)),
    {
        match urn::is_valid(self.urn.as_str()) {
            Err(e) => {
                return Err(e);
            },
            Ok(()) => {},
        }
        if !utils::str_eq(
            urn::not_basename(self.urn.as_str()),
            urn::not_basename(self.origin.as_str()),
        ) {
            return Err(Error::tagged(ErrorKind::NamespaceMismatch, self.origin.as_str()));
        }
        if !utils::str_eq(
            urn::not_basename(self.urn.as_str()),
            urn::not_basename(self.destination.as_str()),
        ) {
            return Err(Error::tagged(ErrorKind::NamespaceMismatch, self.destination.as_str()));
        }
        if self.cardinality == Cardinality::OneToMany && self.attributes.len() > 0 {
            return Err(Error::tagged(ErrorKind::AttributesNotAllowed, self.urn.as_str()));
        }
        let na = self.attributes.len();
        let mut i: usize = 0;
        while i < na
            invariant
                i <= na,
                na == self.attributes@.len(),
                forall|j: int|
                    0 <= j < i ==> !utils::ends_with((#[trigger] self@.attributes[j]).id, "_id"@),
            decreases na - i,
        {
            let suffixed = utils::str_ends_with(self.attributes[i].id.as_str(), "_id");
            proof {
                assert(self@.attributes[i as int] == self.attributes@[i as int]@);
            }
            if suffixed {
                return Err(Error::tagged(ErrorKind::ReservedAttributeSuffix, self.attributes[i].id.as_str()));
            }
            i = i + 1;
        }
        let mut i: usize = 0;
        while i < na
            invariant
                i <= na,
                na == self.attributes@.len(),
                forall|j: int| 0 <= j < i ==> attr_valid(#[trigger] self@.attributes[j]),
            decreases na - i,
        {
            let res = self.attributes[i].validate();
            proof {
                assert(self@.attributes[i as int] == self.attributes@[i as int]@);
            }
            match res {
                Err(e) => {
                    return Err(e);
                },
                Ok(()) => {},
            }
            i = i + 1;
        }
        Ok(())
    }

    /// Whether this relation points at `urn` with the given cardinality.
    pub fn is_destination(&self, urn: &str, cardinality: Cardinality) -> (r: bool)
        ensures
            r == (self@.cardinality == cardinality && self@.destination == urn@),
    {
        self.cardinality == cardinality && utils::str_eq(self.destination.as_str(), urn)
    }
}

/// The document a relation starts from: its two synthetic required integer
/// foreign-key properties, named after its endpoints' basenames.
pub open spec fn relation_schema_base(r: RelationV) -> JsonSchemaV {
    doc_add(
        doc_add(
            empty_schema(r.urn),
            sql::fk_name(urn::basename_of(r.origin)),
            TypeV::Single("integer"@),
            true,
        ),
        sql::fk_name(urn::basename_of(r.destination)),
        TypeV::Single("integer"@),
        true,
    )
}

impl json_schema::GenerateSchema for Relation {
    /// Generation succeeds when the two foreign-key property names differ and
    /// no attribute id repeats them or another attribute id.
    open spec fn schema_ok(&self) -> bool {
        &&& sql::fk_name(urn::basename_of(self@.origin)) != sql::fk_name(
            urn::basename_of(self@.destination),
        )
        &&& attrs_addable(relation_schema_base(self@), self@.attributes)
    }

    /// The two synthetic foreign-key properties, then one property per
    /// attribute, in declaration order.
    open spec fn schema_doc(&self) -> JsonSchemaV {
        add_attrs(relation_schema_base(self@), self@.attributes)
    }

    #[verifier::loop_isolation(false)]
    fn json_schema_with_url(&self, schema_url: &str) -> (r: Result<JsonSchema, Error>) {
        let orig_id = sql::fk_column_name(urn::basename(self.origin.as_str()));
        let dest_id = sql::fk_column_name(urn::basename(self.destination.as_str()));
        let mut schema = JsonSchema::new(self.urn.as_str());
        match schema.add_property(orig_id.as_str(), json_schema::Type::new_from_str("integer"), true) {
            Err(e) => {
                proof {
                    assert(false);
                }
                return Err(e);
            },
            Ok(()) => {},
        }
        let ghost first = schema@;
        let added = schema.add_property(dest_id.as_str(), json_schema::Type::new_from_str("integer"), true);
        proof {
            assert(first.properties[0].0 == sql::fk_name(urn::basename_of(self@.origin)));
        }
        match added {
            Err(e) => {
                proof {
                    assert(json_schema::doc_has_key(first, dest_id@));
                }
                return Err(e);
            },
            Ok(()) => {
                proof {
                    assert(!json_schema::doc_has_key(first, dest_id@));
                    assert(first.properties[0].0 != dest_id@);
                }
            },
        }
        let ghost attrs = self@.attributes;
        let ghost start = relation_schema_base(self@);
        let na = self.attributes.len();
        let mut i: usize = 0;
        while i < na
            invariant
                i <= na,
                na == self.attributes@.len(),
                schema@ == add_attrs(start, attrs.take(i as int)),
                attrs_addable(start, attrs.take(i as int)),
            decreases na - i,
        {
            let a = &self.attributes[i];
            let res = schema.add_property(a.id.as_str(), a.as_json_schema_type(), a.required);
            proof {
                assert(attrs[i as int] == self.attributes@[i as int]@);
                assert(attrs.take(i + 1).drop_last() =~= attrs.take(i as int));
                assert(attrs.take(i + 1).last() == attrs[i as int]);
            }
            match res {
                Err(e) => {
                    proof {
                        assert(!attrs_addable(start, attrs.take(i + 1)));
                        if attrs_addable(start, attrs) {
                            json_schema::lemma_addable_prefix(start, attrs, i + 1);
                        }
                    }
                    return Err(e);
                },
                Ok(()) => {},
            }
            i = i + 1;
        }
        proof {
            assert(attrs.take(na as int) =~= attrs);
        }
        Ok(schema)
    }
}

} // verus!
