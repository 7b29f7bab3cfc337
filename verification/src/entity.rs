use vstd::prelude::*;

use crate::common::{attr_column, attr_valid, Attribute, AttributeV, UniqueConstraint,
    UniqueConstraintV, Visibility};
use crate::error::{Error, ErrorKind};
use crate::json_schema;
use crate::json_schema::{add_attrs, attrs_addable, empty_schema, JsonSchema, JsonSchemaV};
use crate::sql;
use crate::urn;
use crate::utils;

verus! {

/// Ghost image of an `Entity`.
pub struct EntityV {
    pub id: u32,
    pub urn: Seq<char>,
    pub singular: Seq<char>,
    pub plural: Seq<char>,
    pub name: Seq<char>,
    pub description: Seq<char>,
    pub visibility: Visibility,
    pub attributes: Seq<AttributeV>,
    pub unique_constraints: Seq<UniqueConstraintV>,
}

/// A named thing of the model: an ordered list of attributes and optional
/// composite uniqueness rules, stored under its plural name.
#[derive(Clone, Debug)]
pub struct Entity {
    pub id: u32,
    pub urn: String,
    pub singular: String,
    pub plural: String,
    pub name: String,
    pub description: String,
    pub visibility: Visibility,
    pub attributes: Vec<Attribute>,
    pub unique_constraints: Vec<UniqueConstraint>,
}

impl View for Entity {
    type V = EntityV;

    open spec fn view(&self) -> EntityV {
        EntityV {
            id: self.id,
            urn: self.urn@,
            singular: self.singular@,
            plural: self.plural@,
            name: self.name@,
            description: self.description@,
            visibility: self.visibility,
            attributes: self.attributes.deep_view(),
            unique_constraints: self.unique_constraints.deep_view(),
        }
    }
}

impl DeepView for Entity {
    type V = EntityV;

    open spec fn deep_view(&self) -> EntityV {
        self.view()
    }
}

/// The entity declares an attribute under the id `id`.
pub open spec fn entity_has_attr(e: EntityV, id: Seq<char>) -> bool {
    exists|i: int| 0 <= i < e.attributes.len() && (#[trigger] e.attributes[i]).id == id
}

/// Every attribute id a unique constraint references exists on the entity.
pub open spec fn constraint_attrs_known(e: EntityV) -> bool {
    forall|i: int, j: int|
        0 <= i < e.unique_constraints.len() && 0 <= j < e.unique_constraints[i].attributes.len()
            ==> entity_has_attr(e, #[trigger] e.unique_constraints[i].attributes[j])
}

/// The entity invariants: its urn basename is its singular name, singular and
/// plural differ and are non-empty, it has at least one attribute, its unique
/// constraints reference only declared attribute ids, and every attribute is
/// itself valid.
pub open spec fn entity_valid(e: EntityV) -> bool {
    &&& urn::basename_of(e.urn) == e.singular
    &&& e.singular != e.plural
    &&& e.singular.len() > 0
    &&& e.plural.len() > 0
    &&& e.attributes.len() > 0
    &&& constraint_attrs_known(e)
    &&& forall|i: int| 0 <= i < e.attributes.len() ==> attr_valid(#[trigger] e.attributes[i])
}

/// `basename(urn) == singular` is necessary for entity validity: an entity
/// whose urn basename and singular name disagree never validates.
pub proof fn lemma_urn_singular_necessary(e: EntityV)
    ensures
        entity_valid(e) ==> urn::basename_of(e.urn) == e.singular,
        urn::basename_of(e.urn) != e.singular ==> !entity_valid(e),
{
}

/// The base table an entity declares, before relations contribute columns:
/// the implicit columns, then one column per attribute in declaration order.
pub open spec fn entity_base_table(e: EntityV) -> sql::TableV {
    sql::TableV {
        name: e.plural,
        columns: sql::base_columns() + e.attributes.map_values(|a: AttributeV| attr_column(a)),
        foreign_keys: Seq::<sql::ForeignKeyV>::empty(),
        unique_constraints: Seq::<Seq<Seq<char>>>::empty(),
    }
}

impl Entity {
    /// Checks the entity invariants in order, stopping at the first failure.
    #[verifier::loop_isolation(false)]
    pub fn validate(&self) -> (r: Result<(), Error>)
        ensures
            r is Ok <==> entity_valid(self@),
            r is Err ==> r->Err_0.spec_kind() is Some,
            urn::basename_of(self@.urn) != self@.singular ==> r is Err
                && r->Err_0.spec_kind() == Some(ErrorKind::EntityUrnMismatch),
            urn::basename_of(self@.urn) == self@.singular && self@.singular == self@.plural
                ==> r is Err && r->Err_0.spec_kind() == Some(ErrorKind::SingularEqualsPlural),
            urn::basename_of(self@.urn) == self@.singular && self@.singular != self@.plural && (
            self@.singular.len() == 0 || self@.plural.len() == 0) ==> r is Err
                && r->Err_0.spec_kind() == Some(ErrorKind::EmptyName),
            urn::basename_of(self@.urn) == self@.singular && self@.singular != self@.plural
                && self@.singular.len() > 0 && self@.plural.len() > 0 && self@.attributes.len()
                == 0 ==> r is Err && r->Err_0.spec_kind() == Some(ErrorKind::NoAttributes),
            urn::basename_of(self@.urn) == self@.singular && self@.singular != self@.plural
                && self@.singular.len() > 0 && self@.plural.len() > 0 && self@.attributes.len() > 0
                && !constraint_attrs_known(self@) ==> r is Err && r->Err_0.spec_kind() == Some(
                ErrorKind::UnknownConstraintAttribute,
            ),
            urn::basename_of(self@.urn) == self@.singular && self@.singular != self@.plural
                && self@.singular.len() > 0 && self@.plural.len() > 0 && self@.attributes.len() > 0
                && constraint_attrs_known(self@) && r is Err ==> (r->Err_0.spec_kind() == Some(
                ErrorKind::ReservedIdentifier,
            ) || r->Err_0.spec_kind() == Some(ErrorKind::InvalidCase)),
    {
        if !utils::str_eq(urn::basename(self.urn.as_str()), self.singular.as_str()) {
            return Err(Error::tagged(ErrorKind::EntityUrnMismatch, self.urn.as_str()));
        }
        if utils::str_eq(self.singular.as_str(), self.plural.as_str()) {
            return Err(Error::tagged(ErrorKind::SingularEqualsPlural, self.urn.as_str()));
        }
        if self.singular.as_str().unicode_len() == 0 || self.plural.as_str().unicode_len() == 0 {
            return Err(Error::tagged(ErrorKind::EmptyName, self.urn.as_str()));
        }
        if self.attributes.len() == 0 {
            return Err(Error::tagged(ErrorKind::NoAttributes, self.urn.as_str()));
        }
        let nu = self.unique_constraints.len();
        let mut i: usize = 0;
        while i < nu
            invariant
                i <= nu,
                nu == self.unique_constraints@.len(),
                forall|i2: int, j2: int|
                    0 <= i2 < i && 0 <= j2 < self@.unique_constraints[i2].attributes.len()
                        ==> entity_has_attr(
                        self@,
                        #[trigger] self@.unique_constraints[i2].attributes[j2],
                    ),
            decreases nu - i,
        {
            let uc = &self.unique_constraints[i];
            let nj = uc.attributes.len();
            let mut j: usize = 0;
            while j < nj
                invariant
                    j <= nj,
                    nj == uc.attributes@.len(),
                    uc@ == self@.unique_constraints[i as int],
                    i < nu,
                    nu == self.unique_constraints@.len(),
                    forall|j2: int|
                        0 <= j2 < j ==> entity_has_attr(
                            self@,
                            #[trigger] self@.unique_constraints[i as int].attributes[j2],
                        ),
                    forall|i2: int, j2: int|
                        0 <= i2 < i && 0 <= j2 < self@.unique_constraints[i2].attributes.len()
                            ==> entity_has_attr(
                            self@,
                            #[trigger] self@.unique_constraints[i2].attributes[j2],
                        ),
                decreases nj - j,
            {
                let target = &uc.attributes[j];
                let na = self.attributes.len();
                let mut k: usize = 0;
                let mut found = false;
                while k < na
                    invariant
                        k <= na,
                        na == self.attributes@.len(),
                        found == exists|k2: int|
                            0 <= k2 < k && (#[trigger] self@.attributes[k2]).id == target@,
                    decreases na - k,
                {
                    let eq = utils::str_eq(self.attributes[k].id.as_str(), target.as_str());
                    proof {
                        assert(self@.attributes[k as int] == self.attributes@[k as int]@);
                    }
                    if eq {
                        found = true;
                    }
                    k = k + 1;
                }
                if !found {
                    proof {
                        assert(self@.unique_constraints[i as int].attributes[j as int] == target@);
                        assert(!entity_has_attr(
                            self@,
                            self@.unique_constraints[i as int].attributes[j as int],
                        ));
                    }
                    return Err(Error::tagged(ErrorKind::UnknownConstraintAttribute, target.as_str()));
                }
                proof {
                    assert(self@.unique_constraints[i as int].attributes[j as int] == target@);
                }
                j = j + 1;
            }
            i = i + 1;
        }
        let na = self.attributes.len();
        let mut k: usize = 0;
        while k < na
            invariant
                k <= na,
                na == self.attributes@.len(),
                forall|k2: int| 0 <= k2 < k ==> attr_valid(#[trigger] self@.attributes[k2]),
            decreases na - k,
        {
            let res = self.attributes[k].validate();
            proof {
                assert(self@.attributes[k as int] == self.attributes@[k as int]@);
            }
            match res {
                Err(e) => {
                    return Err(e);
                },
                Ok(()) => {},
            }
            k = k + 1;
        }
        Ok(())
    }

    /// Builds the entity's base table: implicit columns first, then one column
    /// per attribute in declaration order.
    pub fn as_sql_table(&self) -> (t: sql::Table)
        ensures
            t@ == entity_base_table(self@),
    {
        let mut base = sql::Table::new_base(self.plural.as_str());
        proof {
            assert(base.foreign_keys.deep_view().len() == base.foreign_keys@.len());
            assert(base.unique_constraints.deep_view().len() == base.unique_constraints@.len());
            assert(base.columns.deep_view().len() == base.columns@.len());
            assert forall|j: int| 0 <= j < 3 implies (#[trigger] base.columns@[j])@
                == sql::base_columns()[j] by {
                assert(base.columns.deep_view()[j] == (base.columns@[j])@);
            }
        }
        let na = self.attributes.len();
        let mut i: usize = 0;
        while i < na
            invariant
                i <= na,
                na == self.attributes@.len(),
                base.name@ == self@.plural,
                base.foreign_keys@.len() == 0,
                base.unique_constraints@.len() == 0,
                base.columns@.len() == 3 + i,
                forall|j: int| 0 <= j < 3 ==> (#[trigger] base.columns@[j])@ == sql::base_columns()[j],
                forall|j: int|
                    0 <= j < i ==> (#[trigger] base.columns@[3 + j])@ == attr_column(
                        self@.attributes[j],
                    ),
            decreases na - i,
        {
            base.columns.push(self.attributes[i].as_sql_column());
            proof {
                assert(self@.attributes[i as int] == self.attributes@[i as int]@);
            }
            i = i + 1;
        }
        proof {
            let expected = entity_base_table(self@);
            assert forall|j: int| 0 <= j < base.columns@.len() implies base.columns.deep_view()[j]
                == expected.columns[j] by {
                if j < 3 {
                    assert((base.columns@[j])@ == sql::base_columns()[j]);
                } else {
                    let k = j - 3;
                    assert((base.columns@[3 + k])@ == attr_column(self@.attributes[k]));
                }
            }
            assert(base.columns.deep_view() =~= expected.columns);
            assert(base.foreign_keys.deep_view() =~= expected.foreign_keys);
            assert(base.unique_constraints.deep_view() =~= expected.unique_constraints);
        }
        base
    }

    /// The trigger that refreshes this entity's `updated_at` column.
    pub fn as_sql_trigger(&self) -> (t: sql::Trigger)
        ensures
            t@ == sql::update_trigger(self@.plural),
    {
        sql::Trigger::new_update_trigger(self.plural.as_str())
    }

    /// The name of this entity's table: its plural name.
    pub fn as_sql_table_name(&self) -> (r: &str)
        ensures
            r@ == self@.plural,
    {
        self.plural.as_str()
    }
}

/// The two statements an entity renders on its own, without relations: its
/// base table and its update trigger.
impl sql::GenerateSql for Entity {
    open spec fn sql_wf(&self) -> bool {
        true
    }

    open spec fn sql_view(&self) -> Seq<Seq<char>> {
        seq![
            sql::table_sql(entity_base_table(self@)),
            sql::trigger_sql(sql::update_trigger(self@.plural)),
        ]
    }

    fn generate_sql(&self) -> (r: Vec<String>) {
        let mut v: Vec<String> = Vec::new();
        v.push(self.as_sql_table().to_string());
        v.push(self.as_sql_trigger().to_string());
        proof {
            assert(v.deep_view() =~= self.sql_view());
        }
        v
    }
}

impl json_schema::GenerateSchema for Entity {
    /// Generation succeeds when no attribute id repeats.
    open spec fn schema_ok(&self) -> bool {
        attrs_addable(empty_schema(self@.urn), self@.attributes)
    }

    /// One property per attribute, in declaration order.
    open spec fn schema_doc(&self) -> JsonSchemaV {
        add_attrs(empty_schema(self@.urn), self@.attributes)
    }

    #[verifier::loop_isolation(false)]
    fn json_schema_with_url(&self, schema_url: &str) -> (r: Result<JsonSchema, Error>) {
        let ghost attrs = self@.attributes;
        let ghost start = empty_schema(self@.urn);
        let mut schema = JsonSchema::new(self.urn.as_str());
        let na = self.attributes.len();
        let mut i: usize = 0;
        while i < na
            invariant
                i <= na,
                na == self.attributes@.len(),
                attrs == self@.attributes,
                start == empty_schema(self@.urn),
                schema@ == add_attrs(start, attrs.take(i as int)),
                attrs_addable(start, attrs.take(i as int)),
            decreases na - i,
        {
            let a = &self.attributes[i];
            let res = schema.add_property(a.id.as_str(), a.as_json_schema_type(), a.required);
            proof {
                assert(attrs[i as int] == self.attributes@[i as int]@);
                assert(attrs.take(i + 1).drop_last() =~= attrs.take(i as int));
                assert(attrs.take(i + 1).last() == attrs[i as int]);
            }
            match res {
                Err(e) => {
                    proof {
                        assert(!attrs_addable(start, attrs.take(i + 1)));
                        if attrs_addable(start, attrs) {
                            json_schema::lemma_addable_prefix(start, attrs, i + 1);
                        }
                    }
                    return Err(e);
                },
                Ok(()) => {},
            }
            i = i + 1;
        }
        proof {
            assert(attrs.take(na as int) =~= attrs);
        }
        Ok(schema)
    }
}

} // verus!
