use vstd::prelude::*;

use crate::common::{attr_column, AttributeV, UniqueConstraint, UniqueConstraintV};
use crate::entity::{entity_valid, Entity, EntityV};
use crate::error::{Error, ErrorKind};
use crate::relation::{relation_valid, Cardinality, Relation, RelationV};
use crate::sql;
use crate::urn;
use crate::utils;

verus! {

/// Ghost image of a model: a tenant and its declared entities and relations.
pub struct ModelV {
    pub tenant: Seq<char>,
    pub entities: Seq<EntityV>,
    pub relations: Seq<RelationV>,
}

/// The raw input of a model, before cross-validation.
#[derive(Clone, Debug)]
pub struct SerdeModel {
    pub tenant: String,
    pub entities: Vec<Entity>,
    pub relations: Vec<Relation>,
}

impl View for SerdeModel {
    type V = ModelV;

    open spec fn view(&self) -> ModelV {
        ModelV {
            tenant: self.tenant@,
            entities: self.entities.deep_view(),
            relations: self.relations.deep_view(),
        }
    }
}

/// The validated data model of one tenant. A `Model` exists only after
/// cross-validation has passed, and is immutable afterwards.
#[derive(Debug)]
pub struct Model {
    tenant: String,
    entities: Vec<Entity>,
    relations: Vec<Relation>,
}

impl View for Model {
    type V = ModelV;

    closed spec fn view(&self) -> ModelV {
        ModelV {
            tenant: self.tenant@,
            entities: self.entities.deep_view(),
            relations: self.relations.deep_view(),
        }
    }
}

/// The urn basenames of every entity, then of every relation, in declaration
/// order.
pub open spec fn model_basenames(m: ModelV) -> Seq<Seq<char>> {
    m.entities.map_values(|e: EntityV| urn::basename_of(e.urn)) + m.relations.map_values(
        |r: RelationV| urn::basename_of(r.urn),
    )
}

/// No two entities or relations share a urn basename.
pub open spec fn basenames_unique(m: ModelV) -> bool {
    forall|i: int, j: int|
        0 <= i < j < model_basenames(m).len() ==> model_basenames(m)[i] != model_basenames(m)[j]
}

/// Some entity carries the urn `urn`.
pub open spec fn has_entity_urn(es: Seq<EntityV>, urn: Seq<char>) -> bool {
    exists|i: int| 0 <= i < es.len() && (#[trigger] es[i]).urn == urn
}

/// Some relation carries the urn `urn`.
pub open spec fn has_relation_urn(rs: Seq<RelationV>, urn: Seq<char>) -> bool {
    exists|i: int| 0 <= i < rs.len() && (#[trigger] rs[i]).urn == urn
}

/// Every relation's origin and destination resolve to an entity urn.
pub open spec fn endpoints_resolve(m: ModelV) -> bool {
    forall|i: int|
        0 <= i < m.relations.len() ==> has_entity_urn(
            m.entities,
            (#[trigger] m.relations[i]).origin,
        ) && has_entity_urn(m.entities, m.relations[i].destination)
}

/// Every relation urn referenced by a unique constraint resolves to a
/// declared relation.
pub open spec fn constraint_relations_resolve(m: ModelV) -> bool {
    forall|i: int, j: int, k: int|
        0 <= i < m.entities.len() && 0 <= j < m.entities[i].unique_constraints.len() && 0 <= k
            < m.entities[i].unique_constraints[j].relations.len() ==> has_relation_urn(
            m.relations,
            #[trigger] m.entities[i].unique_constraints[j].relations[k],
        )
}

/// The entity `e` may use the relation named `rurn` in a unique constraint:
/// the relation exists, is OneToMany, and has `e` as its destination.
pub open spec fn constraint_relation_allowed(m: ModelV, e: EntityV, rurn: Seq<char>) -> bool {
    exists|k: int|
        0 <= k < m.relations.len() && (#[trigger] m.relations[k]).urn == rurn
            && m.relations[k].cardinality == Cardinality::OneToMany && m.relations[k].destination
            == e.urn
}

/// Every relation referenced by a unique constraint is OneToMany with the
/// referencing entity as its destination.
pub open spec fn constraint_relations_ok(m: ModelV) -> bool {
    forall|i: int, j: int, k: int|
        0 <= i < m.entities.len() && 0 <= j < m.entities[i].unique_constraints.len() && 0 <= k
            < m.entities[i].unique_constraints[j].relations.len() ==> constraint_relation_allowed(
            m,
            m.entities[i],
            #[trigger] m.entities[i].unique_constraints[j].relations[k],
        )
}

/// The model invariants, checked once over the whole closure: every entity
/// and relation individually valid, urn basenames globally unique, relation
/// endpoints resolving, and unique constraints referencing only OneToMany
/// relations that point at the referencing entity.
pub open spec fn model_wf(m: ModelV) -> bool {
    &&& forall|i: int| 0 <= i < m.entities.len() ==> entity_valid(#[trigger] m.entities[i])
    &&& forall|i: int| 0 <= i < m.relations.len() ==> relation_valid(#[trigger] m.relations[i])
    &&& basenames_unique(m)
    &&& endpoints_resolve(m)
    &&& constraint_relations_ok(m)
}

/// In a model with unique basenames, no two distinct entities share a urn.
pub proof fn lemma_entity_urn_unique(m: ModelV, i: int, j: int)
    requires
        basenames_unique(m),
        0 <= i < m.entities.len(),
        0 <= j < m.entities.len(),
        m.entities[i].urn == m.entities[j].urn,
    ensures
        i == j,
{
    if i != j {
        let a = if i < j { i } else { j };
        let b = if i < j { j } else { i };
        assert(model_basenames(m)[a] == urn::basename_of(m.entities[a].urn));
        assert(model_basenames(m)[b] == urn::basename_of(m.entities[b].urn));
    }
}

/// In a model with unique basenames, no two distinct relations share a urn.
pub proof fn lemma_relation_urn_unique(m: ModelV, i: int, j: int)
    requires
        basenames_unique(m),
        0 <= i < m.relations.len(),
        0 <= j < m.relations.len(),
        m.relations[i].urn == m.relations[j].urn,
    ensures
        i == j,
{
    if i != j {
        let ne = m.entities.len() as int;
        let a = ne + if i < j { i } else { j };
        let b = ne + if i < j { j } else { i };
        assert(model_basenames(m)[a] == urn::basename_of(
            m.relations[if i < j { i } else { j }].urn,
        ));
        assert(model_basenames(m)[b] == urn::basename_of(
            m.relations[if i < j { j } else { i }].urn,
        ));
    }
}

impl Model {
    /// Whether this model satisfies the model invariants. Every `Model` does:
    /// construction validates and refuses one that does not.
    pub open spec fn wf(&self) -> bool {
        model_wf(self@)
    }

    /// Assembles and cross-validates a model; returns the first error where
    /// validation fails.
    pub fn new(serde_model: SerdeModel) -> (r: Result<Model, Error>)
        ensures
            r is Ok <==> model_wf(serde_model@),
            r is Ok ==> r->Ok_0@ == serde_model@ && r->Ok_0.wf(),
            r is Err ==> r->Err_0.spec_kind() is Some,
            all_items_valid(serde_model@) && !basenames_unique(serde_model@) ==> r is Err
                && r->Err_0.spec_kind() == Some(ErrorKind::NameCollision),
            all_items_valid(serde_model@) && basenames_unique(serde_model@) && !endpoints_resolve(
                serde_model@,
            ) ==> r is Err && r->Err_0.spec_kind() == Some(ErrorKind::DanglingReference),
            all_items_valid(serde_model@) && basenames_unique(serde_model@) && endpoints_resolve(
                serde_model@,
            ) && !constraint_relations_resolve(serde_model@) ==> r is Err && (
            r->Err_0.spec_kind() == Some(ErrorKind::DanglingReference) || r->Err_0.spec_kind()
                == Some(ErrorKind::InvalidConstraintRelation)),
            all_items_valid(serde_model@) && basenames_unique(serde_model@) && endpoints_resolve(
                serde_model@,
            ) && constraint_relations_resolve(serde_model@) && !constraint_relations_ok(
                serde_model@,
            ) ==> r is Err && r->Err_0.spec_kind() == Some(ErrorKind::InvalidConstraintRelation),
    {
        let model = Model {
            tenant: serde_model.tenant,
            entities: serde_model.entities,
            relations: serde_model.relations,
        };
        match model.validate() {
            Ok(()) => Ok(model),
            Err(e) => Err(e),
        }
    }

    /// Runs the model invariants in order, stopping at the first failure:
    /// each entity and relation on its own, then basename uniqueness, then
    /// relation endpoints, then the relations unique constraints reference.
    #[verifier::loop_isolation(false)]
    pub fn validate(&self) -> (r: Result<(), Error>)
        ensures
            r is Ok <==> model_wf(self@),
            r is Err ==> r->Err_0.spec_kind() is Some,
            all_items_valid(self@) && !basenames_unique(self@) ==> r is Err
                && r->Err_0.spec_kind() == Some(ErrorKind::NameCollision),
            all_items_valid(self@) && basenames_unique(self@) && !endpoints_resolve(self@)
                ==> r is Err && r->Err_0.spec_kind() == Some(ErrorKind::DanglingReference),
            all_items_valid(self@) && basenames_unique(self@) && endpoints_resolve(self@)
                && !constraint_relations_resolve(self@) ==> r is Err && (r->Err_0.spec_kind()
                == Some(ErrorKind::DanglingReference) || r->Err_0.spec_kind() == Some(
                ErrorKind::InvalidConstraintRelation,
            )),
            all_items_valid(self@) && basenames_unique(self@) && endpoints_resolve(self@)
                && constraint_relations_resolve(self@) && !constraint_relations_ok(self@)
                ==> r is Err && r->Err_0.spec_kind() == Some(ErrorKind::InvalidConstraintRelation),
    {
        let ne = self.entities.len();
        let nr = self.relations.len();
        let mut i: usize = 0;
        while i < ne
            invariant
                i <= ne,
                forall|j: int| 0 <= j < i ==> entity_valid(#[trigger] self@.entities[j]),
            decreases ne - i,
        {
            let res = self.entities[i].validate();
            proof {
                assert(self@.entities[i as int] == self.entities@[i as int]@);
            }
            match res {
                Err(e) => {
                    return Err(e);
                },
                Ok(()) => {},
            }
            i = i + 1;
        }
        let mut i: usize = 0;
        while i < nr
            invariant
                i <= nr,
                forall|j: int| 0 <= j < i ==> relation_valid(#[trigger] self@.relations[j]),
            decreases nr - i,
        {
            let res = self.relations[i].validate();
            proof {
                assert(self@.relations[i as int] == self.relations@[i as int]@);
            }
            match res {
                Err(e) => {
                    return Err(e);
                },
                Ok(()) => {},
            }
            i = i + 1;
        }
        // Collect every basename, entities before relations, and refuse the
        // first repeat in declaration order.
        let mut names: Vec<String> = Vec::new();
        let mut i: usize = 0;
        while i < ne
            invariant
                i <= ne,
                names@.len() == i,
                forall|j: int| 0 <= j < i ==> (#[trigger] names@[j])@ == model_basenames(self@)[j],
            decreases ne - i,
        {
            names.push(urn::basename(self.entities[i].urn.as_str()).to_owned());
            proof {
                assert(self@.entities[i as int] == self.entities@[i as int]@);
            }
            i = i + 1;
        }
        let mut i: usize = 0;
        while i < nr
            invariant
                i <= nr,
                names@.len() == ne + i,
                forall|j: int|
                    0 <= j < ne + i ==> (#[trigger] names@[j])@ == model_basenames(self@)[j],
            decreases nr - i,
        {
            names.push(urn::basename(self.relations[i].urn.as_str()).to_owned());
            proof {
                assert(self@.relations[i as int] == self.relations@[i as int]@);
            }
            i = i + 1;
        }
        let total = names.len();
        let mut i: usize = 0;
        while i < total
            invariant
                i <= total,
                total == names@.len(),
                names@.len() == model_basenames(self@).len(),
                forall|j: int| 0 <= j < total ==> (#[trigger] names@[j])@ == model_basenames(self@)[j],
                forall|a: int, b: int|
                    0 <= a < b < i ==> model_basenames(self@)[a] != model_basenames(self@)[b],
            decreases total - i,
        {
            let mut j: usize = 0;
            while j < i
                invariant
                    j <= i,
                    i < total,
                    forall|b: int| 0 <= b < j ==> model_basenames(self@)[b] != model_basenames(
                        self@,
                    )[i as int],
                decreases i - j,
            {
                if utils::str_eq(names[j].as_str(), names[i].as_str()) {
                    return Err(Error::tagged(ErrorKind::NameCollision, names[i].as_str()));
                }
                j = j + 1;
            }
            i = i + 1;
        }
        // Every relation's origin and destination must name an entity.
        let mut i: usize = 0;
        while i < nr
            invariant
                i <= nr,
                forall|j: int|
                    0 <= j < i ==> has_entity_urn(
                        self@.entities,
                        (#[trigger] self@.relations[j]).origin,
                    ) && has_entity_urn(self@.entities, self@.relations[j].destination),
            decreases nr - i,
        {
            let origin_ok = self.find_entity(self.relations[i].origin.as_str()).is_some();
            let dest_ok = self.find_entity(self.relations[i].destination.as_str()).is_some();
            proof {
                assert(self@.relations[i as int] == self.relations@[i as int]@);
            }
            if !origin_ok || !dest_ok {
                return Err(Error::tagged(ErrorKind::DanglingReference, self.relations[i].urn.as_str()));
            }
            i = i + 1;
        }
        // Every relation a unique constraint references must exist, be
        // OneToMany, and have the referencing entity as its destination.
        let mut i: usize = 0;
        while i < ne
            invariant
                i <= ne,
                forall|i2: int, j2: int, k2: int|
                    0 <= i2 < i && 0 <= j2 < self@.entities[i2].unique_constraints.len() && 0 <= k2
                        < self@.entities[i2].unique_constraints[j2].relations.len()
                        ==> constraint_relation_allowed(
                        self@,
                        self@.entities[i2],
                        #[trigger] self@.entities[i2].unique_constraints[j2].relations[k2],
                    ),
            decreases ne - i,
        {
            let entity = &self.entities[i];
            proof {
                assert(self@.entities[i as int] == self.entities@[i as int]@);
            }
            let nu = entity.unique_constraints.len();
            let mut j: usize = 0;
            while j < nu
                invariant
                    j <= nu,
                    i < ne,
                    entity@ == self@.entities[i as int],
                    nu == entity.unique_constraints@.len(),
                    forall|j2: int, k2: int|
                        0 <= j2 < j && 0 <= k2 < self@.entities[
                            i as int
                        ].unique_constraints[j2].relations.len() ==> constraint_relation_allowed(
                            self@,
                            self@.entities[i as int],
                            #[trigger] self@.entities[i as int].unique_constraints[j2].relations[k2],
                        ),
                decreases nu - j,
            {
                let uc = &entity.unique_constraints[j];
                proof {
                    assert(uc@ == self@.entities[i as int].unique_constraints[j as int]);
                }
                let nk = uc.relations.len();
                let mut k: usize = 0;
                while k < nk
                    invariant
                        k <= nk,
                        i < ne,
                        j < nu,
                        entity@ == self@.entities[i as int],
                        uc@ == self@.entities[i as int].unique_constraints[j as int],
                        nk == uc.relations@.len(),
                        forall|k2: int|
                            0 <= k2 < k ==> constraint_relation_allowed(
                                self@,
                                self@.entities[i as int],
                                #[trigger] self@.entities[i as int].unique_constraints[
                                    j as int
                                ].relations[k2],
                            ),
                    decreases nk - k,
                {
                    let rurn = &uc.relations[k];
                    proof {
                        assert(rurn@ == self@.entities[i as int].unique_constraints[
                            j as int
                        ].relations[k as int]);
                    }
                    let found = self.find_relation(rurn.as_str());
                    match found {
                        None => {
                            return Err(Error::tagged(ErrorKind::DanglingReference, rurn.as_str()));
                        },
                        Some(idx) => {
                            let rel = &self.relations[idx];
                            proof {
                                assert(rel@ == self@.relations[idx as int]);
                            }
                            let ok = rel.is_destination(entity.urn.as_str(), Cardinality::OneToMany);
                            if !ok {
                                proof {
                                    // Any other relation under this urn would
                                    // collide with this one's basename.
                                    assert forall|k2: int|
                                        0 <= k2 < self@.relations.len()
                                            && (#[trigger] self@.relations[k2]).urn == rurn@
                                        implies k2 == idx as int by {
                                        lemma_relation_urn_unique(self@, k2, idx as int);
                                    }
                                    assert(!constraint_relation_allowed(
                                        self@,
                                        self@.entities[i as int],
                                        rurn@,
                                    ));
                                }
                                return Err(Error::tagged(ErrorKind::InvalidConstraintRelation, entity.urn.as_str()));
                            }
                        },
                    }
                    k = k + 1;
                }
                j = j + 1;
            }
            i = i + 1;
        }
        Ok(())
    }

    /// The position of some entity carrying the urn `urn`.
    fn find_entity(&self, urn: &str) -> (r: Option<usize>)
        ensures
            r is Some ==> 0 <= r->0 < self@.entities.len() && self@.entities[r->0 as int].urn
                == urn@,
            r is None ==> !has_entity_urn(self@.entities, urn@),
    {
        let n = self.entities.len();
        let mut i: usize = 0;
        while i < n
            invariant
                i <= n,
                n == self.entities@.len(),
                forall|j: int| 0 <= j < i ==> (#[trigger] self@.entities[j]).urn != urn@,
            decreases n - i,
        {
            let eq = utils::str_eq(self.entities[i].urn.as_str(), urn);
            proof {
                assert(self@.entities[i as int] == self.entities@[i as int]@);
            }
            if eq {
                return Some(i);
            }
            i = i + 1;
        }
        None
    }

    /// The position of some relation carrying the urn `urn`.
    fn find_relation(&self, urn: &str) -> (r: Option<usize>)
        ensures
            r is Some ==> 0 <= r->0 < self@.relations.len() && self@.relations[r->0 as int].urn
                == urn@,
            r is None ==> !has_relation_urn(self@.relations, urn@),
    {
        let n = self.relations.len();
        let mut i: usize = 0;
        while i < n
            invariant
                i <= n,
                n == self.relations@.len(),
                forall|j: int| 0 <= j < i ==> (#[trigger] self@.relations[j]).urn != urn@,
            decreases n - i,
        {
            let eq = utils::str_eq(self.relations[i].urn.as_str(), urn);
            proof {
                assert(self@.relations[i as int] == self.relations@[i as int]@);
            }
            if eq {
                return Some(i);
            }
            i = i + 1;
        }
        None
    }
}

/// Every entity and relation of the model is individually valid.
pub open spec fn all_items_valid(m: ModelV) -> bool {
    &&& forall|i: int| 0 <= i < m.entities.len() ==> entity_valid(#[trigger] m.entities[i])
    &&& forall|i: int| 0 <= i < m.relations.len() ==> relation_valid(#[trigger] m.relations[i])
}

/// The entity carrying the urn `urn`; meaningful where such an entity exists
/// and urns are unique.
pub open spec fn entity_with_urn(es: Seq<EntityV>, urn: Seq<char>) -> EntityV {
    let i = choose|i: int| 0 <= i < es.len() && (#[trigger] es[i]).urn == urn;
    es[i]
}

/// The relation carrying the urn `urn`; meaningful where such a relation
/// exists and urns are unique.
pub open spec fn relation_with_urn(rs: Seq<RelationV>, urn: Seq<char>) -> RelationV {
    let i = choose|i: int| 0 <= i < rs.len() && (#[trigger] rs[i]).urn == urn;
    rs[i]
}

/// Under unique basenames, resolving an entity's own urn yields that entity.
pub proof fn lemma_entity_with_urn(m: ModelV, i: int)
    requires
        basenames_unique(m),
        0 <= i < m.entities.len(),
    ensures
        entity_with_urn(m.entities, m.entities[i].urn) == m.entities[i],
{
    let u = m.entities[i].urn;
    assert(has_entity_urn(m.entities, u));
    let j = choose|j: int| 0 <= j < m.entities.len() && (#[trigger] m.entities[j]).urn == u;
    lemma_entity_urn_unique(m, i, j);
}

/// Under unique basenames, resolving a relation's own urn yields that
/// relation.
pub proof fn lemma_relation_with_urn(m: ModelV, i: int)
    requires
        basenames_unique(m),
        0 <= i < m.relations.len(),
    ensures
        relation_with_urn(m.relations, m.relations[i].urn) == m.relations[i],
{
    let u = m.relations[i].urn;
    assert(has_relation_urn(m.relations, u));
    let j = choose|j: int| 0 <= j < m.relations.len() && (#[trigger] m.relations[j]).urn == u;
    lemma_relation_urn_unique(m, i, j);
}

/// The non-null integer foreign-key column referencing `origin`'s table.
pub open spec fn fk_column_of(origin: EntityV) -> sql::ColumnV {
    sql::ColumnV {
        name: sql::fk_name(origin.singular),
        ty: sql::Type::Integer,
        not_null: true,
        default: None,
        auto_increment: false,
        primary_key: false,
        unique: false,
    }
}

/// The cascading foreign-key clause referencing `origin`'s table.
pub open spec fn fk_clause_of(origin: EntityV) -> sql::ForeignKeyV {
    sql::ForeignKeyV {
        key: sql::fk_name(origin.singular),
        table_name: origin.plural,
        table_key: "id"@,
        on_delete_cascade: true,
    }
}

/// The OneToMany relations pointing at `urn`, in declaration order.
pub open spec fn o2m_into(rs: Seq<RelationV>, urn: Seq<char>) -> Seq<RelationV>
    decreases rs.len(),
{
    if rs.len() == 0 {
        Seq::<RelationV>::empty()
    } else {
        let prefix = o2m_into(rs.drop_last(), urn);
        if rs.last().cardinality == Cardinality::OneToMany && rs.last().destination == urn {
            prefix.push(rs.last())
        } else {
            prefix
        }
    }
}

/// The column list of one unique constraint: its own attribute ids, then the
/// foreign-key column derived from each referenced relation's origin.
pub open spec fn uc_columns(m: ModelV, uc: UniqueConstraintV) -> Seq<Seq<char>> {
    uc.attributes + uc.relations.map_values(
        |rurn: Seq<char>|
            sql::fk_name(entity_with_urn(m.entities, relation_with_urn(m.relations, rurn).origin).singular),
    )
}

/// The full table of an entity inside a model: its base table extended with
/// one foreign-key column per OneToMany relation pointing at it, and one
/// composite uniqueness clause per declared unique constraint.
pub open spec fn entity_table(m: ModelV, e: EntityV) -> sql::TableV {
    sql::TableV {
        name: e.plural,
        columns: sql::base_columns() + e.attributes.map_values(|a: AttributeV| attr_column(a))
            + o2m_into(m.relations, e.urn).map_values(
            |r: RelationV| fk_column_of(entity_with_urn(m.entities, r.origin)),
        ),
        foreign_keys: o2m_into(m.relations, e.urn).map_values(
            |r: RelationV| fk_clause_of(entity_with_urn(m.entities, r.origin)),
        ),
        unique_constraints: e.unique_constraints.map_values(
            |uc: UniqueConstraintV| uc_columns(m, uc),
        ),
    }
}

/// The two statements an entity contributes: its table and its trigger.
pub open spec fn entity_statements(m: ModelV, e: EntityV) -> Seq<Seq<char>> {
    seq![
        sql::table_sql(entity_table(m, e)),
        sql::trigger_sql(sql::update_trigger(e.plural)),
    ]
}

/// The name of the join table materializing a ManyToMany relation.
pub open spec fn join_table_name(origin: EntityV, destination: EntityV) -> Seq<char> {
    origin.singular + "_"@ + destination.plural
}

/// The join table of a ManyToMany relation: two non-null integer cascading
/// foreign-key columns, then the relation's own attributes; no surrogate id
/// and no audit columns.
pub open spec fn join_table(m: ModelV, r: RelationV) -> sql::TableV {
    let origin = entity_with_urn(m.entities, r.origin);
    let destination = entity_with_urn(m.entities, r.destination);
    sql::TableV {
        name: join_table_name(origin, destination),
        columns: seq![fk_column_of(origin), fk_column_of(destination)] + r.attributes.map_values(
            |a: AttributeV| attr_column(a),
        ),
        foreign_keys: seq![fk_clause_of(origin), fk_clause_of(destination)],
        unique_constraints: Seq::<Seq<Seq<char>>>::empty(),
    }
}

/// The statements a relation contributes: one join table for ManyToMany,
/// nothing for OneToMany.
pub open spec fn relation_statements(m: ModelV, r: RelationV) -> Seq<Seq<char>> {
    if r.cardinality == Cardinality::ManyToMany {
        seq![sql::table_sql(join_table(m, r))]
    } else {
        Seq::<Seq<char>>::empty()
    }
}

/// The statements of the given entities, in order.
pub open spec fn entities_sql(m: ModelV, es: Seq<EntityV>) -> Seq<Seq<char>>
    decreases es.len(),
{
    if es.len() == 0 {
        Seq::<Seq<char>>::empty()
    } else {
        entities_sql(m, es.drop_last()) + entity_statements(m, es.last())
    }
}

/// The statements of the given relations, in order.
pub open spec fn relations_sql(m: ModelV, rs: Seq<RelationV>) -> Seq<Seq<char>>
    decreases rs.len(),
{
    if rs.len() == 0 {
        Seq::<Seq<char>>::empty()
    } else {
        relations_sql(m, rs.drop_last()) + relation_statements(m, rs.last())
    }
}

/// The full DDL of a model: every entity's statements in declaration order,
/// then every ManyToMany relation's join table in declaration order.
pub open spec fn model_sql(m: ModelV) -> Seq<Seq<char>> {
    entities_sql(m, m.entities) + relations_sql(m, m.relations)
}

impl Model {
    /// The name of the foreign-key column of the relation named
    /// `relation_urn`: derived from its destination's or its origin's
    /// singular name.
    fn foreign_key_name(&self, relation_urn: &str, destination: bool) -> (r: String)
        requires
            basenames_unique(self@),
            endpoints_resolve(self@),
            has_relation_urn(self@.relations, relation_urn@),
        ensures
            destination ==> r@ == sql::fk_name(
                entity_with_urn(
                    self@.entities,
                    relation_with_urn(self@.relations, relation_urn@).destination,
                ).singular,
            ),
            !destination ==> r@ == sql::fk_name(
                entity_with_urn(
                    self@.entities,
                    relation_with_urn(self@.relations, relation_urn@).origin,
                ).singular,
            ),
    {
        let found = self.find_relation(relation_urn);
        let idx = found.unwrap();
        let rel = &self.relations[idx];
        proof {
            assert(rel@ == self@.relations[idx as int]);
            lemma_relation_with_urn(self@, idx as int);
        }
        let target = if destination {
            rel.destination.as_str()
        } else {
            rel.origin.as_str()
        };
        let found_entity = self.find_entity(target);
        let eidx = found_entity.unwrap();
        proof {
            lemma_entity_with_urn(self@, eidx as int);
        }
        sql::fk_column_name(self.entities[eidx].singular.as_str())
    }

    /// The column list of one unique constraint: its attribute ids, then one
    /// foreign-key column name per referenced relation.
    #[verifier::loop_isolation(false)]
    fn unique_constraint_attributes(&self, uc: &UniqueConstraint) -> (r: Vec<String>)
        requires
            basenames_unique(self@),
            endpoints_resolve(self@),
            forall|k: int|
                0 <= k < uc@.relations.len() ==> has_relation_urn(
                    self@.relations,
                    #[trigger] uc@.relations[k],
                ),
        ensures
            r.deep_view() == uc_columns(self@, uc@),
    {
        let mut out: Vec<String> = Vec::new();
        let na = uc.attributes.len();
        let mut i: usize = 0;
        while i < na
            invariant
                i <= na,
                na == uc.attributes@.len(),
                out@.len() == i,
                forall|j: int| 0 <= j < i ==> (#[trigger] out@[j])@ == uc@.attributes[j],
            decreases na - i,
        {
            out.push(uc.attributes[i].clone());
            proof {
                assert(uc@.attributes[i as int] == uc.attributes@[i as int]@);
            }
            i = i + 1;
        }
        let nr = uc.relations.len();
        let mut i: usize = 0;
        while i < nr
            invariant
                i <= nr,
                na == uc.attributes@.len(),
                nr == uc.relations@.len(),
                out@.len() == na + i,
                forall|j: int| 0 <= j < na ==> (#[trigger] out@[j])@ == uc@.attributes[j],
                forall|j: int|
                    0 <= j < i ==> (#[trigger] out@[na + j])@ == sql::fk_name(
                        entity_with_urn(
                            self@.entities,
                            relation_with_urn(self@.relations, uc@.relations[j]).origin,
                        ).singular,
                    ),
            decreases nr - i,
        {
            proof {
                assert(uc@.relations[i as int] == uc.relations@[i as int]@);
            }
            let name = self.foreign_key_name(uc.relations[i].as_str(), false);
            out.push(name);
            i = i + 1;
        }
        proof {
            let expected = uc_columns(self@, uc@);
            assert forall|j: int| 0 <= j < out@.len() implies out.deep_view()[j] == expected[j] by {
                assert(out.deep_view()[j] == (out@[j])@);
                if j >= na {
                    let k = j - na;
                    assert((out@[na + k])@ == sql::fk_name(
                        entity_with_urn(
                            self@.entities,
                            relation_with_urn(self@.relations, uc@.relations[k]).origin,
                        ).singular,
                    ));
                }
            }
            assert(out.deep_view() =~= expected);
        }
        out
    }

    /// The two statements of the entity at position `i`: its full table,
    /// then its update trigger.
    #[verifier::loop_isolation(false)]
    fn entity_as_sql(&self, i: usize) -> (r: Vec<String>)
        requires
            self.wf(),
            i < self@.entities.len(),
        ensures
            r.deep_view() == entity_statements(self@, self@.entities[i as int]),
    {
        let ghost m = self@;
        let ghost e = self@.entities[i as int];
        let entity = &self.entities[i];
        proof {
            assert(entity@ == e);
        }
        let mut table = entity.as_sql_table();
        let ghost base_cols = crate::entity::entity_base_table(e).columns;
        let ghost nbase = base_cols.len() as int;
        proof {
            assert(table.columns.deep_view().len() == table.columns@.len());
            assert(table.foreign_keys.deep_view().len() == table.foreign_keys@.len());
            assert(table.unique_constraints.deep_view().len() == table.unique_constraints@.len());
            assert forall|j: int| 0 <= j < nbase implies (#[trigger] table.columns@[j])@
                == base_cols[j] by {
                assert(table.columns.deep_view()[j] == (table.columns@[j])@);
            }
        }
        // One composite uniqueness clause per declared unique constraint.
        let nu = entity.unique_constraints.len();
        let mut j: usize = 0;
        while j < nu
            invariant
                j <= nu,
                nu == entity.unique_constraints@.len(),
                table.name@ == e.plural,
                table.columns@.len() == nbase,
                forall|j2: int| 0 <= j2 < nbase ==> (#[trigger] table.columns@[j2])@ == base_cols[j2],
                table.foreign_keys@.len() == 0,
                table.unique_constraints@.len() == j,
                forall|j2: int|
                    0 <= j2 < j ==> (#[trigger] table.unique_constraints@[j2])@ == uc_columns(
                        m,
                        e.unique_constraints[j2],
                    ),
            decreases nu - j,
        {
            let uc = &entity.unique_constraints[j];
            proof {
                assert(uc@ == e.unique_constraints[j as int]);
                assert forall|k: int| 0 <= k < uc@.relations.len() implies has_relation_urn(
                    m.relations,
                    #[trigger] uc@.relations[k],
                ) by {
                    assert(constraint_relation_allowed(m, e, e.unique_constraints[
                        j as int
                    ].relations[k]));
                }
            }
            let cols = self.unique_constraint_attributes(uc);
            table.unique_constraints.push(sql::UniqueConstraint::new(cols));
            j = j + 1;
        }
        // One foreign-key column per OneToMany relation pointing here.
        let nr = self.relations.len();
        let mut k: usize = 0;
        while k < nr
            invariant
                k <= nr,
                nr == self.relations@.len(),
                table.name@ == e.plural,
                table.columns@.len() == nbase + o2m_into(m.relations.take(k as int), e.urn).len(),
                table.foreign_keys@.len() == o2m_into(m.relations.take(k as int), e.urn).len(),
                forall|j2: int| 0 <= j2 < nbase ==> (#[trigger] table.columns@[j2])@ == base_cols[j2],
                forall|j2: int|
                    0 <= j2 < o2m_into(m.relations.take(k as int), e.urn).len() ==> (
                    #[trigger] table.columns@[nbase + j2])@ == fk_column_of(
                        entity_with_urn(
                            m.entities,
                            o2m_into(m.relations.take(k as int), e.urn)[j2].origin,
                        ),
                    ),
                forall|j2: int|
                    0 <= j2 < o2m_into(m.relations.take(k as int), e.urn).len() ==> (
                    #[trigger] table.foreign_keys@[j2])@ == fk_clause_of(
                        entity_with_urn(
                            m.entities,
                            o2m_into(m.relations.take(k as int), e.urn)[j2].origin,
                        ),
                    ),
                table.unique_constraints@.len() == nu,
                forall|j2: int|
                    0 <= j2 < nu ==> (#[trigger] table.unique_constraints@[j2])@ == uc_columns(
                        m,
                        e.unique_constraints[j2],
                    ),
            decreases nr - k,
        {
            let ghost fkseq = o2m_into(m.relations.take(k as int), e.urn);
            let rel = &self.relations[k];
            proof {
                assert(rel@ == m.relations[k as int]);
                assert(m.relations.take(k + 1).drop_last() =~= m.relations.take(k as int));
                assert(m.relations.take(k + 1).last() == m.relations[k as int]);
            }
            let matched = rel.is_destination(entity.urn.as_str(), Cardinality::OneToMany);
            if matched {
                let found = self.find_entity(rel.origin.as_str());
                let oidx = found.unwrap();
                proof {
                    lemma_entity_with_urn(m, oidx as int);
                }
                let origin = &self.entities[oidx];
                let column_name = sql::fk_column_name(origin.singular.as_str());
                table.columns.push(
                    sql::Column {
                        name: column_name.clone(),
                        ty: sql::Type::Integer,
                        not_null: true,
                        default: None,
                        auto_increment: false,
                        primary_key: false,
                        unique: false,
                    },
                );
                table.foreign_keys.push(
                    sql::ForeignKey {
                        key: column_name,
                        table_name: origin.plural.clone(),
                        table_key: sql::BASE_ID.to_owned(),
                        on_delete_cascade: true,
                    },
                );
                proof {
                    assert(o2m_into(m.relations.take(k + 1), e.urn) =~= fkseq.push(
                        m.relations[k as int],
                    ));
                }
            } else {
                proof {
                    assert(o2m_into(m.relations.take(k + 1), e.urn) =~= fkseq);
                }
            }
            k = k + 1;
        }
        proof {
            assert(m.relations.take(nr as int) =~= m.relations);
            let expected = entity_table(m, e);
            assert forall|j2: int| 0 <= j2 < table.columns@.len() implies table.columns.deep_view()[j2]
                == expected.columns[j2] by {
                assert(table.columns.deep_view()[j2] == (table.columns@[j2])@);
                if j2 >= nbase {
                    let k2 = j2 - nbase;
                    assert((table.columns@[nbase + k2])@ == fk_column_of(
                        entity_with_urn(m.entities, o2m_into(m.relations, e.urn)[k2].origin),
                    ));
                }
            }
            assert(table.columns.deep_view() =~= expected.columns);
            assert forall|j2: int| 0 <= j2 < table.foreign_keys@.len() implies table.foreign_keys.deep_view()[j2]
                == expected.foreign_keys[j2] by {
                assert(table.foreign_keys.deep_view()[j2] == (table.foreign_keys@[j2])@);
            }
            assert(table.foreign_keys.deep_view() =~= expected.foreign_keys);
            assert forall|j2: int| 0 <= j2 < table.unique_constraints@.len() implies
                table.unique_constraints.deep_view()[j2] == expected.unique_constraints[j2] by {
                assert(table.unique_constraints.deep_view()[j2] == (table.unique_constraints@[j2])@);
            }
            assert(table.unique_constraints.deep_view() =~= expected.unique_constraints);
            assert(table@ == expected);
        }
        let mut out: Vec<String> = Vec::new();
        out.push(table.to_string());
        out.push(entity.as_sql_trigger().to_string());
        proof {
            assert(out@.len() == 2);
            assert(out.deep_view() =~= entity_statements(m, e));
        }
        out
    }

    /// The statements of the relation at position `i`: one join table for a
    /// ManyToMany relation, nothing for a OneToMany relation.
    #[verifier::loop_isolation(false)]
    fn relation_as_sql(&self, i: usize) -> (r: Vec<String>)
        requires
            self.wf(),
            i < self@.relations.len(),
        ensures
            r.deep_view() == relation_statements(self@, self@.relations[i as int]),
    {
        let ghost m = self@;
        let ghost rv = self@.relations[i as int];
        let rel = &self.relations[i];
        proof {
            assert(rel@ == rv);
        }
        if rel.cardinality == Cardinality::OneToMany {
            let out: Vec<String> = Vec::new();
            proof {
                assert(out.deep_view() =~= relation_statements(m, rv));
            }
            return out;
        }
        let found_origin = self.find_entity(rel.origin.as_str());
        let oidx = found_origin.unwrap();
        let found_dest = self.find_entity(rel.destination.as_str());
        let didx = found_dest.unwrap();
        proof {
            lemma_entity_with_urn(m, oidx as int);
            lemma_entity_with_urn(m, didx as int);
        }
        let origin = &self.entities[oidx];
        let destination = &self.entities[didx];
        let ghost ov = entity_with_urn(m.entities, rv.origin);
        let ghost dv = entity_with_urn(m.entities, rv.destination);
        let origin_key = sql::fk_column_name(origin.singular.as_str());
        let destination_key = sql::fk_column_name(destination.singular.as_str());
        let mut name = origin.singular.clone();
        name.append("_");
        name.append(destination.plural.as_str());
        let mut columns: Vec<sql::Column> = Vec::new();
        columns.push(
            sql::Column {
                name: origin_key.clone(),
                ty: sql::Type::Integer,
                not_null: true,
                default: None,
                auto_increment: false,
                primary_key: false,
                unique: false,
            },
        );
        columns.push(
            sql::Column {
                name: destination_key.clone(),
                ty: sql::Type::Integer,
                not_null: true,
                default: None,
                auto_increment: false,
                primary_key: false,
                unique: false,
            },
        );
        let na = rel.attributes.len();
        let mut j: usize = 0;
        while j < na
            invariant
                j <= na,
                na == rel.attributes@.len(),
                columns@.len() == 2 + j,
                (columns@[0])@ == fk_column_of(ov),
                (columns@[1])@ == fk_column_of(dv),
                forall|j2: int|
                    0 <= j2 < j ==> (#[trigger] columns@[2 + j2])@ == attr_column(
                        rv.attributes[j2],
                    ),
            decreases na - j,
        {
            columns.push(rel.attributes[j].as_sql_column());
            proof {
                assert(rv.attributes[j as int] == rel.attributes@[j as int]@);
            }
            j = j + 1;
        }
        let mut foreign_keys: Vec<sql::ForeignKey> = Vec::new();
        foreign_keys.push(
            sql::ForeignKey {
                key: origin_key,
                table_name: origin.plural.clone(),
                table_key: sql::BASE_ID.to_owned(),
                on_delete_cascade: true,
            },
        );
        foreign_keys.push(
            sql::ForeignKey {
                key: destination_key,
                table_name: destination.plural.clone(),
                table_key: sql::BASE_ID.to_owned(),
                on_delete_cascade: true,
            },
        );
        let table = sql::Table {
            name: name,
            columns: columns,
            foreign_keys: foreign_keys,
            unique_constraints: Vec::new(),
        };
        proof {
            let expected = join_table(m, rv);
            assert forall|j2: int| 0 <= j2 < table.columns@.len() implies table.columns.deep_view()[j2]
                == expected.columns[j2] by {
                assert(table.columns.deep_view()[j2] == (table.columns@[j2])@);
                if j2 >= 2 {
                    let k2 = j2 - 2;
                    assert((table.columns@[2 + k2])@ == attr_column(rv.attributes[k2]));
                }
            }
            assert(table.columns.deep_view() =~= expected.columns);
            assert(table.foreign_keys.deep_view() =~= expected.foreign_keys);
            assert(table.unique_constraints.deep_view() =~= expected.unique_constraints);
            assert(table@ == expected);
        }
        let mut out: Vec<String> = Vec::new();
        out.push(table.to_string());
        proof {
            assert(out.deep_view() =~= relation_statements(m, rv));
        }
        out
    }
}

/// The join-table names of the ManyToMany relations among `rs`, in order.
pub open spec fn join_tables(m: ModelV, rs: Seq<RelationV>) -> Seq<Seq<char>>
    decreases rs.len(),
{
    if rs.len() == 0 {
        Seq::<Seq<char>>::empty()
    } else {
        let prefix = join_tables(m, rs.drop_last());
        if rs.last().cardinality == Cardinality::ManyToMany {
            prefix.push(
                join_table_name(
                    entity_with_urn(m.entities, rs.last().origin),
                    entity_with_urn(m.entities, rs.last().destination),
                ),
            )
        } else {
            prefix
        }
    }
}

/// The column lists of the given unique constraints, concatenated in order.
pub open spec fn ucs_columns_flat(m: ModelV, ucs: Seq<UniqueConstraintV>) -> Seq<Seq<char>>
    decreases ucs.len(),
{
    if ucs.len() == 0 {
        Seq::<Seq<char>>::empty()
    } else {
        ucs_columns_flat(m, ucs.drop_last()) + uc_columns(m, ucs.last())
    }
}

/// The ids of the attributes flagged unique, in declaration order.
pub open spec fn unique_attr_ids(attrs: Seq<AttributeV>) -> Seq<Seq<char>>
    decreases attrs.len(),
{
    if attrs.len() == 0 {
        Seq::<Seq<char>>::empty()
    } else {
        let prefix = unique_attr_ids(attrs.drop_last());
        if attrs.last().unique {
            prefix.push(attrs.last().id)
        } else {
            prefix
        }
    }
}

/// Every column of an entity's table that takes part in uniqueness: the
/// expanded column lists of its unique constraints, then the ids of its
/// attributes flagged unique.
pub open spec fn table_unique_cols(m: ModelV, e: EntityV) -> Seq<Seq<char>> {
    ucs_columns_flat(m, e.unique_constraints) + unique_attr_ids(e.attributes)
}

impl Model {
    /// The singular form of an entity name given either of its two forms;
    /// the plural index is consulted first, as the lookup direction implies.
    pub fn get_singular(&self, text: &str) -> (r: Result<String, Error>)
        ensures
            r is Ok <==> exists|i: int|
                0 <= i < self@.entities.len() && ((#[trigger] self@.entities[i]).plural == text@
                    || self@.entities[i].singular == text@),
            r is Err ==> r->Err_0.spec_kind() == Some(ErrorKind::NotFound),
            forall|i: int|
                0 <= i < self@.entities.len() && (#[trigger] self@.entities[i]).plural == text@
                    && (forall|j: int|
                    i < j < self@.entities.len() ==> (#[trigger] self@.entities[j]).plural != text@)
                    ==> r is Ok && r->Ok_0@ == self@.entities[i].singular,
            (forall|j: int|
                0 <= j < self@.entities.len() ==> (#[trigger] self@.entities[j]).plural != text@)
                ==> forall|i: int|
                0 <= i < self@.entities.len() && (#[trigger] self@.entities[i]).singular == text@
                    && (forall|j: int|
                    i < j < self@.entities.len() ==> (#[trigger] self@.entities[j]).singular
                        != text@) ==> r is Ok && r->Ok_0@ == self@.entities[i].singular,
    {
        let n = self.entities.len();
        let mut i: usize = n;
        while i > 0
            invariant
                i <= n,
                n == self.entities@.len(),
                forall|j: int| i <= j < n ==> (#[trigger] self@.entities[j]).plural != text@,
            decreases i,
        {
            let eq = utils::str_eq(self.entities[i - 1].plural.as_str(), text);
            proof {
                assert(self@.entities[i - 1] == self.entities@[i - 1]@);
            }
            if eq {
                return Ok(self.entities[i - 1].singular.clone());
            }
            i = i - 1;
        }
        let mut i: usize = n;
        while i > 0
            invariant
                i <= n,
                n == self.entities@.len(),
                forall|j: int| 0 <= j < n ==> (#[trigger] self@.entities[j]).plural != text@,
                forall|j: int| i <= j < n ==> (#[trigger] self@.entities[j]).singular != text@,
            decreases i,
        {
            let eq = utils::str_eq(self.entities[i - 1].singular.as_str(), text);
            proof {
                assert(self@.entities[i - 1] == self.entities@[i - 1]@);
            }
            if eq {
                return Ok(self.entities[i - 1].singular.clone());
            }
            i = i - 1;
        }
        Err(Error::tagged(ErrorKind::NotFound, text))
    }

    /// The plural form of an entity name given either of its two forms;
    /// the singular index is consulted first.
    pub fn get_plural(&self, text: &str) -> (r: Result<String, Error>)
        ensures
            r is Ok <==> exists|i: int|
                0 <= i < self@.entities.len() && ((#[trigger] self@.entities[i]).singular == text@
                    || self@.entities[i].plural == text@),
            r is Err ==> r->Err_0.spec_kind() == Some(ErrorKind::NotFound),
            forall|i: int|
                0 <= i < self@.entities.len() && (#[trigger] self@.entities[i]).singular == text@
                    && (forall|j: int|
                    i < j < self@.entities.len() ==> (#[trigger] self@.entities[j]).singular
                        != text@) ==> r is Ok && r->Ok_0@ == self@.entities[i].plural,
            (forall|j: int|
                0 <= j < self@.entities.len() ==> (#[trigger] self@.entities[j]).singular != text@)
                ==> forall|i: int|
                0 <= i < self@.entities.len() && (#[trigger] self@.entities[i]).plural == text@ && (
                forall|j: int|
                    i < j < self@.entities.len() ==> (#[trigger] self@.entities[j]).plural != text@)
                    ==> r is Ok && r->Ok_0@ == self@.entities[i].plural,
    {
        let n = self.entities.len();
        let mut i: usize = n;
        while i > 0
            invariant
                i <= n,
                n == self.entities@.len(),
                forall|j: int| i <= j < n ==> (#[trigger] self@.entities[j]).singular != text@,
            decreases i,
        {
            let eq = utils::str_eq(self.entities[i - 1].singular.as_str(), text);
            proof {
                assert(self@.entities[i - 1] == self.entities@[i - 1]@);
            }
            if eq {
                return Ok(self.entities[i - 1].plural.clone());
            }
            i = i - 1;
        }
        let mut i: usize = n;
        while i > 0
            invariant
                i <= n,
                n == self.entities@.len(),
                forall|j: int| 0 <= j < n ==> (#[trigger] self@.entities[j]).singular != text@,
                forall|j: int| i <= j < n ==> (#[trigger] self@.entities[j]).plural != text@,
            decreases i,
        {
            let eq = utils::str_eq(self.entities[i - 1].plural.as_str(), text);
            proof {
                assert(self@.entities[i - 1] == self.entities@[i - 1]@);
            }
            if eq {
                return Ok(self.entities[i - 1].plural.clone());
            }
            i = i - 1;
        }
        Err(Error::tagged(ErrorKind::NotFound, text))
    }

    /// Whether `name` is the derived join-table name of some ManyToMany
    /// relation.
    #[verifier::loop_isolation(false)]
    pub fn is_relation_table(&self, name: &str) -> (r: bool)
        requires
            self.wf(),
        ensures
            r == exists|i: int|
                0 <= i < self@.relations.len() && (#[trigger] self@.relations[i]).cardinality
                    == Cardinality::ManyToMany && join_table_name(
                    entity_with_urn(self@.entities, self@.relations[i].origin),
                    entity_with_urn(self@.entities, self@.relations[i].destination),
                ) == name@,
    {
        let ghost m = self@;
        let nr = self.relations.len();
        let mut i: usize = 0;
        while i < nr
            invariant
                i <= nr,
                forall|j: int|
                    0 <= j < i ==> !((#[trigger] m.relations[j]).cardinality
                        == Cardinality::ManyToMany && join_table_name(
                        entity_with_urn(m.entities, m.relations[j].origin),
                        entity_with_urn(m.entities, m.relations[j].destination),
                    ) == name@),
            decreases nr - i,
        {
            let rel = &self.relations[i];
            proof {
                assert(rel@ == m.relations[i as int]);
            }
            if matches!(rel.cardinality, Cardinality::ManyToMany) {
                let found_origin = self.find_entity(rel.origin.as_str());
                let oidx = found_origin.unwrap();
                let found_dest = self.find_entity(rel.destination.as_str());
                let didx = found_dest.unwrap();
                proof {
                    lemma_entity_with_urn(m, oidx as int);
                    lemma_entity_with_urn(m, didx as int);
                }
                let mut table_name = self.entities[oidx].singular.clone();
                table_name.append("_");
                table_name.append(self.entities[didx].plural.as_str());
                if utils::str_eq(table_name.as_str(), name) {
                    return true;
                }
            }
            i = i + 1;
        }
        false
    }

    /// Every table name of the model: the entity tables in declaration order,
    /// then the ManyToMany join tables in declaration order.
    #[verifier::loop_isolation(false)]
    pub fn table_names(&self) -> (r: Vec<String>)
        requires
            self.wf(),
        ensures
            r.deep_view() == self@.entities.map_values(|e: EntityV| e.plural) + join_tables(
                self@,
                self@.relations,
            ),
    {
        let ghost m = self@;
        let mut out: Vec<String> = Vec::new();
        let ne = self.entities.len();
        let mut i: usize = 0;
        while i < ne
            invariant
                i <= ne,
                out@.len() == i,
                forall|j: int| 0 <= j < i ==> (#[trigger] out@[j])@ == m.entities[j].plural,
            decreases ne - i,
        {
            out.push(self.entities[i].plural.clone());
            proof {
                assert(m.entities[i as int] == self.entities@[i as int]@);
            }
            i = i + 1;
        }
        let nr = self.relations.len();
        let mut i: usize = 0;
        while i < nr
            invariant
                i <= nr,
                out@.len() == ne + join_tables(m, m.relations.take(i as int)).len(),
                forall|j: int| 0 <= j < ne ==> (#[trigger] out@[j])@ == m.entities[j].plural,
                forall|j: int|
                    0 <= j < join_tables(m, m.relations.take(i as int)).len() ==> (
                    #[trigger] out@[ne + j])@ == join_tables(m, m.relations.take(i as int))[j],
            decreases nr - i,
        {
            let ghost prefix = join_tables(m, m.relations.take(i as int));
            let rel = &self.relations[i];
            proof {
                assert(rel@ == m.relations[i as int]);
                assert(m.relations.take(i + 1).drop_last() =~= m.relations.take(i as int));
                assert(m.relations.take(i + 1).last() == m.relations[i as int]);
            }
            if matches!(rel.cardinality, Cardinality::ManyToMany) {
                let found_origin = self.find_entity(rel.origin.as_str());
                let oidx = found_origin.unwrap();
                let found_dest = self.find_entity(rel.destination.as_str());
                let didx = found_dest.unwrap();
                proof {
                    lemma_entity_with_urn(m, oidx as int);
                    lemma_entity_with_urn(m, didx as int);
                }
                let mut table_name = self.entities[oidx].singular.clone();
                table_name.append("_");
                table_name.append(self.entities[didx].plural.as_str());
                out.push(table_name);
                proof {
                    assert(join_tables(m, m.relations.take(i + 1)) =~= prefix.push(
                        join_table_name(
                            entity_with_urn(m.entities, m.relations[i as int].origin),
                            entity_with_urn(m.entities, m.relations[i as int].destination),
                        ),
                    ));
                }
            } else {
                proof {
                    assert(join_tables(m, m.relations.take(i + 1)) =~= prefix);
                }
            }
            i = i + 1;
        }
        proof {
            assert(m.relations.take(nr as int) =~= m.relations);
            let expected = m.entities.map_values(|e: EntityV| e.plural) + join_tables(
                m,
                m.relations,
            );
            assert forall|j: int| 0 <= j < out@.len() implies out.deep_view()[j] == expected[j] by {
                assert(out.deep_view()[j] == (out@[j])@);
                if j >= ne {
                    let k = j - ne;
                    assert((out@[ne + k])@ == join_tables(m, m.relations)[k]);
                }
            }
            assert(out.deep_view() =~= expected);
        }
        out
    }

    /// The unique columns of the entity table whose plural name is `name`:
    /// the expanded column lists of its unique constraints, then its
    /// attributes flagged unique; absent when no entity has that plural name.
    #[verifier::loop_isolation(false)]
    pub fn table_unique_attributes(&self, name: &str) -> (r: Option<Vec<String>>)
        requires
            self.wf(),
        ensures
            r is Some <==> exists|i: int|
                0 <= i < self@.entities.len() && (#[trigger] self@.entities[i]).plural == name@,
            forall|i: int|
                0 <= i < self@.entities.len() && (#[trigger] self@.entities[i]).plural == name@ && (
                forall|j: int|
                    i < j < self@.entities.len() ==> (#[trigger] self@.entities[j]).plural != name@)
                    ==> r is Some && r->0.deep_view() == table_unique_cols(
                    self@,
                    self@.entities[i],
                ),
    {
        let ghost m = self@;
        let n = self.entities.len();
        let mut i: usize = n;
        let mut found: Option<usize> = None;
        while i > 0
            invariant
                i <= n,
                found is None,
                forall|j: int| i <= j < n ==> (#[trigger] m.entities[j]).plural != name@,
            decreases i,
        {
            let eq = utils::str_eq(self.entities[i - 1].plural.as_str(), name);
            proof {
                assert(m.entities[i - 1] == self.entities@[i - 1]@);
            }
            if eq {
                found = Some(i - 1);
                break;
            }
            i = i - 1;
        }
        let idx = match found {
            None => {
                return None;
            },
            Some(idx) => idx,
        };
        let ghost e = m.entities[idx as int];
        let entity = &self.entities[idx];
        proof {
            assert(entity@ == e);
        }
        let mut out: Vec<String> = Vec::new();
        let nu = entity.unique_constraints.len();
        let mut j: usize = 0;
        while j < nu
            invariant
                j <= nu,
                nu == entity.unique_constraints@.len(),
                out.deep_view() =~= ucs_columns_flat(m, e.unique_constraints.take(j as int)),
            decreases nu - j,
        {
            let ghost prev = out@;
            let ghost prev_deep = out.deep_view();
            let uc = &entity.unique_constraints[j];
            proof {
                assert(uc@ == e.unique_constraints[j as int]);
                assert(e.unique_constraints.take(j + 1).drop_last() =~= e.unique_constraints.take(
                    j as int,
                ));
                assert(e.unique_constraints.take(j + 1).last() == e.unique_constraints[j as int]);
                assert forall|k: int| 0 <= k < uc@.relations.len() implies has_relation_urn(
                    m.relations,
                    #[trigger] uc@.relations[k],
                ) by {
                    assert(constraint_relation_allowed(m, e, e.unique_constraints[
                        j as int
                    ].relations[k]));
                }
            }
            let mut cols = self.unique_constraint_attributes(uc);
            let ghost cols_snapshot = cols@;
            let ghost cols_deep = cols.deep_view();
            out.append(&mut cols);
            proof {
                assert forall|j2: int| 0 <= j2 < out@.len() implies out.deep_view()[j2] == (prev_deep
                    + cols_deep)[j2] by {
                    assert(out.deep_view()[j2] == (out@[j2])@);
                    if j2 < prev.len() {
                        assert(out@[j2] == prev[j2]);
                        assert((prev[j2])@ == prev_deep[j2]);
                    } else {
                        assert(out@[j2] == cols_snapshot[j2 - prev.len()]);
                        assert((cols_snapshot[j2 - prev.len()])@ == cols_deep[j2 - prev.len()]);
                    }
                }
                assert(out.deep_view() =~= ucs_columns_flat(m, e.unique_constraints.take(j + 1)));
            }
            j = j + 1;
        }
        proof {
            assert(e.unique_constraints.take(nu as int) =~= e.unique_constraints);
        }
        let ghost flat = out.deep_view();
        let na = entity.attributes.len();
        let mut k: usize = 0;
        while k < na
            invariant
                k <= na,
                na == entity.attributes@.len(),
                out.deep_view() =~= flat + unique_attr_ids(e.attributes.take(k as int)),
            decreases na - k,
        {
            let ghost prev = out@;
            let ghost prev_deep = out.deep_view();
            let attr = &entity.attributes[k];
            proof {
                assert(attr@ == e.attributes[k as int]);
                assert(e.attributes.take(k + 1).drop_last() =~= e.attributes.take(k as int));
                assert(e.attributes.take(k + 1).last() == e.attributes[k as int]);
            }
            if attr.unique {
                out.push(attr.id.clone());
                proof {
                    assert forall|j2: int| 0 <= j2 < out@.len() implies out.deep_view()[j2] == (
                    prev_deep.push(e.attributes[k as int].id))[j2] by {
                        assert(out.deep_view()[j2] == (out@[j2])@);
                        if j2 < prev.len() {
                            assert(out@[j2] == prev[j2]);
                            assert((prev[j2])@ == prev_deep[j2]);
                        }
                    }
                    assert(out.deep_view() =~= flat + unique_attr_ids(e.attributes.take(k + 1)));
                }
            } else {
                proof {
                    assert(unique_attr_ids(e.attributes.take(k + 1)) =~= unique_attr_ids(
                        e.attributes.take(k as int),
                    ));
                }
            }
            k = k + 1;
        }
        proof {
            assert(e.attributes.take(na as int) =~= e.attributes);
            assert(out.deep_view() =~= table_unique_cols(m, e));
        }
        Some(out)
    }
}

impl sql::GenerateSql for Model {
    /// Generation assumes a validated model; every constructed `Model` is one.
    open spec fn sql_wf(&self) -> bool {
        self.wf()
    }

    open spec fn sql_view(&self) -> Seq<Seq<char>> {
        model_sql(self@)
    }

    #[verifier::loop_isolation(false)]
    fn generate_sql(&self) -> (r: Vec<String>) {
        let ghost m = self@;
        let mut out: Vec<String> = Vec::new();
        let ne = self.entities.len();
        let mut i: usize = 0;
        while i < ne
            invariant
                i <= ne,
                ne == self.entities@.len(),
                out.deep_view() =~= entities_sql(m, m.entities.take(i as int)),
            decreases ne - i,
        {
            let ghost prev = out@;
            let mut stmts = self.entity_as_sql(i);
            let ghost stmts_snapshot = stmts@;
            out.append(&mut stmts);
            proof {
                assert(m.entities.take(i + 1).drop_last() =~= m.entities.take(i as int));
                assert(m.entities.take(i + 1).last() == m.entities[i as int]);
                assert forall|j: int| 0 <= j < out@.len() implies out.deep_view()[j] == (
                entities_sql(m, m.entities.take(i as int)) + entity_statements(
                    m,
                    m.entities[i as int],
                ))[j] by {
                    assert(out.deep_view()[j] == (out@[j])@);
                    if j < prev.len() {
                        assert(out@[j] == prev[j]);
                    } else {
                        assert(out@[j] == stmts_snapshot[j - prev.len()]);
                        assert(stmts_snapshot[j - prev.len()]@ == entity_statements(
                            m,
                            m.entities[i as int],
                        )[j - prev.len()]);
                    }
                }
                assert(out.deep_view() =~= entities_sql(m, m.entities.take(i + 1)));
            }
            i = i + 1;
        }
        proof {
            assert(m.entities.take(ne as int) =~= m.entities);
        }
        let ghost ent_part = out.deep_view();
        let nr = self.relations.len();
        let mut i: usize = 0;
        while i < nr
            invariant
                i <= nr,
                nr == self.relations@.len(),
                out.deep_view() =~= ent_part + relations_sql(m, m.relations.take(i as int)),
            decreases nr - i,
        {
            let ghost prev = out@;
            let ghost prev_deep = out.deep_view();
            let mut stmts = self.relation_as_sql(i);
            let ghost stmts_snapshot = stmts@;
            out.append(&mut stmts);
            proof {
                assert(m.relations.take(i + 1).drop_last() =~= m.relations.take(i as int));
                assert(m.relations.take(i + 1).last() == m.relations[i as int]);
                assert forall|j: int| 0 <= j < out@.len() implies out.deep_view()[j] == (prev_deep
                    + relation_statements(m, m.relations[i as int]))[j] by {
                    assert(out.deep_view()[j] == (out@[j])@);
                    if j < prev.len() {
                        assert(out@[j] == prev[j]);
                        assert((prev[j])@ == prev_deep[j]);
                    } else {
                        assert(out@[j] == stmts_snapshot[j - prev.len()]);
                        assert(stmts_snapshot[j - prev.len()]@ == relation_statements(
                            m,
                            m.relations[i as int],
                        )[j - prev.len()]);
                    }
                }
                assert(out.deep_view() =~= ent_part + relations_sql(m, m.relations.take(i + 1)));
            }
            i = i + 1;
        }
        proof {
            assert(m.relations.take(nr as int) =~= m.relations);
            assert(out.deep_view() =~= model_sql(m));
        }
        out
    }
}

/// Uniqueness of basenames is global: any two positions of the combined
/// basename list — entities first, then relations — holding the same name
/// make the model ill-formed, so construction fails, wherever each of the
/// two stands in declaration order.
pub proof fn lemma_basename_collision(m: ModelV, i: int, j: int)
    requires
        0 <= i < j < model_basenames(m).len(),
        model_basenames(m)[i] == model_basenames(m)[j],
    ensures
        !model_wf(m),
{
}

/// A relation whose origin or destination urn resolves to no entity makes
/// the model ill-formed, so construction fails.
pub proof fn lemma_dangling_reference(m: ModelV, i: int)
    requires
        0 <= i < m.relations.len(),
        !has_entity_urn(m.entities, m.relations[i].origin) || !has_entity_urn(
            m.entities,
            m.relations[i].destination,
        ),
    ensures
        !model_wf(m),
{
}

/// A unique constraint referencing a ManyToMany relation, or a relation
/// whose destination is not the referencing entity, makes the model
/// ill-formed, so construction fails.
pub proof fn lemma_constraint_relation_forbidden(
    m: ModelV,
    i: int,
    j: int,
    k: int,
    ridx: int,
)
    requires
        basenames_unique(m),
        0 <= i < m.entities.len(),
        0 <= j < m.entities[i].unique_constraints.len(),
        0 <= k < m.entities[i].unique_constraints[j].relations.len(),
        0 <= ridx < m.relations.len(),
        m.relations[ridx].urn == m.entities[i].unique_constraints[j].relations[k],
        m.relations[ridx].cardinality == Cardinality::ManyToMany || m.relations[ridx].destination
            != m.entities[i].urn,
    ensures
        !model_wf(m),
{
    if model_wf(m) {
        let rurn = m.entities[i].unique_constraints[j].relations[k];
        assert(constraint_relation_allowed(m, m.entities[i], rurn));
        let k2 = choose|k2: int|
            0 <= k2 < m.relations.len() && (#[trigger] m.relations[k2]).urn == rurn
                && m.relations[k2].cardinality == Cardinality::OneToMany
                && m.relations[k2].destination == m.entities[i].urn;
        lemma_relation_urn_unique(m, k2, ridx);
    }
}

/// A unique constraint referencing a OneToMany relation whose destination is
/// the referencing entity satisfies the constraint-relation rule.
pub proof fn lemma_constraint_relation_accepted(m: ModelV, e: EntityV, ridx: int)
    requires
        0 <= ridx < m.relations.len(),
        m.relations[ridx].cardinality == Cardinality::OneToMany,
        m.relations[ridx].destination == e.urn,
    ensures
        constraint_relation_allowed(m, e, m.relations[ridx].urn),
{
    assert(0 <= ridx < m.relations.len() && m.relations[ridx].urn == m.relations[ridx].urn
        && m.relations[ridx].cardinality == Cardinality::OneToMany
        && m.relations[ridx].destination == e.urn);
}

/// One unique constraint renders the same columns in two models agreeing on
/// entities and relations.
proof fn lemma_uc_columns_congruent(m1: ModelV, m2: ModelV, uc: UniqueConstraintV)
    requires
        m1.entities == m2.entities,
        m1.relations == m2.relations,
    ensures
        uc_columns(m1, uc) == uc_columns(m2, uc),
{
    assert(uc_columns(m1, uc) =~= uc_columns(m2, uc));
}

/// One entity renders the same table in two models agreeing on entities and
/// relations.
proof fn lemma_entity_table_congruent(m1: ModelV, m2: ModelV, e: EntityV)
    requires
        m1.entities == m2.entities,
        m1.relations == m2.relations,
    ensures
        entity_table(m1, e) == entity_table(m2, e),
{
    assert(entity_table(m1, e).columns =~= entity_table(m2, e).columns);
    assert(entity_table(m1, e).foreign_keys =~= entity_table(m2, e).foreign_keys);
    assert forall|j: int| 0 <= j < e.unique_constraints.len() implies entity_table(
        m1,
        e,
    ).unique_constraints[j] == entity_table(m2, e).unique_constraints[j] by {
        lemma_uc_columns_congruent(m1, m2, e.unique_constraints[j]);
    }
    assert(entity_table(m1, e).unique_constraints =~= entity_table(m2, e).unique_constraints);
}

/// The given entities render the same statements in two models agreeing on
/// entities and relations.
proof fn lemma_entities_sql_congruent(m1: ModelV, m2: ModelV, es: Seq<EntityV>)
    requires
        m1.entities == m2.entities,
        m1.relations == m2.relations,
    ensures
        entities_sql(m1, es) == entities_sql(m2, es),
    decreases es.len(),
{
    if es.len() > 0 {
        lemma_entities_sql_congruent(m1, m2, es.drop_last());
        lemma_entity_table_congruent(m1, m2, es.last());
        assert(entity_statements(m1, es.last()) =~= entity_statements(m2, es.last()));
    }
}

/// The given relations render the same statements in two models agreeing on
/// entities and relations.
proof fn lemma_relations_sql_congruent(m1: ModelV, m2: ModelV, rs: Seq<RelationV>)
    requires
        m1.entities == m2.entities,
        m1.relations == m2.relations,
    ensures
        relations_sql(m1, rs) == relations_sql(m2, rs),
    decreases rs.len(),
{
    if rs.len() > 0 {
        lemma_relations_sql_congruent(m1, m2, rs.drop_last());
        if rs.last().cardinality == Cardinality::ManyToMany {
            assert(join_table(m1, rs.last()).columns =~= join_table(m2, rs.last()).columns);
            assert(join_table(m1, rs.last()).foreign_keys =~= join_table(
                m2,
                rs.last(),
            ).foreign_keys);
            assert(join_table(m1, rs.last()) == join_table(m2, rs.last()));
            assert(relation_statements(m1, rs.last()) =~= relation_statements(m2, rs.last()));
        } else {
            assert(relation_statements(m1, rs.last()) =~= relation_statements(m2, rs.last()));
        }
    }
}

/// DDL generation is deterministic: the statements are a function of the
/// declared entities and relations alone, so two models agreeing on both —
/// in particular, one model read twice — render byte-identical statements.
pub proof fn lemma_sql_deterministic(m1: ModelV, m2: ModelV)
    requires
        m1.entities == m2.entities,
        m1.relations == m2.relations,
    ensures
        model_sql(m1) == model_sql(m2),
{
    lemma_entities_sql_congruent(m1, m2, m1.entities);
    lemma_relations_sql_congruent(m1, m2, m1.relations);
}

/// Every member of `o2m_into(rs, u)` is a member of `rs`.
proof fn lemma_o2m_into_contains(rs: Seq<RelationV>, u: Seq<char>, idx: int)
    requires
        0 <= idx < o2m_into(rs, u).len(),
    ensures
        rs.contains(o2m_into(rs, u)[idx]),
    decreases rs.len(),
{
    let prefix = o2m_into(rs.drop_last(), u);
    if idx < prefix.len() {
        lemma_o2m_into_contains(rs.drop_last(), u, idx);
        let k = choose|k: int| 0 <= k < rs.drop_last().len() && rs.drop_last()[k] == prefix[idx];
        assert(rs[k] == o2m_into(rs, u)[idx]);
    } else {
        assert(rs[rs.len() - 1] == o2m_into(rs, u)[idx]);
    }
}

/// In two well-formed models holding the same entities — in any order — and
/// the same relations, a urn resolves to the same entity.
proof fn lemma_resolution_reorder(m1: ModelV, m2: ModelV, u: Seq<char>)
    requires
        basenames_unique(m1),
        basenames_unique(m2),
        m1.entities.to_multiset() == m2.entities.to_multiset(),
        has_entity_urn(m1.entities, u),
    ensures
        has_entity_urn(m2.entities, u),
        entity_with_urn(m1.entities, u) == entity_with_urn(m2.entities, u),
{
    m1.entities.to_multiset_ensures();
    m2.entities.to_multiset_ensures();
    let i1 = choose|i: int| 0 <= i < m1.entities.len() && (#[trigger] m1.entities[i]).urn == u;
    let e1 = m1.entities[i1];
    assert(m1.entities.contains(e1));
    assert(m2.entities.to_multiset().count(e1) > 0);
    assert(m2.entities.contains(e1));
    let i2 = choose|i: int| 0 <= i < m2.entities.len() && m2.entities[i] == e1;
    assert(has_entity_urn(m2.entities, u));
    let j2 = choose|j: int| 0 <= j < m2.entities.len() && (#[trigger] m2.entities[j]).urn == u;
    lemma_entity_urn_unique(m2, i2, j2);
}

/// Reordering the declared entity list moves statements without changing
/// them: an entity present in two well-formed models that hold the same
/// entities — in any order — and the same relations renders the same
/// statements in both.
pub proof fn lemma_sql_reorder_content(m1: ModelV, m2: ModelV, i: int, j: int)
    requires
        model_wf(m1),
        model_wf(m2),
        m1.relations == m2.relations,
        m1.entities.to_multiset() == m2.entities.to_multiset(),
        0 <= i < m1.entities.len(),
        0 <= j < m2.entities.len(),
        m1.entities[i] == m2.entities[j],
    ensures
        entity_statements(m1, m1.entities[i]) == entity_statements(m2, m2.entities[j]),
{
    let e = m1.entities[i];
    let t1 = entity_table(m1, e);
    let t2 = entity_table(m2, e);
    let fks = o2m_into(m1.relations, e.urn);
    assert forall|x: int| 0 <= x < fks.len() implies entity_with_urn(
        m1.entities,
        fks[x].origin,
    ) == entity_with_urn(m2.entities, fks[x].origin) && has_entity_urn(
        m1.entities,
        fks[x].origin,
    ) by {
        lemma_o2m_into_contains(m1.relations, e.urn, x);
        let ri = choose|ri: int| 0 <= ri < m1.relations.len() && m1.relations[ri] == fks[x];
        assert(has_entity_urn(m1.entities, m1.relations[ri].origin));
        lemma_resolution_reorder(m1, m2, fks[x].origin);
    }
    assert(t1.columns =~= t2.columns);
    assert(t1.foreign_keys =~= t2.foreign_keys);
    assert forall|x: int| 0 <= x < e.unique_constraints.len() implies uc_columns(
        m1,
        e.unique_constraints[x],
    ) == uc_columns(m2, e.unique_constraints[x]) by {
        let uc = e.unique_constraints[x];
        assert forall|y: int| 0 <= y < uc.relations.len() implies sql::fk_name(
            entity_with_urn(
                m1.entities,
                relation_with_urn(m1.relations, uc.relations[y]).origin,
            ).singular,
        ) == sql::fk_name(
            entity_with_urn(
                m2.entities,
                relation_with_urn(m2.relations, uc.relations[y]).origin,
            ).singular,
        ) by {
            let i1 = choose|i1: int|
                0 <= i1 < m1.entities.len() && (#[trigger] m1.entities[i1]).urn == e.urn;
            assert(m1.entities[i1] == e) by {
                lemma_entity_urn_unique(m1, i, i1);
            }
            assert(constraint_relation_allowed(m1, m1.entities[i1], m1.entities[
                i1
            ].unique_constraints[x].relations[y]));
            let rk = choose|rk: int|
                0 <= rk < m1.relations.len() && (#[trigger] m1.relations[rk]).urn
                    == uc.relations[y] && m1.relations[rk].cardinality == Cardinality::OneToMany
                    && m1.relations[rk].destination == m1.entities[i1].urn;
            let rel = relation_with_urn(m1.relations, uc.relations[y]);
            let rk2 = choose|k2: int|
                0 <= k2 < m1.relations.len() && (#[trigger] m1.relations[k2]).urn
                    == uc.relations[y];
            lemma_relation_urn_unique(m1, rk, rk2);
            assert(rel == m1.relations[rk]);
            assert(has_entity_urn(m1.entities, rel.origin));
            lemma_resolution_reorder(m1, m2, rel.origin);
        }
        assert(uc_columns(m1, uc) =~= uc_columns(m2, uc));
    }
    assert(t1.unique_constraints =~= t2.unique_constraints);
    assert(t1 == t2);
    assert(entity_statements(m1, e) =~= entity_statements(m2, e));
}


} // verus!
