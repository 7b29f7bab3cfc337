use vstd::prelude::*;

use crate::common::AttributeV;
use crate::common::schema_type_name;
use crate::error::{Error, ErrorKind};
use crate::utils;

verus! {

/// The schema draft every generated document declares.
pub const DEFAULT_SCHEMA: &'static str = "http://json-schema.org/draft-07/schema#";

/// Ghost image of a schema `Type`.
pub enum TypeV {
    Single(Seq<char>),
    Multiple(Seq<Seq<char>>),
}

/// The type of one schema property: a single type name, or a set of them.
#[derive(Clone, Debug, PartialEq, Eq)]
pub enum Type {
    Single(String),
    Multiple(Vec<String>),
}

impl View for Type {
    type V = TypeV;

    open spec fn view(&self) -> TypeV {
        match self {
            Type::Single(s) => TypeV::Single(s@),
            Type::Multiple(v) => TypeV::Multiple(v.deep_view()),
        }
    }
}

impl DeepView for Type {
    type V = TypeV;

    open spec fn deep_view(&self) -> TypeV {
        self.view()
    }
}

/// Widening a property type to also accept null: a single name becomes the
/// two-element set with `"null"`; a set gains `"null"` only when absent.
pub open spec fn nullable(t: TypeV) -> TypeV {
    match t {
        TypeV::Single(s) => TypeV::Multiple(seq![s, "null"@]),
        TypeV::Multiple(a) => if a.contains("null"@) {
            TypeV::Multiple(a)
        } else {
            TypeV::Multiple(a.push("null"@))
        },
    }
}

impl Type {
    /// A property type of the single type name `ty`.
    pub fn new_from_str(ty: &str) -> (r: Type)
        ensures
            r@ == TypeV::Single(ty@),
    {
        Type::Single(ty.to_owned())
    }

    /// A property type of the given set of type names.
    pub fn new_from_list(tys: Vec<String>) -> (r: Type)
        ensures
            r@ == TypeV::Multiple(tys.deep_view()),
    {
        Type::Multiple(tys)
    }

    /// Widens this type to also accept an explicit null value.
    pub fn make_nullable(self) -> (r: Type)
        ensures
            r@ == nullable(self@),
    {
        match self {
            Type::Single(s) => {
                let mut v: Vec<String> = Vec::new();
                let ghost sv = s@;
                v.push(s);
                v.push("null".to_owned());
                proof {
                    assert(v.deep_view() =~= seq![sv, "null"@]);
                }
                Type::Multiple(v)
            },
            Type::Multiple(a) => {
                let mut has_null = false;
                let mut i: usize = 0;
                while i < a.len()
                    invariant
                        i <= a.len(),
                        has_null == exists|j: int|
                            0 <= j < i && (#[trigger] a.deep_view()[j]) == "null"@,
                    decreases a.len() - i,
                {
                    let eq = utils::str_eq(a[i].as_str(), "null");
                    proof {
                        assert(a.deep_view()[i as int] == a@[i as int]@);
                    }
                    if eq {
                        has_null = true;
                    }
                    i = i + 1;
                }
                if has_null {
                    Type::Multiple(a)
                } else {
                    let mut a = a;
                    let ghost av = a.deep_view();
                    a.push("null".to_owned());
                    proof {
                        assert(a.deep_view() =~= av.push("null"@));
                    }
                    Type::Multiple(a)
                }
            },
        }
    }
}

/// Ghost image of a `JsonSchema` document.
pub struct JsonSchemaV {
    pub id: Seq<char>,
    pub schema: Seq<char>,
    pub properties: Seq<(Seq<char>, TypeV)>,
    pub required: Seq<Seq<char>>,
}

/// One generated schema document: its identifier, the declared draft, an
/// ordered property mapping, and the list of required property ids.
#[derive(Debug)]
pub struct JsonSchema {
    pub id: String,
    pub schema: String,
    pub properties: Vec<(String, Type)>,
    pub required: Vec<String>,
}

impl View for JsonSchema {
    type V = JsonSchemaV;

    open spec fn view(&self) -> JsonSchemaV {
        JsonSchemaV {
            id: self.id@,
            schema: self.schema@,
            properties: self.properties.deep_view(),
            required: self.required.deep_view(),
        }
    }
}

/// A document with the given identifier, the fixed draft, and no properties.
pub open spec fn empty_schema(id: Seq<char>) -> JsonSchemaV {
    JsonSchemaV {
        id: id,
        schema: "http://json-schema.org/draft-07/schema#"@,
        properties: Seq::<(Seq<char>, TypeV)>::empty(),
        required: Seq::<Seq<char>>::empty(),
    }
}

/// The document already holds a property under `id`.
pub open spec fn doc_has_key(doc: JsonSchemaV, id: Seq<char>) -> bool {
    exists|i: int| 0 <= i < doc.properties.len() && (#[trigger] doc.properties[i]).0 == id
}

/// The document after adding one property: a required property keeps its type
/// and joins the required list; an optional one is widened to accept null.
pub open spec fn doc_add(doc: JsonSchemaV, id: Seq<char>, ty: TypeV, required: bool) -> JsonSchemaV {
    JsonSchemaV {
        id: doc.id,
        schema: doc.schema,
        properties: doc.properties.push((id, if required { ty } else { nullable(ty) })),
        required: if required { doc.required.push(id) } else { doc.required },
    }
}

impl JsonSchema {
    /// An empty document whose identifier is `id`.
    pub fn new(id: &str) -> (r: JsonSchema)
        ensures
            r@ == empty_schema(id@),
    {
        let r = JsonSchema {
            id: id.to_owned(),
            schema: DEFAULT_SCHEMA.to_owned(),
            properties: Vec::new(),
            required: Vec::new(),
        };
        proof {
            assert(r@.properties =~= Seq::<(Seq<char>, TypeV)>::empty());
            assert(r@.required =~= Seq::<Seq<char>>::empty());
        }
        r
    }

    /// Adds one property, refusing an id that already exists; an optional
    /// property's type is widened to also accept null, a required property's
    /// id is appended to the required list.
    pub fn add_property(&mut self, id: &str, ty: Type, required: bool) -> (r: Result<(), Error>)
        ensures
            r is Ok <==> !doc_has_key(old(self)@, id@),
            r is Ok ==> final(self)@ == doc_add(old(self)@, id@, ty@, required),
            r is Err ==> final(self)@ == old(self)@ && r->Err_0.spec_kind() == Some(
                ErrorKind::DuplicateProperty,
            ),
    {
        let n = self.properties.len();
        let mut i: usize = 0;
        while i < n
            invariant
                i <= n,
                n == self.properties@.len(),
                forall|j: int| 0 <= j < i ==> (#[trigger] self@.properties[j]).0 != id@,
            decreases n - i,
        {
            if utils::str_eq(self.properties[i].0.as_str(), id) {
                proof {
                    assert((self@.properties[i as int]).0 == id@);
                }
                return Err(Error::tagged(ErrorKind::DuplicateProperty, id));
            }
            i = i + 1;
        }
        let ghost old_view = self@;
        let inner_type: Type;
        if required {
            self.required.push(id.to_owned());
            inner_type = ty;
        } else {
            inner_type = ty.make_nullable();
        }
        self.properties.push((id.to_owned(), inner_type));
        proof {
            assert(self@.properties =~= old_view.properties.push(
                (id@, if required { ty@ } else { nullable(ty@) }),
            ));
            if required {
                assert(self@.required =~= old_view.required.push(id@));
            } else {
                assert(self@.required =~= old_view.required);
            }
        }
        Ok(())
    }
}

/// Nullability of generated properties: adding a non-required property of a
/// single type name stores the two-element set with `"null"` and leaves the
/// required list alone; adding a required property keeps the type unchanged
/// and appends the id to the required list.
pub proof fn lemma_nullability(doc: JsonSchemaV, id: Seq<char>, name: Seq<char>, required: bool)
    ensures
        !required ==> doc_add(doc, id, TypeV::Single(name), required).properties.last() == (
            id,
            TypeV::Multiple(seq![name, "null"@]),
        ) && doc_add(doc, id, TypeV::Single(name), required).required == doc.required,
        required ==> doc_add(doc, id, TypeV::Single(name), required).properties.last() == (
            id,
            TypeV::Single(name),
        ) && doc_add(doc, id, TypeV::Single(name), required).required == doc.required.push(id),
{
}

/// The document after adding every attribute of `attrs`, in order.
pub open spec fn add_attrs(doc: JsonSchemaV, attrs: Seq<AttributeV>) -> JsonSchemaV
    decreases attrs.len(),
{
    if attrs.len() == 0 {
        doc
    } else {
        doc_add(
            add_attrs(doc, attrs.drop_last()),
            attrs.last().id,
            TypeV::Single(schema_type_name(attrs.last().ty)),
            attrs.last().required,
        )
    }
}

/// Every attribute of `attrs` can be added to `doc` in order without hitting
/// an id that already exists.
pub open spec fn attrs_addable(doc: JsonSchemaV, attrs: Seq<AttributeV>) -> bool
    decreases attrs.len(),
{
    if attrs.len() == 0 {
        true
    } else {
        attrs_addable(doc, attrs.drop_last()) && !doc_has_key(
            add_attrs(doc, attrs.drop_last()),
            attrs.last().id,
        )
    }
}

/// Adding attributes leaves exactly the old keys plus the attribute ids.
proof fn lemma_add_attrs_has_key(doc: JsonSchemaV, attrs: Seq<AttributeV>, id: Seq<char>)
    ensures
        doc_has_key(add_attrs(doc, attrs), id) <==> doc_has_key(doc, id) || exists|i: int|
            0 <= i < attrs.len() && (#[trigger] attrs[i]).id == id,
    decreases attrs.len(),
{
    if attrs.len() > 0 {
        lemma_add_attrs_has_key(doc, attrs.drop_last(), id);
        let before = add_attrs(doc, attrs.drop_last());
        let after = add_attrs(doc, attrs);
        assert(after.properties.last().0 == attrs.last().id);
        if doc_has_key(after, id) {
            let i = choose|i: int|
                0 <= i < after.properties.len() && (#[trigger] after.properties[i]).0 == id;
            if i < before.properties.len() {
                assert(before.properties[i] == after.properties[i]);
                assert(doc_has_key(before, id));
            } else {
                assert(attrs.last().id == id);
            }
        }
        if doc_has_key(before, id) {
            let i = choose|i: int|
                0 <= i < before.properties.len() && (#[trigger] before.properties[i]).0 == id;
            assert(after.properties[i].0 == id);
        }
        if exists|i: int| 0 <= i < attrs.len() && (#[trigger] attrs[i]).id == id {
            let i = choose|i: int| 0 <= i < attrs.len() && (#[trigger] attrs[i]).id == id;
            if i < attrs.len() - 1 {
                assert(attrs.drop_last()[i] == attrs[i]);
                assert(doc_has_key(before, id));
            } else {
                assert(after.properties.last().0 == id);
            }
            assert(doc_has_key(after, id));
        }
    }
}

/// Generation from a starting document succeeds exactly when no attribute id
/// repeats an existing property id or an earlier attribute id.
pub proof fn lemma_attrs_addable_distinct(doc: JsonSchemaV, attrs: Seq<AttributeV>)
    ensures
        attrs_addable(doc, attrs) <==> (forall|i: int, j: int|
            0 <= i < j < attrs.len() ==> (#[trigger] attrs[i]).id != (#[trigger] attrs[j]).id)
            && (forall|i: int| 0 <= i < attrs.len() ==> !doc_has_key(doc, (#[trigger] attrs[i]).id)),
    decreases attrs.len(),
{
    if attrs.len() > 0 {
        lemma_attrs_addable_distinct(doc, attrs.drop_last());
        lemma_add_attrs_has_key(doc, attrs.drop_last(), attrs.last().id);
        assert forall|i: int| 0 <= i < attrs.len() - 1 implies attrs.drop_last()[i] == attrs[i] by {}
        if attrs_addable(doc, attrs) {
            assert forall|i: int, j: int|
                0 <= i < j < attrs.len() implies (#[trigger] attrs[i]).id != (
            #[trigger] attrs[j]).id by {
                if j < attrs.len() - 1 {
                    assert(attrs.drop_last()[i] == attrs[i]);
                    assert(attrs.drop_last()[j] == attrs[j]);
                } else {
                    assert(attrs.drop_last()[i] == attrs[i]);
                }
            }
        } else {
            if (forall|i: int, j: int|
                0 <= i < j < attrs.len() ==> (#[trigger] attrs[i]).id != (#[trigger] attrs[j]).id)
                && (forall|i: int|
                0 <= i < attrs.len() ==> !doc_has_key(doc, (#[trigger] attrs[i]).id)) {
                assert forall|i: int, j: int|
                    0 <= i < j < attrs.drop_last().len() implies (#[trigger] attrs.drop_last()[i]).id
                    != (#[trigger] attrs.drop_last()[j]).id by {
                    assert(attrs.drop_last()[i] == attrs[i]);
                    assert(attrs.drop_last()[j] == attrs[j]);
                }
                assert forall|i: int| 0 <= i < attrs.drop_last().len() implies !doc_has_key(
                    doc,
                    (#[trigger] attrs.drop_last()[i]).id,
                ) by {
                    assert(attrs.drop_last()[i] == attrs[i]);
                }
                assert(attrs_addable(doc, attrs.drop_last()));
                assert(!doc_has_key(add_attrs(doc, attrs.drop_last()), attrs.last().id));
                assert(false);
            }
        }
    }
}

/// A prefix of an addable attribute list is itself addable.
pub proof fn lemma_addable_prefix(doc: JsonSchemaV, attrs: Seq<AttributeV>, j: int)
    requires
        attrs_addable(doc, attrs),
        0 <= j <= attrs.len(),
    ensures
        attrs_addable(doc, attrs.take(j)),
    decreases attrs.len() - j,
{
    if j == attrs.len() {
        assert(attrs.take(j) =~= attrs);
    } else {
        lemma_addable_prefix(doc, attrs, j + 1);
        assert(attrs.take(j + 1).drop_last() =~= attrs.take(j));
    }
}

/// Something that renders as one schema document.
pub trait GenerateSchema {
    /// When generation succeeds.
    spec fn schema_ok(&self) -> bool;

    /// The generated document.
    spec fn schema_doc(&self) -> JsonSchemaV;

    /// Generates the schema document; `schema_url` is accepted for interface
    /// compatibility and ignored.
    fn json_schema_with_url(&self, schema_url: &str) -> (r: Result<JsonSchema, Error>)
        ensures
            r is Ok <==> self.schema_ok(),
            r is Ok ==> r->Ok_0@ == self.schema_doc(),
            r is Err ==> r->Err_0.spec_kind() == Some(ErrorKind::DuplicateProperty),
    ;

    /// Generates the schema document.
    fn json_schema(&self) -> (r: Result<JsonSchema, Error>)
        ensures
            r is Ok <==> self.schema_ok(),
            r is Ok ==> r->Ok_0@ == self.schema_doc(),
            r is Err ==> r->Err_0.spec_kind() == Some(ErrorKind::DuplicateProperty),
    {
        self.json_schema_with_url("")
    }
}

} // verus!
