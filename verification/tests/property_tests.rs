use perrydl::common::{Attribute, AttributeType, UniqueConstraint, Visibility};
use perrydl::entity::Entity;
use perrydl::error::ErrorKind;
use perrydl::json_schema::{GenerateSchema, Type};
use perrydl::model::{Model, SerdeModel};
use perrydl::relation::{Cardinality, Relation};
use perrydl::sql::GenerateSql;

fn attr(id: &str, required: bool, unique: bool, ty: AttributeType) -> Attribute {
    Attribute {
        id: id.to_owned(),
        name: id.to_owned(),
        description: String::new(),
        required,
        unique,
        ty,
    }
}

fn entity(urn: &str, singular: &str, plural: &str, attributes: Vec<Attribute>) -> Entity {
    Entity {
        id: 0,
        urn: urn.to_owned(),
        singular: singular.to_owned(),
        plural: plural.to_owned(),
        name: singular.to_owned(),
        description: String::new(),
        visibility: Visibility::Tenant,
        attributes,
        unique_constraints: vec![],
    }
}

fn relation(urn: &str, origin: &str, destination: &str, cardinality: Cardinality) -> Relation {
    Relation {
        id: 0,
        urn: urn.to_owned(),
        name: urn.to_owned(),
        description: String::new(),
        visibility: Visibility::Tenant,
        origin: origin.to_owned(),
        destination: destination.to_owned(),
        cardinality,
        attributes: vec![],
    }
}

fn part() -> Entity {
    entity(
        "ns:part",
        "part",
        "parts",
        vec![
            attr("label", true, true, AttributeType::String),
            attr("stock", false, false, AttributeType::Integer),
        ],
    )
}

fn tag() -> Entity {
    entity(
        "ns:tag",
        "tag",
        "tags",
        vec![attr("word", true, true, AttributeType::String)],
    )
}

#[test]
fn basename_collision_is_global() {
    // Two entities sharing a basename.
    let m = SerdeModel {
        tenant: "ns".to_owned(),
        entities: vec![part(), entity("other:part", "part", "bits", vec![attr("x", false, false, AttributeType::Bool)])],
        relations: vec![],
    };
    let err = Model::new(m).unwrap_err();
    assert_eq!(err.kind(), Some(ErrorKind::NameCollision));
    assert_eq!(err.message(), "basename occurs more than once: 'part'");

    // An entity and a relation sharing a basename, in either order.
    let m = SerdeModel {
        tenant: "ns".to_owned(),
        entities: vec![part(), tag()],
        relations: vec![relation("ns:part", "ns:part", "ns:tag", Cardinality::ManyToMany)],
    };
    let err = Model::new(m).unwrap_err();
    assert_eq!(err.kind(), Some(ErrorKind::NameCollision));

    let m = SerdeModel {
        tenant: "ns".to_owned(),
        entities: vec![tag(), part()],
        relations: vec![relation("ns:part", "ns:tag", "ns:part", Cardinality::ManyToMany)],
    };
    let err = Model::new(m).unwrap_err();
    assert_eq!(err.kind(), Some(ErrorKind::NameCollision));
}

#[test]
fn dangling_reference_rejected_then_fixed() {
    let m = SerdeModel {
        tenant: "ns".to_owned(),
        entities: vec![part()],
        relations: vec![relation("ns:tagging", "ns:part", "ns:tag", Cardinality::ManyToMany)],
    };
    let err = Model::new(m).unwrap_err();
    assert_eq!(err.kind(), Some(ErrorKind::DanglingReference));

    // Adding the missing entity fixes the reference.
    let m = SerdeModel {
        tenant: "ns".to_owned(),
        entities: vec![part(), tag()],
        relations: vec![relation("ns:tagging", "ns:part", "ns:tag", Cardinality::ManyToMany)],
    };
    Model::new(m).expect("model should be valid once the destination exists");
}

#[test]
fn constraint_relation_rules() {
    let mut priced = entity(
        "ns:price",
        "price",
        "prices",
        vec![attr("value", true, false, AttributeType::Real)],
    );
    priced.unique_constraints = vec![UniqueConstraint {
        attributes: vec![],
        relations: vec!["ns:pricing".to_owned()],
    }];

    // A ManyToMany relation may not back a unique constraint.
    let m = SerdeModel {
        tenant: "ns".to_owned(),
        entities: vec![part(), priced.clone()],
        relations: vec![relation("ns:pricing", "ns:part", "ns:price", Cardinality::ManyToMany)],
    };
    let err = Model::new(m).unwrap_err();
    assert_eq!(err.kind(), Some(ErrorKind::InvalidConstraintRelation));

    // A OneToMany relation with the constrained entity as its origin may not.
    let m = SerdeModel {
        tenant: "ns".to_owned(),
        entities: vec![part(), priced.clone()],
        relations: vec![relation("ns:pricing", "ns:price", "ns:part", Cardinality::OneToMany)],
    };
    let err = Model::new(m).unwrap_err();
    assert_eq!(err.kind(), Some(ErrorKind::InvalidConstraintRelation));

    // A OneToMany relation with the entity as its destination succeeds.
    let m = SerdeModel {
        tenant: "ns".to_owned(),
        entities: vec![part(), priced],
        relations: vec![relation("ns:pricing", "ns:part", "ns:price", Cardinality::OneToMany)],
    };
    Model::new(m).expect("destination-side OneToMany relation is allowed");
}

#[test]
fn relation_validation_rules() {
    let mut rel = relation("ns:tagging", "ns:part", "ns:tag", Cardinality::ManyToMany);
    rel.validate().expect("relation should be valid");

    let mut bad = rel.clone();
    bad.urn = "ns:Tagging".to_owned();
    assert_eq!(
        bad.validate().unwrap_err().kind(),
        Some(ErrorKind::InvalidIdentifierChar)
    );

    let mut bad = rel.clone();
    bad.origin = "elsewhere:part".to_owned();
    assert_eq!(
        bad.validate().unwrap_err().kind(),
        Some(ErrorKind::NamespaceMismatch)
    );

    let mut bad = rel.clone();
    bad.cardinality = Cardinality::OneToMany;
    bad.attributes = vec![attr("weight", false, false, AttributeType::Integer)];
    assert_eq!(
        bad.validate().unwrap_err().kind(),
        Some(ErrorKind::AttributesNotAllowed)
    );

    rel.attributes = vec![attr("weight_id", false, false, AttributeType::Integer)];
    assert_eq!(
        rel.validate().unwrap_err().kind(),
        Some(ErrorKind::ReservedAttributeSuffix)
    );
}

#[test]
fn ddl_generation_is_deterministic() {
    let make = |entities: Vec<Entity>| {
        Model::new(SerdeModel {
            tenant: "ns".to_owned(),
            entities,
            relations: vec![relation("ns:tagging", "ns:part", "ns:tag", Cardinality::ManyToMany)],
        })
        .unwrap()
    };
    let model = make(vec![part(), tag()]);
    assert_eq!(model.generate_sql(), model.generate_sql());

    // Reordering the entity list only moves statements; each statement's
    // content is unchanged.
    let reordered = make(vec![tag(), part()]);
    let mut a = model.generate_sql();
    let mut b = reordered.generate_sql();
    assert_ne!(a, b);
    a.sort();
    b.sort();
    assert_eq!(a, b);
}

#[test]
fn end_to_end_part() {
    let model = Model::new(SerdeModel {
        tenant: "ns".to_owned(),
        entities: vec![part()],
        relations: vec![],
    })
    .unwrap();

    assert_eq!(
        model.generate_sql().join("\n"),
        "CREATE TABLE parts(id INTEGER PRIMARY KEY AUTOINCREMENT, created_at DATETIME DEFAULT CURRENT_TIMESTAMP NOT NULL, updated_at DATETIME DEFAULT CURRENT_TIMESTAMP NOT NULL, label TEXT UNIQUE NOT NULL, stock INTEGER);\nCREATE TRIGGER parts_updated_at AFTER UPDATE ON parts WHEN old.updated_at < CURRENT_TIMESTAMP BEGIN UPDATE parts SET updated_at = CURRENT_TIMESTAMP WHERE id = old.id; END;"
    );

    let schema = part().json_schema().unwrap();
    assert_eq!(schema.required, vec!["label".to_string()]);
    assert_eq!(schema.properties[1].0, "stock".to_string());
    assert_eq!(
        schema.properties[1].1,
        Type::Multiple(vec!["integer".to_string(), "null".to_string()])
    );
}

#[test]
fn end_to_end_part_tags() {
    let without = Model::new(SerdeModel {
        tenant: "ns".to_owned(),
        entities: vec![part(), tag()],
        relations: vec![],
    })
    .unwrap();
    let with = Model::new(SerdeModel {
        tenant: "ns".to_owned(),
        entities: vec![part(), tag()],
        relations: vec![relation("ns:tags", "ns:part", "ns:tag", Cardinality::ManyToMany)],
    })
    .unwrap();

    let before = without.generate_sql();
    let after = with.generate_sql();
    // Exactly one join table is added, and the entity tables are untouched.
    assert_eq!(after.len(), before.len() + 1);
    assert_eq!(&after[..before.len()], &before[..]);
    assert_eq!(
        after[after.len() - 1],
        "CREATE TABLE part_tags(part_id INTEGER NOT NULL, tag_id INTEGER NOT NULL, FOREIGN KEY (part_id) REFERENCES parts (id) ON DELETE CASCADE, FOREIGN KEY (tag_id) REFERENCES tags (id) ON DELETE CASCADE);"
    );
    assert!(with.is_relation_table("part_tags"));
    assert_eq!(
        with.table_names(),
        vec!["parts".to_string(), "tags".to_string(), "part_tags".to_string()]
    );
}

#[test]
fn relation_schema_has_required_foreign_keys() {
    let rel = relation("ns:tags", "ns:part", "ns:tag", Cardinality::ManyToMany);
    let schema = rel.json_schema_with_url("").unwrap();
    assert_eq!(schema.id, "ns:tags".to_string());
    assert_eq!(schema.properties.len(), 2);
    assert_eq!(schema.properties[0].0, "part_id".to_string());
    assert_eq!(schema.properties[0].1, Type::Single("integer".to_string()));
    assert_eq!(schema.properties[1].0, "tag_id".to_string());
    assert_eq!(
        schema.required,
        vec!["part_id".to_string(), "tag_id".to_string()]
    );
}

#[test]
fn lookup_not_found_kind() {
    let model = Model::new(SerdeModel {
        tenant: "ns".to_owned(),
        entities: vec![part()],
        relations: vec![],
    })
    .unwrap();
    assert_eq!(
        model.get_singular("nothing").unwrap_err().kind(),
        Some(ErrorKind::NotFound)
    );
    assert_eq!(
        model.get_plural("nothing").unwrap_err().kind(),
        Some(ErrorKind::NotFound)
    );
}

#[test]
fn error_from_message() {
    let err = perrydl::error::Error::new("the host rejected the payload");
    assert_eq!(err.kind(), None);
    assert_eq!(err.message(), "the host rejected the payload");
}

#[test]
fn entity_empty_name_rejected() {
    let mut e = entity("ns:", "", "things", vec![attr("x", false, false, AttributeType::Bool)]);
    assert_eq!(e.validate().unwrap_err().kind(), Some(ErrorKind::EmptyName));
    e.plural = String::new();
    e.singular = String::new();
    // Both empty: equality is checked first.
    assert_eq!(
        e.validate().unwrap_err().kind(),
        Some(ErrorKind::SingularEqualsPlural)
    );
}
