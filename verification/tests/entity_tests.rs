use perrydl::common::{Attribute, AttributeType, Visibility};
use perrydl::entity::Entity;
use perrydl::error::ErrorKind;
use perrydl::json_schema::{GenerateSchema, Type, DEFAULT_SCHEMA};
use perrydl::sql::GenerateSql;

fn sample_part() -> Entity {
    Entity {
        id: 3,
        urn: "sampleperry:part".to_owned(),
        singular: "part".to_owned(),
        plural: "parts".to_owned(),
        name: "Part".to_owned(),
        description: "An electric part".to_owned(),
        visibility: Visibility::Tenant,
        attributes: vec![
            Attribute {
                id: "label".to_owned(),
                name: "Label".to_owned(),
                description: "Part's unique label".to_owned(),
                required: true,
                unique: true,
                ty: AttributeType::String,
            },
            Attribute {
                id: "stock".to_owned(),
                name: "Stock Units".to_owned(),
                description: "Units in stock".to_owned(),
                required: false,
                unique: false,
                ty: AttributeType::Integer,
            },
        ],
        unique_constraints: vec![],
    }
}

#[test]
fn entity_to_schema() {
    let entity = sample_part();

    let schema = entity.json_schema_with_url("").unwrap();

    assert_eq!(schema.id, "sampleperry:part".to_string());
    assert_eq!(schema.schema, DEFAULT_SCHEMA.to_string());
    assert_eq!(schema.required, vec!["label".to_string()]);
    assert_eq!(schema.properties.len(), 2);
    assert_eq!(schema.properties[0].0, "label".to_string());
    assert_eq!(schema.properties[0].1, Type::Single("string".to_string()));
    assert_eq!(schema.properties[1].0, "stock".to_string());
    assert_eq!(
        schema.properties[1].1,
        Type::Multiple(vec!["integer".to_string(), "null".to_string()])
    );
}

#[test]
fn entity_to_sql() {
    let entity = Entity {
        id: 1,
        urn: "sampleperry:part".to_owned(),
        singular: "part".to_owned(),
        plural: "parts".to_owned(),
        name: "Auto Part".to_owned(),
        description: "An electric part".to_owned(),
        visibility: Visibility::Tenant,
        attributes: vec![
            Attribute {
                id: "label".to_owned(),
                name: "Label".to_owned(),
                description: "part's label".to_owned(),
                required: true,
                unique: true,
                ty: AttributeType::String,
            },
            Attribute {
                id: "stock".to_owned(),
                name: "Stock Units".to_owned(),
                description: "Units in stock".to_owned(),
                ty: AttributeType::Integer,
                ..Default::default()
            },
        ],
        unique_constraints: vec![],
    };

    assert_eq!(
        entity.generate_sql().join("\n"),
        "CREATE TABLE parts(id INTEGER PRIMARY KEY AUTOINCREMENT, created_at DATETIME DEFAULT CURRENT_TIMESTAMP NOT NULL, updated_at DATETIME DEFAULT CURRENT_TIMESTAMP NOT NULL, label TEXT UNIQUE NOT NULL, stock INTEGER);\nCREATE TRIGGER parts_updated_at AFTER UPDATE ON parts WHEN old.updated_at < CURRENT_TIMESTAMP BEGIN UPDATE parts SET updated_at = CURRENT_TIMESTAMP WHERE id = old.id; END;".to_owned()
    );
}

#[test]
fn entity_urn_singular_mismatch() {
    let mut entity = sample_part();
    entity.validate().expect("entity should be valid");

    entity.singular = "par".to_owned();
    let err = entity.validate().unwrap_err();
    assert_eq!(err.kind(), Some(ErrorKind::EntityUrnMismatch));

    let mut entity = sample_part();
    entity.urn = "sampleperry:parts2".to_owned();
    let err = entity.validate().unwrap_err();
    assert_eq!(err.kind(), Some(ErrorKind::EntityUrnMismatch));
}

#[test]
fn entity_validation_rules() {
    let mut entity = sample_part();
    entity.singular = "parts".to_owned();
    entity.urn = "sampleperry:parts".to_owned();
    let err = entity.validate().unwrap_err();
    assert_eq!(err.kind(), Some(ErrorKind::SingularEqualsPlural));

    let mut entity = sample_part();
    entity.attributes = vec![];
    let err = entity.validate().unwrap_err();
    assert_eq!(err.kind(), Some(ErrorKind::NoAttributes));

    let mut entity = sample_part();
    entity.unique_constraints = vec![perrydl::common::UniqueConstraint {
        attributes: vec!["missing".to_owned()],
        relations: vec![],
    }];
    let err = entity.validate().unwrap_err();
    assert_eq!(err.kind(), Some(ErrorKind::UnknownConstraintAttribute));
}

#[test]
fn entity_duplicate_attribute_id_refused_by_generator() {
    let mut entity = sample_part();
    let mut copy = entity.attributes[0].clone();
    copy.name = "Other Label".to_owned();
    entity.attributes.push(copy);
    // Entity validation does not compare attribute ids with each other; the
    // generator refuses the repeat itself.
    entity.validate().expect("entity should still validate");
    let err = entity.json_schema_with_url("").unwrap_err();
    assert_eq!(err.kind(), Some(ErrorKind::DuplicateProperty));
}

#[test]
fn attribute_id_rules() {
    let mut attr = Attribute {
        id: "stock_2".to_owned(),
        name: "Stock".to_owned(),
        description: String::new(),
        required: false,
        unique: false,
        ty: AttributeType::Integer,
    };
    attr.validate().expect("snake_case id should be accepted");

    attr.id = "id".to_owned();
    assert_eq!(
        attr.validate().unwrap_err().kind(),
        Some(ErrorKind::ReservedIdentifier)
    );
    attr.id = "rev".to_owned();
    assert_eq!(
        attr.validate().unwrap_err().kind(),
        Some(ErrorKind::ReservedIdentifier)
    );
    attr.id = "Stock".to_owned();
    assert_eq!(
        attr.validate().unwrap_err().kind(),
        Some(ErrorKind::InvalidCase)
    );
    attr.id = String::new();
    assert_eq!(
        attr.validate().unwrap_err().kind(),
        Some(ErrorKind::InvalidCase)
    );
}
