use perrydl::common::{Attribute, AttributeType, UniqueConstraint, Visibility};
use perrydl::entity::Entity;
use perrydl::model::{Model, SerdeModel};
use perrydl::relation::{Cardinality, Relation};
use perrydl::sql::GenerateSql;

fn attr(id: &str, name: &str, required: bool, unique: bool, ty: AttributeType) -> Attribute {
    Attribute {
        id: id.to_owned(),
        name: name.to_owned(),
        description: String::new(),
        required,
        unique,
        ty,
    }
}

fn entity(
    id: u32,
    urn: &str,
    singular: &str,
    plural: &str,
    name: &str,
    attributes: Vec<Attribute>,
    unique_constraints: Vec<UniqueConstraint>,
) -> Entity {
    Entity {
        id,
        urn: urn.to_owned(),
        singular: singular.to_owned(),
        plural: plural.to_owned(),
        name: name.to_owned(),
        description: String::new(),
        visibility: Visibility::Tenant,
        attributes,
        unique_constraints,
    }
}

fn relation(
    id: u32,
    urn: &str,
    name: &str,
    origin: &str,
    destination: &str,
    cardinality: Cardinality,
) -> Relation {
    Relation {
        id,
        urn: urn.to_owned(),
        name: name.to_owned(),
        description: String::new(),
        visibility: Visibility::Tenant,
        origin: origin.to_owned(),
        destination: destination.to_owned(),
        cardinality,
        attributes: vec![],
    }
}

fn empty_serde_model() -> SerdeModel {
    SerdeModel {
        tenant: "sampleperry".to_owned(),
        entities: vec![],
        relations: vec![],
    }
}

fn part_entity() -> Entity {
    entity(
        1,
        "sampleperry:part",
        "part",
        "parts",
        "Part",
        vec![
            attr("label", "Label", true, true, AttributeType::String),
            attr("stock", "Stock Units", false, false, AttributeType::Integer),
        ],
        vec![],
    )
}

fn category_entity() -> Entity {
    entity(
        2,
        "sampleperry:category",
        "category",
        "categories",
        "Category",
        vec![attr("name", "Name", true, true, AttributeType::String)],
        vec![],
    )
}

fn price_entity() -> Entity {
    entity(
        3,
        "sampleperry:price",
        "price",
        "prices",
        "Price",
        vec![attr("value", "Value", true, false, AttributeType::Real)],
        vec![],
    )
}

fn price_seller_entity() -> Entity {
    entity(
        4,
        "sampleperry:price_seller",
        "price_seller",
        "prices_seller",
        "Price With Seller",
        vec![
            attr("value", "Value", true, false, AttributeType::Real),
            attr("seller", "Seller", true, false, AttributeType::String),
        ],
        vec![UniqueConstraint {
            attributes: vec!["seller".to_owned()],
            relations: vec!["sampleperry:pricedbyseller".to_owned()],
        }],
    )
}

fn categorised_relation() -> Relation {
    relation(
        5,
        "sampleperry:categorisedby",
        "Categorised By",
        "sampleperry:part",
        "sampleperry:category",
        Cardinality::ManyToMany,
    )
}

fn pricedby_relation() -> Relation {
    relation(
        6,
        "sampleperry:pricedby",
        "Priced By",
        "sampleperry:part",
        "sampleperry:price",
        Cardinality::OneToMany,
    )
}

fn pricedbyseller_relation() -> Relation {
    relation(
        7,
        "sampleperry:pricedbyseller",
        "Priced By Seller",
        "sampleperry:part",
        "sampleperry:price_seller",
        Cardinality::OneToMany,
    )
}

fn hasprice_relation() -> Relation {
    relation(
        8,
        "sampleperry:hasprice",
        "Has Price",
        "sampleperry:category",
        "sampleperry:price",
        Cardinality::OneToMany,
    )
}

#[test]
fn model_new() {
    {
        let smodel = empty_serde_model();
        Model::new(smodel).expect("model should be valid");
    }

    {
        let mut smodel = empty_serde_model();
        smodel.entities.push(part_entity());
        Model::new(smodel.clone()).expect("model should be valid");

        smodel.entities.push(part_entity());
        Model::new(smodel).expect_err("model should be invalid with repeated entities");
    }

    {
        let mut smodel = empty_serde_model();
        smodel.entities.push(part_entity());
        smodel.entities.push(category_entity());
        Model::new(smodel.clone()).expect("model should be valid with part+category");
        smodel.relations.push(categorised_relation());
        Model::new(smodel.clone()).expect("model should be valid with part+category+categorised");
        smodel.entities.push(price_entity());
        Model::new(smodel.clone())
            .expect("model should be valid with part+category+categorised+price");
        smodel.relations.push(pricedby_relation());
        Model::new(smodel.clone())
            .expect("model should be valid with part+category+categorised+price+pricedby");
        smodel.relations.push(hasprice_relation());
        Model::new(smodel)
            .expect("model should be valid with part+category+categorised+price+pricedby+hasprice");
    }

    {
        let mut smodel = empty_serde_model();
        smodel.entities.push(part_entity());
        smodel.entities.push(category_entity());
        smodel.relations.push(categorised_relation());
        smodel.entities.push(price_seller_entity());
        Model::new(smodel.clone()).expect_err(
            "model should be invalid with part+category+categorised+price_seller with missing relation",
        );
        smodel.relations.push(pricedbyseller_relation());
        Model::new(smodel.clone()).expect(
            "model should be valid with part+category+categorised+price_seller+pricedbyseller",
        );
    }

    {
        let mut smodel = empty_serde_model();
        smodel.entities.push(part_entity());
        smodel.relations.push(categorised_relation());
        Model::new(smodel.clone()).expect_err("model should be invalid with part+categorised");
        smodel.entities.push(category_entity());
        Model::new(smodel.clone()).expect("model should now be valid");
        smodel.relations.push(categorised_relation());
        Model::new(smodel.clone()).expect_err("model should now be invalid with duplicate relation");
    }
}

#[test]
fn model_to_sql() {
    let mut smodel = empty_serde_model();
    smodel.entities.push(part_entity());
    smodel.entities.push(category_entity());
    smodel.relations.push(categorised_relation());
    smodel.entities.push(price_entity());
    smodel.relations.push(pricedby_relation());
    smodel.entities.push(price_seller_entity());
    smodel.relations.push(pricedbyseller_relation());
    let model = Model::new(smodel.clone())
        .expect("model should be valid with part+category+categorised+price+pricedby+price_seller+pricedbyseller");
    assert_eq!(
        model.generate_sql().join("\n"),
        "CREATE TABLE parts(id INTEGER PRIMARY KEY AUTOINCREMENT, created_at DATETIME DEFAULT CURRENT_TIMESTAMP NOT NULL, updated_at DATETIME DEFAULT CURRENT_TIMESTAMP NOT NULL, label TEXT UNIQUE NOT NULL, stock INTEGER);\nCREATE TRIGGER parts_updated_at AFTER UPDATE ON parts WHEN old.updated_at < CURRENT_TIMESTAMP BEGIN UPDATE parts SET updated_at = CURRENT_TIMESTAMP WHERE id = old.id; END;\nCREATE TABLE categories(id INTEGER PRIMARY KEY AUTOINCREMENT, created_at DATETIME DEFAULT CURRENT_TIMESTAMP NOT NULL, updated_at DATETIME DEFAULT CURRENT_TIMESTAMP NOT NULL, name TEXT UNIQUE NOT NULL);\nCREATE TRIGGER categories_updated_at AFTER UPDATE ON categories WHEN old.updated_at < CURRENT_TIMESTAMP BEGIN UPDATE categories SET updated_at = CURRENT_TIMESTAMP WHERE id = old.id; END;\nCREATE TABLE prices(id INTEGER PRIMARY KEY AUTOINCREMENT, created_at DATETIME DEFAULT CURRENT_TIMESTAMP NOT NULL, updated_at DATETIME DEFAULT CURRENT_TIMESTAMP NOT NULL, value REAL NOT NULL, part_id INTEGER NOT NULL, FOREIGN KEY (part_id) REFERENCES parts (id) ON DELETE CASCADE);\nCREATE TRIGGER prices_updated_at AFTER UPDATE ON prices WHEN old.updated_at < CURRENT_TIMESTAMP BEGIN UPDATE prices SET updated_at = CURRENT_TIMESTAMP WHERE id = old.id; END;\nCREATE TABLE prices_seller(id INTEGER PRIMARY KEY AUTOINCREMENT, created_at DATETIME DEFAULT CURRENT_TIMESTAMP NOT NULL, updated_at DATETIME DEFAULT CURRENT_TIMESTAMP NOT NULL, value REAL NOT NULL, seller TEXT NOT NULL, part_id INTEGER NOT NULL, FOREIGN KEY (part_id) REFERENCES parts (id) ON DELETE CASCADE, UNIQUE (seller, part_id));\nCREATE TRIGGER prices_seller_updated_at AFTER UPDATE ON prices_seller WHEN old.updated_at < CURRENT_TIMESTAMP BEGIN UPDATE prices_seller SET updated_at = CURRENT_TIMESTAMP WHERE id = old.id; END;\nCREATE TABLE part_categories(part_id INTEGER NOT NULL, category_id INTEGER NOT NULL, FOREIGN KEY (part_id) REFERENCES parts (id) ON DELETE CASCADE, FOREIGN KEY (category_id) REFERENCES categories (id) ON DELETE CASCADE);"
    )
}

#[test]
fn model_pluralize() {
    let mut smodel = empty_serde_model();
    smodel.entities.push(part_entity());
    smodel.entities.push(category_entity());
    let model = Model::new(smodel.clone()).expect("model should be valid with part+category");

    assert_eq!(model.get_singular("parts").unwrap(), "part".to_string());
    assert_eq!(model.get_plural("part").unwrap(), "parts".to_string());
    assert_eq!(
        model.get_singular("categories").unwrap(),
        "category".to_string()
    );
    assert_eq!(
        model.get_plural("category").unwrap(),
        "categories".to_string()
    );
    assert_eq!(model.get_singular("part").unwrap(), "part".to_string());
    assert_eq!(
        model.get_plural("categories").unwrap(),
        "categories".to_string()
    );
    assert!(model.get_singular("foo").is_err());
    assert!(model.get_plural("foo").is_err());
}

#[test]
fn model_relation_tables() {
    let mut smodel = empty_serde_model();
    smodel.entities.push(part_entity());
    smodel.entities.push(category_entity());
    smodel.relations.push(categorised_relation());
    let model =
        Model::new(smodel.clone()).expect("model should be valid with part+category+categorised");

    assert!(model.is_relation_table("part_categories"));
    assert!(!model.is_relation_table("parts"));
    assert_eq!(
        model.table_names(),
        vec![
            "parts".to_string(),
            "categories".to_string(),
            "part_categories".to_string()
        ]
    );
}

#[test]
fn other_serde_model() {
    let entities = vec![
        entity(
            1,
            "sampleperry:part",
            "part",
            "parts",
            "Auto Part",
            vec![
                attr("label", "Label", true, true, AttributeType::String),
                attr("description", "Description", false, false, AttributeType::String),
                attr("manufacturer", "Manufacturer", false, false, AttributeType::String),
                attr("barcode", "Barcode", false, false, AttributeType::String),
            ],
            vec![],
        ),
        entity(
            2,
            "sampleperry:category",
            "category",
            "categories",
            "Category",
            vec![
                attr("name", "Name", true, true, AttributeType::String),
                attr("description", "Description", false, false, AttributeType::String),
            ],
            vec![],
        ),
        entity(
            3,
            "sampleperry:price",
            "price",
            "prices",
            "Price",
            vec![attr("value", "Value", true, false, AttributeType::Real)],
            vec![],
        ),
        entity(
            4,
            "sampleperry:storage_site",
            "storage_site",
            "storage_sites",
            "Storage Site",
            vec![
                attr("name", "Name", true, true, AttributeType::String),
                attr("contact_person", "Contact Person", true, false, AttributeType::String),
                attr("phone_number", "Phone Number", true, false, AttributeType::String),
                attr("email_address", "Email Address", true, false, AttributeType::String),
            ],
            vec![],
        ),
        entity(
            5,
            "sampleperry:storage_area",
            "storage_area",
            "storage_areas",
            "Storage Area",
            vec![attr("name", "Name", true, true, AttributeType::String)],
            vec![],
        ),
        entity(
            6,
            "sampleperry:stock_item_config",
            "stock_item_config",
            "stock_item_configs",
            "Stock Item Configuration",
            vec![
                attr("minimum", "Minimum Stock", false, false, AttributeType::Integer),
                attr("maximum", "Maximum Stock", false, false, AttributeType::Integer),
                attr("replenishment", "Replenishment", false, false, AttributeType::Integer),
            ],
            vec![UniqueConstraint {
                attributes: vec![],
                relations: vec![
                    "sampleperry:site_has_stock_config".to_owned(),
                    "sampleperry:item_has_stock_config".to_owned(),
                ],
            }],
        ),
        entity(
            7,
            "sampleperry:stock_entry",
            "stock_entry",
            "stock_entries",
            "Stock Entry",
            vec![attr("quantity", "Quantity", false, false, AttributeType::Integer)],
            vec![UniqueConstraint {
                attributes: vec![],
                relations: vec![
                    "sampleperry:area_has_stock_entry".to_owned(),
                    "sampleperry:item_has_stock_entry".to_owned(),
                ],
            }],
        ),
    ];
    let relations = vec![
        relation(
            1,
            "sampleperry:categorizedby",
            "Categorized By",
            "sampleperry:part",
            "sampleperry:category",
            Cardinality::ManyToMany,
        ),
        relation(
            2,
            "sampleperry:pricedby",
            "Priced By",
            "sampleperry:part",
            "sampleperry:price",
            Cardinality::OneToMany,
        ),
        relation(
            3,
            "sampleperry:item_has_stock_config",
            "Item Has Stock Config",
            "sampleperry:part",
            "sampleperry:stock_item_config",
            Cardinality::OneToMany,
        ),
        relation(
            4,
            "sampleperry:site_has_stock_config",
            "Stock Config For Site",
            "sampleperry:storage_site",
            "sampleperry:stock_item_config",
            Cardinality::OneToMany,
        ),
        relation(
            5,
            "sampleperry:site_has_areas",
            "Storage Site Has Area",
            "sampleperry:storage_site",
            "sampleperry:storage_area",
            Cardinality::OneToMany,
        ),
        relation(
            6,
            "sampleperry:item_has_stock_entry",
            "Part Has Stock Entry",
            "sampleperry:part",
            "sampleperry:stock_entry",
            Cardinality::OneToMany,
        ),
        relation(
            7,
            "sampleperry:area_has_stock_entry",
            "Stock Entry Has Storage Area ",
            "sampleperry:storage_area",
            "sampleperry:stock_entry",
            Cardinality::OneToMany,
        ),
    ];
    let smodel = SerdeModel {
        tenant: "sampleperry".to_owned(),
        entities,
        relations,
    };
    let model = Model::new(smodel).unwrap();
    assert_eq!(model.generate_sql().join("\n"), "CREATE TABLE parts(id INTEGER PRIMARY KEY AUTOINCREMENT, created_at DATETIME DEFAULT CURRENT_TIMESTAMP NOT NULL, updated_at DATETIME DEFAULT CURRENT_TIMESTAMP NOT NULL, label TEXT UNIQUE NOT NULL, description TEXT, manufacturer TEXT, barcode TEXT);\nCREATE TRIGGER parts_updated_at AFTER UPDATE ON parts WHEN old.updated_at < CURRENT_TIMESTAMP BEGIN UPDATE parts SET updated_at = CURRENT_TIMESTAMP WHERE id = old.id; END;\nCREATE TABLE categories(id INTEGER PRIMARY KEY AUTOINCREMENT, created_at DATETIME DEFAULT CURRENT_TIMESTAMP NOT NULL, updated_at DATETIME DEFAULT CURRENT_TIMESTAMP NOT NULL, name TEXT UNIQUE NOT NULL, description TEXT);\nCREATE TRIGGER categories_updated_at AFTER UPDATE ON categories WHEN old.updated_at < CURRENT_TIMESTAMP BEGIN UPDATE categories SET updated_at = CURRENT_TIMESTAMP WHERE id = old.id; END;\nCREATE TABLE prices(id INTEGER PRIMARY KEY AUTOINCREMENT, created_at DATETIME DEFAULT CURRENT_TIMESTAMP NOT NULL, updated_at DATETIME DEFAULT CURRENT_TIMESTAMP NOT NULL, value REAL NOT NULL, part_id INTEGER NOT NULL, FOREIGN KEY (part_id) REFERENCES parts (id) ON DELETE CASCADE);\nCREATE TRIGGER prices_updated_at AFTER UPDATE ON prices WHEN old.updated_at < CURRENT_TIMESTAMP BEGIN UPDATE prices SET updated_at = CURRENT_TIMESTAMP WHERE id = old.id; END;\nCREATE TABLE storage_sites(id INTEGER PRIMARY KEY AUTOINCREMENT, created_at DATETIME DEFAULT CURRENT_TIMESTAMP NOT NULL, updated_at DATETIME DEFAULT CURRENT_TIMESTAMP NOT NULL, name TEXT UNIQUE NOT NULL, contact_person TEXT NOT NULL, phone_number TEXT NOT NULL, email_address TEXT NOT NULL);\nCREATE TRIGGER storage_sites_updated_at AFTER UPDATE ON storage_sites WHEN old.updated_at < CURRENT_TIMESTAMP BEGIN UPDATE storage_sites SET updated_at = CURRENT_TIMESTAMP WHERE id = old.id; END;\nCREATE TABLE storage_areas(id INTEGER PRIMARY KEY AUTOINCREMENT, created_at DATETIME DEFAULT CURRENT_TIMESTAMP NOT NULL, updated_at DATETIME DEFAULT CURRENT_TIMESTAMP NOT NULL, name TEXT UNIQUE NOT NULL, storage_site_id INTEGER NOT NULL, FOREIGN KEY (storage_site_id) REFERENCES storage_sites (id) ON DELETE CASCADE);\nCREATE TRIGGER storage_areas_updated_at AFTER UPDATE ON storage_areas WHEN old.updated_at < CURRENT_TIMESTAMP BEGIN UPDATE storage_areas SET updated_at = CURRENT_TIMESTAMP WHERE id = old.id; END;\nCREATE TABLE stock_item_configs(id INTEGER PRIMARY KEY AUTOINCREMENT, created_at DATETIME DEFAULT CURRENT_TIMESTAMP NOT NULL, updated_at DATETIME DEFAULT CURRENT_TIMESTAMP NOT NULL, minimum INTEGER, maximum INTEGER, replenishment INTEGER, part_id INTEGER NOT NULL, storage_site_id INTEGER NOT NULL, FOREIGN KEY (part_id) REFERENCES parts (id) ON DELETE CASCADE, FOREIGN KEY (storage_site_id) REFERENCES storage_sites (id) ON DELETE CASCADE, UNIQUE (storage_site_id, part_id));\nCREATE TRIGGER stock_item_configs_updated_at AFTER UPDATE ON stock_item_configs WHEN old.updated_at < CURRENT_TIMESTAMP BEGIN UPDATE stock_item_configs SET updated_at = CURRENT_TIMESTAMP WHERE id = old.id; END;\nCREATE TABLE stock_entries(id INTEGER PRIMARY KEY AUTOINCREMENT, created_at DATETIME DEFAULT CURRENT_TIMESTAMP NOT NULL, updated_at DATETIME DEFAULT CURRENT_TIMESTAMP NOT NULL, quantity INTEGER, part_id INTEGER NOT NULL, storage_area_id INTEGER NOT NULL, FOREIGN KEY (part_id) REFERENCES parts (id) ON DELETE CASCADE, FOREIGN KEY (storage_area_id) REFERENCES storage_areas (id) ON DELETE CASCADE, UNIQUE (storage_area_id, part_id));\nCREATE TRIGGER stock_entries_updated_at AFTER UPDATE ON stock_entries WHEN old.updated_at < CURRENT_TIMESTAMP BEGIN UPDATE stock_entries SET updated_at = CURRENT_TIMESTAMP WHERE id = old.id; END;\nCREATE TABLE part_categories(part_id INTEGER NOT NULL, category_id INTEGER NOT NULL, FOREIGN KEY (part_id) REFERENCES parts (id) ON DELETE CASCADE, FOREIGN KEY (category_id) REFERENCES categories (id) ON DELETE CASCADE);");
    assert_eq!(
        model.table_unique_attributes("parts"),
        Some(vec!["label".into()])
    );
    assert_eq!(
        model.table_unique_attributes("stock_item_configs"),
        Some(vec!["storage_site_id".into(), "part_id".into()])
    );
    assert_eq!(model.table_unique_attributes("nowhere"), None);
}
