use perrydl::sql::{Column, ForeignKey, Table, Trigger, Type, UniqueConstraint, BASE_ID};

#[test]
fn sql_trigger() {
    let trigger = Trigger {
        table_name: "categories".into(),
        column: "updated_at".into(),
        id: BASE_ID.into(),
        value: "CURRENT_TIMESTAMP".into(),
    };
    assert_eq!(
        trigger.to_string(),
        "CREATE TRIGGER categories_updated_at AFTER UPDATE ON categories WHEN old.updated_at < CURRENT_TIMESTAMP BEGIN UPDATE categories SET updated_at = CURRENT_TIMESTAMP WHERE id = old.id; END;".to_string()
    );
}

#[test]
fn sql_print_column() {
    let column = Column {
        name: BASE_ID.into(),
        ty: Type::Integer,
        not_null: false,
        default: None,
        auto_increment: true,
        primary_key: true,
        unique: false,
    };

    assert_eq!(
        column.to_string(),
        "id INTEGER PRIMARY KEY AUTOINCREMENT".to_string()
    );
}

#[test]
fn sql_print_foreignkey() {
    let foreign_key = ForeignKey {
        key: "category_id".into(),
        table_name: "categories".into(),
        table_key: BASE_ID.into(),
        on_delete_cascade: true,
    };

    assert_eq!(
        foreign_key.to_string(),
        "FOREIGN KEY (category_id) REFERENCES categories (id) ON DELETE CASCADE".to_string()
    );
}

#[test]
fn sql_print_table() {
    let table = Table {
        name: "categories".to_string(),
        columns: vec![
            Column {
                name: BASE_ID.to_owned(),
                ty: Type::Integer,
                primary_key: true,
                auto_increment: true,
                ..Default::default()
            },
            Column {
                name: "created_at".to_owned(),
                ty: Type::Date,
                default: Some("CURRENT_TIMESTAMP".to_owned()),
                not_null: true,
                ..Default::default()
            },
            Column {
                name: "updated_at".to_owned(),
                ty: Type::Date,
                default: Some("CURRENT_TIMESTAMP".to_owned()),
                not_null: true,
                ..Default::default()
            },
            Column {
                name: "name".to_owned(),
                ty: Type::Text,
                unique: true,
                not_null: true,
                ..Default::default()
            },
            Column {
                name: "description".to_owned(),
                ty: Type::Text,
                ..Default::default()
            },
        ],
        foreign_keys: Vec::new(),
        unique_constraints: Vec::new(),
    };

    assert_eq!(
        table.to_string(),
        "CREATE TABLE categories(id INTEGER PRIMARY KEY AUTOINCREMENT, created_at DATETIME DEFAULT CURRENT_TIMESTAMP NOT NULL, updated_at DATETIME DEFAULT CURRENT_TIMESTAMP NOT NULL, name TEXT UNIQUE NOT NULL, description TEXT);"
        .to_string()
    );
}

#[test]
fn sql_unique_constraint_clause() {
    let uc = UniqueConstraint::new(vec!["seller".to_string(), "part_id".to_string()]);
    assert_eq!(uc.to_string(), "UNIQUE (seller, part_id)".to_string());
}
