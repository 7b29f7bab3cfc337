use vstd::prelude::*;

verus! {

/// The validation failures the library can report, one variant per rule.
#[derive(Clone, Copy, Debug, PartialEq, Eq, Structural)]
pub enum ErrorKind {
    /// An attribute id equals one of the reserved identifiers.
    ReservedIdentifier,
    /// An attribute id is empty or not lowercase snake_case.
    InvalidCase,
    /// A relation urn holds a character outside lowercase alphanumerics, `_`, `:`.
    InvalidIdentifierChar,
    /// An entity urn's basename differs from its singular name.
    EntityUrnMismatch,
    /// An entity's singular name equals its plural name.
    SingularEqualsPlural,
    /// An entity's singular or plural name is empty.
    EmptyName,
    /// An entity declares no attributes.
    NoAttributes,
    /// A unique constraint names an attribute id the entity does not declare.
    UnknownConstraintAttribute,
    /// A relation's namespace differs from an endpoint's namespace.
    NamespaceMismatch,
    /// A OneToMany relation declares attributes.
    AttributesNotAllowed,
    /// A relation attribute id ends with the reserved `_id` suffix.
    ReservedAttributeSuffix,
    /// Two entities or relations share a urn basename.
    NameCollision,
    /// A relation's origin or destination urn resolves to no entity.
    DanglingReference,
    /// A unique constraint references a relation it may not use.
    InvalidConstraintRelation,
    /// A name lookup matched neither index.
    NotFound,
    /// A schema property was added under an id that already exists.
    DuplicateProperty,
}

/// A validation error: the failed rule, where known, and a readable message.
#[derive(Debug)]
pub struct Error {
    kind: Option<ErrorKind>,
    msg: String,
}

/// The fixed message text for each error kind.
pub open spec fn kind_text(kind: ErrorKind) -> Seq<char> {
    match kind {
        ErrorKind::ReservedIdentifier => "attribute id is reserved"@,
        ErrorKind::InvalidCase => "attribute id must be snake_case all lowercase"@,
        ErrorKind::InvalidIdentifierChar => "invalid character in urn"@,
        ErrorKind::EntityUrnMismatch => "urn basename does not match singular"@,
        ErrorKind::SingularEqualsPlural => "singular cannot be equal to plural"@,
        ErrorKind::EmptyName => "singular nor plural can be empty strings"@,
        ErrorKind::NoAttributes => "attributes list cannot be empty"@,
        ErrorKind::UnknownConstraintAttribute => "constraint attribute not found"@,
        ErrorKind::NamespaceMismatch => "endpoint does not share the namespace"@,
        ErrorKind::AttributesNotAllowed => "OneToMany relations cannot have attributes"@,
        ErrorKind::ReservedAttributeSuffix => "attributes cannot end with '_id'"@,
        ErrorKind::NameCollision => "basename occurs more than once"@,
        ErrorKind::DanglingReference => "origin or destination not found"@,
        ErrorKind::InvalidConstraintRelation => "unique constraints can only use OneToMany relations with the entity as the destination"@,
        ErrorKind::NotFound => "name not found"@,
        ErrorKind::DuplicateProperty => "property already exists"@,
    }
}

impl Error {
    /// The failed rule, or `None` for an error built from a bare message.
    pub closed spec fn spec_kind(&self) -> Option<ErrorKind> {
        self.kind
    }

    /// The message text.
    pub closed spec fn spec_msg(&self) -> Seq<char> {
        self.msg@
    }

    /// An error carrying only a message, with no rule attached.
    pub fn new(msg: &str) -> (e: Error)
        ensures
            e.spec_kind() is None,
            e.spec_msg() == msg@,
    {
        Error { kind: None, msg: msg.to_owned() }
    }

    /// An error for the failed rule `kind`, naming the offending identifier.
    pub fn tagged(kind: ErrorKind, subject: &str) -> (e: Error)
        ensures
            e.spec_kind() == Some(kind),
            e.spec_msg() == kind_text(kind) + ": '"@ + subject@ + "'"@,
    {
        let mut msg = Self::kind_message(kind);
        msg.append(": '");
        msg.append(subject);
        msg.append("'");
        Error { kind: Some(kind), msg }
    }

    /// The fixed message text for `kind`.
    fn kind_message(kind: ErrorKind) -> (r: String)
        ensures
            r@ == kind_text(kind),
    {
        let text: &str = match kind {
            ErrorKind::ReservedIdentifier => "attribute id is reserved",
            ErrorKind::InvalidCase => "attribute id must be snake_case all lowercase",
            ErrorKind::InvalidIdentifierChar => "invalid character in urn",
            ErrorKind::EntityUrnMismatch => "urn basename does not match singular",
            ErrorKind::SingularEqualsPlural => "singular cannot be equal to plural",
            ErrorKind::EmptyName => "singular nor plural can be empty strings",
            ErrorKind::NoAttributes => "attributes list cannot be empty",
            ErrorKind::UnknownConstraintAttribute => "constraint attribute not found",
            ErrorKind::NamespaceMismatch => "endpoint does not share the namespace",
            ErrorKind::AttributesNotAllowed => "OneToMany relations cannot have attributes",
            ErrorKind::ReservedAttributeSuffix => "attributes cannot end with '_id'",
            ErrorKind::NameCollision => "basename occurs more than once",
            ErrorKind::DanglingReference => "origin or destination not found",
            ErrorKind::InvalidConstraintRelation => "unique constraints can only use OneToMany relations with the entity as the destination",
            ErrorKind::NotFound => "name not found",
            ErrorKind::DuplicateProperty => "property already exists",
        };
        text.to_owned()
    }

    /// The failed rule, where one is attached.
    pub fn kind(&self) -> (r: Option<ErrorKind>)
        ensures
            r == self.spec_kind(),
    {
        self.kind
    }

    /// The readable message.
    pub fn message(&self) -> (r: String)
        ensures
            r@ == self.spec_msg(),
    {
        self.msg.clone()
    }
}

} // verus!
