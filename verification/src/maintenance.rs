//! Maintenance mode: the reasons a datastore may refuse operations, and the
//! check an operation makes against the active maintenance mode.

use vstd::prelude::*;

use crate::enums::EnumDecl;
use crate::enums::handle_enum;
use crate::enums::RenameRule;
use crate::enums::VariantDecl;
use crate::error::SpecError;
use crate::schema::EnumSchema;
use crate::schema::ObjectSchema;
use crate::schema::Property;
use crate::schema::Schema;
use crate::schema::StringSchema;

use crate::attr::spec_decl_get;

verus! {

/// Operation requirements, used when checking for maintenance mode.
#[derive(Clone, Copy, Debug, Eq, PartialEq, Structural)]
pub enum Operation {
    /// Any read operation.
    Read,
    /// Any write or delete operation.
    Write,
    /// Any purely logical operation on the in-memory state.
    Lookup,
}

/// Maintenance type.
#[derive(Copy, Clone, PartialEq, Eq, Debug, Structural)]
pub enum MaintenanceType {
    /// Only read operations are allowed on the datastore.
    ReadOnly,
    /// Neither read nor write operations are allowed on the datastore.
    Offline,
    /// The datastore is being deleted.
    Delete,
    /// The (removable) datastore is being unmounted.
    Unmount,
    /// The S3 cache store is being refreshed.
    S3Refresh,
}

/// Why an operation is refused under the active maintenance mode. Each
/// refusal carries the decoded maintenance message where one applies.
#[derive(Debug, Clone, PartialEq, Eq)]
pub enum MaintenanceError {
    /// The datastore is being deleted.
    DatastoreDeleted,
    /// The datastore is being unmounted.
    Unmounting,
    /// Offline maintenance mode.
    Offline(String),
    /// S3 refresh maintenance mode.
    S3Refresh(String),
    /// Read-only maintenance mode refuses a write.
    ReadOnly(String),
}

/// Maintenance mode.
pub struct MaintenanceMode {
    /// Type of maintenance ("read-only" or "offline").
    pub ty: MaintenanceType,
    /// Reason for maintenance.
    pub message: Option<String>,
}

/// What `percent_encoding` decodes a percent-encoded text to, after UTF-8
/// decoding, with an empty text for undecodable bytes.
pub uninterp spec fn percent_decoded_of(s: Seq<char>) -> Seq<char>;

/// Relies on `percent_encoding::percent_decode_str` and
/// `PercentDecode::decode_utf8`: the result depends on the characters alone;
/// an input that does not decode to UTF-8 gives the empty text.
#[verifier::external_body]
fn percent_decode(s: &str) -> (r: String)
    ensures
        r@ == percent_decoded_of(s@),
{
    match percent_encoding::percent_decode_str(s).decode_utf8() {
        Ok(cow) => cow.into_owned(),
        Err(_) => String::new(),
    }
}

/// The raw maintenance message: the stored text, or empty.
pub open spec fn spec_raw_message(m: MaintenanceMode) -> Seq<char> {
    match m.message {
        Some(s) => s@,
        None => Seq::empty(),
    }
}

impl MaintenanceMode {
    /// Whether the datastore is cleared from the internal cache under this
    /// mode.
    pub fn clear_from_cache(&self) -> (r: bool)
        ensures
            r == (self.ty == MaintenanceType::Offline || self.ty == MaintenanceType::Delete
                || self.ty == MaintenanceType::Unmount),
    {
        self.ty == MaintenanceType::Offline || self.ty == MaintenanceType::Delete || self.ty
            == MaintenanceType::Unmount
    }

    /// Check whether an operation may proceed under this mode.
    ///
    /// A deletion refuses everything; a lookup passes every other mode; an
    /// unmount, offline mode and an S3 refresh refuse reads and writes; a
    /// read-only mode refuses writes. Refusals carry the percent-decoded
    /// maintenance message.
    pub fn check(&self, operation: Option<Operation>) -> (r: Result<(), MaintenanceError>)
        ensures
            self.ty == MaintenanceType::Delete ==> r == Err::<(), MaintenanceError>(
                MaintenanceError::DatastoreDeleted,
            ),
            self.ty != MaintenanceType::Delete && operation == Some(Operation::Lookup) ==> r
                == Ok::<(), MaintenanceError>(()),
            self.ty != MaintenanceType::Delete && operation != Some(Operation::Lookup) ==> match self.ty {
                MaintenanceType::Unmount => r == Err::<(), MaintenanceError>(
                    MaintenanceError::Unmounting,
                ),
                MaintenanceType::Offline => r matches Err(MaintenanceError::Offline(m)) && m@
                    == percent_decoded_of(spec_raw_message(*self)),
                MaintenanceType::S3Refresh => r matches Err(MaintenanceError::S3Refresh(m)) && m@
                    == percent_decoded_of(spec_raw_message(*self)),
                MaintenanceType::ReadOnly => if operation == Some(Operation::Write) {
                    r matches Err(MaintenanceError::ReadOnly(m)) && m@ == percent_decoded_of(
                        spec_raw_message(*self),
                    )
                } else {
                    r == Ok::<(), MaintenanceError>(())
                },
                MaintenanceType::Delete => true,
            },
    {
        if self.ty == MaintenanceType::Delete {
            return Err(MaintenanceError::DatastoreDeleted);
        }

        let message = match &self.message {
            Some(s) => percent_decode(s.as_str()),
            None => {
                proof {
                    reveal_strlit("");
                    assert(""@ =~= Seq::<char>::empty());
                }
                percent_decode("")
            },
        };

        if let Some(Operation::Lookup) = operation {
            return Ok(());
        }
        if self.ty == MaintenanceType::Unmount {
            return Err(MaintenanceError::Unmounting);
        }
        if self.ty == MaintenanceType::Offline {
            return Err(MaintenanceError::Offline(message));
        }
        if self.ty == MaintenanceType::S3Refresh {
            return Err(MaintenanceError::S3Refresh(message));
        }
        if self.ty == MaintenanceType::ReadOnly {
            if let Some(Operation::Write) = operation {
                return Err(MaintenanceError::ReadOnly(message));
            }
        }
        Ok(())
    }
}

/// The schema of a maintenance message: a text of at most 64 characters with
/// the format that refuses control characters.
pub fn maintenance_message_schema() -> (s: Schema)
    ensures
        s matches Schema::String(ss) && {
            &&& ss.max_length == Some(64usize)
            &&& ss.min_length is None
            &&& ss.format is Some
            &&& ss.description is Some
        },
{
    StringSchema::new(
        String::from_str("Message describing the reason for the maintenance."),
    ).format(String::from_str("maintenance-message")).max_length(64).schema()
}

/// The declarative registration of [`MaintenanceType`]: its variants with
/// their documentation, renamed to kebab-case wire names.
pub fn maintenance_type_decl() -> (d: EnumDecl)
    ensures
        d.variants@.len() == 5,
        d.rename_all == Some(RenameRule::KebabCase),
        !d.derives_default,
        forall|i: int|
            0 <= i < 5 ==> {
                &&& !(#[trigger] d.variants@[i]).has_fields
                &&& !d.variants@[i].is_default
                &&& d.variants@[i].rename is None
                &&& d.variants@[i].doc@.len() > 0
            },
        d.variants@[0].ident@ == "ReadOnly"@,
        d.variants@[1].ident@ == "Offline"@,
        d.variants@[2].ident@ == "Delete"@,
        d.variants@[3].ident@ == "Unmount"@,
        d.variants@[4].ident@ == "S3Refresh"@,
{
    let variants: Vec<VariantDecl> = vec![
        VariantDecl {
            ident: String::from_str("ReadOnly"),
            doc: String::from_str("Only read operations are allowed on the datastore."),
            rename: None,
            is_default: false,
            has_fields: false,
        },
        VariantDecl {
            ident: String::from_str("Offline"),
            doc: String::from_str("Neither read nor write operations are allowed on the datastore."),
            rename: None,
            is_default: false,
            has_fields: false,
        },
        VariantDecl {
            ident: String::from_str("Delete"),
            doc: String::from_str("The datastore is being deleted."),
            rename: None,
            is_default: false,
            has_fields: false,
        },
        VariantDecl {
            ident: String::from_str("Unmount"),
            doc: String::from_str("The (removable) datastore is being unmounted."),
            rename: None,
            is_default: false,
            has_fields: false,
        },
        VariantDecl {
            ident: String::from_str("S3Refresh"),
            doc: String::from_str("The S3 cache store is being refreshed."),
            rename: None,
            is_default: false,
            has_fields: false,
        },
    ];
    proof {
        reveal_strlit("Only read operations are allowed on the datastore.");
        reveal_strlit("Neither read nor write operations are allowed on the datastore.");
        reveal_strlit("The datastore is being deleted.");
        reveal_strlit("The (removable) datastore is being unmounted.");
        reveal_strlit("The S3 cache store is being refreshed.");
    }
    EnumDecl {
        name: String::from_str("MaintenanceType"),
        doc: String::from_str("Maintenance type."),
        rename_all: Some(RenameRule::KebabCase),
        derives_default: false,
        variants,
    }
}

/// The derived enum schema of [`MaintenanceType`].
pub fn maintenance_type_schema() -> (r: Result<(EnumSchema, Vec<String>), SpecError>)
    ensures
        r is Ok,
        r matches Ok((s, w)) ==> {
            &&& s.values@.len() == 5
            &&& s.values@[0].value@ == "read-only"@
            &&& s.values@[1].value@ == "offline"@
            &&& s.values@[2].value@ == "delete"@
            &&& s.values@[3].value@ == "unmount"@
            &&& s.values@[4].value@ == "s3-refresh"@
            &&& s.default is None
        },
{
    let attribs: Vec<(String, crate::attr::DeclValue)> = Vec::new();
    let decl = maintenance_type_decl();
    let r = handle_enum(&attribs, &decl);
    proof {
        assert(crate::attr::spec_enum_attr_err(attribs@, 0) is None);
        assert(crate::enums::spec_variant_err(decl, false, 0, None) is None) by {
            reveal_with_fuel(crate::enums::spec_variant_err, 7);
        };
        assert(crate::enums::spec_first_marker(decl, 0) is None);
        assert(spec_decl_get(attribs@, "default"@) is None);
        assert(spec_decl_get(attribs@, "description"@) is None);

        reveal_strlit("ReadOnly");
        reveal_strlit("read-only");
        assert(crate::enums::spec_wire_name(decl, 0) =~= "read-only"@) by {
            reveal_with_fuel(crate::enums::spec_snakeish, 11);
        }
        reveal_strlit("Offline");
        reveal_strlit("offline");
        assert(crate::enums::spec_wire_name(decl, 1) =~= "offline"@) by {
            reveal_with_fuel(crate::enums::spec_snakeish, 11);
        }
        reveal_strlit("Delete");
        reveal_strlit("delete");
        assert(crate::enums::spec_wire_name(decl, 2) =~= "delete"@) by {
            reveal_with_fuel(crate::enums::spec_snakeish, 11);
        }
        reveal_strlit("Unmount");
        reveal_strlit("unmount");
        assert(crate::enums::spec_wire_name(decl, 3) =~= "unmount"@) by {
            reveal_with_fuel(crate::enums::spec_snakeish, 11);
        }
        reveal_strlit("S3Refresh");
        reveal_strlit("s3-refresh");
        assert(crate::enums::spec_wire_name(decl, 4) =~= "s3-refresh"@) by {
            reveal_with_fuel(crate::enums::spec_snakeish, 11);
        }
    }
    r
}

/// The object schema of [`MaintenanceMode`]: a required `type` and an
/// optional `message`, with `type` as the default key for an un-keyed
/// scalar.
pub fn maintenance_mode_schema(ty_schema: Schema) -> (s: Schema)
    ensures
        s matches Schema::Object(os) && {
            &&& os.properties@.len() == 2
            &&& os.properties@[0].name@ == "type"@
            &&& !os.properties@[0].optional
            &&& os.properties@[0].schema == ty_schema
            &&& os.properties@[1].name@ == "message"@
            &&& os.properties@[1].optional
            &&& os.default_key matches Some(k) && k@ == "type"@
        },
{
    let props: Vec<Property> = vec![
        Property { name: String::from_str("type"), optional: false, schema: ty_schema },
        Property {
            name: String::from_str("message"),
            optional: true,
            schema: maintenance_message_schema(),
        },
    ];
    let os = ObjectSchema::new(String::from_str("Maintenance mode"), props).default_key(
        String::from_str("type"),
    );
    os.schema()
}

} // verus!
