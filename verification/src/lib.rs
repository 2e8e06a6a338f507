//! A declarative API-contract toolkit: schema objects for runtime validation,
//! derivation of schemas from plain enum declarations, classification of
//! handler parameters against a schema, and a dispatch routine that extracts
//! and validates parameters from a generic value bag before invoking the
//! handler.

mod attr;
mod config;
mod dispatch;
mod docs;
mod enums;
mod error;
mod hex;
mod maintenance;
mod order;
mod method;
mod registry;
mod schema;
mod strutil;
mod sysinfo;
mod value;

pub use attr::DeclValue;
pub use attr::parse_schema;
pub use config::ApiConfig;
pub use config::HttpMethod;
pub use config::Route;
pub use config::Router;
pub use dispatch::ApiHandler;
pub use dispatch::Arg;
pub use dispatch::dispatch;
pub use dispatch::extract_arguments;
pub use dispatch::RpcEnvironment;
pub use dispatch::RpcEnvironmentType;
pub use docs::DocParts;
pub use docs::split_doc_comment;
pub use docs::trim;
pub use enums::apply_rename;
pub use enums::EnumDecl;
pub use enums::handle_enum;
pub use enums::RenameRule;
pub use enums::VariantDecl;
pub use error::DispatchError;
pub use error::SpecError;
pub use method::ApiMethod;
pub use method::derive_descriptions;
pub use method::handle_method;
pub use method::with_description;
pub use method::classify_parameters;
pub use method::FnDecl;
pub use method::handle_function_signature;
pub use method::is_api_method_type;
pub use method::is_rpc_env_type;
pub use method::is_value_type;
pub use method::ParamClass;
pub use method::ParamDecl;
pub use method::Parameter;
pub use method::ParamTy;
pub use method::PathTy;
pub use registry::SchemaRegistry;
pub use schema::ArraySchema;
pub use schema::apply_default_key;
pub use schema::clone_schema;
pub use schema::BooleanSchema;
pub use schema::EnumEntry;
pub use schema::EnumSchema;
pub use schema::IntegerSchema;
pub use schema::ObjectSchema;
pub use schema::Property;
pub use schema::Schema;
pub use schema::StringSchema;
pub use maintenance::MaintenanceError;
pub use maintenance::MaintenanceMode;
pub use maintenance::MaintenanceType;
pub use maintenance::maintenance_message_schema;
pub use maintenance::maintenance_mode_schema;
pub use maintenance::maintenance_type_decl;
pub use maintenance::maintenance_type_schema;
pub use maintenance::Operation;
pub use order::Identifier;
pub use order::NewOrder;
pub use order::Order;
pub use order::OrderData;
pub use order::Request;
pub use order::Status;
pub use schema::validate;
pub use schema::validate_object;
pub use sysinfo::nodename;
pub use sysinfo::short_hostname;
pub use value::Value;

pub use hex::AsHex;
pub use hex::bin_to_hex;
pub use hex::digest_to_hex;
pub use hex::hex_nibble_to_byte;
pub use hex::hex_to_bin;
pub use hex::hex_to_bin_exact;
pub use hex::hex_to_digest;
pub use hex::HexError;
