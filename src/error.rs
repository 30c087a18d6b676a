//! The error taxonomy, its messages and the HTTP status each kind maps to.
use vstd::prelude::*;
use crate::text::{chars_of, push_str, string_of};

verus! {

/// Every failure the gateway reports.
#[derive(Debug, Clone)]
pub enum GatewayError {
    DatabaseNotFound { platform: String, tenant_id: Option<String> },
    DatabaseAlreadyExists { database: String },
    MigrationFailed { database: String, migration: String, cause: String },
    FunctionDeployFailed { database: String, function: String, cause: String },
    QueryFailed { database: String, function: String, cause: String },
    ExtensionNotAvailable { extension: String, cause: String },
    ExtensionInstallFailed { database: String, extension: String, cause: String },
    SchemaExtractionFailed { cause: String },
    ConnectionFailed { database: String, cause: String },
    PoolExhausted { database: String },
    Unauthorized { ip: String },
    InvalidRequest { message: String },
    PlatformIsolationViolation { requesting_platform: String, target_platform: String },
    Internal(String),
}

/// The JSON body of an error reply.
#[derive(Debug, Clone)]
pub struct ErrorResponse {
    pub error: String,
    pub message: String,
    pub database: Option<String>,
    pub cause: Option<String>,
}

/// The HTTP status of each kind of error.
pub open spec fn status_spec(e: GatewayError) -> u16 {
    match e {
        GatewayError::DatabaseNotFound { .. } => 404,
        GatewayError::DatabaseAlreadyExists { .. } => 409,
        GatewayError::MigrationFailed { .. } => 500,
        GatewayError::FunctionDeployFailed { .. } => 500,
        GatewayError::QueryFailed { .. } => 500,
        GatewayError::ExtensionNotAvailable { .. } => 400,
        GatewayError::ExtensionInstallFailed { .. } => 500,
        GatewayError::SchemaExtractionFailed { .. } => 400,
        GatewayError::ConnectionFailed { .. } => 503,
        GatewayError::PoolExhausted { .. } => 503,
        GatewayError::Unauthorized { .. } => 403,
        GatewayError::InvalidRequest { .. } => 400,
        GatewayError::PlatformIsolationViolation { .. } => 403,
        GatewayError::Internal(_) => 500,
    }
}

/// The machine-readable code of each kind of error.
pub open spec fn code_spec(e: GatewayError) -> Seq<char> {
    match e {
        GatewayError::DatabaseNotFound { .. } => "database_not_found"@,
        GatewayError::DatabaseAlreadyExists { .. } => "database_already_exists"@,
        GatewayError::MigrationFailed { .. } => "migration_failed"@,
        GatewayError::FunctionDeployFailed { .. } => "function_deploy_failed"@,
        GatewayError::QueryFailed { .. } => "query_failed"@,
        GatewayError::ExtensionNotAvailable { .. } => "extension_not_available"@,
        GatewayError::ExtensionInstallFailed { .. } => "extension_install_failed"@,
        GatewayError::SchemaExtractionFailed { .. } => "schema_extraction_failed"@,
        GatewayError::ConnectionFailed { .. } => "connection_failed"@,
        GatewayError::PoolExhausted { .. } => "pool_exhausted"@,
        GatewayError::Unauthorized { .. } => "unauthorized"@,
        GatewayError::InvalidRequest { .. } => "invalid_request"@,
        GatewayError::PlatformIsolationViolation { .. } => "platform_isolation_violation"@,
        GatewayError::Internal(_) => "internal_error"@,
    }
}

pub open spec fn opt_debug(o: Option<String>) -> Seq<char> {
    match o {
        Some(s) => "Some(\""@ + s@ + "\")"@,
        None => "None"@,
    }
}

/// The one-line description of an error.
pub open spec fn message_spec(e: GatewayError) -> Seq<char> {
    match e {
        GatewayError::DatabaseNotFound { platform, tenant_id } => "Database not found: platform="@
            + platform@ + ", tenant_id="@ + opt_debug(tenant_id),
        GatewayError::DatabaseAlreadyExists { database } => "Database already exists: "@ + database@,
        GatewayError::MigrationFailed { database, migration, cause } => "Migration failed in "@
            + database@ + ": "@ + migration@ + " - "@ + cause@,
        GatewayError::FunctionDeployFailed { database, function, cause } =>
            "Function deployment failed in "@ + database@ + ": "@ + function@ + " - "@ + cause@,
        GatewayError::QueryFailed { database, function, cause } => "Query failed for "@ + function@
            + " in "@ + database@ + ": "@ + cause@,
        GatewayError::ExtensionNotAvailable { extension, cause } => "Extension "@ + extension@
            + " not available: "@ + cause@,
        GatewayError::ExtensionInstallFailed { database, extension, cause } =>
            "Extension installation failed in "@ + database@ + ": "@ + extension@ + " - "@ + cause@,
        GatewayError::SchemaExtractionFailed { cause } => "Schema extraction failed: "@ + cause@,
        GatewayError::ConnectionFailed { database, cause } => "Connection failed to "@ + database@
            + ": "@ + cause@,
        GatewayError::PoolExhausted { database } => "Connection pool exhausted for "@ + database@,
        GatewayError::Unauthorized { ip } => "Unauthorized access from IP: "@ + ip@,
        GatewayError::InvalidRequest { message } => "Invalid request: "@ + message@,
        GatewayError::PlatformIsolationViolation { requesting_platform, target_platform } =>
            "Platform isolation violation: cannot access "@ + target_platform@ + " databases from "@
            + requesting_platform@,
        GatewayError::Internal(m) => "Internal error: "@ + m@,
    }
}

impl GatewayError {
    /// The HTTP status that the error is reported with.
    pub fn status_code(&self) -> (r: u16)
        ensures
            r == status_spec(*self),
    {
        match self {
            GatewayError::DatabaseNotFound { .. } => 404,
            GatewayError::DatabaseAlreadyExists { .. } => 409,
            GatewayError::MigrationFailed { .. } => 500,
            GatewayError::FunctionDeployFailed { .. } => 500,
            GatewayError::QueryFailed { .. } => 500,
            GatewayError::ExtensionNotAvailable { .. } => 400,
            GatewayError::ExtensionInstallFailed { .. } => 500,
            GatewayError::SchemaExtractionFailed { .. } => 400,
            GatewayError::ConnectionFailed { .. } => 503,
            GatewayError::PoolExhausted { .. } => 503,
            GatewayError::Unauthorized { .. } => 403,
            GatewayError::InvalidRequest { .. } => 400,
            GatewayError::PlatformIsolationViolation { .. } => 403,
            GatewayError::Internal(_) => 500,
        }
    }

    /// The machine-readable code of the error.
    pub fn error_code(&self) -> (r: &'static str)
        ensures
            r@ == code_spec(*self),
    {
        match self {
            GatewayError::DatabaseNotFound { .. } => "database_not_found",
            GatewayError::DatabaseAlreadyExists { .. } => "database_already_exists",
            GatewayError::MigrationFailed { .. } => "migration_failed",
            GatewayError::FunctionDeployFailed { .. } => "function_deploy_failed",
            GatewayError::QueryFailed { .. } => "query_failed",
            GatewayError::ExtensionNotAvailable { .. } => "extension_not_available",
            GatewayError::ExtensionInstallFailed { .. } => "extension_install_failed",
            GatewayError::SchemaExtractionFailed { .. } => "schema_extraction_failed",
            GatewayError::ConnectionFailed { .. } => "connection_failed",
            GatewayError::PoolExhausted { .. } => "pool_exhausted",
            GatewayError::Unauthorized { .. } => "unauthorized",
            GatewayError::InvalidRequest { .. } => "invalid_request",
            GatewayError::PlatformIsolationViolation { .. } => "platform_isolation_violation",
            GatewayError::Internal(_) => "internal_error",
        }
    }

    /// The one-line description of the error.
    pub fn to_string(&self) -> (r: String)
        ensures
            r@ == message_spec(*self),
    {
        let mut m: Vec<char> = Vec::new();
        match self {
            GatewayError::DatabaseNotFound { platform, tenant_id } => {
                push_str(&mut m, "Database not found: platform=");
                push_str(&mut m, platform.as_str());
                push_str(&mut m, ", tenant_id=");
                match tenant_id {
                    Some(t) => {
                        push_str(&mut m, "Some(\"");
                        push_str(&mut m, t.as_str());
                        push_str(&mut m, "\")");
                    },
                    None => push_str(&mut m, "None"),
                }
            },
            GatewayError::DatabaseAlreadyExists { database } => {
                push_str(&mut m, "Database already exists: ");
                push_str(&mut m, database.as_str());
            },
            GatewayError::MigrationFailed { database, migration, cause } => {
                push_str(&mut m, "Migration failed in ");
                push_str(&mut m, database.as_str());
                push_str(&mut m, ": ");
                push_str(&mut m, migration.as_str());
                push_str(&mut m, " - ");
                push_str(&mut m, cause.as_str());
            },
            GatewayError::FunctionDeployFailed { database, function, cause } => {
                push_str(&mut m, "Function deployment failed in ");
                push_str(&mut m, database.as_str());
                push_str(&mut m, ": ");
                push_str(&mut m, function.as_str());
                push_str(&mut m, " - ");
                push_str(&mut m, cause.as_str());
            },
            GatewayError::QueryFailed { database, function, cause } => {
                push_str(&mut m, "Query failed for ");
                push_str(&mut m, function.as_str());
                push_str(&mut m, " in ");
                push_str(&mut m, database.as_str());
                push_str(&mut m, ": ");
                push_str(&mut m, cause.as_str());
            },
            GatewayError::ExtensionNotAvailable { extension, cause } => {
                push_str(&mut m, "Extension ");
                push_str(&mut m, extension.as_str());
                push_str(&mut m, " not available: ");
                push_str(&mut m, cause.as_str());
            },
            GatewayError::ExtensionInstallFailed { database, extension, cause } => {
                push_str(&mut m, "Extension installation failed in ");
                push_str(&mut m, database.as_str());
                push_str(&mut m, ": ");
                push_str(&mut m, extension.as_str());
                push_str(&mut m, " - ");
                push_str(&mut m, cause.as_str());
            },
            GatewayError::SchemaExtractionFailed { cause } => {
                push_str(&mut m, "Schema extraction failed: ");
                push_str(&mut m, cause.as_str());
            },
            GatewayError::ConnectionFailed { database, cause } => {
                push_str(&mut m, "Connection failed to ");
                push_str(&mut m, database.as_str());
                push_str(&mut m, ": ");
                push_str(&mut m, cause.as_str());
            },
            GatewayError::PoolExhausted { database } => {
                push_str(&mut m, "Connection pool exhausted for ");
                push_str(&mut m, database.as_str());
            },
            GatewayError::Unauthorized { ip } => {
                push_str(&mut m, "Unauthorized access from IP: ");
                push_str(&mut m, ip.as_str());
            },
            GatewayError::InvalidRequest { message } => {
                push_str(&mut m, "Invalid request: ");
                push_str(&mut m, message.as_str());
            },
            GatewayError::PlatformIsolationViolation { requesting_platform, target_platform } => {
                push_str(&mut m, "Platform isolation violation: cannot access ");
                push_str(&mut m, target_platform.as_str());
                push_str(&mut m, " databases from ");
                push_str(&mut m, requesting_platform.as_str());
            },
            GatewayError::Internal(msg) => {
                push_str(&mut m, "Internal error: ");
                push_str(&mut m, msg.as_str());
            },
        }
        proof {
            assert(m@ =~= message_spec(*self));
        }
        string_of(&m)
    }
}

pub open spec fn opt_text(o: Option<String>) -> Option<Seq<char>> {
    match o {
        Some(s) => Some(s@),
        None => None,
    }
}

/// The human message of an error reply.
pub open spec fn reply_message_spec(e: GatewayError) -> Seq<char> {
    match e {
        GatewayError::DatabaseNotFound { platform, tenant_id } => "Database for platform '"@ + platform@
            + "' with tenant "@ + opt_debug(tenant_id) + " not found"@,
        GatewayError::DatabaseAlreadyExists { database } => "Database '"@ + database@ + "' already exists"@,
        GatewayError::MigrationFailed { migration, .. } => "Migration "@ + migration@ + " failed"@,
        GatewayError::FunctionDeployFailed { function, .. } => "Function "@ + function@ + " deployment failed"@,
        GatewayError::QueryFailed { function, .. } => "Query for function '"@ + function@ + "' failed"@,
        GatewayError::ExtensionNotAvailable { extension, .. } => "PostgreSQL extension '"@ + extension@
            + "' is not available on this server"@,
        GatewayError::ExtensionInstallFailed { extension, .. } => "Failed to install extension '"@ + extension@ + "'"@,
        GatewayError::SchemaExtractionFailed { .. } => "Failed to extract schema from uploaded archive"@,
        GatewayError::ConnectionFailed { database, .. } => "Failed to connect to database '"@ + database@ + "'"@,
        GatewayError::PoolExhausted { database } => "Connection pool exhausted for database '"@ + database@ + "'"@,
        GatewayError::Unauthorized { ip } => "Access denied for IP address: "@ + ip@,
        GatewayError::InvalidRequest { message } => message@,
        GatewayError::PlatformIsolationViolation { requesting_platform, target_platform } => "Platform '"@
            + requesting_platform@ + "' cannot access databases belonging to '"@ + target_platform@ + "'"@,
        GatewayError::Internal(m) => m@,
    }
}

/// The database an error reply names, if any.
pub open spec fn reply_database_spec(e: GatewayError) -> Option<Seq<char>> {
    match e {
        GatewayError::DatabaseNotFound { platform, tenant_id } => Some(crate::router::database_name_spec(
            platform@,
            opt_text(tenant_id),
        )),
        GatewayError::DatabaseAlreadyExists { database } => Some(database@),
        GatewayError::MigrationFailed { database, .. } => Some(database@),
        GatewayError::FunctionDeployFailed { database, .. } => Some(database@),
        GatewayError::QueryFailed { database, .. } => Some(database@),
        GatewayError::ExtensionInstallFailed { database, .. } => Some(database@),
        GatewayError::ConnectionFailed { database, .. } => Some(database@),
        GatewayError::PoolExhausted { database } => Some(database@),
        _ => None,
    }
}

/// The underlying cause an error reply carries, if any.
pub open spec fn reply_cause_spec(e: GatewayError) -> Option<Seq<char>> {
    match e {
        GatewayError::MigrationFailed { cause, .. } => Some(cause@),
        GatewayError::FunctionDeployFailed { cause, .. } => Some(cause@),
        GatewayError::QueryFailed { cause, .. } => Some(cause@),
        GatewayError::ExtensionNotAvailable { cause, .. } => Some(cause@),
        GatewayError::ExtensionInstallFailed { cause, .. } => Some(cause@),
        GatewayError::SchemaExtractionFailed { cause } => Some(cause@),
        GatewayError::ConnectionFailed { cause, .. } => Some(cause@),
        _ => None,
    }
}

fn text(s: &str) -> (r: String)
    ensures
        r@ == s@,
{
    string_of(&chars_of(s))
}

fn some_text(s: &String) -> (r: Option<String>)
    ensures
        opt_text(r) == Some(s@),
{
    Some(text(s.as_str()))
}

fn reply_message(e: &GatewayError) -> (r: String)
    ensures
        r@ == reply_message_spec(*e),
{
    let mut m: Vec<char> = Vec::new();
    match e {
        GatewayError::DatabaseNotFound { platform, tenant_id } => {
            push_str(&mut m, "Database for platform '");
            push_str(&mut m, platform.as_str());
            push_str(&mut m, "' with tenant ");
            match tenant_id {
                Some(t) => {
                    push_str(&mut m, "Some(\"");
                    push_str(&mut m, t.as_str());
                    push_str(&mut m, "\")");
                },
                None => push_str(&mut m, "None"),
            }
            push_str(&mut m, " not found");
        },
        GatewayError::DatabaseAlreadyExists { database } => {
            push_str(&mut m, "Database '");
            push_str(&mut m, database.as_str());
            push_str(&mut m, "' already exists");
        },
        GatewayError::MigrationFailed { migration, .. } => {
            push_str(&mut m, "Migration ");
            push_str(&mut m, migration.as_str());
            push_str(&mut m, " failed");
        },
        GatewayError::FunctionDeployFailed { function, .. } => {
            push_str(&mut m, "Function ");
            push_str(&mut m, function.as_str());
            push_str(&mut m, " deployment failed");
        },
        GatewayError::QueryFailed { function, .. } => {
            push_str(&mut m, "Query for function '");
            push_str(&mut m, function.as_str());
            push_str(&mut m, "' failed");
        },
        GatewayError::ExtensionNotAvailable { extension, .. } => {
            push_str(&mut m, "PostgreSQL extension '");
            push_str(&mut m, extension.as_str());
            push_str(&mut m, "' is not available on this server");
        },
        GatewayError::ExtensionInstallFailed { extension, .. } => {
            push_str(&mut m, "Failed to install extension '");
            push_str(&mut m, extension.as_str());
            push_str(&mut m, "'");
        },
        GatewayError::SchemaExtractionFailed { .. } => {
            push_str(&mut m, "Failed to extract schema from uploaded archive");
        },
        GatewayError::ConnectionFailed { database, .. } => {
            push_str(&mut m, "Failed to connect to database '");
            push_str(&mut m, database.as_str());
            push_str(&mut m, "'");
        },
        GatewayError::PoolExhausted { database } => {
            push_str(&mut m, "Connection pool exhausted for database '");
            push_str(&mut m, database.as_str());
            push_str(&mut m, "'");
        },
        GatewayError::Unauthorized { ip } => {
            push_str(&mut m, "Access denied for IP address: ");
            push_str(&mut m, ip.as_str());
        },
        GatewayError::InvalidRequest { message } => {
            push_str(&mut m, message.as_str());
        },
        GatewayError::PlatformIsolationViolation { requesting_platform, target_platform } => {
            push_str(&mut m, "Platform '");
            push_str(&mut m, requesting_platform.as_str());
            push_str(&mut m, "' cannot access databases belonging to '");
            push_str(&mut m, target_platform.as_str());
            push_str(&mut m, "'");
        },
        GatewayError::Internal(msg) => {
            push_str(&mut m, msg.as_str());
        },
    }
    assert(m@ =~= reply_message_spec(*e));
    string_of(&m)
}

impl GatewayError {
    /// The JSON body of the reply: `{error, message, database?, cause?}`.
    pub fn to_response(&self) -> (r: ErrorResponse)
        ensures
            r.error@ == code_spec(*self),
            r.message@ == reply_message_spec(*self),
            opt_text(r.database) == reply_database_spec(*self),
            opt_text(r.cause) == reply_cause_spec(*self),
    {
        let database = match self {
            GatewayError::DatabaseNotFound { platform, tenant_id } => Some(crate::router::format_database_name(
                platform.as_str(),
                match tenant_id {
                    Some(t) => Some(t.as_str()),
                    None => None,
                },
            )),
            GatewayError::DatabaseAlreadyExists { database } => some_text(database),
            GatewayError::MigrationFailed { database, .. } => some_text(database),
            GatewayError::FunctionDeployFailed { database, .. } => some_text(database),
            GatewayError::QueryFailed { database, .. } => some_text(database),
            GatewayError::ExtensionInstallFailed { database, .. } => some_text(database),
            GatewayError::ConnectionFailed { database, .. } => some_text(database),
            GatewayError::PoolExhausted { database } => some_text(database),
            _ => None,
        };
        let cause = match self {
            GatewayError::MigrationFailed { cause, .. } => some_text(cause),
            GatewayError::FunctionDeployFailed { cause, .. } => some_text(cause),
            GatewayError::QueryFailed { cause, .. } => some_text(cause),
            GatewayError::ExtensionNotAvailable { cause, .. } => some_text(cause),
            GatewayError::ExtensionInstallFailed { cause, .. } => some_text(cause),
            GatewayError::SchemaExtractionFailed { cause } => some_text(cause),
            GatewayError::ConnectionFailed { cause, .. } => some_text(cause),
            _ => None,
        };
        ErrorResponse { error: text(self.error_code()), message: reply_message(self), database, cause }
    }
}

} // verus!
