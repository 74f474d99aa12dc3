use vstd::prelude::*;

verus! {

/// Failures that come from the rules of the drive itself.
#[derive(Debug, Clone, Copy, PartialEq, Eq)]
pub enum DomainError {
    Validation(&'static str),
    EmailTaken,
    InvalidCredentials,
    Unauthorized,
    QuotaExceeded,
    FileTooLarge,
    FileNotFound,
    UserNotFound,
    InvalidFileState,
}

/// Errors reported by a metadata repository.
#[derive(Debug, Clone, Copy, PartialEq, Eq)]
pub enum RepositoryError {
    DuplicateEmail,
    NotFound,
    InvalidState,
    Unexpected,
}

/// Errors reported by object storage.
#[derive(Debug, Clone, Copy, PartialEq, Eq)]
pub enum StorageError {
    NotFound,
    Unexpected,
}

/// The error type every use case returns.
#[derive(Debug, Clone, Copy, PartialEq, Eq)]
pub enum AppError {
    Domain(DomainError),
    DuplicateEmail,
    InvalidCredentials,
    Unauthorized,
    Repository,
    Storage,
    Email,
    Internal,
}

pub open spec fn app_error_from_domain(error: DomainError) -> AppError {
    match error {
        DomainError::EmailTaken => AppError::DuplicateEmail,
        DomainError::InvalidCredentials => AppError::InvalidCredentials,
        DomainError::Unauthorized => AppError::Unauthorized,
        other => AppError::Domain(other),
    }
}

impl From<DomainError> for AppError {
    fn from(error: DomainError) -> (r: AppError) {
        match error {
            DomainError::EmailTaken => AppError::DuplicateEmail,
            DomainError::InvalidCredentials => AppError::InvalidCredentials,
            DomainError::Unauthorized => AppError::Unauthorized,
            other => AppError::Domain(other),
        }
    }
}

impl vstd::std_specs::convert::FromSpecImpl<DomainError> for AppError {
    open spec fn obeys_from_spec() -> bool {
        true
    }

    open spec fn from_spec(v: DomainError) -> AppError {
        app_error_from_domain(v)
    }
}

pub open spec fn app_error_from_repository(error: RepositoryError) -> AppError {
    match error {
        RepositoryError::DuplicateEmail => AppError::DuplicateEmail,
        RepositoryError::NotFound => AppError::Domain(DomainError::FileNotFound),
        RepositoryError::InvalidState => AppError::Domain(DomainError::InvalidFileState),
        RepositoryError::Unexpected => AppError::Repository,
    }
}

impl From<RepositoryError> for AppError {
    fn from(error: RepositoryError) -> (r: AppError) {
        match error {
            RepositoryError::DuplicateEmail => AppError::DuplicateEmail,
            RepositoryError::NotFound => AppError::Domain(DomainError::FileNotFound),
            RepositoryError::InvalidState => AppError::Domain(DomainError::InvalidFileState),
            RepositoryError::Unexpected => AppError::Repository,
        }
    }
}

impl vstd::std_specs::convert::FromSpecImpl<RepositoryError> for AppError {
    open spec fn obeys_from_spec() -> bool {
        true
    }

    open spec fn from_spec(v: RepositoryError) -> AppError {
        app_error_from_repository(v)
    }
}

impl From<StorageError> for AppError {
    fn from(error: StorageError) -> (r: AppError) {
        AppError::Storage
    }
}

impl vstd::std_specs::convert::FromSpecImpl<StorageError> for AppError {
    open spec fn obeys_from_spec() -> bool {
        true
    }

    open spec fn from_spec(v: StorageError) -> AppError {
        AppError::Storage
    }
}

/// Errors reported by an email sender.
#[derive(Debug, Clone, Copy, PartialEq, Eq)]
pub enum EmailError {
    Unexpected,
}

impl From<EmailError> for AppError {
    fn from(error: EmailError) -> (r: AppError) {
        AppError::Email
    }
}

impl vstd::std_specs::convert::FromSpecImpl<EmailError> for AppError {
    open spec fn obeys_from_spec() -> bool {
        true
    }

    open spec fn from_spec(v: EmailError) -> AppError {
        AppError::Email
    }
}

/// Status code and JSON body fields of an error response.
#[derive(Debug, Clone, Copy, PartialEq, Eq)]
pub struct ErrorBody {
    pub status: u16,
    pub code: &'static str,
    pub message: &'static str,
}

/// An application error on its way to becoming an HTTP response.
#[derive(Debug, Clone, Copy, PartialEq, Eq)]
pub struct HttpError(pub AppError);

impl From<AppError> for HttpError {
    fn from(error: AppError) -> (r: HttpError) {
        HttpError(error)
    }
}

impl vstd::std_specs::convert::FromSpecImpl<AppError> for HttpError {
    open spec fn obeys_from_spec() -> bool {
        true
    }

    open spec fn from_spec(v: AppError) -> HttpError {
        HttpError(v)
    }
}

/// The HTTP status an application error is answered with.
pub open spec fn http_status(e: AppError) -> u16 {
    match e {
        AppError::Domain(DomainError::Validation(_)) => 422,
        AppError::DuplicateEmail | AppError::Domain(DomainError::EmailTaken) => 409,
        AppError::InvalidCredentials | AppError::Domain(DomainError::InvalidCredentials) => 401,
        AppError::Unauthorized | AppError::Domain(DomainError::Unauthorized) => 401,
        AppError::Domain(DomainError::QuotaExceeded) => 409,
        AppError::Domain(DomainError::FileTooLarge) => 413,
        AppError::Domain(DomainError::FileNotFound) => 404,
        AppError::Domain(DomainError::UserNotFound) => 404,
        AppError::Domain(DomainError::InvalidFileState) => 409,
        AppError::Storage => 502,
        AppError::Email => 502,
        AppError::Repository | AppError::Internal => 500,
    }
}

/// The machine-readable code an application error is answered with.
pub open spec fn http_code(e: AppError) -> Seq<char> {
    match e {
        AppError::Domain(DomainError::Validation(_)) => "validation_error"@,
        AppError::DuplicateEmail | AppError::Domain(DomainError::EmailTaken) => "email_taken"@,
        AppError::InvalidCredentials | AppError::Domain(DomainError::InvalidCredentials) => "invalid_credentials"@,
        AppError::Unauthorized | AppError::Domain(DomainError::Unauthorized) => "unauthorized"@,
        AppError::Domain(DomainError::QuotaExceeded) => "quota_exceeded"@,
        AppError::Domain(DomainError::FileTooLarge) => "file_too_large"@,
        AppError::Domain(DomainError::FileNotFound) => "file_not_found"@,
        AppError::Domain(DomainError::UserNotFound) => "user_not_found"@,
        AppError::Domain(DomainError::InvalidFileState) => "invalid_file_state"@,
        AppError::Storage => "storage_error"@,
        AppError::Email => "email_error"@,
        AppError::Repository | AppError::Internal => "internal_error"@,
    }
}

/// The human-readable message an application error is answered with.
pub open spec fn http_message(e: AppError) -> Seq<char> {
    match e {
        AppError::Domain(DomainError::Validation(message)) => message@,
        AppError::DuplicateEmail | AppError::Domain(DomainError::EmailTaken) => "An account with this email already exists"@,
        AppError::InvalidCredentials | AppError::Domain(DomainError::InvalidCredentials) => "Invalid email or password"@,
        AppError::Unauthorized | AppError::Domain(DomainError::Unauthorized) => "Missing or invalid session token"@,
        AppError::Domain(DomainError::QuotaExceeded) => "Not enough storage quota is available"@,
        AppError::Domain(DomainError::FileTooLarge) => "File exceeds the maximum allowed size"@,
        AppError::Domain(DomainError::FileNotFound) => "File was not found"@,
        AppError::Domain(DomainError::UserNotFound) => "User was not found"@,
        AppError::Domain(DomainError::InvalidFileState) => "File is not in the expected state"@,
        AppError::Storage => "Object storage could not satisfy the request"@,
        AppError::Email => "Email delivery could not satisfy the request"@,
        AppError::Repository | AppError::Internal => "Something went wrong"@,
    }
}

impl HttpError {
    /// The status, code and message this error is answered with.
    pub fn response_parts(&self) -> (r: ErrorBody)
        ensures
            r.status == http_status(self.0),
            r.code@ == http_code(self.0),
            r.message@ == http_message(self.0),
    {
        match self.0 {
            AppError::Domain(DomainError::Validation(message)) => ErrorBody {
                status: 422,
                code: "validation_error",
                message,
            },
            AppError::DuplicateEmail | AppError::Domain(DomainError::EmailTaken) => ErrorBody {
                status: 409,
                code: "email_taken",
                message: "An account with this email already exists",
            },
            AppError::InvalidCredentials | AppError::Domain(DomainError::InvalidCredentials) => ErrorBody {
                status: 401,
                code: "invalid_credentials",
                message: "Invalid email or password",
            },
            AppError::Unauthorized | AppError::Domain(DomainError::Unauthorized) => ErrorBody {
                status: 401,
                code: "unauthorized",
                message: "Missing or invalid session token",
            },
            AppError::Domain(DomainError::QuotaExceeded) => ErrorBody {
                status: 409,
                code: "quota_exceeded",
                message: "Not enough storage quota is available",
            },
            AppError::Domain(DomainError::FileTooLarge) => ErrorBody {
                status: 413,
                code: "file_too_large",
                message: "File exceeds the maximum allowed size",
            },
            AppError::Domain(DomainError::FileNotFound) => ErrorBody {
                status: 404,
                code: "file_not_found",
                message: "File was not found",
            },
            AppError::Domain(DomainError::UserNotFound) => ErrorBody {
                status: 404,
                code: "user_not_found",
                message: "User was not found",
            },
            AppError::Domain(DomainError::InvalidFileState) => ErrorBody {
                status: 409,
                code: "invalid_file_state",
                message: "File is not in the expected state",
            },
            AppError::Storage => ErrorBody {
                status: 502,
                code: "storage_error",
                message: "Object storage could not satisfy the request",
            },
            AppError::Email => ErrorBody {
                status: 502,
                code: "email_error",
                message: "Email delivery could not satisfy the request",
            },
            AppError::Repository | AppError::Internal => ErrorBody {
                status: 500,
                code: "internal_error",
                message: "Something went wrong",
            },
        }
    }
}

/// Every repository error reaches the client as a server error or as a
/// not-found, conflict or duplicate-email answer; a missing row is always a
/// 404 and an unexpected failure never leaks more than a 500.
pub proof fn lemma_repository_errors_map_to_statuses(error: RepositoryError)
    ensures
        error == RepositoryError::NotFound ==> http_status(app_error_from_repository(error)) == 404,
        error == RepositoryError::InvalidState ==> http_status(app_error_from_repository(error)) == 409,
        error == RepositoryError::DuplicateEmail ==> http_status(app_error_from_repository(error)) == 409,
        error == RepositoryError::Unexpected ==> http_status(app_error_from_repository(error)) == 500,
{
}

/// Converting a domain error and answering it agrees with answering the
/// domain error directly: the three domain errors that `From` lifts to
/// their own application variants keep their status, code and message.
pub proof fn lemma_domain_lift_keeps_response(error: DomainError)
    ensures
        http_status(app_error_from_domain(error)) == http_status(AppError::Domain(error)),
        http_code(app_error_from_domain(error)) == http_code(AppError::Domain(error)),
        http_message(app_error_from_domain(error)) == http_message(AppError::Domain(error)),
{
}

/// The answer of the health check: its HTTP status and the `status` field
/// of its body.
#[derive(Debug, Clone, Copy, PartialEq, Eq)]
pub struct HealthAnswer {
    pub status: u16,
    pub state: &'static str,
}

/// The health check answers 200 with `ok` when the database answered a
/// query, and 503 with `degraded` when it did not.
pub fn health_answer(database_reachable: bool) -> (r: HealthAnswer)
    ensures
        database_reachable ==> r.status == 200 && r.state@ == "ok"@,
        !database_reachable ==> r.status == 503 && r.state@ == "degraded"@,
{
    if database_reachable {
        HealthAnswer { status: 200, state: "ok" }
    } else {
        HealthAnswer { status: 503, state: "degraded" }
    }
}

} // verus!
