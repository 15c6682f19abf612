use vstd::prelude::*;

verus! {

/// Every failure the services can report.
#[derive(Debug)]
pub enum ServiceError {
    InternalServerError,
    BadRequest(String),
    Unauthorized(String),
    NotFound(String),
    Conflict(String),
    InvalidCredentials,
    UserAlreadyExists,
    RoleAlreadyExists,
    PermissionAlreadyExists,
    UserRoleAlreadyExists,
    RolePermissionAlreadyExists,
    UserNotFound,
    RoleNotFound,
    PermissionNotFound,
    DatabaseError(String),
    JwtError(String),
    PasswordHashError(String),
    SupabaseError(String),
    MissingToken,
    InvalidTokenFormat,
    InvalidToken,
    InsufficientPermissions,
}

impl ServiceError {
    /// The HTTP status that reports this error to a caller. A `JwtError`
    /// means a token could not be issued, which is the server's failure;
    /// a token that fails verification is reported as `InvalidToken`.
    pub open spec fn spec_status(&self) -> u16 {
        match self {
            ServiceError::BadRequest(_) => 400,
            ServiceError::Unauthorized(_)
            | ServiceError::InvalidCredentials
            | ServiceError::MissingToken
            | ServiceError::InvalidTokenFormat
            | ServiceError::InvalidToken => 401,
            ServiceError::InsufficientPermissions => 403,
            ServiceError::NotFound(_)
            | ServiceError::UserNotFound
            | ServiceError::RoleNotFound
            | ServiceError::PermissionNotFound => 404,
            ServiceError::Conflict(_)
            | ServiceError::UserAlreadyExists
            | ServiceError::RoleAlreadyExists
            | ServiceError::PermissionAlreadyExists
            | ServiceError::UserRoleAlreadyExists
            | ServiceError::RolePermissionAlreadyExists => 409,
            ServiceError::InternalServerError
            | ServiceError::DatabaseError(_)
            | ServiceError::JwtError(_)
            | ServiceError::PasswordHashError(_)
            | ServiceError::SupabaseError(_) => 500,
        }
    }

    pub fn status_code(&self) -> (r: u16)
        ensures
            r == self.spec_status(),
    {
        match self {
            ServiceError::BadRequest(_) => 400,
            ServiceError::Unauthorized(_)
            | ServiceError::InvalidCredentials
            | ServiceError::MissingToken
            | ServiceError::InvalidTokenFormat
            | ServiceError::InvalidToken => 401,
            ServiceError::InsufficientPermissions => 403,
            ServiceError::NotFound(_)
            | ServiceError::UserNotFound
            | ServiceError::RoleNotFound
            | ServiceError::PermissionNotFound => 404,
            ServiceError::Conflict(_)
            | ServiceError::UserAlreadyExists
            | ServiceError::RoleAlreadyExists
            | ServiceError::PermissionAlreadyExists
            | ServiceError::UserRoleAlreadyExists
            | ServiceError::RolePermissionAlreadyExists => 409,
            ServiceError::InternalServerError
            | ServiceError::DatabaseError(_)
            | ServiceError::JwtError(_)
            | ServiceError::PasswordHashError(_)
            | ServiceError::SupabaseError(_) => 500,
        }
    }
    /// The text that describes this error to a reader.
    pub open spec fn spec_message(&self) -> Seq<char> {
        match self {
            ServiceError::InternalServerError => "内部服务器错误"@,
            ServiceError::BadRequest(m) => "错误的请求: "@ + m@,
            ServiceError::Unauthorized(m) => "未授权: "@ + m@,
            ServiceError::NotFound(m) => "未找到: "@ + m@,
            ServiceError::Conflict(m) => "冲突: "@ + m@,
            ServiceError::InvalidCredentials => "无效的凭证"@,
            ServiceError::UserAlreadyExists => "用户已存在"@,
            ServiceError::RoleAlreadyExists => "角色已存在"@,
            ServiceError::PermissionAlreadyExists => "权限已存在"@,
            ServiceError::UserRoleAlreadyExists => "用户已拥有该角色"@,
            ServiceError::RolePermissionAlreadyExists => "角色已拥有该权限"@,
            ServiceError::UserNotFound => "用户不存在"@,
            ServiceError::RoleNotFound => "角色不存在"@,
            ServiceError::PermissionNotFound => "权限不存在"@,
            ServiceError::DatabaseError(m) => "数据库错误: "@ + m@,
            ServiceError::JwtError(m) => "JWT错误: "@ + m@,
            ServiceError::PasswordHashError(m) => "密码哈希错误: "@ + m@,
            ServiceError::SupabaseError(m) => "Supabase错误: "@ + m@,
            ServiceError::MissingToken => "缺少令牌"@,
            ServiceError::InvalidTokenFormat => "无效的令牌格式"@,
            ServiceError::InvalidToken => "无效的令牌"@,
            ServiceError::InsufficientPermissions => "权限不足"@,
        }
    }

    pub fn message(&self) -> (r: String)
        ensures
            r@ == self.spec_message(),
    {
        match self {
            ServiceError::InternalServerError => String::from_str("内部服务器错误"),
            ServiceError::BadRequest(m) => String::from_str("错误的请求: ").concat(m.as_str()),
            ServiceError::Unauthorized(m) => String::from_str("未授权: ").concat(m.as_str()),
            ServiceError::NotFound(m) => String::from_str("未找到: ").concat(m.as_str()),
            ServiceError::Conflict(m) => String::from_str("冲突: ").concat(m.as_str()),
            ServiceError::InvalidCredentials => String::from_str("无效的凭证"),
            ServiceError::UserAlreadyExists => String::from_str("用户已存在"),
            ServiceError::RoleAlreadyExists => String::from_str("角色已存在"),
            ServiceError::PermissionAlreadyExists => String::from_str("权限已存在"),
            ServiceError::UserRoleAlreadyExists => String::from_str("用户已拥有该角色"),
            ServiceError::RolePermissionAlreadyExists => String::from_str("角色已拥有该权限"),
            ServiceError::UserNotFound => String::from_str("用户不存在"),
            ServiceError::RoleNotFound => String::from_str("角色不存在"),
            ServiceError::PermissionNotFound => String::from_str("权限不存在"),
            ServiceError::DatabaseError(m) => String::from_str("数据库错误: ").concat(m.as_str()),
            ServiceError::JwtError(m) => String::from_str("JWT错误: ").concat(m.as_str()),
            ServiceError::PasswordHashError(m) => String::from_str("密码哈希错误: ").concat(m.as_str()),
            ServiceError::SupabaseError(m) => String::from_str("Supabase错误: ").concat(m.as_str()),
            ServiceError::MissingToken => String::from_str("缺少令牌"),
            ServiceError::InvalidTokenFormat => String::from_str("无效的令牌格式"),
            ServiceError::InvalidToken => String::from_str("无效的令牌"),
            ServiceError::InsufficientPermissions => String::from_str("权限不足"),
        }
    }
    /// The text a caller is shown: internal failures are reported without
    /// their detail, which stays for the operator's log.
    pub open spec fn spec_public_message(&self) -> Seq<char> {
        if self.spec_status() == 500 {
            "内部服务器错误"@
        } else {
            self.spec_message()
        }
    }

    pub fn public_message(&self) -> (r: String)
        ensures
            r@ == self.spec_public_message(),
    {
        if self.status_code() == 500 {
            String::from_str("内部服务器错误")
        } else {
            self.message()
        }
    }
}

} // verus!
