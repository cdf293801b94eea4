use vstd::prelude::*;

verus! {

/// Declares chrono's calendar date, which a sign-up request carries through
/// unread.
#[verifier::external_type_specification]
#[verifier::external_body]
pub struct ExNaiveDate(chrono::NaiveDate);

/// A user's role, from least to most privileged.
#[derive(Clone, Copy, Debug, PartialEq, Eq, Hash, Structural)]
pub enum Role {
    NotVerified,
    User,
    Author,
    Moderator,
    CoAdmin,
    Admin,
}

/// The numeric code of a role.
pub open spec fn role_code(r: Role) -> u32 {
    match r {
        Role::NotVerified => 0,
        Role::User => 1,
        Role::Author => 2,
        Role::Moderator => 3,
        Role::CoAdmin => 4,
        Role::Admin => 5,
    }
}

/// The role of a numeric code; unknown codes are `NotVerified`.
pub open spec fn role_of_code(v: int) -> Role {
    if v == 1 {
        Role::User
    } else if v == 2 {
        Role::Author
    } else if v == 3 {
        Role::Moderator
    } else if v == 4 {
        Role::CoAdmin
    } else if v == 5 {
        Role::Admin
    } else {
        Role::NotVerified
    }
}

/// The display name of a role.
pub open spec fn role_name(r: Role) -> Seq<char> {
    match r {
        Role::NotVerified => "Undifined"@,
        Role::User => "User"@,
        Role::Moderator => "Moderator"@,
        Role::CoAdmin => "Co-Admin"@,
        Role::Admin => "Admin"@,
        Role::Author => "Author"@,
    }
}

impl Role {
    /// The numeric code of the role.
    pub fn code(self) -> (r: u32)
        ensures
            r == role_code(self),
    {
        match self {
            Role::NotVerified => 0,
            Role::User => 1,
            Role::Author => 2,
            Role::Moderator => 3,
            Role::CoAdmin => 4,
            Role::Admin => 5,
        }
    }

    /// The display name of the role.
    pub fn to_string(&self) -> (r: String)
        ensures
            r@ == role_name(*self),
    {
        match self {
            Role::NotVerified => String::from_str("Undifined"),
            Role::User => String::from_str("User"),
            Role::Moderator => String::from_str("Moderator"),
            Role::CoAdmin => String::from_str("Co-Admin"),
            Role::Admin => String::from_str("Admin"),
            Role::Author => String::from_str("Author"),
        }
    }

    /// The role with the display name `s`; any other text is `NotVerified`.
    pub fn from_name(s: &str) -> (r: Role)
        ensures
            r != Role::NotVerified ==> role_name(r) == s@,
            r == Role::NotVerified ==> forall|x: Role|
                x != Role::NotVerified ==> role_name(x) != s@,
    {
        let t = String::from_str(s);
        if t == String::from_str("Author") {
            Role::Author
        } else if t == String::from_str("Admin") {
            Role::Admin
        } else if t == String::from_str("Co-Admin") {
            Role::CoAdmin
        } else if t == String::from_str("Moderator") {
            Role::Moderator
        } else if t == String::from_str("User") {
            Role::User
        } else {
            Role::NotVerified
        }
    }
}

impl From<u32> for Role {
    fn from(value: u32) -> (r: Role) {
        if value == 1 {
            Role::User
        } else if value == 2 {
            Role::Author
        } else if value == 3 {
            Role::Moderator
        } else if value == 4 {
            Role::CoAdmin
        } else if value == 5 {
            Role::Admin
        } else {
            Role::NotVerified
        }
    }
}

impl vstd::std_specs::convert::FromSpecImpl<u32> for Role {
    open spec fn obeys_from_spec() -> bool {
        true
    }

    open spec fn from_spec(v: u32) -> Role {
        role_of_code(v as int)
    }
}

impl std::str::FromStr for Role {
    type Err = ();

    fn from_str(role: &str) -> Result<Role, ()> {
        Ok(Role::from_name(role))
    }
}

/// A role together with whether it applies to a single item.
/// `NotVerified` is used to reset a password.
#[derive(Clone, Copy, Debug, PartialEq, Eq, Structural)]
pub struct Kind {
    pub single: bool,
    pub kind: Role,
}

impl Kind {
    pub fn new(single: bool, kind: Role) -> (r: Kind)
        ensures
            r == (Kind { single, kind }),
    {
        Kind { single, kind }
    }

    /// The kind stored under a code of one or two decimal digits: the tens
    /// digit is the role's code, and a units digit of 1 marks `single`.
    pub fn from_code(value: u32) -> (r: Kind)
        requires
            value < 100,
        ensures
            r.kind == role_of_code(value as int / 10),
            r.single == (value % 10 == 1),
    {
        Kind { single: value % 10 == 1, kind: Role::from(value / 10) }
    }

    /// The code of the kind: ten times the role's code, plus one when `single`.
    pub fn code(self) -> (r: u32)
        ensures
            r == role_code(self.kind) * 10 + (if self.single {
                1u32
            } else {
                0u32
            }),
    {
        self.kind.code() * 10 + if self.single {
            1
        } else {
            0
        }
    }
}

/// Reading a kind's code gives back the kind.
pub proof fn lemma_kind_code_round_trip(k: Kind)
    ensures
        ({
            let c = role_code(k.kind) * 10 + (if k.single {
                1u32
            } else {
                0u32
            });
            c < 100 && role_of_code(c / 10) == k.kind && (c % 10 == 1) == k.single
        }),
{
}

/// Whether a token grants access or refreshes access.
#[derive(Clone, Copy, Debug, PartialEq, Eq, Structural)]
pub enum JwtType {
    AccessToken,
    RefreshToken,
}

/// The claims of a token: who, with which role, of which type, and when it
/// expires (milliseconds since the Unix epoch).
#[derive(Clone, Debug)]
pub struct Claim {
    pub id: String,
    pub role: Role,
    pub jwt_type: JwtType,
    pub exp: u128,
}

/// Lifetime of an access token: two minutes.
pub const ACCESS_MILLIS: u128 = 120_000;

/// Lifetime of a refresh token: sixty days.
pub const REFRESH_MILLIS: u128 = 60 * 60 * 24 * 60 * 1000;

impl Claim {
    /// Claims that expire `dur` milliseconds after `now` (milliseconds since
    /// the Unix epoch).
    pub fn new(uid: String, role: Role, jwt_type: JwtType, now: u128, dur: u128) -> (r: Claim)
        requires
            now + dur <= u128::MAX,
        ensures
            r.id == uid,
            r.role == role,
            r.jwt_type == jwt_type,
            r.exp == now + dur,
    {
        Claim { id: uid, role, exp: now + dur, jwt_type }
    }

    /// Access claims, valid for two minutes after `now`.
    pub fn new_access(uid: String, role: Role, now: u128) -> (r: Claim)
        requires
            now + ACCESS_MILLIS <= u128::MAX,
        ensures
            r.id == uid,
            r.role == role,
            r.jwt_type == JwtType::AccessToken,
            r.exp == now + ACCESS_MILLIS,
    {
        Self::new(uid, role, JwtType::AccessToken, now, ACCESS_MILLIS)
    }

    /// Refresh claims, valid for sixty days after `now`.
    pub fn new_refresh(uid: String, role: Role, now: u128) -> (r: Claim)
        requires
            now + REFRESH_MILLIS <= u128::MAX,
        ensures
            r.id == uid,
            r.role == role,
            r.jwt_type == JwtType::RefreshToken,
            r.exp == now + REFRESH_MILLIS,
    {
        Self::new(uid, role, JwtType::RefreshToken, now, REFRESH_MILLIS)
    }
}

/// An access token and a refresh token.
#[derive(Clone, Debug)]
pub struct JWTs {
    pub access_token: String,
    pub refresh_token: String,
}

pub struct LoginWithUsernameAndPassword {
    pub username: String,
    pub password: String,
}

pub struct LoginWithEmailAndPassword {
    pub email: String,
    pub password: String,
}

/// A sign-in by user name or by e-mail address.
pub enum LoginRequest {
    Username(LoginWithUsernameAndPassword),
    Email(LoginWithEmailAndPassword),
}

#[derive(Clone, Copy, Debug, PartialEq, Eq, Structural)]
pub enum Gender {
    Male,
    Female,
    Unknown,
}

impl From<usize> for Gender {
    fn from(value: usize) -> (r: Gender) {
        if value == 0 {
            Gender::Female
        } else if value == 1 {
            Gender::Male
        } else {
            Gender::Unknown
        }
    }
}

impl vstd::std_specs::convert::FromSpecImpl<usize> for Gender {
    open spec fn obeys_from_spec() -> bool {
        true
    }

    open spec fn from_spec(v: usize) -> Gender {
        if v == 0 {
            Gender::Female
        } else if v == 1 {
            Gender::Male
        } else {
            Gender::Unknown
        }
    }
}

/// A sign-up.
#[derive(Debug)]
pub struct NewUserRequest {
    pub name: String,
    pub email: String,
    pub password: String,
    pub birthdate: chrono::NaiveDate,
    pub gender: Gender,
    pub icon_temp_name: String,
}

/// Activation of an account by the key that was mailed.
pub struct ActivateRequest {
    pub key: String,
}

/// A new password, set with the key that was mailed.
pub struct ResetPasswordRequest {
    pub ident: String,
    pub email: bool,
    pub key: String,
    pub password: String,
}

/// A request for a password-reset key; `ident` is an e-mail address when
/// `email` is set, else a user name.
pub struct RequestResetPasswordRequest {
    pub ident: String,
    pub email: bool,
}

} // verus!
