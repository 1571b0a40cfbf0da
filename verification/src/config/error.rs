//! What can be wrong with a configuration, and the checks that several sections share.

use vstd::prelude::*;

use crate::grpc::routes::{GrpcRouteError, GrpcRouteErrorModel};
use crate::paths::{is_absolute, join, join_path};
use crate::routes::{RouteError, RouteErrorModel};
use crate::text::{
    append, append_decimal, char_is_ascii_alphanumeric, chars_of, contains_char, decimal,
    is_ascii_alphanumeric, join2, join3,
};
use crate::time::{seconds, Duration};

verus! {

/// Why a configuration cannot be used.
#[derive(Debug)]
pub enum ConfigError {
    Read { path: String, source: String },
    Parse { path: String, source: String },
    Invalid(String),
    Route(RouteError),
    GrpcRoute(GrpcRouteError),
}

pub enum ConfigErrorModel {
    Read { path: Seq<char>, source: Seq<char> },
    Parse { path: Seq<char>, source: Seq<char> },
    Invalid(Seq<char>),
    Route(RouteErrorModel),
    GrpcRoute(GrpcRouteErrorModel),
}

impl View for ConfigError {
    type V = ConfigErrorModel;

    open spec fn view(&self) -> ConfigErrorModel {
        match self {
            ConfigError::Read { path, source } => ConfigErrorModel::Read {
                path: path@,
                source: source@,
            },
            ConfigError::Parse { path, source } => ConfigErrorModel::Parse {
                path: path@,
                source: source@,
            },
            ConfigError::Invalid(reason) => ConfigErrorModel::Invalid(reason@),
            ConfigError::Route(e) => ConfigErrorModel::Route(e@),
            ConfigError::GrpcRoute(e) => ConfigErrorModel::GrpcRoute(e@),
        }
    }
}

impl ConfigErrorModel {
    /// The text that tells an operator what is wrong.
    pub open spec fn message(self) -> Seq<char> {
        match self {
            ConfigErrorModel::Read { path, source } => "failed to read configuration file "@ + path
                + ": "@ + source,
            ConfigErrorModel::Parse { path, source } => "failed to parse configuration file "@
                + path + ": "@ + source,
            ConfigErrorModel::Invalid(reason) => "invalid configuration: "@ + reason,
            ConfigErrorModel::Route(e) => "invalid WebSocket route configuration: "@ + e.message(),
            ConfigErrorModel::GrpcRoute(e) => "invalid gRPC route configuration: "@ + e.message(),
        }
    }
}

impl ConfigError {
    pub fn message(&self) -> (r: String)
        ensures
            r@ == self@.message(),
    {
        match self {
            ConfigError::Read { path, source } => {
                let mut s = join3("failed to read configuration file ", path, ": ");
                append(&mut s, source);
                s
            },
            ConfigError::Parse { path, source } => {
                let mut s = join3("failed to parse configuration file ", path, ": ");
                append(&mut s, source);
                s
            },
            ConfigError::Invalid(reason) => join2("invalid configuration: ", reason),
            ConfigError::Route(e) => join2("invalid WebSocket route configuration: ", &e.message()),
            ConfigError::GrpcRoute(e) => join2("invalid gRPC route configuration: ", &e.message()),
        }
    }
}

pub open spec fn zero_text(field: Seq<char>) -> Seq<char> {
    field + " must be greater than zero"@
}

pub open spec fn exceeds_text(field: Seq<char>, maximum: nat, unit: Seq<char>) -> Seq<char> {
    field + " must not exceed "@ + decimal(maximum) + unit
}

/// What is wrong with a number that must be between one and `maximum`, if anything.
pub open spec fn range_error(
    field: Seq<char>,
    value: nat,
    maximum: nat,
    unit: Seq<char>,
) -> Option<ConfigErrorModel> {
    if value == 0 {
        Some(ConfigErrorModel::Invalid(zero_text(field)))
    } else if value > maximum {
        Some(ConfigErrorModel::Invalid(exceeds_text(field, maximum, unit)))
    } else {
        None
    }
}

fn check_range(field: &str, value: u64, maximum: u64, unit: &str) -> (r: Option<ConfigError>)
    ensures
        match r {
            Some(e) => range_error(field@, value as nat, maximum as nat, unit@) == Some(e@),
            None => range_error(field@, value as nat, maximum as nat, unit@) is None,
        },
{
    if value == 0 {
        return Some(ConfigError::Invalid(join2(field, " must be greater than zero")));
    }
    if value > maximum {
        let mut s = join2(field, " must not exceed ");
        append_decimal(&mut s, maximum as u128);
        append(&mut s, unit);
        return Some(ConfigError::Invalid(s));
    }
    None
}

pub open spec fn seconds_error(field: Seq<char>, value: nat, maximum: nat) -> Option<
    ConfigErrorModel,
> {
    range_error(field, value, maximum, " seconds"@)
}

pub fn validate_seconds(field: &str, value: u64, maximum: u64) -> (r: Result<
    Duration,
    ConfigError,
>)
    ensures
        match r {
            Ok(span) => seconds_error(field@, value as nat, maximum as nat) is None && span@
                == seconds(value as nat),
            Err(e) => seconds_error(field@, value as nat, maximum as nat) == Some(e@),
        },
{
    match check_range(field, value, maximum, " seconds") {
        Some(e) => Err(e),
        None => Ok(Duration::from_secs(value)),
    }
}

pub open spec fn size_error(field: Seq<char>, value: nat, maximum: nat) -> Option<
    ConfigErrorModel,
> {
    range_error(field, value, maximum, " bytes"@)
}

pub fn validate_size(field: &str, value: usize, maximum: usize) -> (r: Result<usize, ConfigError>)
    ensures
        match r {
            Ok(size) => size_error(field@, value as nat, maximum as nat) is None && size == value,
            Err(e) => size_error(field@, value as nat, maximum as nat) == Some(e@),
        },
{
    match check_range(field, value as u64, maximum as u64, " bytes") {
        Some(e) => Err(e),
        None => Ok(value),
    }
}

pub open spec fn count_error(field: Seq<char>, value: nat, maximum: nat) -> Option<
    ConfigErrorModel,
> {
    range_error(field, value, maximum, ""@)
}

pub fn validate_count(field: &str, value: usize, maximum: usize) -> (r: Result<usize, ConfigError>)
    ensures
        match r {
            Ok(count) => count_error(field@, value as nat, maximum as nat) is None && count
                == value,
            Err(e) => count_error(field@, value as nat, maximum as nat) == Some(e@),
        },
{
    match check_range(field, value as u64, maximum as u64, "") {
        Some(e) => Err(e),
        None => Ok(value),
    }
}

pub open spec fn empty_text(field: Seq<char>) -> Seq<char> {
    field + " must not be empty"@
}

/// What is wrong with a path, if anything.
pub open spec fn path_error(field: Seq<char>, path: Seq<char>) -> Option<ConfigErrorModel> {
    if path.len() == 0 {
        Some(ConfigErrorModel::Invalid(empty_text(field)))
    } else {
        None
    }
}

pub fn validate_path(field: &str, path: &str) -> (r: Result<(), ConfigError>)
    ensures
        match r {
            Ok(_) => path_error(field@, path@) is None,
            Err(e) => path_error(field@, path@) == Some(e@),
        },
{
    if path.is_empty() {
        return Err(ConfigError::Invalid(join2(field, " must not be empty")));
    }
    Ok(())
}

/// What is wrong with the suffix of a file name, if anything.
pub open spec fn suffix_error(field: Seq<char>, suffix: Seq<char>) -> Option<ConfigErrorModel> {
    if suffix.len() == 0 {
        Some(ConfigErrorModel::Invalid(empty_text(field)))
    } else if suffix.contains('/') || suffix.contains('\\') {
        Some(ConfigErrorModel::Invalid(field + " must be a filename suffix, not a path"@))
    } else {
        None
    }
}

pub fn validate_suffix(field: &str, suffix: &str) -> (r: Result<(), ConfigError>)
    ensures
        match r {
            Ok(_) => suffix_error(field@, suffix@) is None,
            Err(e) => suffix_error(field@, suffix@) == Some(e@),
        },
{
    if suffix.is_empty() {
        return Err(ConfigError::Invalid(join2(field, " must not be empty")));
    }
    if contains_char(suffix, '/') || contains_char(suffix, '\\') {
        return Err(ConfigError::Invalid(join2(field, " must be a filename suffix, not a path")));
    }
    Ok(())
}

pub open spec fn is_certificate_id_char(c: char) -> bool {
    is_ascii_alphanumeric(c) || c == '-' || c == '_' || c == '.'
}

/// A text of letters, digits, dots, hyphens and underscores.
pub open spec fn is_certificate_id(id: Seq<char>) -> bool {
    id.len() > 0 && forall|i: int| 0 <= i < id.len() ==> is_certificate_id_char(#[trigger] id[i])
}

/// What is wrong with the id of a certificate, if anything.
pub open spec fn certificate_id_error(field: Seq<char>, id: Seq<char>) -> Option<
    ConfigErrorModel,
> {
    if id.len() == 0 {
        Some(ConfigErrorModel::Invalid(empty_text(field)))
    } else if !is_certificate_id(id) {
        Some(
            ConfigErrorModel::Invalid(
                field + " may contain only ASCII letters, digits, '.', '-' and '_'"@,
            ),
        )
    } else {
        None
    }
}

pub fn validate_certificate_id(field: &str, id: &str) -> (r: Result<(), ConfigError>)
    ensures
        match r {
            Ok(_) => certificate_id_error(field@, id@) is None,
            Err(e) => certificate_id_error(field@, id@) == Some(e@),
        },
{
    if id.is_empty() {
        return Err(ConfigError::Invalid(join2(field, " must not be empty")));
    }
    let v = chars_of(id);
    let mut i: usize = 0;
    while i < v.len()
        invariant
            i <= v@.len(),
            v@ == id@,
            id@.len() > 0,
            forall|j: int| 0 <= j < i ==> is_certificate_id_char(#[trigger] v@[j]),
        decreases v@.len() - i,
    {
        let c = v[i];
        if !(char_is_ascii_alphanumeric(c) || c == '-' || c == '_' || c == '.') {
            assert(!is_certificate_id_char(id@[i as int]));
            return Err(
                ConfigError::Invalid(
                    join2(field, " may contain only ASCII letters, digits, '.', '-' and '_'"),
                ),
            );
        }
        i += 1;
    }
    Ok(())
}

/// A path of the file as seen from the directory that the file stands in.
pub fn resolve_config_path(config_directory: &str, path: &str) -> (r: String)
    ensures
        r@ == join(config_directory@, path@),
        is_absolute(path@) ==> r@ == path@,
{
    join_path(config_directory, path)
}

/// A number is accepted exactly from one up to its maximum; zero and what is too large are told
/// apart, by the name of the field.
pub proof fn law_numbers_are_within_their_maximum(field: Seq<char>, value: nat, maximum: nat)
    ensures
        seconds_error(field, value, maximum) is None <==> 1 <= value <= maximum,
        size_error(field, value, maximum) is None <==> 1 <= value <= maximum,
        count_error(field, value, maximum) is None <==> 1 <= value <= maximum,
        ({
            let zero = Some(ConfigErrorModel::Invalid(field + " must be greater than zero"@));
            value == 0 ==> seconds_error(field, value, maximum) == zero && size_error(
                field,
                value,
                maximum,
            ) == zero && count_error(field, value, maximum) == zero
        }),
        value > maximum && value > 0 ==> {
            let limit = field + " must not exceed "@ + decimal(maximum);
            &&& seconds_error(field, value, maximum) == Some(
                ConfigErrorModel::Invalid(limit + " seconds"@),
            )
            &&& size_error(field, value, maximum) == Some(
                ConfigErrorModel::Invalid(limit + " bytes"@),
            )
            &&& count_error(field, value, maximum) == Some(ConfigErrorModel::Invalid(limit))
        },
{
    reveal_strlit("");
    let limit = field + " must not exceed "@ + decimal(maximum);
    assert(limit + ""@ =~= limit);
}

/// A path is accepted unless it is empty.
pub proof fn law_paths_are_not_empty(field: Seq<char>, path: Seq<char>)
    ensures
        path.len() > 0 ==> path_error(field, path) is None,
        path.len() == 0 ==> path_error(field, path) == Some(
            ConfigErrorModel::Invalid(field + " must not be empty"@),
        ),
{
}

/// A suffix is accepted where it is not empty and holds neither kind of slash.
pub proof fn law_suffixes_are_no_paths(field: Seq<char>, suffix: Seq<char>)
    ensures
        suffix_error(field, suffix) is None <==> suffix.len() > 0 && !suffix.contains('/')
            && !suffix.contains('\\'),
        suffix.len() == 0 ==> suffix_error(field, suffix) == Some(
            ConfigErrorModel::Invalid(field + " must not be empty"@),
        ),
        suffix.contains('/') || suffix.contains('\\') ==> suffix_error(field, suffix) == Some(
            ConfigErrorModel::Invalid(field + " must be a filename suffix, not a path"@),
        ),
{
}

/// The id of a certificate is accepted where it is not empty and made of letters, digits, dots,
/// hyphens and underscores.
pub proof fn law_certificate_ids(field: Seq<char>, id: Seq<char>)
    ensures
        certificate_id_error(field, id) is None <==> id.len() > 0 && forall|i: int|
            0 <= i < id.len() ==> {
                let c = #[trigger] id[i];
                'a' <= c <= 'z' || 'A' <= c <= 'Z' || '0' <= c <= '9' || c == '.' || c == '-' || c
                    == '_'
            },
        id.len() == 0 ==> certificate_id_error(field, id) == Some(
            ConfigErrorModel::Invalid(field + " must not be empty"@),
        ),
        id.len() > 0 && certificate_id_error(field, id) is Some ==> certificate_id_error(field, id)
            == Some(
            ConfigErrorModel::Invalid(
                field + " may contain only ASCII letters, digits, '.', '-' and '_'"@,
            ),
        ),
{
    let listed = forall|i: int|
        0 <= i < id.len() ==> {
            let c = #[trigger] id[i];
            'a' <= c <= 'z' || 'A' <= c <= 'Z' || '0' <= c <= '9' || c == '.' || c == '-' || c == '_'
        };
    if listed {
        assert(forall|i: int| 0 <= i < id.len() ==> is_certificate_id_char(#[trigger] id[i]));
    }
    if is_certificate_id(id) {
        assert forall|i: int| 0 <= i < id.len() implies {
            let c = #[trigger] id[i];
            'a' <= c <= 'z' || 'A' <= c <= 'Z' || '0' <= c <= '9' || c == '.' || c == '-' || c == '_'
        } by {
            assert(is_certificate_id_char(id[i]));
        }
    }
}

/// What an operator is told: the file that could not be read or parsed and why, or what is invalid.
pub proof fn law_messages_tell_what_is_wrong(
    path: Seq<char>,
    source: Seq<char>,
    route: RouteErrorModel,
    grpc_route: GrpcRouteErrorModel,
)
    ensures
        (ConfigErrorModel::Read { path, source }).message() == "failed to read configuration file "@
            + path + ": "@ + source,
        (ConfigErrorModel::Parse { path, source }).message()
            == "failed to parse configuration file "@ + path + ": "@ + source,
        ConfigErrorModel::Invalid(source).message() == "invalid configuration: "@ + source,
        ConfigErrorModel::Route(route).message() == "invalid WebSocket route configuration: "@
            + route.message(),
        ConfigErrorModel::GrpcRoute(grpc_route).message() == "invalid gRPC route configuration: "@
            + grpc_route.message(),
{
}

} // verus!
