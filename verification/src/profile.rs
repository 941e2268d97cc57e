use vstd::prelude::*;

use crate::error::{Error, ErrorView};

verus! {

/// Where a profile came from: imported from the CC-Switch database, or
/// created by hand through the interactive path.
#[derive(Debug, Clone, Copy, PartialEq, Eq, Structural)]
pub enum ProfileSource {
    CcSwitch,
    Manual,
}

/// Permission granted (or withheld) for one MCP server.
#[derive(Debug, PartialEq)]
pub struct McpPermission {
    pub name: String,
    pub enabled: Option<bool>,
}

pub struct McpPermissionView {
    pub name: Seq<char>,
    pub enabled: Option<bool>,
}

impl View for McpPermission {
    type V = McpPermissionView;

    open spec fn view(&self) -> McpPermissionView {
        McpPermissionView { name: self.name@, enabled: self.enabled }
    }
}

impl DeepView for McpPermission {
    type V = McpPermissionView;

    open spec fn deep_view(&self) -> McpPermissionView {
        self.view()
    }
}

impl Clone for McpPermission {
    fn clone(&self) -> (res: Self)
        ensures
            res@ == self@,
    {
        McpPermission { name: self.name.clone(), enabled: self.enabled }
    }
}

/// The permission settings of a profile.
#[derive(Debug, PartialEq)]
pub struct Permissions {
    pub enabled: Option<bool>,
    pub mcp: Option<Vec<McpPermission>>,
    pub command: Option<Vec<String>>,
}

pub struct PermissionsView {
    pub enabled: Option<bool>,
    pub mcp: Option<Seq<McpPermissionView>>,
    pub command: Option<Seq<Seq<char>>>,
}

impl View for Permissions {
    type V = PermissionsView;

    open spec fn view(&self) -> PermissionsView {
        PermissionsView {
            enabled: self.enabled,
            mcp: self.mcp.deep_view(),
            command: self.command.deep_view(),
        }
    }
}

/// The permission settings that a freshly defaulted profile carries: nothing
/// set.
pub open spec fn default_permissions_view() -> PermissionsView {
    PermissionsView { enabled: None, mcp: None, command: None }
}

impl Default for Permissions {
    fn default() -> (res: Self)
        ensures
            res@ == default_permissions_view(),
    {
        Permissions { enabled: None, mcp: None, command: None }
    }
}

impl Clone for Permissions {
    fn clone(&self) -> (res: Self)
        ensures
            res@ == self@,
    {
        let mcp = match &self.mcp {
            Some(v) => Some(clone_mcp_vec(v)),
            None => None,
        };
        let command = match &self.command {
            Some(v) => Some(clone_string_vec(v)),
            None => None,
        };
        Permissions { enabled: self.enabled, mcp, command }
    }
}

/// A named bundle of environment variables and behavioural settings for the
/// external executable.
///
/// Timestamps are milliseconds since the Unix epoch, UTC.
#[derive(Debug, PartialEq)]
pub struct Profile {
    pub name: String,
    pub display_name: Option<String>,
    pub env: Vec<(String, String)>,
    pub permissions: Permissions,
    pub enabled_plugins: Option<Vec<(String, bool)>>,
    pub always_thinking_enabled: Option<bool>,
    pub api_timeout_ms: Option<u64>,
    pub category: Option<String>,
    pub source: Option<ProfileSource>,
    pub created_at: i64,
    pub updated_at: i64,
}

pub struct ProfileView {
    pub name: Seq<char>,
    pub display_name: Option<Seq<char>>,
    pub env: Seq<(Seq<char>, Seq<char>)>,
    pub permissions: PermissionsView,
    pub enabled_plugins: Option<Seq<(Seq<char>, bool)>>,
    pub always_thinking_enabled: Option<bool>,
    pub api_timeout_ms: Option<u64>,
    pub category: Option<Seq<char>>,
    pub source: Option<ProfileSource>,
    pub created_at: i64,
    pub updated_at: i64,
}

impl View for Profile {
    type V = ProfileView;

    open spec fn view(&self) -> ProfileView {
        ProfileView {
            name: self.name@,
            display_name: self.display_name.deep_view(),
            env: self.env.deep_view(),
            permissions: self.permissions@,
            enabled_plugins: self.enabled_plugins.deep_view(),
            always_thinking_enabled: self.always_thinking_enabled,
            api_timeout_ms: self.api_timeout_ms,
            category: self.category.deep_view(),
            source: self.source,
            created_at: self.created_at,
            updated_at: self.updated_at,
        }
    }
}

impl DeepView for Profile {
    type V = ProfileView;

    open spec fn deep_view(&self) -> ProfileView {
        self.view()
    }
}

impl Clone for Profile {
    fn clone(&self) -> (res: Self)
        ensures
            res@ == self@,
    {
        let enabled_plugins = match &self.enabled_plugins {
            Some(v) => Some(clone_string_bool_vec(v)),
            None => None,
        };
        let res = Profile {
            name: self.name.clone(),
            display_name: clone_opt_string(&self.display_name),
            env: clone_env_vec(&self.env),
            permissions: self.permissions.clone(),
            enabled_plugins,
            always_thinking_enabled: self.always_thinking_enabled,
            api_timeout_ms: self.api_timeout_ms,
            category: clone_opt_string(&self.category),
            source: self.source,
            created_at: self.created_at,
            updated_at: self.updated_at,
        };
        res
    }
}

fn clone_opt_string(v: &Option<String>) -> (r: Option<String>)
    ensures
        r.deep_view() == v.deep_view(),
{
    match v {
        Some(s) => Some(s.clone()),
        None => None,
    }
}

fn clone_string_vec(v: &Vec<String>) -> (r: Vec<String>)
    ensures
        r@ == v@,
{
    let mut r: Vec<String> = Vec::new();
    let mut i: usize = 0;
    while i < v.len()
        invariant
            i <= v.len(),
            r@ =~= v@.take(i as int),
        decreases v.len() - i,
    {
        r.push(v[i].clone());
        i += 1;
    }
    proof {
        assert(v@.take(v@.len() as int) =~= v@);
    }
    r
}

fn clone_mcp_vec(v: &Vec<McpPermission>) -> (r: Vec<McpPermission>)
    ensures
        r.deep_view() == v.deep_view(),
{
    let mut r: Vec<McpPermission> = Vec::new();
    let mut i: usize = 0;
    while i < v.len()
        invariant
            i <= v.len(),
            r@.len() == i,
            forall|k: int| 0 <= k < i ==> r@[k]@ == v@[k]@,
        decreases v.len() - i,
    {
        let cl = v[i].clone();
        r.push(cl);
        i += 1;
    }
    proof {
        assert forall|k: int| 0 <= k < v@.len() implies r.deep_view()[k] == v.deep_view()[k] by {
            assert(r@[k]@ == v@[k]@);
        }
        assert(r.deep_view() =~= v.deep_view());
    }
    r
}

fn clone_env_vec(v: &Vec<(String, String)>) -> (r: Vec<(String, String)>)
    ensures
        r@ == v@,
{
    let mut r: Vec<(String, String)> = Vec::new();
    let mut i: usize = 0;
    while i < v.len()
        invariant
            i <= v.len(),
            r@ =~= v@.take(i as int),
        decreases v.len() - i,
    {
        let kv = (v[i].0.clone(), v[i].1.clone());
        r.push(kv);
        i += 1;
    }
    proof {
        assert(v@.take(v@.len() as int) =~= v@);
    }
    r
}

fn clone_string_bool_vec(v: &Vec<(String, bool)>) -> (r: Vec<(String, bool)>)
    ensures
        r@ == v@,
{
    let mut r: Vec<(String, bool)> = Vec::new();
    let mut i: usize = 0;
    while i < v.len()
        invariant
            i <= v.len(),
            r@ =~= v@.take(i as int),
        decreases v.len() - i,
    {
        let kv = (v[i].0.clone(), v[i].1);
        r.push(kv);
        i += 1;
    }
    proof {
        assert(v@.take(v@.len() as int) =~= v@);
    }
    r
}

/// A profile name may serve as a path segment under the configuration
/// directory: it is non-empty, not the current-directory marker, and free of
/// path separators.
pub open spec fn valid_name(s: Seq<char>) -> bool {
    &&& s.len() > 0
    &&& s != seq!['.']
    &&& forall|i: int| 0 <= i < s.len() ==> s[i] != '/' && s[i] != '\\'
}

/// Whether `s` is acceptable as a profile name.
pub fn name_ok(s: &str) -> (r: bool)
    ensures
        r == valid_name(s@),
{
    let n = s.unicode_len();
    if n == 0 {
        return false;
    }
    if n == 1 && s.get_char(0) == '.' {
        proof {
            assert(s@ =~= seq!['.']);
        }
        return false;
    }
    let mut i: usize = 0;
    while i < n
        invariant
            i <= n,
            n == s@.len(),
            forall|k: int| 0 <= k < i ==> s@[k] != '/' && s@[k] != '\\',
        decreases n - i,
    {
        let c = s.get_char(i);
        if c == '/' || c == '\\' {
            return false;
        }
        i += 1;
    }
    proof {
        if s@ == seq!['.'] {
            assert(s@.len() == 1);
            assert(s@[0] == '.');
        }
    }
    true
}

/// A name with every space turned into an underscore: the canonical form a
/// synced profile is stored under.
pub open spec fn normalized(s: Seq<char>) -> Seq<char> {
    s.map_values(|c: char| if c == ' ' { '_' } else { c })
}

/// Replaces every space in `s` with an underscore.
pub fn normalize_name(s: &str) -> (r: String)
    ensures
        r@ == normalized(s@),
{
    let n = s.unicode_len();
    let mut r = String::new();
    let mut i: usize = 0;
    while i < n
        invariant
            i <= n,
            n == s@.len(),
            r@ =~= normalized(s@.take(i as int)),
        decreases n - i,
    {
        let c = s.get_char(i);
        if c == ' ' {
            r.append("_");
            proof {
                reveal_strlit("_");
                assert(normalized(s@.take(i + 1)) =~= normalized(s@.take(i as int)) + "_"@);
            }
        } else {
            let piece = s.substring_char(i, i + 1);
            r.append(piece);
            proof {
                assert(normalized(s@.take(i + 1)) =~= normalized(s@.take(i as int)) + piece@);
            }
        }
        i += 1;
    }
    proof {
        assert(s@.take(n as int) =~= s@);
    }
    r
}

/// Whether chrono can represent a millisecond timestamp as a UTC datetime.
/// The result depends on the number alone.
pub uninterp spec fn ms_in_chrono_range(ms: i64) -> bool;

/// Relies on chrono's `DateTime::<Utc>::from_timestamp_millis`, which returns
/// `Some` exactly on the milliseconds it can represent.
#[verifier::external_body]
fn timestamp_ms_representable(ms: i64) -> (r: bool)
    ensures
        r == ms_in_chrono_range(ms),
{
    chrono::DateTime::<chrono::Utc>::from_timestamp_millis(ms).is_some()
}

/// A candidate profile built from one row of the external source: the raw
/// fetched `name` (normalisation happens during the merge), the settings
/// embedded in the row, and the row's creation time. A creation time chrono
/// cannot represent falls back to `now_ms`, the caller's current time.
pub fn candidate_from_row(
    name: &str,
    env: Vec<(String, String)>,
    permissions: Option<Permissions>,
    enabled_plugins: Option<Vec<(String, bool)>>,
    always_thinking_enabled: Option<bool>,
    api_timeout_ms: Option<u64>,
    created_at_ms: i64,
    now_ms: i64,
) -> (r: Profile)
    ensures
        r@.name == name@,
        r@.display_name == Some(name@),
        r@.env == env.deep_view(),
        r@.permissions == (match permissions {
            Some(p) => p@,
            None => default_permissions_view(),
        }),
        r@.enabled_plugins == enabled_plugins.deep_view(),
        r@.always_thinking_enabled == always_thinking_enabled,
        r@.api_timeout_ms == api_timeout_ms,
        r@.category is None,
        r@.source == Some(ProfileSource::CcSwitch),
        r@.created_at == (if ms_in_chrono_range(created_at_ms) {
            created_at_ms
        } else {
            now_ms
        }),
        r@.updated_at == r@.created_at,
{
    let created_at = if timestamp_ms_representable(created_at_ms) {
        created_at_ms
    } else {
        now_ms
    };
    let permissions = match permissions {
        Some(p) => p,
        None => Permissions::default(),
    };
    Profile {
        name: name.to_owned(),
        display_name: Some(name.to_owned()),
        env,
        permissions,
        enabled_plugins,
        always_thinking_enabled,
        api_timeout_ms,
        category: None,
        source: Some(ProfileSource::CcSwitch),
        created_at,
        updated_at: created_at,
    }
}

/// A manually created profile assembled from the user's edited settings:
/// fields the user supplied win, absent ones fall back to the defaults
/// (no display name, empty permissions, `manual` provenance, timestamps set
/// to `now_ms`).
///
/// Rejected with a `ConfigError` when the name cannot serve as a path
/// segment, or when no environment variable is configured.
pub fn manual_profile_from_input(
    name: &str,
    display_name: Option<String>,
    env: Vec<(String, String)>,
    permissions: Option<Permissions>,
    enabled_plugins: Option<Vec<(String, bool)>>,
    always_thinking_enabled: Option<bool>,
    api_timeout_ms: Option<u64>,
    category: Option<String>,
    source: Option<ProfileSource>,
    created_at_ms: Option<i64>,
    now_ms: i64,
) -> (r: Result<Profile, Error>)
    ensures
        r is Err <==> !valid_name(name@) || env.deep_view().len() == 0,
        !valid_name(name@) ==> (r matches Err(e) && e@ == ErrorView::ConfigError(
            "Invalid profile name"@,
        )),
        valid_name(name@) && env.deep_view().len() == 0 ==> (r matches Err(e) && e@
            == ErrorView::ConfigError("No environment variables configured"@)),
        r matches Ok(p) ==> {
            &&& p@.name == name@
            &&& p@.display_name == display_name.deep_view()
            &&& p@.env == env.deep_view()
            &&& p@.permissions == (match permissions {
                Some(q) => q@,
                None => default_permissions_view(),
            })
            &&& p@.enabled_plugins == enabled_plugins.deep_view()
            &&& p@.always_thinking_enabled == always_thinking_enabled
            &&& p@.api_timeout_ms == api_timeout_ms
            &&& p@.category == category.deep_view()
            &&& p@.source == (match source {
                Some(s) => Some(s),
                None => Some(ProfileSource::Manual),
            })
            &&& p@.created_at == (match created_at_ms {
                Some(ms) => ms,
                None => now_ms,
            })
            &&& p@.updated_at == now_ms
        },
{
    if !name_ok(name) {
        return Err(Error::ConfigError(String::from_str("Invalid profile name")));
    }
    if env.len() == 0 {
        return Err(Error::ConfigError(String::from_str("No environment variables configured")));
    }
    let permissions = match permissions {
        Some(p) => p,
        None => Permissions::default(),
    };
    let created_at = match created_at_ms {
        Some(ms) => ms,
        None => now_ms,
    };
    let source = match source {
        Some(s) => Some(s),
        None => Some(ProfileSource::Manual),
    };
    Ok(Profile {
        name: name.to_owned(),
        display_name,
        env,
        permissions,
        enabled_plugins,
        always_thinking_enabled,
        api_timeout_ms,
        category,
        source,
        created_at,
        updated_at: now_ms,
    })
}

} // verus!
