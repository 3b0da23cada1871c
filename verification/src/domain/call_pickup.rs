//! Call pickup: answering calls that ring at other extensions, by directed
//! pickup (a given extension), group pickup (within a pickup group), BLF pickup
//! (a monitored extension) or, for administrators, any ringing call.
use vstd::prelude::*;
use crate::domain::shared::system::{elapsed_seconds, is_v4_uuid, new_uuid, now_millis, seconds_between};
use crate::domain::shared::stats::{average_of, average_time};
use crate::store::{has_key, lemma_lookup_absent, KeyOf, Keyed, Store};

verus! {

/// Call pickup type.
#[derive(Debug, Clone, Copy, PartialEq, Eq, Structural)]
pub enum PickupType {
    /// Pickup specific extension's ringing call (directed pickup)
    Directed,
    /// Pickup any call in user's pickup group
    Group,
    /// Pickup any ringing call in the system (admin feature)
    Any,
    /// Pickup via BLF (Busy Lamp Field) monitoring
    Blf,
}

impl PickupType {
    /// Description text.
    pub open spec fn spec_description(self) -> Seq<char> {
        match self {
            PickupType::Directed => "Directed pickup (specific extension)"@,
            PickupType::Group => "Group pickup (within group)"@,
            PickupType::Any => "Pickup any call (admin)"@,
            PickupType::Blf => "BLF pickup (monitored extension)"@,
        }
    }

    /// Dial code prefix.
    pub open spec fn spec_dial_code(self) -> Seq<char> {
        match self {
            PickupType::Directed => "*8"@,
            PickupType::Group => "*9"@,
            PickupType::Any => "*10"@,
            PickupType::Blf => "*11"@,
        }
    }

    /// Description of the pickup type.
    pub fn description(&self) -> (r: &'static str)
        ensures
            r@ == self.spec_description(),
    {
        match self {
            PickupType::Directed => "Directed pickup (specific extension)",
            PickupType::Group => "Group pickup (within group)",
            PickupType::Any => "Pickup any call (admin)",
            PickupType::Blf => "BLF pickup (monitored extension)",
        }
    }

    /// Dial code prefix for this pickup type (`*8<extension>`, `*9`, `*10`, `*11<extension>`).
    pub fn dial_code(&self) -> (r: &'static str)
        ensures
            r@ == self.spec_dial_code(),
    {
        match self {
            PickupType::Directed => "*8",
            PickupType::Group => "*9",
            PickupType::Any => "*10",
            PickupType::Blf => "*11",
        }
    }
}

/// Some string among the first `n` of `v` has the characters `u`.
pub open spec fn in_prefix(v: Seq<String>, n: int, u: Seq<char>) -> bool {
    exists|k: int| 0 <= k < n && #[trigger] v[k]@ == u
}

/// Pickup group configuration.
#[derive(Debug)]
pub struct PickupGroup {
    /// Unique group identifier
    pub id: u128,
    /// Group name
    pub name: String,
    /// Group description
    pub description: Option<String>,
    /// Members (user IDs or extensions), each once
    pub members: Store<String>,
    /// Whether the group is enabled
    pub enabled: bool,
    /// Created timestamp (milliseconds since the epoch)
    pub created_at: i64,
    /// Updated timestamp (milliseconds since the epoch)
    pub updated_at: i64,
}

impl Keyed for PickupGroup {
    type Key = u128;

    open spec fn key(&self) -> u128 {
        self.id
    }

    open spec fn inv(&self) -> bool {
        self.wf()
    }

    fn key_ref(&self) -> (r: &u128) {
        let r = &self.id;
        assert(r.kv() == *r);
        r
    }
}

impl PickupGroup {
    /// The member set is well formed.
    pub open spec fn wf(&self) -> bool {
        self.members.wf()
    }

    /// Whether `user` is a member.
    pub open spec fn spec_has_member(&self, user: Seq<char>) -> bool {
        self.members.contains(user)
    }

    /// A new, enabled group without members or description.
    pub fn new(name: String) -> (r: Self)
        ensures
            r.wf(),
            is_v4_uuid(r.id),
            r.name == name,
            r.description is None,
            r.members.items().len() == 0,
            r.enabled,
            r.created_at == r.updated_at,
    {
        let now = now_millis();
        PickupGroup {
            id: new_uuid(),
            name,
            description: None,
            members: Store::new(),
            enabled: true,
            created_at: now,
            updated_at: now,
        }
    }

    /// The group with a description.
    pub fn with_description(self, description: String) -> (r: Self)
        ensures
            r == (PickupGroup { description: Some(description), ..self }),
    {
        PickupGroup { description: Some(description), ..self }
    }

    /// The group with exactly the given members (each once).
    pub fn with_members(self, members: Vec<String>) -> (r: Self)
        ensures
            r.wf(),
            forall|u: Seq<char>| r.spec_has_member(u) <==> in_prefix(members@, members@.len() as int, u),
            r.id == self.id,
            r.name == self.name,
            r.description == self.description,
            r.enabled == self.enabled,
            r.created_at == self.created_at,
            r.updated_at == self.updated_at,
    {
        let mut set: Store<String> = Store::new();
        let mut i: usize = 0;
        proof {
            assert forall|u: Seq<char>| !set.contains(u) by {
                lemma_lookup_absent(set.items(), u);
            }
        }
        while i < members.len()
            invariant
                set.wf(),
                i <= members@.len(),
                forall|u: Seq<char>| set.contains(u) <==> in_prefix(members@, i as int, u),
            decreases members.len() - i,
        {
            let m = members[i].clone();
            let ghost mv = m@;
            let ghost old_set = set;
            assert(forall|u: Seq<char>| old_set.contains(u) <==> in_prefix(members@, i as int, u));
            assert(mv == members@[i as int]@);
            assert(m.key() == mv);
            set.insert(m);
            proof {
                assert forall|u: Seq<char>| set.contains(u) <==> in_prefix(members@, i + 1, u) by {
                    if u == mv {
                        assert(set.contains(u));
                        assert(members@[i as int]@ == u);
                        assert(in_prefix(members@, i + 1, u));
                    } else {
                        assert(set.get_spec(u) == old_set.get_spec(u));
                        assert(old_set.contains(u) <==> in_prefix(members@, i as int, u));
                        if in_prefix(members@, i + 1, u) {
                            let k = choose|k: int| 0 <= k < i + 1 && #[trigger] members@[k]@ == u;
                            assert(k < i);
                            assert(in_prefix(members@, i as int, u));
                        }
                        if in_prefix(members@, i as int, u) {
                            let k = choose|k: int| 0 <= k < i && #[trigger] members@[k]@ == u;
                            assert(in_prefix(members@, i + 1, u));
                        }
                    }
                }
            }
            i = i + 1;
        }
        PickupGroup { members: set, ..self }
    }

    /// The group, disabled.
    pub fn disabled(self) -> (r: Self)
        ensures
            r == (PickupGroup { enabled: false, ..self }),
    {
        PickupGroup { enabled: false, ..self }
    }

    /// Adds a member; true when it was not a member before. The update time
    /// is read from the clock.
    pub fn add_member(&mut self, user_id: String) -> (r: bool)
        requires
            old(self).wf(),
        ensures
            final(self).wf(),
            r == !old(self).spec_has_member(user_id@),
            forall|u: Seq<char>| final(self).spec_has_member(u) <==> (old(self).spec_has_member(u) || u == user_id@),
            final(self).members.items().len() == old(self).members.items().len() + (if r { 1int } else { 0 }),
            final(self).id == old(self).id,
            final(self).name == old(self).name,
            final(self).description == old(self).description,
            final(self).enabled == old(self).enabled,
            final(self).created_at == old(self).created_at,
    {
        self.updated_at = now_millis();
        let r = self.members.insert(user_id);
        r.is_none()
    }

    /// Removes a member; true when it was a member. The update time is read
    /// from the clock.
    pub fn remove_member(&mut self, user_id: &str) -> (r: bool)
        requires
            old(self).wf(),
        ensures
            final(self).wf(),
            r == old(self).spec_has_member(user_id@),
            forall|u: Seq<char>| final(self).spec_has_member(u) <==> (old(self).spec_has_member(u) && u != user_id@),
            final(self).members.items().len() == old(self).members.items().len() - (if r { 1int } else { 0 }),
            final(self).id == old(self).id,
            final(self).name == old(self).name,
            final(self).description == old(self).description,
            final(self).enabled == old(self).enabled,
            final(self).created_at == old(self).created_at,
    {
        self.updated_at = now_millis();
        let r = self.members.remove(user_id);
        r.is_some()
    }

    /// Whether `user_id` is a member.
    pub fn has_member(&self, user_id: &str) -> (r: bool)
        requires
            self.wf(),
        ensures
            r == self.spec_has_member(user_id@),
    {
        self.members.get(user_id).is_some()
    }

    /// Number of members.
    pub fn member_count(&self) -> (r: usize)
        ensures
            r == self.members.items().len(),
    {
        self.members.len()
    }

    /// A copy of the group.
    pub fn duplicate(&self) -> (r: Self)
        ensures
            r.id == self.id,
            r.name == self.name,
            r.description == self.description,
            r.members.items() == self.members.items(),
            r.enabled == self.enabled,
            r.created_at == self.created_at,
            r.updated_at == self.updated_at,
    {
        PickupGroup {
            id: self.id,
            name: self.name.clone(),
            description: match &self.description {
                Some(d) => Some(d.clone()),
                None => None,
            },
            members: self.members.duplicate(),
            enabled: self.enabled,
            created_at: self.created_at,
            updated_at: self.updated_at,
        }
    }
}

/// Two groups agree on every field, members included.
pub open spec fn same_group(a: PickupGroup, b: PickupGroup) -> bool {
    &&& a.id == b.id
    &&& a.name == b.name
    &&& a.description == b.description
    &&& a.members.items() == b.members.items()
    &&& a.enabled == b.enabled
    &&& a.created_at == b.created_at
    &&& a.updated_at == b.updated_at
}

/// Ringing call information for pickup.
#[derive(Debug, Clone)]
pub struct RingingCall {
    /// Call ID
    pub call_id: String,
    /// Target extension (who is being called)
    pub target_extension: String,
    /// Caller ID
    pub caller_id: String,
    /// Caller display name
    pub caller_name: Option<String>,
    /// When the call started ringing (milliseconds since the epoch)
    pub ringing_since: i64,
    /// Pickup group (if target is in a group)
    pub pickup_group_id: Option<u128>,
    /// Whether this call can be picked up via BLF
    pub blf_enabled: bool,
}

impl Keyed for RingingCall {
    type Key = str;

    open spec fn key(&self) -> Seq<char> {
        self.call_id@
    }

    open spec fn inv(&self) -> bool {
        true
    }

    fn key_ref(&self) -> (r: &str) {
        let r = self.call_id.as_str();
        assert(r.kv() == r@);
        r
    }
}

impl RingingCall {
    /// A call ringing since now, in no group, open to BLF pickup.
    pub fn new(call_id: String, target_extension: String, caller_id: String) -> (r: Self)
        ensures
            r.call_id == call_id,
            r.target_extension == target_extension,
            r.caller_id == caller_id,
            r.caller_name is None,
            r.pickup_group_id is None,
            r.blf_enabled,
    {
        RingingCall {
            call_id,
            target_extension,
            caller_id,
            caller_name: None,
            ringing_since: now_millis(),
            pickup_group_id: None,
            blf_enabled: true,
        }
    }

    /// The call with a caller display name.
    pub fn with_caller_name(self, name: String) -> (r: Self)
        ensures
            r == (RingingCall { caller_name: Some(name), ..self }),
    {
        RingingCall { caller_name: Some(name), ..self }
    }

    /// The call in a pickup group.
    pub fn with_pickup_group(self, group_id: u128) -> (r: Self)
        ensures
            r == (RingingCall { pickup_group_id: Some(group_id), ..self }),
    {
        RingingCall { pickup_group_id: Some(group_id), ..self }
    }

    /// The call, closed to BLF pickup.
    pub fn without_blf(self) -> (r: Self)
        ensures
            r == (RingingCall { blf_enabled: false, ..self }),
    {
        RingingCall { blf_enabled: false, ..self }
    }

    /// Whole seconds the call has rung by `now` (milliseconds).
    pub fn ringing_duration_at(&self, now: i64) -> (r: i64)
        ensures
            r == seconds_between(now, self.ringing_since),
    {
        elapsed_seconds(now, self.ringing_since)
    }

    /// Whole seconds the call has been ringing, by the clock.
    pub fn ringing_duration_seconds(&self) -> i64 {
        self.ringing_duration_at(now_millis())
    }

    /// A copy of the call.
    pub fn duplicate(&self) -> (r: Self)
        ensures
            r == *self,
    {
        RingingCall {
            call_id: self.call_id.clone(),
            target_extension: self.target_extension.clone(),
            caller_id: self.caller_id.clone(),
            caller_name: match &self.caller_name {
                Some(n) => Some(n.clone()),
                None => None,
            },
            ringing_since: self.ringing_since,
            pickup_group_id: self.pickup_group_id,
            blf_enabled: self.blf_enabled,
        }
    }
}

/// Pickup permissions for a user.
#[derive(Debug)]
pub struct PickupPermissions {
    /// User can perform directed pickup
    pub directed_pickup: bool,
    /// User can perform group pickup
    pub group_pickup: bool,
    /// User can pickup any call (admin privilege)
    pub any_pickup: bool,
    /// User can perform BLF pickup
    pub blf_pickup: bool,
    /// Extensions user can monitor via BLF
    pub blf_monitored_extensions: Store<String>,
}

impl PickupPermissions {
    /// The monitored set is well formed.
    pub open spec fn wf(&self) -> bool {
        self.blf_monitored_extensions.wf()
    }

    /// Whether the permissions allow a pickup type.
    pub open spec fn spec_can(&self, t: PickupType) -> bool {
        match t {
            PickupType::Directed => self.directed_pickup,
            PickupType::Group => self.group_pickup,
            PickupType::Any => self.any_pickup,
            PickupType::Blf => self.blf_pickup,
        }
    }

    /// Whether `extension` is monitored.
    pub open spec fn spec_monitors(&self, extension: Seq<char>) -> bool {
        self.blf_monitored_extensions.contains(extension)
    }

    /// Permissions with the given flags and nothing monitored.
    pub open spec fn has_flags(&self, directed: bool, group: bool, any: bool, blf: bool) -> bool {
        &&& self.wf()
        &&& self.directed_pickup == directed
        &&& self.group_pickup == group
        &&& self.any_pickup == any
        &&& self.blf_pickup == blf
        &&& self.blf_monitored_extensions.items().len() == 0
    }

    fn with_flags(directed: bool, group: bool, any: bool, blf: bool) -> (r: Self)
        ensures
            r.has_flags(directed, group, any, blf),
    {
        PickupPermissions {
            directed_pickup: directed,
            group_pickup: group,
            any_pickup: any,
            blf_pickup: blf,
            blf_monitored_extensions: Store::new(),
        }
    }

    /// Regular permissions: every pickup but "any", nothing monitored.
    pub fn new() -> (r: Self)
        ensures
            r.has_flags(true, true, false, true),
    {
        Self::with_flags(true, true, false, true)
    }

    /// Default permissions for regular users.
    pub fn user_default() -> (r: Self)
        ensures
            r.has_flags(true, true, false, true),
    {
        Self::new()
    }

    /// Full permissions for administrators.
    pub fn admin() -> (r: Self)
        ensures
            r.has_flags(true, true, true, true),
    {
        Self::with_flags(true, true, true, true)
    }

    /// Restricted permissions (no pickup).
    pub fn restricted() -> (r: Self)
        ensures
            r.has_flags(false, false, false, false),
    {
        Self::with_flags(false, false, false, false)
    }

    /// Whether the user may perform this pickup type.
    pub fn can_pickup(&self, pickup_type: PickupType) -> (r: bool)
        ensures
            r == self.spec_can(pickup_type),
    {
        match pickup_type {
            PickupType::Directed => self.directed_pickup,
            PickupType::Group => self.group_pickup,
            PickupType::Any => self.any_pickup,
            PickupType::Blf => self.blf_pickup,
        }
    }

    /// Starts monitoring an extension via BLF.
    pub fn add_blf_monitor(&mut self, extension: String)
        requires
            old(self).wf(),
        ensures
            final(self).wf(),
            forall|e: Seq<char>| final(self).spec_monitors(e) <==> (old(self).spec_monitors(e) || e == extension@),
            forall|t: PickupType| final(self).spec_can(t) == old(self).spec_can(t),
    {
        self.blf_monitored_extensions.insert(extension);
    }

    /// Stops monitoring an extension.
    pub fn remove_blf_monitor(&mut self, extension: &str)
        requires
            old(self).wf(),
        ensures
            final(self).wf(),
            forall|e: Seq<char>| final(self).spec_monitors(e) <==> (old(self).spec_monitors(e) && e != extension@),
            forall|t: PickupType| final(self).spec_can(t) == old(self).spec_can(t),
    {
        self.blf_monitored_extensions.remove(extension);
    }

    /// Whether the user monitors this extension via BLF.
    pub fn monitors_extension(&self, extension: &str) -> (r: bool)
        requires
            self.wf(),
        ensures
            r == self.spec_monitors(extension@),
    {
        self.blf_monitored_extensions.get(extension).is_some()
    }

    /// A copy of the permissions.
    pub fn duplicate(&self) -> (r: Self)
        ensures
            r.directed_pickup == self.directed_pickup,
            r.group_pickup == self.group_pickup,
            r.any_pickup == self.any_pickup,
            r.blf_pickup == self.blf_pickup,
            r.blf_monitored_extensions.items() == self.blf_monitored_extensions.items(),
    {
        PickupPermissions {
            directed_pickup: self.directed_pickup,
            group_pickup: self.group_pickup,
            any_pickup: self.any_pickup,
            blf_pickup: self.blf_pickup,
            blf_monitored_extensions: self.blf_monitored_extensions.duplicate(),
        }
    }
}

impl Default for PickupPermissions {
    fn default() -> (r: Self)
        ensures
            r.has_flags(true, true, false, true),
    {
        Self::new()
    }
}

/// Pickup attempt result.
#[derive(Debug, Clone, PartialEq, Eq)]
pub enum PickupResult {
    /// Pickup successful, with the call's identifier
    Success(String),
    /// No ringing call at target
    NoRingingCall,
    /// Permission denied
    PermissionDenied,
    /// Target not found
    TargetNotFound,
    /// Not in same pickup group
    NotInGroup,
    /// Call already answered
    AlreadyAnswered,
    /// Pickup not allowed (policy)
    NotAllowed,
}

/// A pickup result, with the call identifier as text.
pub enum PickupOutcome {
    Success(Seq<char>),
    NoRingingCall,
    PermissionDenied,
    TargetNotFound,
    NotInGroup,
    AlreadyAnswered,
    NotAllowed,
}

impl View for PickupResult {
    type V = PickupOutcome;

    open spec fn view(&self) -> PickupOutcome {
        match self {
            PickupResult::Success(id) => PickupOutcome::Success(id@),
            PickupResult::NoRingingCall => PickupOutcome::NoRingingCall,
            PickupResult::PermissionDenied => PickupOutcome::PermissionDenied,
            PickupResult::TargetNotFound => PickupOutcome::TargetNotFound,
            PickupResult::NotInGroup => PickupOutcome::NotInGroup,
            PickupResult::AlreadyAnswered => PickupOutcome::AlreadyAnswered,
            PickupResult::NotAllowed => PickupOutcome::NotAllowed,
        }
    }
}

/// Successful pickups counted by type.
#[derive(Debug, Clone, Copy, PartialEq, Eq, Structural)]
pub struct PickupCounts {
    pub directed: u64,
    pub group: u64,
    pub any: u64,
    pub blf: u64,
}

impl PickupCounts {
    /// The count for a type.
    pub open spec fn spec_get(self, t: PickupType) -> u64 {
        match t {
            PickupType::Directed => self.directed,
            PickupType::Group => self.group,
            PickupType::Any => self.any,
            PickupType::Blf => self.blf,
        }
    }

    /// The count for a type.
    pub fn get(&self, t: PickupType) -> (r: u64)
        ensures
            r == self.spec_get(t),
    {
        match t {
            PickupType::Directed => self.directed,
            PickupType::Group => self.group,
            PickupType::Any => self.any,
            PickupType::Blf => self.blf,
        }
    }
}

/// Call pickup statistics.
#[derive(Debug, Clone)]
pub struct PickupStatistics {
    /// Total pickup attempts
    pub total_attempts: u64,
    /// Successful pickups
    pub successful_pickups: u64,
    /// Failed pickups
    pub failed_pickups: u64,
    /// Successful pickups by type
    pub by_type: PickupCounts,
    /// Average time to pickup (seconds)
    pub average_time_to_pickup: i64,
    /// Currently ringing calls
    pub current_ringing_calls: usize,
}

impl PickupStatistics {
    /// All counts zero.
    pub fn new() -> (r: Self)
        ensures
            r.total_attempts == 0,
            r.successful_pickups == 0,
            r.failed_pickups == 0,
            r.by_type == (PickupCounts { directed: 0, group: 0, any: 0, blf: 0 }),
            r.average_time_to_pickup == 0,
            r.current_ringing_calls == 0,
    {
        PickupStatistics {
            total_attempts: 0,
            successful_pickups: 0,
            failed_pickups: 0,
            by_type: PickupCounts { directed: 0, group: 0, any: 0, blf: 0 },
            average_time_to_pickup: 0,
            current_ringing_calls: 0,
        }
    }
}

impl Default for PickupStatistics {
    fn default() -> (r: Self)
        ensures
            r.total_attempts == 0,
            r.successful_pickups == 0,
            r.failed_pickups == 0,
            r.average_time_to_pickup == 0,
            r.current_ringing_calls == 0,
    {
        Self::new()
    }
}

/// A user's pickup group.
struct UserGroup {
    user: String,
    group: u128,
}

impl Keyed for UserGroup {
    type Key = str;

    closed spec fn key(&self) -> Seq<char> {
        self.user@
    }

    closed spec fn inv(&self) -> bool {
        true
    }

    fn key_ref(&self) -> (r: &str) {
        let r = self.user.as_str();
        assert(r.kv() == r@);
        r
    }
}

/// A user's permissions.
struct UserPermissions {
    user: String,
    perms: PickupPermissions,
}

impl Keyed for UserPermissions {
    type Key = str;

    closed spec fn key(&self) -> Seq<char> {
        self.user@
    }

    closed spec fn inv(&self) -> bool {
        self.perms.wf()
    }

    fn key_ref(&self) -> (r: &str) {
        let r = self.user.as_str();
        assert(r.kv() == r@);
        r
    }
}

/// The call ringing at an extension.
struct ExtensionCall {
    extension: String,
    call_id: String,
}

impl Keyed for ExtensionCall {
    type Key = str;

    closed spec fn key(&self) -> Seq<char> {
        self.extension@
    }

    closed spec fn inv(&self) -> bool {
        true
    }

    fn key_ref(&self) -> (r: &str) {
        let r = self.extension.as_str();
        assert(r.kv() == r@);
        r
    }
}

/// How many pickup times are kept for the average.
pub const MAX_PICKUP_TIMES: usize = 1000;

/// The kept pickup times after recording `t`: the newest `MAX_PICKUP_TIMES`.
pub open spec fn record_time(times: Seq<i64>, t: i64) -> Seq<i64> {
    let s = times.push(t);
    if s.len() > MAX_PICKUP_TIMES {
        s.drop_first()
    } else {
        s
    }
}

/// The calls of `s` in pickup group `g`, in order.
pub open spec fn calls_in_group(s: Seq<RingingCall>, g: u128) -> Seq<RingingCall>
    decreases s.len(),
{
    if s.len() == 0 {
        Seq::empty()
    } else {
        let r = calls_in_group(s.drop_last(), g);
        if s.last().pickup_group_id == Some(g) {
            r.push(s.last())
        } else {
            r
        }
    }
}

/// Call pickup manager.
pub struct CallPickupManager {
    groups: Store<PickupGroup>,
    user_groups: Store<UserGroup>,
    permissions: Store<UserPermissions>,
    ringing_calls: Store<RingingCall>,
    extension_calls: Store<ExtensionCall>,
    total_attempts: u64,
    successful_pickups: u64,
    pickups_by_type: PickupCounts,
    pickup_times: Vec<i64>,
}

impl CallPickupManager {
    /// The group with identifier `id`.
    pub closed spec fn spec_group(&self, id: u128) -> Option<PickupGroup> {
        self.groups.get_spec(id)
    }

    /// The groups, in creation order.
    pub closed spec fn spec_groups(&self) -> Seq<PickupGroup> {
        self.groups.items()
    }

    /// The pickup group recorded for a user.
    pub closed spec fn spec_user_group(&self, user: Seq<char>) -> Option<u128> {
        match self.user_groups.get_spec(user) {
            Some(e) => Some(e.group),
            None => None,
        }
    }

    /// The permissions set for a user, if any were.
    pub closed spec fn spec_permissions(&self, user: Seq<char>) -> Option<PickupPermissions> {
        match self.permissions.get_spec(user) {
            Some(e) => Some(e.perms),
            None => None,
        }
    }

    /// The ringing call with identifier `call_id`.
    pub closed spec fn spec_ringing(&self, call_id: Seq<char>) -> Option<RingingCall> {
        self.ringing_calls.get_spec(call_id)
    }

    /// The ringing calls, in registration order.
    pub closed spec fn spec_ringing_calls(&self) -> Seq<RingingCall> {
        self.ringing_calls.items()
    }

    /// The identifier of the call recorded as ringing at `extension`.
    pub closed spec fn spec_extension_call(&self, extension: Seq<char>) -> Option<Seq<char>> {
        match self.extension_calls.get_spec(extension) {
            Some(e) => Some(e.call_id@),
            None => None,
        }
    }

    /// Pickup attempts so far.
    pub closed spec fn spec_total_attempts(&self) -> u64 {
        self.total_attempts
    }

    /// Successful pickups so far.
    pub closed spec fn spec_successful(&self) -> u64 {
        self.successful_pickups
    }

    /// Successful pickups by type.
    pub closed spec fn spec_by_type(&self) -> PickupCounts {
        self.pickups_by_type
    }

    /// The kept pickup times, oldest first.
    pub closed spec fn spec_pickup_times(&self) -> Seq<i64> {
        self.pickup_times@
    }

    /// Internal consistency: one entry per key everywhere, well-formed member
    /// and monitor sets, no more successes than attempts, and at most
    /// `MAX_PICKUP_TIMES` kept times.
    pub closed spec fn wf(&self) -> bool {
        &&& self.groups.wf()
        &&& self.user_groups.wf()
        &&& self.permissions.wf()
        &&& self.ringing_calls.wf()
        &&& self.extension_calls.wf()
        &&& forall|i: int| 0 <= i < self.groups.items().len() ==> (#[trigger] self.groups.items()[i]).wf()
        &&& forall|i: int| 0 <= i < self.permissions.items().len() ==> (#[trigger] self.permissions.items()[i]).perms.wf()
        &&& self.successful_pickups <= self.total_attempts
        &&& self.pickups_by_type.directed + self.pickups_by_type.group + self.pickups_by_type.any
            + self.pickups_by_type.blf == self.successful_pickups
        &&& self.pickup_times@.len() <= MAX_PICKUP_TIMES
    }

    /// Whether `user` may perform a pickup type: by the permissions set for the
    /// user, else by the regular ones.
    pub open spec fn allows(&self, user: Seq<char>, t: PickupType) -> bool {
        match self.spec_permissions(user) {
            Some(p) => p.spec_can(t),
            None => t != PickupType::Any,
        }
    }

    /// Whether `user` monitors `extension` via BLF.
    pub open spec fn monitors(&self, user: Seq<char>, extension: Seq<char>) -> bool {
        match self.spec_permissions(user) {
            Some(p) => p.spec_monitors(extension),
            None => false,
        }
    }

    /// Everything but the counters is as in `old`.
    pub open spec fn same_registry(&self, old: &Self) -> bool {
        &&& forall|id: u128| self.spec_group(id) == old.spec_group(id)
        &&& self.spec_groups() == old.spec_groups()
        &&& forall|u: Seq<char>| self.spec_user_group(u) == old.spec_user_group(u)
        &&& forall|u: Seq<char>| self.spec_permissions(u) == old.spec_permissions(u)
        &&& self.spec_ringing_calls() == old.spec_ringing_calls()
        &&& forall|c: Seq<char>| self.spec_ringing(c) == old.spec_ringing(c)
        &&& forall|e: Seq<char>| self.spec_extension_call(e) == old.spec_extension_call(e)
    }

    /// The counters after a failed attempt.
    pub open spec fn failed_from(&self, old: &Self) -> bool {
        &&& self.spec_total_attempts() == old.spec_total_attempts() + 1
        &&& self.spec_successful() == old.spec_successful()
        &&& self.spec_by_type() == old.spec_by_type()
        &&& self.spec_pickup_times() == old.spec_pickup_times()
    }

    /// The counters after a successful attempt of type `t` on a call that had
    /// rung `secs` seconds.
    pub open spec fn succeeded_from(&self, old: &Self, t: PickupType, secs: int) -> bool {
        &&& self.spec_total_attempts() == old.spec_total_attempts() + 1
        &&& self.spec_successful() == old.spec_successful() + 1
        &&& forall|u: PickupType| self.spec_by_type().spec_get(u) == old.spec_by_type().spec_get(u)
            + (if u == t { 1int } else { 0 })
        &&& self.spec_pickup_times() == record_time(old.spec_pickup_times(), secs as i64)
    }

    /// Room for one more attempt in the counters.
    pub open spec fn can_count(&self) -> bool {
        self.spec_total_attempts() < u64::MAX
    }

    /// A manager with no groups, permissions, calls or counts.
    pub fn new() -> (r: Self)
        ensures
            r.wf(),
            forall|id: u128| r.spec_group(id) is None,
            r.spec_groups().len() == 0,
            forall|u: Seq<char>| r.spec_user_group(u) is None,
            forall|u: Seq<char>| r.spec_permissions(u) is None,
            r.spec_ringing_calls().len() == 0,
            forall|c: Seq<char>| r.spec_ringing(c) is None,
            forall|e: Seq<char>| r.spec_extension_call(e) is None,
            r.spec_total_attempts() == 0,
            r.spec_successful() == 0,
            r.spec_by_type() == (PickupCounts { directed: 0, group: 0, any: 0, blf: 0 }),
            r.spec_pickup_times().len() == 0,
    {
        let r = CallPickupManager {
            groups: Store::new(),
            user_groups: Store::new(),
            permissions: Store::new(),
            ringing_calls: Store::new(),
            extension_calls: Store::new(),
            total_attempts: 0,
            successful_pickups: 0,
            pickups_by_type: PickupCounts { directed: 0, group: 0, any: 0, blf: 0 },
            pickup_times: Vec::new(),
        };
        proof {
            assert forall|id: u128| r.spec_group(id) is None by {
                lemma_lookup_absent(r.groups.items(), id);
            }
            assert forall|u: Seq<char>| r.spec_user_group(u) is None by {
                lemma_lookup_absent(r.user_groups.items(), u);
            }
            assert forall|u: Seq<char>| r.spec_permissions(u) is None by {
                lemma_lookup_absent(r.permissions.items(), u);
            }
            assert forall|c: Seq<char>| r.spec_ringing(c) is None by {
                lemma_lookup_absent(r.ringing_calls.items(), c);
            }
            assert forall|e: Seq<char>| r.spec_extension_call(e) is None by {
                lemma_lookup_absent(r.extension_calls.items(), e);
            }
        }
        r
    }

    /// Sets a user's permissions, replacing earlier ones.
    pub fn set_permissions(&mut self, user_id: String, permissions: PickupPermissions)
        requires
            old(self).wf(),
            permissions.wf(),
        ensures
            final(self).wf(),
            final(self).spec_permissions(user_id@) == Some(permissions),
            forall|u: Seq<char>| u != user_id@ ==> final(self).spec_permissions(u) == old(self).spec_permissions(u),
            forall|id: u128| final(self).spec_group(id) == old(self).spec_group(id),
            forall|u: Seq<char>| final(self).spec_user_group(u) == old(self).spec_user_group(u),
            final(self).spec_ringing_calls() == old(self).spec_ringing_calls(),
            forall|c: Seq<char>| final(self).spec_ringing(c) == old(self).spec_ringing(c),
            forall|e: Seq<char>| final(self).spec_extension_call(e) == old(self).spec_extension_call(e),
            final(self).spec_total_attempts() == old(self).spec_total_attempts(),
            final(self).spec_successful() == old(self).spec_successful(),
    {
        self.permissions.insert(UserPermissions { user: user_id, perms: permissions });
    }

    /// The permissions of a user: those set for the user, else the regular ones.
    pub fn get_permissions(&self, user_id: &str) -> (r: PickupPermissions)
        requires
            self.wf(),
        ensures
            r.wf(),
            forall|t: PickupType| r.spec_can(t) == self.allows(user_id@, t),
            forall|e: Seq<char>| r.spec_monitors(e) == self.monitors(user_id@, e),
    {
        match self.permissions.get(user_id) {
            Some(e) => {
                let r = e.perms.duplicate();
                assert forall|x: Seq<char>| r.spec_monitors(x) == e.perms.spec_monitors(x) by {}
                r
            },
            None => {
                let r = PickupPermissions::new();
                assert forall|x: Seq<char>| !r.spec_monitors(x) by {
                    lemma_lookup_absent(r.blf_monitored_extensions.items(), x);
                }
                r
            },
        }
    }

    /// Counts an attempt.
    fn record_attempt(&mut self)
        requires
            old(self).wf(),
            old(self).can_count(),
        ensures
            final(self).wf(),
            final(self).same_registry(old(self)),
            final(self).failed_from(old(self)),
            final(self).groups == old(self).groups,
            final(self).user_groups == old(self).user_groups,
            final(self).permissions == old(self).permissions,
            final(self).ringing_calls == old(self).ringing_calls,
            final(self).extension_calls == old(self).extension_calls,
    {
        self.total_attempts = self.total_attempts + 1;
    }

    /// Counts a success of type `t` on a call that had rung `secs` seconds.
    fn record_success(&mut self, t: PickupType, secs: i64)
        requires
            old(self).wf(),
            old(self).spec_successful() < old(self).spec_total_attempts(),
        ensures
            final(self).wf(),
            final(self).same_registry(old(self)),
            final(self).spec_total_attempts() == old(self).spec_total_attempts(),
            final(self).spec_successful() == old(self).spec_successful() + 1,
            forall|u: PickupType| final(self).spec_by_type().spec_get(u) == old(self).spec_by_type().spec_get(u)
                + (if u == t { 1int } else { 0 }),
            final(self).spec_pickup_times() == record_time(old(self).spec_pickup_times(), secs),
    {
        self.successful_pickups = self.successful_pickups + 1;
        match t {
            PickupType::Directed => {
                self.pickups_by_type.directed = self.pickups_by_type.directed + 1;
            },
            PickupType::Group => {
                self.pickups_by_type.group = self.pickups_by_type.group + 1;
            },
            PickupType::Any => {
                self.pickups_by_type.any = self.pickups_by_type.any + 1;
            },
            PickupType::Blf => {
                self.pickups_by_type.blf = self.pickups_by_type.blf + 1;
            },
        }
        self.pickup_times.push(secs);
        if self.pickup_times.len() > MAX_PICKUP_TIMES {
            let ghost before = self.pickup_times@;
            self.pickup_times.remove(0);
            assert(self.pickup_times@ =~= before.drop_first());
        }
    }

    /// The outcome of a directed pickup by `picker` of the call ringing at `target`.
    pub open spec fn directed_outcome(&self, picker: Seq<char>, target: Seq<char>) -> PickupOutcome {
        if !self.allows(picker, PickupType::Directed) {
            PickupOutcome::PermissionDenied
        } else {
            match self.spec_extension_call(target) {
                None => PickupOutcome::NoRingingCall,
                Some(id) => match self.spec_ringing(id) {
                    None => PickupOutcome::AlreadyAnswered,
                    Some(_) => PickupOutcome::Success(id),
                },
            }
        }
    }

    /// The outcome of a BLF pickup by `picker` of the call ringing at `target`.
    pub open spec fn blf_outcome(&self, picker: Seq<char>, target: Seq<char>) -> PickupOutcome {
        if !self.allows(picker, PickupType::Blf) {
            PickupOutcome::PermissionDenied
        } else if !self.monitors(picker, target) {
            PickupOutcome::NotAllowed
        } else {
            match self.spec_extension_call(target) {
                None => PickupOutcome::NoRingingCall,
                Some(id) => match self.spec_ringing(id) {
                    None => PickupOutcome::AlreadyAnswered,
                    Some(c) => if c.blf_enabled {
                        PickupOutcome::Success(id)
                    } else {
                        PickupOutcome::NotAllowed
                    },
                },
            }
        }
    }

    /// The counters after an attempt with outcome `o` at time `now` of type `t`.
    pub open spec fn counted(&self, old: &Self, o: PickupOutcome, t: PickupType, now: i64) -> bool {
        match o {
            PickupOutcome::Success(id) => self.succeeded_from(
                old,
                t,
                seconds_between(now, old.spec_ringing(id)->0.ringing_since),
            ),
            _ => self.failed_from(old),
        }
    }

    /// The call ringing at an extension, by the extension record.
    fn call_at_extension(&self, target: &str) -> (r: Option<String>)
        requires
            self.wf(),
        ensures
            match r {
                Some(id) => self.spec_extension_call(target@) == Some(id@),
                None => self.spec_extension_call(target@) is None,
            },
    {
        match self.extension_calls.get(target) {
            Some(e) => Some(e.call_id.clone()),
            None => None,
        }
    }

    /// Attempt a directed pickup at time `now` (milliseconds): `picker`
    /// answers the call ringing at `target`.
    pub fn attempt_directed_pickup_at(&mut self, picker_user_id: &str, target_extension: &str, now: i64) -> (r: PickupResult)
        requires
            old(self).wf(),
            old(self).can_count(),
        ensures
            final(self).wf(),
            r@ == old(self).directed_outcome(picker_user_id@, target_extension@),
            final(self).same_registry(old(self)),
            final(self).counted(old(self), r@, PickupType::Directed, now),
    {
        self.record_attempt();
        let permissions = self.get_permissions(picker_user_id);
        if !permissions.can_pickup(PickupType::Directed) {
            return PickupResult::PermissionDenied;
        }
        let call_id = match self.call_at_extension(target_extension) {
            Some(id) => id,
            None => {
                return PickupResult::NoRingingCall;
            },
        };
        let secs = match self.ringing_calls.get(call_id.as_str()) {
            Some(call) => call.ringing_duration_at(now),
            None => {
                return PickupResult::AlreadyAnswered;
            },
        };
        self.record_success(PickupType::Directed, secs);
        PickupResult::Success(call_id)
    }

    /// Attempt a directed pickup now.
    pub fn attempt_directed_pickup(&mut self, picker_user_id: &str, target_extension: &str) -> (r: PickupResult)
        requires
            old(self).wf(),
            old(self).can_count(),
        ensures
            final(self).wf(),
            r@ == old(self).directed_outcome(picker_user_id@, target_extension@),
            final(self).same_registry(old(self)),
            exists|now: i64| #[trigger] final(self).counted(old(self), r@, PickupType::Directed, now),
    {
        let now = now_millis();
        let r = self.attempt_directed_pickup_at(picker_user_id, target_extension, now);
        assert(self.counted(old(self), r@, PickupType::Directed, now));
        r
    }

    /// Attempt a BLF pickup at time `now` (milliseconds): `picker` answers the
    /// call ringing at an extension it monitors.
    pub fn attempt_blf_pickup_at(&mut self, picker_user_id: &str, target_extension: &str, now: i64) -> (r: PickupResult)
        requires
            old(self).wf(),
            old(self).can_count(),
        ensures
            final(self).wf(),
            r@ == old(self).blf_outcome(picker_user_id@, target_extension@),
            final(self).same_registry(old(self)),
            final(self).counted(old(self), r@, PickupType::Blf, now),
    {
        self.record_attempt();
        let permissions = self.get_permissions(picker_user_id);
        if !permissions.can_pickup(PickupType::Blf) {
            return PickupResult::PermissionDenied;
        }
        if !permissions.monitors_extension(target_extension) {
            return PickupResult::NotAllowed;
        }
        let call_id = match self.call_at_extension(target_extension) {
            Some(id) => id,
            None => {
                return PickupResult::NoRingingCall;
            },
        };
        let secs = match self.ringing_calls.get(call_id.as_str()) {
            Some(call) => {
                if !call.blf_enabled {
                    return PickupResult::NotAllowed;
                }
                call.ringing_duration_at(now)
            },
            None => {
                return PickupResult::AlreadyAnswered;
            },
        };
        self.record_success(PickupType::Blf, secs);
        PickupResult::Success(call_id)
    }

    /// Attempt a BLF pickup now.
    pub fn attempt_blf_pickup(&mut self, picker_user_id: &str, target_extension: &str) -> (r: PickupResult)
        requires
            old(self).wf(),
            old(self).can_count(),
        ensures
            final(self).wf(),
            r@ == old(self).blf_outcome(picker_user_id@, target_extension@),
            final(self).same_registry(old(self)),
            exists|now: i64| #[trigger] final(self).counted(old(self), r@, PickupType::Blf, now),
    {
        let now = now_millis();
        let r = self.attempt_blf_pickup_at(picker_user_id, target_extension, now);
        assert(self.counted(old(self), r@, PickupType::Blf, now));
        r
    }
    /// Position of the first ringing call in group `g`, if any.
    fn first_in_group(&self, g: u128) -> (r: Option<usize>)
        ensures
            match r {
                Some(i) => i < self.spec_ringing_calls().len() && self.spec_ringing_calls()[i as int].pickup_group_id
                    == Some(g),
                None => forall|j: int| 0 <= j < self.spec_ringing_calls().len() ==> (#[trigger] self.spec_ringing_calls()[j]).pickup_group_id
                    != Some(g),
            },
    {
        let mut i: usize = 0;
        while i < self.ringing_calls.len()
            invariant
                i <= self.ringing_calls.items().len(),
                forall|j: int| 0 <= j < i ==> (#[trigger] self.ringing_calls.items()[j]).pickup_group_id != Some(g),
            decreases self.ringing_calls.items().len() - i,
        {
            if self.ringing_calls.at(i).pickup_group_id == Some(g) {
                return Some(i);
            }
            i = i + 1;
        }
        None
    }

    /// Attempt a group pickup at time `now` (milliseconds): `picker` answers a
    /// call ringing in its pickup group. Which call is answered when several
    /// ring is left open; the first registered one is taken.
    pub fn attempt_group_pickup_at(&mut self, picker_user_id: &str, now: i64) -> (r: PickupResult)
        requires
            old(self).wf(),
            old(self).can_count(),
        ensures
            final(self).wf(),
            final(self).same_registry(old(self)),
            !old(self).allows(picker_user_id@, PickupType::Group) ==> r@ == PickupOutcome::PermissionDenied,
            old(self).allows(picker_user_id@, PickupType::Group) ==> match old(self).spec_user_group(picker_user_id@) {
                None => r@ == PickupOutcome::NotInGroup,
                Some(g) => match r@ {
                    PickupOutcome::Success(id) => exists|c: RingingCall| old(self).spec_ringing(id) == Some(c)
                        && c.pickup_group_id == Some(g),
                    PickupOutcome::NoRingingCall => forall|j: int| 0 <= j < old(self).spec_ringing_calls().len()
                        ==> (#[trigger] old(self).spec_ringing_calls()[j]).pickup_group_id != Some(g),
                    _ => false,
                },
            },
            final(self).counted(old(self), r@, PickupType::Group, now),
    {
        self.record_attempt();
        let permissions = self.get_permissions(picker_user_id);
        if !permissions.can_pickup(PickupType::Group) {
            return PickupResult::PermissionDenied;
        }
        let g = match self.user_groups.get(picker_user_id) {
            Some(e) => e.group,
            None => {
                return PickupResult::NotInGroup;
            },
        };
        match self.first_in_group(g) {
            Some(i) => {
                let call = self.ringing_calls.at(i);
                proof {
                    crate::store::lemma_lookup_at(self.ringing_calls.items(), i as int);
                }
                let call_id = call.call_id.clone();
                let secs = call.ringing_duration_at(now);
                self.record_success(PickupType::Group, secs);
                PickupResult::Success(call_id)
            },
            None => PickupResult::NoRingingCall,
        }
    }

    /// Attempt a group pickup now.
    pub fn attempt_group_pickup(&mut self, picker_user_id: &str) -> (r: PickupResult)
        requires
            old(self).wf(),
            old(self).can_count(),
        ensures
            final(self).wf(),
            final(self).same_registry(old(self)),
            !old(self).allows(picker_user_id@, PickupType::Group) ==> r@ == PickupOutcome::PermissionDenied,
            old(self).allows(picker_user_id@, PickupType::Group) && old(self).spec_user_group(picker_user_id@) is None
                ==> r@ == PickupOutcome::NotInGroup,
            exists|now: i64| #[trigger] final(self).counted(old(self), r@, PickupType::Group, now),
    {
        let now = now_millis();
        let r = self.attempt_group_pickup_at(picker_user_id, now);
        assert(self.counted(old(self), r@, PickupType::Group, now));
        r
    }

    /// Attempt to pick up any ringing call at time `now` (milliseconds), an
    /// administrator's privilege. The first registered call is taken.
    pub fn attempt_any_pickup_at(&mut self, picker_user_id: &str, now: i64) -> (r: PickupResult)
        requires
            old(self).wf(),
            old(self).can_count(),
        ensures
            final(self).wf(),
            final(self).same_registry(old(self)),
            r@ == (if !old(self).allows(picker_user_id@, PickupType::Any) {
                PickupOutcome::PermissionDenied
            } else if old(self).spec_ringing_calls().len() == 0 {
                PickupOutcome::NoRingingCall
            } else {
                PickupOutcome::Success(old(self).spec_ringing_calls()[0].call_id@)
            }),
            r@ is Success ==> old(self).spec_ringing(old(self).spec_ringing_calls()[0].call_id@) == Some(
                old(self).spec_ringing_calls()[0],
            ),
            final(self).counted(old(self), r@, PickupType::Any, now),
    {
        self.record_attempt();
        let permissions = self.get_permissions(picker_user_id);
        if !permissions.can_pickup(PickupType::Any) {
            return PickupResult::PermissionDenied;
        }
        if self.ringing_calls.len() == 0 {
            return PickupResult::NoRingingCall;
        }
        let call = self.ringing_calls.at(0);
        proof {
            crate::store::lemma_lookup_at(self.ringing_calls.items(), 0);
        }
        let call_id = call.call_id.clone();
        let secs = call.ringing_duration_at(now);
        self.record_success(PickupType::Any, secs);
        PickupResult::Success(call_id)
    }

    /// Attempt to pick up any ringing call now.
    pub fn attempt_any_pickup(&mut self, picker_user_id: &str) -> (r: PickupResult)
        requires
            old(self).wf(),
            old(self).can_count(),
        ensures
            final(self).wf(),
            final(self).same_registry(old(self)),
            r@ == (if !old(self).allows(picker_user_id@, PickupType::Any) {
                PickupOutcome::PermissionDenied
            } else if old(self).spec_ringing_calls().len() == 0 {
                PickupOutcome::NoRingingCall
            } else {
                PickupOutcome::Success(old(self).spec_ringing_calls()[0].call_id@)
            }),
            exists|now: i64| #[trigger] final(self).counted(old(self), r@, PickupType::Any, now),
    {
        let now = now_millis();
        let r = self.attempt_any_pickup_at(picker_user_id, now);
        assert(self.counted(old(self), r@, PickupType::Any, now));
        r
    }

    /// Registers a ringing call: the call is recorded under its identifier
    /// (replacing one with the same identifier) and as the call ringing at
    /// its target extension.
    pub fn register_ringing_call(&mut self, call: RingingCall)
        requires
            old(self).wf(),
        ensures
            final(self).wf(),
            final(self).spec_ringing(call.call_id@) == Some(call),
            forall|c: Seq<char>| c != call.call_id@ ==> final(self).spec_ringing(c) == old(self).spec_ringing(c),
            final(self).spec_extension_call(call.target_extension@) == Some(call.call_id@),
            forall|e: Seq<char>| e != call.target_extension@ ==> final(self).spec_extension_call(e)
                == old(self).spec_extension_call(e),
            forall|id: u128| final(self).spec_group(id) == old(self).spec_group(id),
            forall|u: Seq<char>| final(self).spec_user_group(u) == old(self).spec_user_group(u),
            forall|u: Seq<char>| final(self).spec_permissions(u) == old(self).spec_permissions(u),
            final(self).spec_total_attempts() == old(self).spec_total_attempts(),
            final(self).spec_successful() == old(self).spec_successful(),
    {
        let ghost ext = call.target_extension@;
        let ghost id = call.call_id@;
        let e = ExtensionCall { extension: call.target_extension.clone(), call_id: call.call_id.clone() };
        assert(e.key() == ext);
        self.extension_calls.insert(e);
        self.ringing_calls.insert(call);
    }

    /// Unregisters a ringing call (answered or cancelled): the call and the
    /// record of its target extension go.
    pub fn unregister_ringing_call(&mut self, call_id: &str)
        requires
            old(self).wf(),
        ensures
            final(self).wf(),
            final(self).spec_ringing(call_id@) is None,
            forall|c: Seq<char>| c != call_id@ ==> final(self).spec_ringing(c) == old(self).spec_ringing(c),
            forall|e: Seq<char>| final(self).spec_extension_call(e) == (match old(self).spec_ringing(call_id@) {
                Some(call) => if e == call.target_extension@ {
                    None
                } else {
                    old(self).spec_extension_call(e)
                },
                None => old(self).spec_extension_call(e),
            }),
            forall|id: u128| final(self).spec_group(id) == old(self).spec_group(id),
            forall|u: Seq<char>| final(self).spec_user_group(u) == old(self).spec_user_group(u),
            forall|u: Seq<char>| final(self).spec_permissions(u) == old(self).spec_permissions(u),
            final(self).spec_total_attempts() == old(self).spec_total_attempts(),
            final(self).spec_successful() == old(self).spec_successful(),
    {
        match self.ringing_calls.remove(call_id) {
            Some(call) => {
                self.extension_calls.remove(call.target_extension.as_str());
            },
            None => {},
        }
    }

    /// Copies of the ringing calls, in registration order.
    pub fn list_ringing_calls(&self) -> (r: Vec<RingingCall>)
        ensures
            r@ == self.spec_ringing_calls(),
    {
        let mut out: Vec<RingingCall> = Vec::new();
        let mut i: usize = 0;
        while i < self.ringing_calls.len()
            invariant
                i <= self.ringing_calls.items().len(),
                out@ == self.ringing_calls.items().take(i as int),
            decreases self.ringing_calls.items().len() - i,
        {
            out.push(self.ringing_calls.at(i).duplicate());
            assert(self.ringing_calls.items().take(i as int).push(self.ringing_calls.items()[i as int])
                =~= self.ringing_calls.items().take(i + 1));
            i = i + 1;
        }
        assert(self.ringing_calls.items().take(i as int) =~= self.ringing_calls.items());
        out
    }

    /// Copies of the ringing calls in the pickup group of `user_id`, in
    /// registration order; none when the user has no group.
    pub fn list_group_ringing_calls(&self, user_id: &str) -> (r: Vec<RingingCall>)
        requires
            self.wf(),
        ensures
            r@ == match self.spec_user_group(user_id@) {
                Some(g) => calls_in_group(self.spec_ringing_calls(), g),
                None => Seq::empty(),
            },
    {
        let g = match self.user_groups.get(user_id) {
            Some(e) => e.group,
            None => {
                return Vec::new();
            },
        };
        let mut out: Vec<RingingCall> = Vec::new();
        let mut i: usize = 0;
        while i < self.ringing_calls.len()
            invariant
                i <= self.ringing_calls.items().len(),
                out@ == calls_in_group(self.ringing_calls.items().take(i as int), g),
            decreases self.ringing_calls.items().len() - i,
        {
            let c = self.ringing_calls.at(i);
            assert(self.ringing_calls.items().take(i + 1).drop_last() =~= self.ringing_calls.items().take(i as int));
            if c.pickup_group_id == Some(g) {
                out.push(c.duplicate());
            }
            i = i + 1;
        }
        assert(self.ringing_calls.items().take(i as int) =~= self.ringing_calls.items());
        out
    }

    /// A copy of the call ringing at `extension`, if it is still registered.
    pub fn get_ringing_call(&self, extension: &str) -> (r: Option<RingingCall>)
        requires
            self.wf(),
        ensures
            r == match self.spec_extension_call(extension@) {
                Some(id) => self.spec_ringing(id),
                None => None,
            },
    {
        let id = match self.call_at_extension(extension) {
            Some(id) => id,
            None => {
                return None;
            },
        };
        match self.ringing_calls.get(id.as_str()) {
            Some(c) => Some(c.duplicate()),
            None => None,
        }
    }

    /// Pickup statistics: attempts, successes, failures (the difference),
    /// successes by type, the average of the kept pickup times rounded toward
    /// zero, and the number of ringing calls.
    pub fn get_statistics(&self) -> (r: PickupStatistics)
        requires
            self.wf(),
        ensures
            r.total_attempts == self.spec_total_attempts(),
            r.successful_pickups == self.spec_successful(),
            r.failed_pickups == self.spec_total_attempts() - self.spec_successful(),
            r.by_type == self.spec_by_type(),
            r.average_time_to_pickup == average_time(self.spec_pickup_times()),
            r.current_ringing_calls == self.spec_ringing_calls().len(),
    {
        let mut stats = PickupStatistics::new();
        stats.total_attempts = self.total_attempts;
        stats.successful_pickups = self.successful_pickups;
        stats.failed_pickups = self.total_attempts - self.successful_pickups;
        stats.by_type = self.pickups_by_type;
        stats.current_ringing_calls = self.ringing_calls.len();
        stats.average_time_to_pickup = average_of(&self.pickup_times);
        stats
    }

    /// Removes every ringing call and extension record.
    pub fn clear_ringing_calls(&mut self)
        requires
            old(self).wf(),
        ensures
            final(self).wf(),
            final(self).spec_ringing_calls().len() == 0,
            forall|c: Seq<char>| final(self).spec_ringing(c) is None,
            forall|e: Seq<char>| final(self).spec_extension_call(e) is None,
            forall|id: u128| final(self).spec_group(id) == old(self).spec_group(id),
            forall|u: Seq<char>| final(self).spec_user_group(u) == old(self).spec_user_group(u),
            forall|u: Seq<char>| final(self).spec_permissions(u) == old(self).spec_permissions(u),
            final(self).spec_total_attempts() == old(self).spec_total_attempts(),
            final(self).spec_successful() == old(self).spec_successful(),
    {
        self.ringing_calls.clear();
        self.extension_calls.clear();
    }
    /// Records every member of `members` as belonging to group `id`.
    fn map_members(&mut self, members: &Store<String>, id: u128)
        requires
            old(self).wf(),
        ensures
            final(self).wf(),
            forall|u: Seq<char>| #[trigger] final(self).spec_user_group(u) == if members.contains(u) {
                Some(id)
            } else {
                old(self).spec_user_group(u)
            },
            final(self).groups == old(self).groups,
            final(self).permissions == old(self).permissions,
            final(self).ringing_calls == old(self).ringing_calls,
            final(self).extension_calls == old(self).extension_calls,
            final(self).total_attempts == old(self).total_attempts,
            final(self).successful_pickups == old(self).successful_pickups,
            final(self).pickups_by_type == old(self).pickups_by_type,
            final(self).pickup_times == old(self).pickup_times,
    {
        let ghost items = members.items();
        let mut i: usize = 0;
        while i < members.len()
            invariant
                self.wf(),
                items == members.items(),
                i <= items.len(),
                forall|u: Seq<char>| #[trigger] self.spec_user_group(u) == if in_prefix(items, i as int, u) {
                    Some(id)
                } else {
                    old(self).spec_user_group(u)
                },
                self.groups == old(self).groups,
                self.permissions == old(self).permissions,
                self.ringing_calls == old(self).ringing_calls,
                self.extension_calls == old(self).extension_calls,
                self.total_attempts == old(self).total_attempts,
                self.successful_pickups == old(self).successful_pickups,
                self.pickups_by_type == old(self).pickups_by_type,
                self.pickup_times == old(self).pickup_times,
            decreases items.len() - i,
        {
            let m = members.at(i).clone();
            let ghost mv = m@;
            let e = UserGroup { user: m, group: id };
            assert(e.key() == mv);
            let ghost before = *self;
            self.user_groups.insert(e);
            proof {
                assert forall|u: Seq<char>| #[trigger] self.spec_user_group(u) == if in_prefix(items, i + 1, u) {
                    Some(id)
                } else {
                    old(self).spec_user_group(u)
                } by {
                    assert(items[i as int]@ == mv);
                    if u != mv {
                        assert(self.user_groups.get_spec(u) == before.user_groups.get_spec(u));
                        assert(before.spec_user_group(u) == if in_prefix(items, i as int, u) {
                            Some(id)
                        } else {
                            old(self).spec_user_group(u)
                        });
                        if in_prefix(items, i + 1, u) {
                            let k = choose|k: int| 0 <= k < i + 1 && #[trigger] items[k]@ == u;
                            assert(in_prefix(items, i as int, u));
                        }
                        if in_prefix(items, i as int, u) {
                            let k = choose|k: int| 0 <= k < i && #[trigger] items[k]@ == u;
                            assert(in_prefix(items, i + 1, u));
                        }
                    } else {
                        assert(in_prefix(items, i + 1, u));
                    }
                }
            }
            i = i + 1;
        }
        proof {
            assert forall|u: Seq<char>| in_prefix(items, items.len() as int, u) == members.contains(u) by {
                if in_prefix(items, items.len() as int, u) {
                    let k = choose|k: int| 0 <= k < items.len() && #[trigger] items[k]@ == u;
                    assert(items[k].key() == u);
                    assert(has_key(items, u));
                }
                if members.contains(u) {
                    let k = choose|k: int| 0 <= k < items.len() && (#[trigger] items[k]).key() == u;
                    assert(items[k]@ == u);
                }
            }
        }
    }

    /// Forgets the group of every member of `members`.
    fn unmap_members(&mut self, members: &Store<String>)
        requires
            old(self).wf(),
        ensures
            final(self).wf(),
            forall|u: Seq<char>| #[trigger] final(self).spec_user_group(u) == if members.contains(u) {
                None
            } else {
                old(self).spec_user_group(u)
            },
            final(self).groups == old(self).groups,
            final(self).permissions == old(self).permissions,
            final(self).ringing_calls == old(self).ringing_calls,
            final(self).extension_calls == old(self).extension_calls,
            final(self).total_attempts == old(self).total_attempts,
            final(self).successful_pickups == old(self).successful_pickups,
            final(self).pickups_by_type == old(self).pickups_by_type,
            final(self).pickup_times == old(self).pickup_times,
    {
        let ghost items = members.items();
        let mut i: usize = 0;
        while i < members.len()
            invariant
                self.wf(),
                items == members.items(),
                i <= items.len(),
                forall|u: Seq<char>| #[trigger] self.spec_user_group(u) == if in_prefix(items, i as int, u) {
                    None
                } else {
                    old(self).spec_user_group(u)
                },
                self.groups == old(self).groups,
                self.permissions == old(self).permissions,
                self.ringing_calls == old(self).ringing_calls,
                self.extension_calls == old(self).extension_calls,
                self.total_attempts == old(self).total_attempts,
                self.successful_pickups == old(self).successful_pickups,
                self.pickups_by_type == old(self).pickups_by_type,
                self.pickup_times == old(self).pickup_times,
            decreases items.len() - i,
        {
            let ghost mv = members.items()[i as int]@;
            let ghost before = *self;
            self.user_groups.remove(members.at(i).as_str());
            proof {
                assert forall|u: Seq<char>| #[trigger] self.spec_user_group(u) == if in_prefix(items, i + 1, u) {
                    None
                } else {
                    old(self).spec_user_group(u)
                } by {
                    assert(items[i as int]@ == mv);
                    if u != mv {
                        assert(self.user_groups.get_spec(u) == before.user_groups.get_spec(u));
                        assert(before.spec_user_group(u) == if in_prefix(items, i as int, u) {
                            None
                        } else {
                            old(self).spec_user_group(u)
                        });
                        if in_prefix(items, i + 1, u) {
                            let k = choose|k: int| 0 <= k < i + 1 && #[trigger] items[k]@ == u;
                            assert(in_prefix(items, i as int, u));
                        }
                        if in_prefix(items, i as int, u) {
                            let k = choose|k: int| 0 <= k < i && #[trigger] items[k]@ == u;
                            assert(in_prefix(items, i + 1, u));
                        }
                    } else {
                        assert(in_prefix(items, i + 1, u));
                    }
                }
            }
            i = i + 1;
        }
        proof {
            assert forall|u: Seq<char>| in_prefix(items, items.len() as int, u) == members.contains(u) by {
                if in_prefix(items, items.len() as int, u) {
                    let k = choose|k: int| 0 <= k < items.len() && #[trigger] items[k]@ == u;
                    assert(items[k].key() == u);
                    assert(has_key(items, u));
                }
                if members.contains(u) {
                    let k = choose|k: int| 0 <= k < items.len() && (#[trigger] items[k]).key() == u;
                    assert(items[k]@ == u);
                }
            }
        }
    }

    /// Everything but the groups and user-group records is as in `old`.
    pub open spec fn calls_and_counts_unchanged(&self, old: &Self) -> bool {
        &&& forall|u: Seq<char>| self.spec_permissions(u) == old.spec_permissions(u)
        &&& self.spec_ringing_calls() == old.spec_ringing_calls()
        &&& forall|c: Seq<char>| self.spec_ringing(c) == old.spec_ringing(c)
        &&& forall|e: Seq<char>| self.spec_extension_call(e) == old.spec_extension_call(e)
        &&& self.spec_total_attempts() == old.spec_total_attempts()
        &&& self.spec_successful() == old.spec_successful()
        &&& self.spec_by_type() == old.spec_by_type()
        &&& self.spec_pickup_times() == old.spec_pickup_times()
    }

    /// Adds a pickup group (replacing one with the same identifier) and
    /// records its members as belonging to it; gives back its identifier.
    pub fn create_group(&mut self, group: PickupGroup) -> (r: u128)
        requires
            old(self).wf(),
            group.wf(),
        ensures
            final(self).wf(),
            r == group.id,
            final(self).spec_group(r) == Some(group),
            forall|id: u128| id != r ==> final(self).spec_group(id) == old(self).spec_group(id),
            forall|u: Seq<char>| #[trigger] final(self).spec_user_group(u) == if group.spec_has_member(u) {
                Some(r)
            } else {
                old(self).spec_user_group(u)
            },
            final(self).calls_and_counts_unchanged(old(self)),
    {
        let id = group.id;
        self.map_members(&group.members, id);
        let ghost mid = *self;
        self.groups.insert(group);
        assert(self.user_groups == mid.user_groups);
        assert forall|u: Seq<char>| #[trigger] self.spec_user_group(u) == mid.spec_user_group(u) by {}
        id
    }

    /// A copy of the group with identifier `group_id`.
    pub fn get_group(&self, group_id: u128) -> (r: Option<PickupGroup>)
        requires
            self.wf(),
        ensures
            match r {
                Some(g) => exists|h: PickupGroup| self.spec_group(group_id) == Some(h) && same_group(g, h),
                None => self.spec_group(group_id) is None,
            },
    {
        match self.groups.get(&group_id) {
            Some(g) => {
                let r = g.duplicate();
                assert(same_group(r, *g));
                Some(r)
            },
            None => None,
        }
    }

    /// Replaces a group: the members of the old version lose their group
    /// record, those of the new one are recorded in it.
    pub fn update_group(&mut self, group: PickupGroup) -> (r: Result<(), String>)
        requires
            old(self).wf(),
            group.wf(),
        ensures
            final(self).wf(),
            final(self).calls_and_counts_unchanged(old(self)),
            match old(self).spec_group(group.id) {
                None => {
                    &&& r is Err
                    &&& r->Err_0@ == "Group not found"@
                    &&& forall|id: u128| final(self).spec_group(id) == old(self).spec_group(id)
                    &&& forall|u: Seq<char>| final(self).spec_user_group(u) == old(self).spec_user_group(u)
                },
                Some(prev) => {
                    &&& r is Ok
                    &&& final(self).spec_group(group.id) == Some(group)
                    &&& forall|id: u128| id != group.id ==> final(self).spec_group(id) == old(self).spec_group(id)
                    &&& forall|u: Seq<char>| #[trigger] final(self).spec_user_group(u) == if group.spec_has_member(u) {
                        Some(group.id)
                    } else if prev.spec_has_member(u) {
                        None
                    } else {
                        old(self).spec_user_group(u)
                    }
                },
            },
    {
        let pos = self.groups.find(&group.id);
        match pos {
            None => Err(String::from_str("Group not found")),
            Some(i) => {
                let prev = self.groups.take_at(i);
                let ghost s0 = *self;
                self.unmap_members(&prev.members);
                let ghost s1 = *self;
                let id = group.id;
                self.map_members(&group.members, id);
                let ghost s2 = *self;
                self.groups.put_at(i, group);
                proof {
                    assert(self.user_groups == s2.user_groups);
                    assert(s0.user_groups == old(self).user_groups);
                    assert forall|u: Seq<char>| #[trigger] self.spec_user_group(u) == if group.spec_has_member(u) {
                        Some(group.id)
                    } else if prev.spec_has_member(u) {
                        None
                    } else {
                        old(self).spec_user_group(u)
                    } by {
                        assert(self.spec_user_group(u) == s2.spec_user_group(u));
                        assert(s1.spec_user_group(u) == if prev.members.contains(u) {
                            None
                        } else {
                            s0.spec_user_group(u)
                        });
                        assert(s0.spec_user_group(u) == old(self).spec_user_group(u));
                    }
                }
                Ok(())
            },
        }
    }

    /// Deletes a group; its members lose their group record.
    pub fn delete_group(&mut self, group_id: u128) -> (r: Result<(), String>)
        requires
            old(self).wf(),
        ensures
            final(self).wf(),
            final(self).calls_and_counts_unchanged(old(self)),
            final(self).spec_group(group_id) is None,
            forall|id: u128| id != group_id ==> final(self).spec_group(id) == old(self).spec_group(id),
            match old(self).spec_group(group_id) {
                None => r is Err && r->Err_0@ == "Group not found"@ && forall|u: Seq<char>| final(self).spec_user_group(u)
                    == old(self).spec_user_group(u),
                Some(prev) => r is Ok && forall|u: Seq<char>| #[trigger] final(self).spec_user_group(u)
                    == if prev.spec_has_member(u) {
                    None
                } else {
                    old(self).spec_user_group(u)
                },
            },
    {
        match self.groups.remove(&group_id) {
            None => Err(String::from_str("Group not found")),
            Some(prev) => {
                self.unmap_members(&prev.members);
                Ok(())
            },
        }
    }

    /// Adds a member to a group and records the group as the user's.
    pub fn add_member_to_group(&mut self, group_id: u128, user_id: String) -> (r: Result<(), String>)
        requires
            old(self).wf(),
        ensures
            final(self).wf(),
            final(self).calls_and_counts_unchanged(old(self)),
            forall|id: u128| id != group_id ==> final(self).spec_group(id) == old(self).spec_group(id),
            match old(self).spec_group(group_id) {
                None => r is Err && r->Err_0@ == "Group not found"@ && final(self).spec_group(group_id) is None
                    && forall|u: Seq<char>| final(self).spec_user_group(u) == old(self).spec_user_group(u),
                Some(prev) => {
                    &&& r is Ok
                    &&& final(self).spec_group(group_id) matches Some(g) && forall|u: Seq<char>| g.spec_has_member(u)
                        <==> (prev.spec_has_member(u) || u == user_id@)
                    &&& final(self).spec_user_group(user_id@) == Some(group_id)
                    &&& forall|u: Seq<char>| u != user_id@ ==> final(self).spec_user_group(u)
                        == old(self).spec_user_group(u)
                },
            },
    {
        match self.groups.find(&group_id) {
            None => Err(String::from_str("Group not found")),
            Some(i) => {
                let mut g = self.groups.take_at(i);
                g.add_member(user_id.clone());
                self.groups.put_at(i, g);
                let e = UserGroup { user: user_id, group: group_id };
                self.user_groups.insert(e);
                Ok(())
            },
        }
    }

    /// Removes a member from a group and forgets the user's group record.
    pub fn remove_member_from_group(&mut self, group_id: u128, user_id: &str) -> (r: Result<(), String>)
        requires
            old(self).wf(),
        ensures
            final(self).wf(),
            final(self).calls_and_counts_unchanged(old(self)),
            forall|id: u128| id != group_id ==> final(self).spec_group(id) == old(self).spec_group(id),
            match old(self).spec_group(group_id) {
                None => r is Err && r->Err_0@ == "Group not found"@ && final(self).spec_group(group_id) is None
                    && forall|u: Seq<char>| final(self).spec_user_group(u) == old(self).spec_user_group(u),
                Some(prev) => if !prev.spec_has_member(user_id@) {
                    &&& r is Err
                    &&& r->Err_0@ == "User not in group"@
                    &&& final(self).spec_group(group_id) matches Some(g) && forall|u: Seq<char>| g.spec_has_member(u)
                        <==> prev.spec_has_member(u)
                    &&& forall|u: Seq<char>| final(self).spec_user_group(u) == old(self).spec_user_group(u)
                } else {
                    &&& r is Ok
                    &&& final(self).spec_group(group_id) matches Some(g) && forall|u: Seq<char>| g.spec_has_member(u)
                        <==> (prev.spec_has_member(u) && u != user_id@)
                    &&& final(self).spec_user_group(user_id@) is None
                    &&& forall|u: Seq<char>| u != user_id@ ==> final(self).spec_user_group(u)
                        == old(self).spec_user_group(u)
                },
            },
    {
        match self.groups.find(&group_id) {
            None => Err(String::from_str("Group not found")),
            Some(i) => {
                let mut g = self.groups.take_at(i);
                let removed = g.remove_member(user_id);
                self.groups.put_at(i, g);
                if !removed {
                    return Err(String::from_str("User not in group"));
                }
                self.user_groups.remove(user_id);
                Ok(())
            },
        }
    }

    /// Copies of the groups, in creation order.
    pub fn list_groups(&self) -> (r: Vec<PickupGroup>)
        ensures
            r@.len() == self.spec_groups().len(),
            forall|i: int| 0 <= i < r@.len() ==> same_group(#[trigger] r@[i], self.spec_groups()[i]),
    {
        let mut out: Vec<PickupGroup> = Vec::new();
        let mut i: usize = 0;
        while i < self.groups.len()
            invariant
                i <= self.groups.items().len(),
                out@.len() == i,
                forall|j: int| 0 <= j < i ==> same_group(#[trigger] out@[j], self.groups.items()[j]),
            decreases self.groups.items().len() - i,
        {
            out.push(self.groups.at(i).duplicate());
            i = i + 1;
        }
        out
    }

    /// A copy of the pickup group of `user_id`.
    pub fn get_user_group(&self, user_id: &str) -> (r: Option<PickupGroup>)
        requires
            self.wf(),
        ensures
            match r {
                Some(g) => exists|id: u128, h: PickupGroup| self.spec_user_group(user_id@) == Some(id)
                    && self.spec_group(id) == Some(h) && same_group(g, h),
                None => match self.spec_user_group(user_id@) {
                    Some(id) => self.spec_group(id) is None,
                    None => true,
                },
            },
    {
        let id = match self.user_groups.get(user_id) {
            Some(e) => e.group,
            None => {
                return None;
            },
        };
        self.get_group(id)
    }
}

impl Default for CallPickupManager {
    fn default() -> (r: Self)
        ensures
            r.wf(),
            forall|id: u128| r.spec_group(id) is None,
            forall|u: Seq<char>| r.spec_user_group(u) is None,
            forall|u: Seq<char>| r.spec_permissions(u) is None,
            r.spec_ringing_calls().len() == 0,
            r.spec_total_attempts() == 0,
            r.spec_successful() == 0,
    {
        Self::new()
    }
}

} // verus!
