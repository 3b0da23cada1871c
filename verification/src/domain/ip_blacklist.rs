//! IP blacklist, whitelist and rate limiting: blocked addresses with their
//! expiry, requests and authentication failures counted over sliding windows,
//! and automatic blocking when a limit is reached. Times are milliseconds
//! since the Unix epoch.
use vstd::prelude::*;
use crate::domain::shared::system::{clock_reading, is_v4_uuid, new_uuid, now_millis};
use crate::store::{KeyOf, Keyed, Store};
use crate::text::{
    all_digits, chars_of, decimal, digits_value, find_char, i64_to_string, lemma_find_char,
    parse_u16_chars, signed_decimal, u64_to_string, vec_find_char, vec_slice,
};

verus! {

/// An IP address: an IPv4 address by its 32 bits, or an IPv6 address by its 128 bits.
#[derive(Debug, Clone, Copy, PartialEq, Eq, Hash, Structural)]
pub enum IpAddress {
    V4(u32),
    V6(u128),
}

impl KeyOf for IpAddress {
    type V = IpAddress;

    open spec fn kv(&self) -> IpAddress {
        *self
    }

    fn same(&self, other: &Self) -> (r: bool) {
        *self == *other
    }
}

/// The text split at every `.`.
pub open spec fn split_dots(s: Seq<char>) -> Seq<Seq<char>>
    decreases s.len(),
{
    let i = find_char(s, '.');
    if i >= s.len() {
        seq![s]
    } else {
        proof {
            lemma_find_char(s, '.');
        }
        seq![s.take(i)].add(split_dots(s.skip(i + 1)))
    }
}

/// An octet as the dotted form writes it: one to three digits, no leading
/// zero unless it is `0` itself, and a value of at most 255.
pub open spec fn valid_octet(p: Seq<char>) -> bool {
    &&& 1 <= p.len() <= 3
    &&& all_digits(p)
    &&& (p.len() == 1 || p[0] != '0')
    &&& digits_value(p) <= 255
}

/// The IPv4 address a dotted-quad text denotes, if it is one.
pub open spec fn spec_parse_v4(s: Seq<char>) -> Option<u32> {
    let parts = split_dots(s);
    if parts.len() == 4 && valid_octet(parts[0]) && valid_octet(parts[1]) && valid_octet(parts[2])
        && valid_octet(parts[3]) {
        Some(
            (digits_value(parts[0]) * 16777216 + digits_value(parts[1]) * 65536 + digits_value(parts[2])
                * 256 + digits_value(parts[3])) as u32,
        )
    } else {
        None
    }
}

fn octet_value(p: &Vec<char>) -> (r: Option<u32>)
    ensures
        match r {
            Some(v) => valid_octet(p@) && v == digits_value(p@),
            None => !valid_octet(p@),
        },
{
    if p.len() < 1 || p.len() > 3 {
        return None;
    }
    if !('0' <= p[0] && p[0] <= '9') {
        return None;
    }
    if p.len() > 1 && p[0] == '0' {
        return None;
    }
    match parse_u16_chars(p) {
        Some(v) => {
            assert(crate::text::unsigned_part(p@) == p@);
            if v <= 255 {
                Some(v as u32)
            } else {
                None
            }
        },
        None => {
            assert(crate::text::unsigned_part(p@) == p@);
            None
        },
    }
}

impl IpAddress {
    /// The IPv4 address `a.b.c.d`.
    pub fn v4(a: u8, b: u8, c: u8, d: u8) -> (r: Self)
        ensures
            r == IpAddress::V4((a * 16777216 + b * 65536 + c * 256 + d) as u32),
    {
        IpAddress::V4((a as u32) * 16777216 + (b as u32) * 65536 + (c as u32) * 256 + (d as u32))
    }

    /// The IPv6 address with the given 128 bits.
    pub fn v6(bits: u128) -> (r: Self)
        ensures
            r == IpAddress::V6(bits),
    {
        IpAddress::V6(bits)
    }

    /// Parses a dotted-quad IPv4 address such as `192.168.1.100`.
    pub fn parse_v4(s: &str) -> (r: Option<Self>)
        ensures
            match spec_parse_v4(s@) {
                Some(v) => r == Some(IpAddress::V4(v)),
                None => r is None,
            },
    {
        let chars = chars_of(s);
        let mut parts: Vec<Vec<char>> = Vec::new();
        let mut rest = chars;
        let ghost all = rest@;
        loop
            invariant_except_break
                split_dots(all) == parts@.map_values(|p: Vec<char>| p@) + split_dots(rest@),
            ensures
                split_dots(all) == parts@.map_values(|p: Vec<char>| p@),
            decreases rest@.len(),
        {
            let i = vec_find_char(&rest, '.');
            proof {
                lemma_find_char(rest@, '.');
            }
            if i >= rest.len() {
                let ghost before = parts@;
                parts.push(rest);
                assert(parts@.map_values(|p: Vec<char>| p@) =~= before.map_values(|p: Vec<char>| p@).push(
                    parts@.last()@,
                ));
                break;
            }
            let head = vec_slice(&rest, 0, i);
            let tail = vec_slice(&rest, i + 1, rest.len());
            assert(head@ =~= rest@.take(i as int));
            assert(tail@ =~= rest@.skip(i + 1));
            let ghost before = parts@;
            let ghost r0 = rest@;
            parts.push(head);
            assert(parts@.map_values(|p: Vec<char>| p@) =~= before.map_values(|p: Vec<char>| p@).push(
                r0.take(i as int),
            ));
            assert(split_dots(r0) == seq![r0.take(i as int)].add(split_dots(r0.skip(i + 1))));
            rest = tail;
            assert(split_dots(all) =~= parts@.map_values(|p: Vec<char>| p@) + split_dots(rest@));
        }
        let ghost ps = parts@.map_values(|p: Vec<char>| p@);
        if parts.len() != 4 {
            return None;
        }
        assert(ps[0] == parts@[0]@ && ps[1] == parts@[1]@ && ps[2] == parts@[2]@ && ps[3] == parts@[3]@);
        let a = match octet_value(&parts[0]) {
            Some(v) => v,
            None => {
                return None;
            },
        };
        let b = match octet_value(&parts[1]) {
            Some(v) => v,
            None => {
                return None;
            },
        };
        let c = match octet_value(&parts[2]) {
            Some(v) => v,
            None => {
                return None;
            },
        };
        let d = match octet_value(&parts[3]) {
            Some(v) => v,
            None => {
                return None;
            },
        };
        Some(IpAddress::V4(a * 16777216 + b * 65536 + c * 256 + d))
    }
}

/// IP blacklist entry reason.
#[derive(Debug, Clone, PartialEq, Eq)]
pub enum BlacklistReason {
    /// Manual block by administrator
    Manual,
    /// Too many authentication failures
    AuthenticationFailures,
    /// Too many requests (rate limit exceeded)
    RateLimitExceeded,
    /// Suspicious activity detected
    SuspiciousActivity,
    /// Malformed requests
    MalformedRequests,
    /// Port scanning detected
    PortScanning,
    /// Brute force attack
    BruteForce,
    /// Custom reason
    Custom(String),
}

/// The text of a reason.
pub open spec fn spec_reason_text(r: BlacklistReason) -> Seq<char> {
    match r {
        BlacklistReason::Manual => "Manual block"@,
        BlacklistReason::AuthenticationFailures => "Too many auth failures"@,
        BlacklistReason::RateLimitExceeded => "Rate limit exceeded"@,
        BlacklistReason::SuspiciousActivity => "Suspicious activity"@,
        BlacklistReason::MalformedRequests => "Malformed requests"@,
        BlacklistReason::PortScanning => "Port scanning"@,
        BlacklistReason::BruteForce => "Brute force attack"@,
        BlacklistReason::Custom(s) => s@,
    }
}

impl BlacklistReason {
    /// The reason's text.
    pub fn to_string(&self) -> (r: String)
        ensures
            r@ == spec_reason_text(*self),
    {
        match self {
            BlacklistReason::Manual => String::from_str("Manual block"),
            BlacklistReason::AuthenticationFailures => String::from_str("Too many auth failures"),
            BlacklistReason::RateLimitExceeded => String::from_str("Rate limit exceeded"),
            BlacklistReason::SuspiciousActivity => String::from_str("Suspicious activity"),
            BlacklistReason::MalformedRequests => String::from_str("Malformed requests"),
            BlacklistReason::PortScanning => String::from_str("Port scanning"),
            BlacklistReason::BruteForce => String::from_str("Brute force attack"),
            BlacklistReason::Custom(s) => s.clone(),
        }
    }

    /// A copy of the reason.
    pub fn duplicate(&self) -> (r: Self)
        ensures
            r == *self,
    {
        match self {
            BlacklistReason::Manual => BlacklistReason::Manual,
            BlacklistReason::AuthenticationFailures => BlacklistReason::AuthenticationFailures,
            BlacklistReason::RateLimitExceeded => BlacklistReason::RateLimitExceeded,
            BlacklistReason::SuspiciousActivity => BlacklistReason::SuspiciousActivity,
            BlacklistReason::MalformedRequests => BlacklistReason::MalformedRequests,
            BlacklistReason::PortScanning => BlacklistReason::PortScanning,
            BlacklistReason::BruteForce => BlacklistReason::BruteForce,
            BlacklistReason::Custom(s) => BlacklistReason::Custom(s.clone()),
        }
    }
}

/// Whether an entry expiring at `expires_at` has expired at `now`.
pub open spec fn expired_at(expires_at: Option<i64>, now: i64) -> bool {
    match expires_at {
        Some(e) => now > e,
        None => false,
    }
}

/// IP blacklist entry.
#[derive(Debug, Clone)]
pub struct BlacklistEntry {
    pub id: u128,
    pub ip_address: IpAddress,
    pub reason: BlacklistReason,
    pub description: String,
    pub added_at: i64,
    pub expires_at: Option<i64>,
    pub added_by: Option<String>,
}

impl BlacklistEntry {
    /// A permanent entry added at `now` with the given identifier.
    pub fn new_at(id: u128, ip_address: IpAddress, reason: BlacklistReason, now: i64) -> (r: Self)
        ensures
            r == (BlacklistEntry {
                id,
                ip_address,
                reason,
                description: r.description,
                added_at: now,
                expires_at: None,
                added_by: None,
            }),
            r.description@.len() == 0,
    {
        BlacklistEntry {
            id,
            ip_address,
            reason,
            description: String::new(),
            added_at: now,
            expires_at: None,
            added_by: None,
        }
    }

    /// A permanent entry added now with a fresh identifier.
    pub fn new(ip_address: IpAddress, reason: BlacklistReason) -> (r: Self)
        ensures
            is_v4_uuid(r.id),
            r.ip_address == ip_address,
            r.reason == reason,
            r.description@.len() == 0,
            r.expires_at is None,
            r.added_by is None,
    {
        let id = new_uuid();
        Self::new_at(id, ip_address, reason, now_millis())
    }

    pub fn with_description(self, description: String) -> (r: Self)
        ensures
            r == (BlacklistEntry { description, ..self }),
    {
        let mut e = self;
        e.description = description;
        e
    }

    /// The entry expiring `duration_ms` after `now`.
    pub fn with_expiry_at(self, duration_ms: i64, now: i64) -> (r: Self)
        requires
            i64::MIN <= now + duration_ms <= i64::MAX,
        ensures
            r == (BlacklistEntry { expires_at: Some((now + duration_ms) as i64), ..self }),
    {
        let mut e = self;
        e.expires_at = Some(now + duration_ms);
        e
    }

    /// The entry expiring `duration_ms` from now; a time past the clock's
    /// range leaves the entry permanent.
    pub fn with_expiry(self, duration_ms: i64) -> (r: Self)
        ensures
            r.id == self.id,
            r.ip_address == self.ip_address,
            r.reason == self.reason,
            r.description == self.description,
            r.added_at == self.added_at,
            r.added_by == self.added_by,
    {
        let now = now_millis();
        match now.checked_add(duration_ms) {
            Some(t) => {
                let mut e = self;
                e.expires_at = Some(t);
                e
            },
            None => self,
        }
    }

    pub fn with_added_by(self, added_by: String) -> (r: Self)
        ensures
            r == (BlacklistEntry { added_by: Some(added_by), ..self }),
    {
        let mut e = self;
        e.added_by = Some(added_by);
        e
    }

    /// Whether the entry has expired at `now`.
    pub fn is_expired_at(&self, now: i64) -> (r: bool)
        ensures
            r == expired_at(self.expires_at, now),
    {
        match self.expires_at {
            Some(e) => now > e,
            None => false,
        }
    }

    /// Whether the entry has expired by now.
    pub fn is_expired(&self) -> (r: bool)
        ensures
            self.expires_at is None ==> !r,
            exists|now: i64| #[trigger] clock_reading(now) && {
                &&& (r == expired_at(self.expires_at, now))
            },
    {
        let now = now_millis();
        proof {
            assert(clock_reading(now));
        }
        self.is_expired_at(now)
    }

    pub fn is_permanent(&self) -> (r: bool)
        ensures
            r == self.expires_at is None,
    {
        self.expires_at.is_none()
    }

    /// A copy of the entry.
    pub fn duplicate(&self) -> (r: Self)
        ensures
            r == *self,
    {
        BlacklistEntry {
            id: self.id,
            ip_address: self.ip_address,
            reason: self.reason.duplicate(),
            description: self.description.clone(),
            added_at: self.added_at,
            expires_at: self.expires_at,
            added_by: match &self.added_by {
                Some(a) => Some(a.clone()),
                None => None,
            },
        }
    }
}

impl Keyed for BlacklistEntry {
    type Key = IpAddress;

    open spec fn key(&self) -> IpAddress {
        self.ip_address
    }

    open spec fn inv(&self) -> bool {
        true
    }

    fn key_ref(&self) -> (r: &IpAddress) {
        &self.ip_address
    }
}

/// IP whitelist entry.
#[derive(Debug, Clone)]
pub struct WhitelistEntry {
    pub id: u128,
    pub ip_address: IpAddress,
    pub description: String,
    pub added_at: i64,
    pub added_by: Option<String>,
}

impl WhitelistEntry {
    /// An entry added at `now` with the given identifier.
    pub fn new_at(id: u128, ip_address: IpAddress, now: i64) -> (r: Self)
        ensures
            r.id == id,
            r.ip_address == ip_address,
            r.description@.len() == 0,
            r.added_at == now,
            r.added_by is None,
    {
        WhitelistEntry { id, ip_address, description: String::new(), added_at: now, added_by: None }
    }

    /// An entry added now with a fresh identifier.
    pub fn new(ip_address: IpAddress) -> (r: Self)
        ensures
            is_v4_uuid(r.id),
            r.ip_address == ip_address,
            r.description@.len() == 0,
            r.added_by is None,
    {
        let id = new_uuid();
        Self::new_at(id, ip_address, now_millis())
    }

    pub fn with_description(self, description: String) -> (r: Self)
        ensures
            r == (WhitelistEntry { description, ..self }),
    {
        let mut e = self;
        e.description = description;
        e
    }

    pub fn with_added_by(self, added_by: String) -> (r: Self)
        ensures
            r == (WhitelistEntry { added_by: Some(added_by), ..self }),
    {
        let mut e = self;
        e.added_by = Some(added_by);
        e
    }

    /// A copy of the entry.
    pub fn duplicate(&self) -> (r: Self)
        ensures
            r == *self,
    {
        WhitelistEntry {
            id: self.id,
            ip_address: self.ip_address,
            description: self.description.clone(),
            added_at: self.added_at,
            added_by: match &self.added_by {
                Some(a) => Some(a.clone()),
                None => None,
            },
        }
    }
}

impl Keyed for WhitelistEntry {
    type Key = IpAddress;

    open spec fn key(&self) -> IpAddress {
        self.ip_address
    }

    open spec fn inv(&self) -> bool {
        true
    }

    fn key_ref(&self) -> (r: &IpAddress) {
        &self.ip_address
    }
}

/// The times of a sliding window after dropping, from the oldest on, those
/// before the cutoff.
pub open spec fn drop_before(s: Seq<i64>, cutoff: int) -> Seq<i64>
    decreases s.len(),
{
    if s.len() > 0 && s[0] < cutoff {
        drop_before(s.drop_first(), cutoff)
    } else {
        s
    }
}

/// The start of a window of `window_seconds` ending at `now`.
pub open spec fn window_start(now: i64, window_seconds: i64) -> int {
    now - window_seconds * 1000
}

/// Event times recorded for one address over a sliding window.
pub struct EventWindow {
    ip: IpAddress,
    times: Vec<i64>,
}

impl EventWindow {
    pub closed spec fn spec_ip(&self) -> IpAddress {
        self.ip
    }

    pub closed spec fn spec_times(&self) -> Seq<i64> {
        self.times@
    }

    /// Drops, from the oldest on, the times before the cutoff.
    fn drop_old(&mut self, cutoff: i128)
        ensures
            final(self).spec_times() == drop_before(old(self).spec_times(), cutoff as int),
            final(self).spec_ip() == old(self).spec_ip(),
    {
        while self.times.len() > 0 && (self.times[0] as i128) < cutoff
            invariant
                drop_before(self.times@, cutoff as int) == drop_before(old(self).times@, cutoff as int),
                self.ip == old(self).ip,
            decreases self.times@.len(),
        {
            let ghost before = self.times@;
            self.times.remove(0);
            assert(self.times@ =~= before.drop_first());
        }
    }
}

impl Keyed for EventWindow {
    type Key = IpAddress;

    closed spec fn key(&self) -> IpAddress {
        self.ip
    }

    closed spec fn inv(&self) -> bool {
        true
    }

    fn key_ref(&self) -> (r: &IpAddress) {
        &self.ip
    }
}

/// Configuration for the blacklist manager; block durations are in milliseconds.
#[derive(Debug, Clone)]
pub struct BlacklistConfig {
    /// Rate limit: max requests per window
    pub rate_limit_max_requests: usize,
    /// Rate limit: window in seconds
    pub rate_limit_window_seconds: i64,
    /// Auth failures: max failures before auto-block
    pub max_auth_failures: usize,
    /// Auth failures: tracking window in seconds
    pub auth_failure_window_seconds: i64,
    /// Auto-block duration for rate limit violations
    pub rate_limit_block_duration_ms: i64,
    /// Auto-block duration for auth failures
    pub auth_failure_block_duration_ms: i64,
    /// Enable auto-blocking
    pub auto_block_enabled: bool,
}

impl Default for BlacklistConfig {
    /// 100 requests a minute, 5 failures in five minutes, blocks of an hour
    /// and a day, auto-blocking on.
    fn default() -> (r: Self)
        ensures
            r.rate_limit_max_requests == 100,
            r.rate_limit_window_seconds == 60,
            r.max_auth_failures == 5,
            r.auth_failure_window_seconds == 300,
            r.rate_limit_block_duration_ms == 3_600_000,
            r.auth_failure_block_duration_ms == 86_400_000,
            r.auto_block_enabled,
    {
        BlacklistConfig {
            rate_limit_max_requests: 100,
            rate_limit_window_seconds: 60,
            max_auth_failures: 5,
            auth_failure_window_seconds: 300,
            rate_limit_block_duration_ms: 3_600_000,
            auth_failure_block_duration_ms: 86_400_000,
            auto_block_enabled: true,
        }
    }
}

/// Blacklist statistics.
#[derive(Debug, Clone)]
pub struct BlacklistStatistics {
    pub total_blacklisted: usize,
    pub active_blocks: usize,
    pub permanent_blocks: usize,
    pub temporary_blocks: usize,
    pub whitelisted_ips: usize,
    pub tracked_ips: usize,
    pub ips_with_failures: usize,
}

/// The description of a block for exceeding the rate limit.
pub open spec fn rate_block_description(max: usize, window: i64) -> Seq<char> {
    "Auto-blocked: "@ + decimal(max as nat) + " requests in "@ + signed_decimal(window as int) + " seconds"@
}

/// The description of a block for authentication failures.
pub open spec fn failure_block_description(max: usize, window: i64) -> Seq<char> {
    "Auto-blocked: "@ + decimal(max as nat) + " auth failures in "@ + signed_decimal(window as int)
        + " seconds"@
}

/// `e` is a fresh automatic block of `ip` made at `now` with the given
/// reason, description and duration.
pub open spec fn is_auto_block(
    e: BlacklistEntry,
    ip: IpAddress,
    reason: BlacklistReason,
    description: Seq<char>,
    now: i64,
    duration_ms: i64,
) -> bool {
    &&& is_v4_uuid(e.id)
    &&& e.ip_address == ip
    &&& e.reason == reason
    &&& e.description@ == description
    &&& e.added_at == now
    &&& e.expires_at == (if i64::MIN <= now + duration_ms <= i64::MAX {
        Some((now + duration_ms) as i64)
    } else {
        None::<i64>
    })
    &&& e.added_by is None
}

/// Entries not expired at `now`.
pub open spec fn count_active(s: Seq<BlacklistEntry>, now: i64) -> int
    decreases s.len(),
{
    if s.len() == 0 {
        0
    } else {
        count_active(s.drop_last(), now) + if expired_at(s.last().expires_at, now) { 0int } else { 1int }
    }
}

/// Entries that never expire.
pub open spec fn count_permanent(s: Seq<BlacklistEntry>) -> int
    decreases s.len(),
{
    if s.len() == 0 {
        0
    } else {
        count_permanent(s.drop_last()) + if s.last().expires_at is None { 1int } else { 0int }
    }
}

/// Permanent entries are active, so they never outnumber the active ones.
pub proof fn lemma_permanent_are_active(s: Seq<BlacklistEntry>, now: i64)
    ensures
        0 <= count_permanent(s) <= count_active(s, now) <= s.len(),
    decreases s.len(),
{
    if s.len() > 0 {
        lemma_permanent_are_active(s.drop_last(), now);
    }
}

/// IP blacklist and rate limiting manager.
pub struct IpBlacklistManager {
    blacklist: Store<BlacklistEntry>,
    whitelist: Store<WhitelistEntry>,
    request_trackers: Store<EventWindow>,
    failure_trackers: Store<EventWindow>,
    config: BlacklistConfig,
}

impl IpBlacklistManager {
    pub closed spec fn spec_blacklist(&self) -> Store<BlacklistEntry> {
        self.blacklist
    }

    pub closed spec fn spec_whitelist(&self) -> Store<WhitelistEntry> {
        self.whitelist
    }

    pub closed spec fn spec_request_trackers(&self) -> Store<EventWindow> {
        self.request_trackers
    }

    pub closed spec fn spec_failure_trackers(&self) -> Store<EventWindow> {
        self.failure_trackers
    }

    pub closed spec fn spec_config(&self) -> BlacklistConfig {
        self.config
    }

    /// The request times kept for an address.
    pub open spec fn spec_requests(&self, ip: IpAddress) -> Seq<i64> {
        match self.spec_request_trackers().get_spec(ip) {
            Some(t) => t.spec_times(),
            None => Seq::empty(),
        }
    }

    /// The failure times kept for an address.
    pub open spec fn spec_failures(&self, ip: IpAddress) -> Seq<i64> {
        match self.spec_failure_trackers().get_spec(ip) {
            Some(t) => t.spec_times(),
            None => Seq::empty(),
        }
    }

    /// Whether an address is blocked at `now`: not whitelisted, and
    /// blacklisted by an entry that has not expired.
    pub open spec fn spec_blocked(&self, ip: IpAddress, now: i64) -> bool {
        &&& !self.spec_whitelist().contains(ip)
        &&& match self.spec_blacklist().get_spec(ip) {
            Some(e) => !expired_at(e.expires_at, now),
            None => false,
        }
    }

    pub open spec fn wf(&self) -> bool {
        &&& self.spec_blacklist().wf()
        &&& self.spec_whitelist().wf()
        &&& self.spec_request_trackers().wf()
        &&& self.spec_failure_trackers().wf()
    }

    pub fn new(config: BlacklistConfig) -> (r: Self)
        ensures
            r.wf(),
            r.spec_config() == config,
            r.spec_blacklist().items().len() == 0,
            r.spec_whitelist().items().len() == 0,
            r.spec_request_trackers().items().len() == 0,
            r.spec_failure_trackers().items().len() == 0,
    {
        IpBlacklistManager {
            blacklist: Store::new(),
            whitelist: Store::new(),
            request_trackers: Store::new(),
            failure_trackers: Store::new(),
            config,
        }
    }

    /// Whether an address is blocked at `now`; the whitelist takes precedence.
    pub fn is_blocked_at(&self, ip: &IpAddress, now: i64) -> (r: bool)
        requires
            self.wf(),
        ensures
            r == self.spec_blocked(*ip, now),
    {
        if self.whitelist.find(ip).is_some() {
            return false;
        }
        match self.blacklist.get(ip) {
            Some(e) => !e.is_expired_at(now),
            None => false,
        }
    }

    /// Whether an address is blocked now.
    pub fn is_blocked(&self, ip: &IpAddress) -> (r: bool)
        requires
            self.wf(),
        ensures
            r ==> self.spec_blacklist().contains(*ip) && !self.spec_whitelist().contains(*ip),
            (!self.spec_whitelist().contains(*ip) && (self.spec_blacklist().get_spec(*ip) matches Some(e)
                && e.expires_at is None)) ==> r,
            exists|now: i64| #[trigger] clock_reading(now) && {
                &&& (r == self.spec_blocked(*ip, now))
            },
    {
        let now = now_millis();
        proof {
            assert(clock_reading(now));
        }
        self.is_blocked_at(ip, now)
    }

    /// Blacklists the entry's address, replacing an earlier entry for it.
    pub fn block_ip(&mut self, entry: BlacklistEntry) -> (r: u128)
        requires
            old(self).wf(),
        ensures
            final(self).wf(),
            r == entry.id,
            final(self).spec_blacklist().get_spec(entry.ip_address) == Some(entry),
            forall|k: IpAddress| k != entry.ip_address ==> final(self).spec_blacklist().get_spec(k)
                == old(self).spec_blacklist().get_spec(k),
            final(self).spec_whitelist() == old(self).spec_whitelist(),
            final(self).spec_request_trackers() == old(self).spec_request_trackers(),
            final(self).spec_failure_trackers() == old(self).spec_failure_trackers(),
            final(self).spec_config() == old(self).spec_config(),
    {
        let id = entry.id;
        self.blacklist.insert(entry);
        id
    }

    /// Removes an address from the blacklist; tells whether it was there.
    pub fn unblock_ip(&mut self, ip: &IpAddress) -> (r: bool)
        requires
            old(self).wf(),
        ensures
            final(self).wf(),
            r == old(self).spec_blacklist().contains(*ip),
            !final(self).spec_blacklist().contains(*ip),
            forall|k: IpAddress| k != *ip ==> final(self).spec_blacklist().get_spec(k) == old(self).spec_blacklist().get_spec(k),
            final(self).spec_whitelist() == old(self).spec_whitelist(),
            final(self).spec_request_trackers() == old(self).spec_request_trackers(),
            final(self).spec_failure_trackers() == old(self).spec_failure_trackers(),
            final(self).spec_config() == old(self).spec_config(),
    {
        self.blacklist.remove(ip).is_some()
    }

    /// Whitelists the entry's address, replacing an earlier entry for it.
    pub fn whitelist_ip(&mut self, entry: WhitelistEntry) -> (r: u128)
        requires
            old(self).wf(),
        ensures
            final(self).wf(),
            r == entry.id,
            final(self).spec_whitelist().get_spec(entry.ip_address) == Some(entry),
            forall|k: IpAddress| k != entry.ip_address ==> final(self).spec_whitelist().get_spec(k)
                == old(self).spec_whitelist().get_spec(k),
            final(self).spec_blacklist() == old(self).spec_blacklist(),
            final(self).spec_request_trackers() == old(self).spec_request_trackers(),
            final(self).spec_failure_trackers() == old(self).spec_failure_trackers(),
            final(self).spec_config() == old(self).spec_config(),
    {
        let id = entry.id;
        self.whitelist.insert(entry);
        id
    }

    /// Removes an address from the whitelist; tells whether it was there.
    pub fn remove_from_whitelist(&mut self, ip: &IpAddress) -> (r: bool)
        requires
            old(self).wf(),
        ensures
            final(self).wf(),
            r == old(self).spec_whitelist().contains(*ip),
            !final(self).spec_whitelist().contains(*ip),
            forall|k: IpAddress| k != *ip ==> final(self).spec_whitelist().get_spec(k) == old(self).spec_whitelist().get_spec(k),
            final(self).spec_blacklist() == old(self).spec_blacklist(),
            final(self).spec_request_trackers() == old(self).spec_request_trackers(),
            final(self).spec_failure_trackers() == old(self).spec_failure_trackers(),
            final(self).spec_config() == old(self).spec_config(),
    {
        self.whitelist.remove(ip).is_some()
    }

    pub fn is_whitelisted(&self, ip: &IpAddress) -> (r: bool)
        requires
            self.wf(),
        ensures
            r == self.spec_whitelist().contains(*ip),
    {
        self.whitelist.find(ip).is_some()
    }

    /// Drops the old times of an address's window (made empty if it has none)
    /// and appends `add` if given, dropping old times again; gives back the
    /// number of times kept.
    fn update_window(store: &mut Store<EventWindow>, ip: &IpAddress, cutoff: i128, add: Option<i64>) -> (r: usize)
        requires
            old(store).wf(),
        ensures
            final(store).wf(),
            final(store).contains(*ip),
            ({
                let base = match old(store).get_spec(*ip) {
                    Some(t) => t.spec_times(),
                    None => Seq::empty(),
                };
                let kept = drop_before(base, cutoff as int);
                let result = match add {
                    Some(t) => drop_before(kept.push(t), cutoff as int),
                    None => kept,
                };
                &&& final(store).get_spec(*ip).unwrap().spec_times() == result
                &&& r == result.len()
            }),
            forall|k: IpAddress| k != *ip ==> final(store).get_spec(k) == old(store).get_spec(k),
    {
        let mut w = match store.remove(ip) {
            Some(w) => w,
            None => EventWindow { ip: *ip, times: Vec::new() },
        };
        w.drop_old(cutoff);
        match add {
            Some(t) => {
                w.times.push(t);
                w.drop_old(cutoff);
            },
            None => {},
        }
        let n = w.times.len();
        store.push_new(w);
        n
    }

    /// Records a request from an address at `now` and checks the rate limit.
    /// Whitelisted addresses pass; blocked ones are refused. Otherwise the
    /// requests older than the window are forgotten; when as many as the limit
    /// remain the request is refused (and the address blocked, when
    /// auto-blocking is on), else it is counted.
    pub fn check_rate_limit_at(&mut self, ip: &IpAddress, now: i64) -> (r: Result<(), String>)
        requires
            old(self).wf(),
        ensures
            final(self).wf(),
            final(self).spec_config() == old(self).spec_config(),
            final(self).spec_whitelist() == old(self).spec_whitelist(),
            final(self).spec_failure_trackers() == old(self).spec_failure_trackers(),
            forall|k: IpAddress| k != *ip ==> final(self).spec_requests(k) == old(self).spec_requests(k),
            old(self).spec_whitelist().contains(*ip) ==> r is Ok && final(self).spec_request_trackers()
                == old(self).spec_request_trackers() && final(self).spec_blacklist() == old(self).spec_blacklist(),
            old(self).spec_blocked(*ip, now) ==> (r matches Err(m) && m@ == "IP is blocked"@)
                && final(self).spec_request_trackers() == old(self).spec_request_trackers()
                && final(self).spec_blacklist() == old(self).spec_blacklist(),
            !old(self).spec_whitelist().contains(*ip) && !old(self).spec_blocked(*ip, now) ==> {
                let cfg = old(self).spec_config();
                let cutoff = window_start(now, cfg.rate_limit_window_seconds);
                let kept = drop_before(old(self).spec_requests(*ip), cutoff);
                if kept.len() >= cfg.rate_limit_max_requests {
                    &&& r matches Err(m) && m@ == "Rate limit exceeded"@
                    &&& final(self).spec_requests(*ip) == kept
                    &&& (cfg.auto_block_enabled ==> (final(self).spec_blacklist().get_spec(*ip) matches Some(e)
                        && is_auto_block(
                        e,
                        *ip,
                        BlacklistReason::RateLimitExceeded,
                        rate_block_description(cfg.rate_limit_max_requests, cfg.rate_limit_window_seconds),
                        now,
                        cfg.rate_limit_block_duration_ms,
                    )))
                    &&& (!cfg.auto_block_enabled ==> final(self).spec_blacklist() == old(self).spec_blacklist())
                } else {
                    &&& r is Ok
                    &&& final(self).spec_requests(*ip) == drop_before(kept.push(now), cutoff)
                    &&& final(self).spec_blacklist() == old(self).spec_blacklist()
                }
            },
            forall|k: IpAddress| k != *ip ==> final(self).spec_blacklist().get_spec(k) == old(self).spec_blacklist().get_spec(k),
    {
        if self.whitelist.find(ip).is_some() {
            return Ok(());
        }
        if self.is_blocked_at(ip, now) {
            return Err(String::from_str("IP is blocked"));
        }
        let cutoff: i128 = now as i128 - self.config.rate_limit_window_seconds as i128 * 1000;
        let n = Self::update_window(&mut self.request_trackers, ip, cutoff, None);
        if n >= self.config.rate_limit_max_requests {
            if self.config.auto_block_enabled {
                let desc = Self::describe_block(
                    self.config.rate_limit_max_requests,
                    " requests in ",
                    self.config.rate_limit_window_seconds,
                );
                proof {
                    assert(desc@ == rate_block_description(self.config.rate_limit_max_requests, self.config.rate_limit_window_seconds));
                }
                let entry = Self::auto_block_entry(*ip, BlacklistReason::RateLimitExceeded, desc, now, self.config.rate_limit_block_duration_ms);
                self.blacklist.insert(entry);
            }
            return Err(String::from_str("Rate limit exceeded"));
        }
        let _ = Self::update_window(&mut self.request_trackers, ip, cutoff, Some(now));
        proof {
            let base = old(self).spec_requests(*ip);
            let kept = drop_before(base, cutoff as int);
            assert(drop_before(kept, cutoff as int) == kept) by {
                lemma_drop_before_idempotent(base, cutoff as int);
            }
        }
        Ok(())
    }

    /// Records a request now and checks the rate limit.
    pub fn check_rate_limit(&mut self, ip: &IpAddress) -> (r: Result<(), String>)
        requires
            old(self).wf(),
        ensures
            final(self).wf(),
            old(self).spec_whitelist().contains(*ip) ==> r is Ok,
            r matches Err(m) ==> m@ == "IP is blocked"@ || m@ == "Rate limit exceeded"@,
            exists|now: i64| #[trigger] clock_reading(now) && {
                &&& (final(self).spec_config() == old(self).spec_config())
                &&& (final(self).spec_whitelist() == old(self).spec_whitelist())
                &&& (final(self).spec_failure_trackers() == old(self).spec_failure_trackers())
                &&& (forall|k: IpAddress| k != *ip ==> final(self).spec_requests(k) == old(self).spec_requests(k))
                &&& (old(self).spec_whitelist().contains(*ip) ==> r is Ok && final(self).spec_request_trackers()
                    == old(self).spec_request_trackers() && final(self).spec_blacklist() == old(self).spec_blacklist())
                &&& (old(self).spec_blocked(*ip, now) ==> (r matches Err(m) && m@ == "IP is blocked"@)
                    && final(self).spec_request_trackers() == old(self).spec_request_trackers()
                    && final(self).spec_blacklist() == old(self).spec_blacklist())
                &&& (!old(self).spec_whitelist().contains(*ip) && !old(self).spec_blocked(*ip, now) ==> {
                    let cfg = old(self).spec_config();
                    let cutoff = window_start(now, cfg.rate_limit_window_seconds);
                    let kept = drop_before(old(self).spec_requests(*ip), cutoff);
                    if kept.len() >= cfg.rate_limit_max_requests {
                        &&& r matches Err(m) && m@ == "Rate limit exceeded"@
                        &&& final(self).spec_requests(*ip) == kept
                        &&& (cfg.auto_block_enabled ==> (final(self).spec_blacklist().get_spec(*ip) matches Some(e)
                            && is_auto_block(
                            e,
                            *ip,
                            BlacklistReason::RateLimitExceeded,
                            rate_block_description(cfg.rate_limit_max_requests, cfg.rate_limit_window_seconds),
                            now,
                            cfg.rate_limit_block_duration_ms,
                        )))
                        &&& (!cfg.auto_block_enabled ==> final(self).spec_blacklist() == old(self).spec_blacklist())
                    } else {
                        &&& r is Ok
                        &&& final(self).spec_requests(*ip) == drop_before(kept.push(now), cutoff)
                        &&& final(self).spec_blacklist() == old(self).spec_blacklist()
                    }
                })
                &&& (forall|k: IpAddress| k != *ip ==> final(self).spec_blacklist().get_spec(k) == old(self).spec_blacklist().get_spec(k))
            },
    {
        let now = now_millis();
        proof {
            assert(clock_reading(now));
        }
        self.check_rate_limit_at(ip, now)
    }

    fn describe_block(max: usize, middle: &str, window: i64) -> (r: String)
        ensures
            r@ == "Auto-blocked: "@ + decimal(max as nat) + middle@ + signed_decimal(window as int) + " seconds"@,
    {
        let mut d = String::from_str("Auto-blocked: ");
        let m = u64_to_string(max as u64);
        d.append(m.as_str());
        d.append(middle);
        let w = i64_to_string(window);
        d.append(w.as_str());
        d.append(" seconds");
        d
    }

    fn auto_block_entry(ip: IpAddress, reason: BlacklistReason, description: String, now: i64, duration_ms: i64) -> (r: BlacklistEntry)
        ensures
            is_auto_block(r, ip, reason, description@, now, duration_ms),
    {
        let id = new_uuid();
        let e = BlacklistEntry::new_at(id, ip, reason, now).with_description(description);
        match now.checked_add(duration_ms) {
            Some(t) => e.with_expiry_at(duration_ms, now),
            None => e,
        }
    }

    /// Records an authentication failure from an address at `now`.
    /// Whitelisted addresses are not tracked. Failures older than the window
    /// are forgotten; when the failures reach the limit and auto-blocking is
    /// on, the address is blocked and the failure refused.
    pub fn record_auth_failure_at(&mut self, ip: &IpAddress, now: i64) -> (r: Result<(), String>)
        requires
            old(self).wf(),
        ensures
            final(self).wf(),
            final(self).spec_config() == old(self).spec_config(),
            final(self).spec_whitelist() == old(self).spec_whitelist(),
            final(self).spec_request_trackers() == old(self).spec_request_trackers(),
            forall|k: IpAddress| k != *ip ==> final(self).spec_failures(k) == old(self).spec_failures(k),
            forall|k: IpAddress| k != *ip ==> final(self).spec_blacklist().get_spec(k) == old(self).spec_blacklist().get_spec(k),
            old(self).spec_whitelist().contains(*ip) ==> r is Ok && final(self).spec_failure_trackers()
                == old(self).spec_failure_trackers() && final(self).spec_blacklist() == old(self).spec_blacklist(),
            !old(self).spec_whitelist().contains(*ip) ==> {
                let cfg = old(self).spec_config();
                let cutoff = window_start(now, cfg.auth_failure_window_seconds);
                let failures = drop_before(drop_before(old(self).spec_failures(*ip), cutoff).push(now), cutoff);
                &&& final(self).spec_failures(*ip) == failures
                &&& if failures.len() >= cfg.max_auth_failures && cfg.auto_block_enabled {
                    &&& r matches Err(m) && m@ == "Too many authentication failures - IP blocked"@
                    &&& final(self).spec_blacklist().get_spec(*ip) matches Some(e) && is_auto_block(
                        e,
                        *ip,
                        BlacklistReason::BruteForce,
                        failure_block_description(cfg.max_auth_failures, cfg.auth_failure_window_seconds),
                        now,
                        cfg.auth_failure_block_duration_ms,
                    )
                } else {
                    &&& r is Ok
                    &&& final(self).spec_blacklist() == old(self).spec_blacklist()
                }
            },
    {
        if self.whitelist.find(ip).is_some() {
            return Ok(());
        }
        let cutoff: i128 = now as i128 - self.config.auth_failure_window_seconds as i128 * 1000;
        let _ = Self::update_window(&mut self.failure_trackers, ip, cutoff, None);
        let n = Self::update_window(&mut self.failure_trackers, ip, cutoff, Some(now));
        proof {
            let base = old(self).spec_failures(*ip);
            lemma_drop_before_idempotent(base, cutoff as int);
        }
        if n >= self.config.max_auth_failures && self.config.auto_block_enabled {
            let desc = Self::describe_block(
                self.config.max_auth_failures,
                " auth failures in ",
                self.config.auth_failure_window_seconds,
            );
            let entry = Self::auto_block_entry(*ip, BlacklistReason::BruteForce, desc, now, self.config.auth_failure_block_duration_ms);
            self.blacklist.insert(entry);
            return Err(String::from_str("Too many authentication failures - IP blocked"));
        }
        Ok(())
    }

    /// Records an authentication failure now.
    pub fn record_auth_failure(&mut self, ip: &IpAddress) -> (r: Result<(), String>)
        requires
            old(self).wf(),
        ensures
            final(self).wf(),
            old(self).spec_whitelist().contains(*ip) ==> r is Ok,
            r matches Err(m) ==> m@ == "Too many authentication failures - IP blocked"@ && final(self).spec_blacklist().contains(*ip),
            exists|now: i64| #[trigger] clock_reading(now) && {
                &&& (final(self).spec_config() == old(self).spec_config())
                &&& (final(self).spec_whitelist() == old(self).spec_whitelist())
                &&& (final(self).spec_request_trackers() == old(self).spec_request_trackers())
                &&& (forall|k: IpAddress| k != *ip ==> final(self).spec_failures(k) == old(self).spec_failures(k))
                &&& (forall|k: IpAddress| k != *ip ==> final(self).spec_blacklist().get_spec(k) == old(self).spec_blacklist().get_spec(k))
                &&& (old(self).spec_whitelist().contains(*ip) ==> r is Ok && final(self).spec_failure_trackers()
                    == old(self).spec_failure_trackers() && final(self).spec_blacklist() == old(self).spec_blacklist())
                &&& (!old(self).spec_whitelist().contains(*ip) ==> {
                    let cfg = old(self).spec_config();
                    let cutoff = window_start(now, cfg.auth_failure_window_seconds);
                    let failures = drop_before(drop_before(old(self).spec_failures(*ip), cutoff).push(now), cutoff);
                    &&& final(self).spec_failures(*ip) == failures
                    &&& if failures.len() >= cfg.max_auth_failures && cfg.auto_block_enabled {
                        &&& r matches Err(m) && m@ == "Too many authentication failures - IP blocked"@
                        &&& final(self).spec_blacklist().get_spec(*ip) matches Some(e) && is_auto_block(
                            e,
                            *ip,
                            BlacklistReason::BruteForce,
                            failure_block_description(cfg.max_auth_failures, cfg.auth_failure_window_seconds),
                            now,
                            cfg.auth_failure_block_duration_ms,
                        )
                    } else {
                        &&& r is Ok
                        &&& final(self).spec_blacklist() == old(self).spec_blacklist()
                    }
                })
            },
    {
        let now = now_millis();
        proof {
            assert(clock_reading(now));
        }
        self.record_auth_failure_at(ip, now)
    }

    /// Forgets the authentication failures of an address.
    pub fn record_auth_success(&mut self, ip: &IpAddress)
        requires
            old(self).wf(),
        ensures
            final(self).wf(),
            final(self).spec_failures(*ip).len() == 0,
            final(self).spec_failure_trackers().contains(*ip) == old(self).spec_failure_trackers().contains(*ip),
            forall|k: IpAddress| k != *ip ==> final(self).spec_failures(k) == old(self).spec_failures(k),
            forall|k: IpAddress| #[trigger] final(self).spec_failure_trackers().contains(k) == old(self).spec_failure_trackers().contains(k),
            final(self).spec_failure_trackers().items().len() == old(self).spec_failure_trackers().items().len(),
            final(self).spec_blacklist() == old(self).spec_blacklist(),
            final(self).spec_whitelist() == old(self).spec_whitelist(),
            final(self).spec_request_trackers() == old(self).spec_request_trackers(),
            final(self).spec_config() == old(self).spec_config(),
    {
        match self.failure_trackers.find(ip) {
            Some(i) => {
                let mut w = self.failure_trackers.take_at(i);
                w.times.clear();
                self.failure_trackers.put_at(i, w);
            },
            None => {},
        }
    }

    /// A copy of an address's blacklist entry.
    pub fn get_blacklist_entry(&self, ip: &IpAddress) -> (r: Option<BlacklistEntry>)
        requires
            self.wf(),
        ensures
            r == self.spec_blacklist().get_spec(*ip),
    {
        match self.blacklist.get(ip) {
            Some(e) => Some(e.duplicate()),
            None => None,
        }
    }

    /// A copy of an address's whitelist entry.
    pub fn get_whitelist_entry(&self, ip: &IpAddress) -> (r: Option<WhitelistEntry>)
        requires
            self.wf(),
        ensures
            r == self.spec_whitelist().get_spec(*ip),
    {
        match self.whitelist.get(ip) {
            Some(e) => Some(e.duplicate()),
            None => None,
        }
    }

    /// All blacklist entries, in the order they were added.
    pub fn list_blacklist(&self) -> (r: Vec<BlacklistEntry>)
        ensures
            r@ == self.spec_blacklist().items(),
    {
        let mut out: Vec<BlacklistEntry> = Vec::new();
        let mut i: usize = 0;
        while i < self.blacklist.len()
            invariant
                i <= self.spec_blacklist().items().len(),
                out@ == self.spec_blacklist().items().take(i as int),
            decreases self.spec_blacklist().items().len() - i,
        {
            out.push(self.blacklist.at(i).duplicate());
            assert(self.spec_blacklist().items().take(i as int).push(self.spec_blacklist().items()[i as int])
                =~= self.spec_blacklist().items().take(i + 1));
            i = i + 1;
        }
        assert(self.spec_blacklist().items().take(i as int) =~= self.spec_blacklist().items());
        out
    }

    /// All whitelist entries, in the order they were added.
    pub fn list_whitelist(&self) -> (r: Vec<WhitelistEntry>)
        ensures
            r@ == self.spec_whitelist().items(),
    {
        let mut out: Vec<WhitelistEntry> = Vec::new();
        let mut i: usize = 0;
        while i < self.whitelist.len()
            invariant
                i <= self.spec_whitelist().items().len(),
                out@ == self.spec_whitelist().items().take(i as int),
            decreases self.spec_whitelist().items().len() - i,
        {
            out.push(self.whitelist.at(i).duplicate());
            assert(self.spec_whitelist().items().take(i as int).push(self.spec_whitelist().items()[i as int])
                =~= self.spec_whitelist().items().take(i + 1));
            i = i + 1;
        }
        assert(self.spec_whitelist().items().take(i as int) =~= self.spec_whitelist().items());
        out
    }

    /// Removes the blacklist entries expired at `now`, keeping the others in
    /// order; gives back how many were removed.
    pub fn cleanup_expired_at(&mut self, now: i64) -> (r: usize)
        requires
            old(self).wf(),
        ensures
            final(self).wf(),
            final(self).spec_blacklist().items() == old(self).spec_blacklist().items().filter(
                |e: BlacklistEntry| !expired_at(e.expires_at, now),
            ),
            r == old(self).spec_blacklist().items().len() - final(self).spec_blacklist().items().len(),
            final(self).spec_whitelist() == old(self).spec_whitelist(),
            final(self).spec_request_trackers() == old(self).spec_request_trackers(),
            final(self).spec_failure_trackers() == old(self).spec_failure_trackers(),
            final(self).spec_config() == old(self).spec_config(),
    {
        let ghost all = self.blacklist.items();
        let ghost keep = |e: BlacklistEntry| !expired_at(e.expires_at, now);
        let mut i: usize = 0;
        let ghost mut k: int = 0;
        let mut removed: usize = 0;
        let total = self.blacklist.len();
        while i < self.blacklist.len()
            invariant
                total == all.len(),
                self.blacklist.wf(),
                0 <= k <= all.len(),
                i == all.take(k).filter(keep).len(),
                self.blacklist.items() == all.take(k).filter(keep) + all.skip(k),
                removed == k - i,
                keep == (|e: BlacklistEntry| !expired_at(e.expires_at, now)),
                self.whitelist == old(self).whitelist,
                self.request_trackers == old(self).request_trackers,
                self.failure_trackers == old(self).failure_trackers,
                self.config == old(self).config,
                all == old(self).blacklist.items(),
            decreases self.blacklist.items().len() - i,
        {
            proof {
                reveal(Seq::filter);
                assert(all.take(k + 1).drop_last() =~= all.take(k));
                assert(self.blacklist.items()[i as int] == all[k]);
            }
            if self.blacklist.at(i).is_expired_at(now) {
                let _ = self.blacklist.take_at(i);
                removed = removed + 1;
                assert(self.blacklist.items() =~= all.take(k + 1).filter(keep) + all.skip(k + 1));
            } else {
                i = i + 1;
                assert(self.blacklist.items() =~= all.take(k + 1).filter(keep) + all.skip(k + 1));
            }
            proof {
                k = k + 1;
            }
        }
        assert(all.take(k) =~= all);
        removed
    }

    /// Removes the blacklist entries expired by now.
    pub fn cleanup_expired(&mut self) -> (r: usize)
        requires
            old(self).wf(),
        ensures
            final(self).wf(),
            r == old(self).spec_blacklist().items().len() - final(self).spec_blacklist().items().len(),
            final(self).spec_whitelist() == old(self).spec_whitelist(),
            exists|now: i64| #[trigger] clock_reading(now) && {
                &&& (final(self).spec_blacklist().items() == old(self).spec_blacklist().items().filter(
                    |e: BlacklistEntry| !expired_at(e.expires_at, now),
                ))
                &&& (r == old(self).spec_blacklist().items().len() - final(self).spec_blacklist().items().len())
                &&& (final(self).spec_whitelist() == old(self).spec_whitelist())
                &&& (final(self).spec_request_trackers() == old(self).spec_request_trackers())
                &&& (final(self).spec_failure_trackers() == old(self).spec_failure_trackers())
                &&& (final(self).spec_config() == old(self).spec_config())
            },
    {
        let now = now_millis();
        proof {
            assert(clock_reading(now));
        }
        self.cleanup_expired_at(now)
    }

    /// Counts of entries and tracked addresses at `now`.
    pub fn get_statistics_at(&self, now: i64) -> (r: BlacklistStatistics)
        ensures
            r.total_blacklisted == self.spec_blacklist().items().len(),
            r.active_blocks == count_active(self.spec_blacklist().items(), now),
            r.permanent_blocks == count_permanent(self.spec_blacklist().items()),
            r.temporary_blocks == count_active(self.spec_blacklist().items(), now) - count_permanent(
                self.spec_blacklist().items(),
            ),
            r.whitelisted_ips == self.spec_whitelist().items().len(),
            r.tracked_ips == self.spec_request_trackers().items().len(),
            r.ips_with_failures == self.spec_failure_trackers().items().len(),
    {
        let ghost s = self.blacklist.items();
        let mut active: usize = 0;
        let mut permanent: usize = 0;
        let mut i: usize = 0;
        while i < self.blacklist.len()
            invariant
                i <= s.len(),
                s == self.blacklist.items(),
                active == count_active(s.take(i as int), now),
                permanent == count_permanent(s.take(i as int)),
            decreases s.len() - i,
        {
            proof {
                assert(s.take(i + 1).drop_last() =~= s.take(i as int));
                lemma_permanent_are_active(s.take(i as int), now);
            }
            let e = self.blacklist.at(i);
            if !e.is_expired_at(now) {
                active = active + 1;
            }
            if e.is_permanent() {
                permanent = permanent + 1;
            }
            i = i + 1;
        }
        assert(s.take(i as int) =~= s);
        proof {
            lemma_permanent_are_active(s, now);
        }
        BlacklistStatistics {
            total_blacklisted: self.blacklist.len(),
            active_blocks: active,
            permanent_blocks: permanent,
            temporary_blocks: active - permanent,
            whitelisted_ips: self.whitelist.len(),
            tracked_ips: self.request_trackers.len(),
            ips_with_failures: self.failure_trackers.len(),
        }
    }

    /// Counts of entries and tracked addresses now.
    pub fn get_statistics(&self) -> (r: BlacklistStatistics)
        ensures
            r.total_blacklisted == self.spec_blacklist().items().len(),
            r.permanent_blocks == count_permanent(self.spec_blacklist().items()),
            r.whitelisted_ips == self.spec_whitelist().items().len(),
            r.tracked_ips == self.spec_request_trackers().items().len(),
            r.ips_with_failures == self.spec_failure_trackers().items().len(),
            exists|now: i64| #[trigger] clock_reading(now) && {
                &&& (r.total_blacklisted == self.spec_blacklist().items().len())
                &&& (r.active_blocks == count_active(self.spec_blacklist().items(), now))
                &&& (r.permanent_blocks == count_permanent(self.spec_blacklist().items()))
                &&& (r.temporary_blocks == count_active(self.spec_blacklist().items(), now) - count_permanent(
                    self.spec_blacklist().items(),
                ))
                &&& (r.whitelisted_ips == self.spec_whitelist().items().len())
                &&& (r.tracked_ips == self.spec_request_trackers().items().len())
                &&& (r.ips_with_failures == self.spec_failure_trackers().items().len())
            },
    {
        let now = now_millis();
        proof {
            assert(clock_reading(now));
        }
        self.get_statistics_at(now)
    }

    /// The requests counted for an address.
    pub fn get_request_count(&self, ip: &IpAddress) -> (r: usize)
        requires
            self.wf(),
        ensures
            r == self.spec_requests(*ip).len(),
    {
        match self.request_trackers.get(ip) {
            Some(t) => t.times.len(),
            None => 0,
        }
    }

    /// The failures counted for an address.
    pub fn get_failure_count(&self, ip: &IpAddress) -> (r: usize)
        requires
            self.wf(),
        ensures
            r == self.spec_failures(*ip).len(),
    {
        match self.failure_trackers.get(ip) {
            Some(t) => t.times.len(),
            None => 0,
        }
    }
}

/// Dropping the old times twice drops no more than once.
pub proof fn lemma_drop_before_idempotent(s: Seq<i64>, cutoff: int)
    ensures
        drop_before(drop_before(s, cutoff), cutoff) == drop_before(s, cutoff),
        drop_before(s, cutoff).len() <= s.len(),
    decreases s.len(),
{
    if s.len() > 0 && s[0] < cutoff {
        lemma_drop_before_idempotent(s.drop_first(), cutoff);
    }
}

/// What stays in a window never exceeds the limit by more than the one
/// request counted: a counted request found fewer than `max` kept.
pub proof fn lemma_rate_window_bound(kept: Seq<i64>, now: i64, cutoff: int, max: int)
    requires
        kept.len() < max,
    ensures
        drop_before(kept.push(now), cutoff).len() <= max,
{
    lemma_drop_before_idempotent(kept.push(now), cutoff);
}

} // verus!
