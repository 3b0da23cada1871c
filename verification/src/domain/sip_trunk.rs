//! SIP trunks: provider connections, what they may carry, how outbound
//! numbers are rewritten for them, and when they must register again.
//! Times are milliseconds since the Unix epoch.
use vstd::prelude::*;
use crate::domain::shared::system::{clock_reading, elapsed_seconds, is_v4_uuid, new_uuid, now_millis, seconds_between};
use crate::text::{chars_of, seq_starts_with, str_eq, string_of_chars, vec_slice, vec_starts_with};

verus! {

/// SIP trunk type
#[derive(Debug, Clone, Copy, PartialEq, Eq, Structural)]
pub enum TrunkType {
    /// Register-based trunk (client registers to provider)
    Register,
    /// IP-based trunk (authenticated by source IP)
    IpBased,
    /// Peer trunk (bidirectional, no registration)
    Peer,
}

/// Trunk direction
#[derive(Debug, Clone, Copy, PartialEq, Eq, Structural)]
pub enum TrunkDirection {
    /// Inbound calls only
    Inbound,
    /// Outbound calls only
    Outbound,
    /// Both inbound and outbound
    Bidirectional,
}

/// DTMF transmission mode
#[derive(Debug, Clone, Copy, PartialEq, Eq, Structural)]
pub enum DtmfMode {
    /// RFC 2833 (RTP events)
    Rfc2833,
    /// SIP INFO
    SipInfo,
    /// In-band audio
    Inband,
}

/// Codec preference
#[derive(Debug, Clone)]
pub struct CodecPreference {
    pub codec: String,
    pub priority: u32,
}

/// SIP trunk configuration and status.
#[derive(Debug, Clone)]
pub struct SipTrunk {
    pub id: u128,
    pub name: String,
    pub trunk_type: TrunkType,
    pub direction: TrunkDirection,
    pub provider_name: String,
    pub sip_server: String,
    pub sip_port: u16,
    pub backup_server: Option<String>,
    pub username: Option<String>,
    pub password: Option<String>,
    pub auth_username: Option<String>,
    pub realm: Option<String>,
    pub allowed_ips: Vec<String>,
    pub register_enabled: bool,
    pub register_interval: u32,
    pub register_expiry: u32,
    pub prefix: Option<String>,
    pub strip_prefix: bool,
    pub add_prefix: Option<String>,
    pub caller_id_number: Option<String>,
    pub caller_id_name: Option<String>,
    pub codecs: Vec<CodecPreference>,
    pub dtmf_mode: DtmfMode,
    pub max_concurrent_calls: u32,
    pub max_calls_per_second: u32,
    pub enable_rtcp: bool,
    pub enable_t38: bool,
    pub enable_srtp: bool,
    pub enabled: bool,
    pub registered: bool,
    pub last_registration: Option<i64>,
    pub created_at: i64,
    pub updated_at: i64,
}

/// The codecs a new trunk offers, best first: PCMU, PCMA, G729.
pub open spec fn default_codecs_spec(c: Seq<CodecPreference>) -> bool {
    &&& c.len() == 3
    &&& c[0].codec@ == "PCMU"@ && c[0].priority == 100
    &&& c[1].codec@ == "PCMA"@ && c[1].priority == 99
    &&& c[2].codec@ == "G729"@ && c[2].priority == 98
}

/// The number to dial on the trunk: the configured prefix taken off when
/// stripping is on and the number starts with it, then the prefix to add put
/// in front.
pub open spec fn formatted_number(t: SipTrunk, number: Seq<char>) -> Seq<char> {
    let stripped = match t.prefix {
        Some(p) => if t.strip_prefix && seq_starts_with(number, p@) {
            number.subrange(p@.len() as int, number.len() as int)
        } else {
            number
        },
        None => number,
    };
    match t.add_prefix {
        Some(a) => a@ + stripped,
        None => stripped,
    }
}

/// Formatting a number for the trunk: the prefix to add, when there is one,
/// always comes first; when nothing is stripped (no prefix configured,
/// stripping off, or the number not starting with the prefix) the dialled
/// number follows whole; otherwise it follows without the prefix.
pub proof fn law_outbound_number(t: SipTrunk, number: Seq<char>)
    ensures
        t.add_prefix matches Some(a) ==> seq_starts_with(formatted_number(t, number), a@),
        !(t.prefix matches Some(p) && t.strip_prefix && seq_starts_with(number, p@)) ==> formatted_number(t, number)
            == (match t.add_prefix {
                Some(a) => a@ + number,
                None => number,
            }),
        t.prefix matches Some(p) ==> (t.strip_prefix && seq_starts_with(number, p@) ==> formatted_number(t, number)
            == (match t.add_prefix {
                Some(a) => a@ + number.skip(p@.len() as int),
                None => number.skip(p@.len() as int),
            })),
{
    match t.add_prefix {
        Some(a) => {
            let f = formatted_number(t, number);
            assert(f.subrange(0, a@.len() as int) =~= a@);
        },
        None => {},
    }
    if t.prefix matches Some(p) && t.strip_prefix && seq_starts_with(number, p@) {
        let p = t.prefix->0;
        assert(number.subrange(p@.len() as int, number.len() as int) =~= number.skip(p@.len() as int));
    }
}

/// Whether a register trunk must (re-)register at `now`: when not
/// registered, never registered, or once its registration is within a
/// minute of expiring (the elapsed seconds taken as a 32-bit count).
pub open spec fn needs_registration_at_spec(t: SipTrunk, now: i64) -> bool {
    if !t.register_enabled || t.trunk_type != TrunkType::Register {
        false
    } else if !t.registered {
        true
    } else {
        match t.last_registration {
            Some(last) => (seconds_between(now, last) as u32) >= t.register_expiry - 60,
            None => true,
        }
    }
}

/// The check of a re-registration can subtract the minute of margin.
pub open spec fn registration_check_fits(t: SipTrunk) -> bool {
    (t.register_enabled && t.trunk_type == TrunkType::Register && t.registered && t.last_registration is Some)
        ==> t.register_expiry >= 60
}

fn default_codecs() -> (r: Vec<CodecPreference>)
    ensures
        default_codecs_spec(r@),
{
    let mut v: Vec<CodecPreference> = Vec::new();
    v.push(CodecPreference { codec: String::from_str("PCMU"), priority: 100 });
    v.push(CodecPreference { codec: String::from_str("PCMA"), priority: 99 });
    v.push(CodecPreference { codec: String::from_str("G729"), priority: 98 });
    v
}

impl SipTrunk {
    /// A new enabled, bidirectional trunk created at `now` on port 5060,
    /// registering if it is a register trunk (every 60 s, for 3600 s), with
    /// the default codecs, RFC 2833 DTMF, 100 calls at once and 10 a second.
    pub fn new_at(id: u128, name: String, provider_name: String, trunk_type: TrunkType, now: i64) -> (r: Self)
        ensures
            r.id == id && r.name == name && r.provider_name == provider_name && r.trunk_type == trunk_type,
            r.direction == TrunkDirection::Bidirectional,
            r.sip_server@.len() == 0 && r.sip_port == 5060 && r.backup_server is None,
            r.username is None && r.password is None && r.auth_username is None && r.realm is None,
            r.allowed_ips@.len() == 0,
            r.register_enabled == (trunk_type == TrunkType::Register),
            r.register_interval == 60 && r.register_expiry == 3600,
            r.prefix is None && !r.strip_prefix && r.add_prefix is None,
            r.caller_id_number is None && r.caller_id_name is None,
            default_codecs_spec(r.codecs@),
            r.dtmf_mode == DtmfMode::Rfc2833,
            r.max_concurrent_calls == 100 && r.max_calls_per_second == 10,
            r.enable_rtcp && !r.enable_t38 && !r.enable_srtp,
            r.enabled && !r.registered && r.last_registration is None,
            r.created_at == now && r.updated_at == now,
    {
        SipTrunk {
            id,
            name,
            trunk_type,
            direction: TrunkDirection::Bidirectional,
            provider_name,
            sip_server: String::new(),
            sip_port: 5060,
            backup_server: None,
            username: None,
            password: None,
            auth_username: None,
            realm: None,
            allowed_ips: Vec::new(),
            register_enabled: trunk_type == TrunkType::Register,
            register_interval: 60,
            register_expiry: 3600,
            prefix: None,
            strip_prefix: false,
            add_prefix: None,
            caller_id_number: None,
            caller_id_name: None,
            codecs: default_codecs(),
            dtmf_mode: DtmfMode::Rfc2833,
            max_concurrent_calls: 100,
            max_calls_per_second: 10,
            enable_rtcp: true,
            enable_t38: false,
            enable_srtp: false,
            enabled: true,
            registered: false,
            last_registration: None,
            created_at: now,
            updated_at: now,
        }
    }

    /// A new trunk created now, with a fresh identifier.
    pub fn new(name: String, provider_name: String, trunk_type: TrunkType) -> (r: Self)
        ensures
            is_v4_uuid(r.id),
            r.name == name && r.provider_name == provider_name && r.trunk_type == trunk_type,
            r.direction == TrunkDirection::Bidirectional,
            r.register_enabled == (trunk_type == TrunkType::Register),
            r.register_expiry == 3600,
            r.prefix is None && !r.strip_prefix && r.add_prefix is None,
            r.allowed_ips@.len() == 0,
            r.enabled && !r.registered && r.last_registration is None,
    {
        let id = new_uuid();
        Self::new_at(id, name, provider_name, trunk_type, now_millis())
    }

    pub fn with_server(self, server: String, port: u16) -> (r: Self)
        ensures
            r == (SipTrunk { sip_server: server, sip_port: port, ..self }),
    {
        let mut t = self;
        t.sip_server = server;
        t.sip_port = port;
        t
    }

    /// The trunk with credentials; the user name also serves for
    /// authentication.
    pub fn with_credentials(self, username: String, password: String) -> (r: Self)
        ensures
            r == (SipTrunk {
                username: Some(username),
                password: Some(password),
                auth_username: Some(username),
                ..self
            }),
    {
        let mut t = self;
        t.username = Some(username.clone());
        t.password = Some(password);
        t.auth_username = Some(username);
        t
    }

    pub fn with_caller_id(self, number: String, name: String) -> (r: Self)
        ensures
            r == (SipTrunk { caller_id_number: Some(number), caller_id_name: Some(name), ..self }),
    {
        let mut t = self;
        t.caller_id_number = Some(number);
        t.caller_id_name = Some(name);
        t
    }

    pub fn with_direction(self, direction: TrunkDirection) -> (r: Self)
        ensures
            r == (SipTrunk { direction, ..self }),
    {
        let mut t = self;
        t.direction = direction;
        t
    }

    /// Allows an address for an IP-based trunk, once.
    pub fn add_allowed_ip(&mut self, ip: String)
        ensures
            (exists|i: int| 0 <= i < old(self).allowed_ips@.len() && (#[trigger] old(self).allowed_ips@[i])@ == ip@)
                ==> final(self).allowed_ips@ == old(self).allowed_ips@,
            !(exists|i: int| 0 <= i < old(self).allowed_ips@.len() && (#[trigger] old(self).allowed_ips@[i])@ == ip@)
                ==> final(self).allowed_ips@ == old(self).allowed_ips@.push(ip),
            final(self).trunk_type == old(self).trunk_type,
            final(self).enabled == old(self).enabled,
            final(self).direction == old(self).direction,
    {
        if !self.is_listed(ip.as_str()) {
            self.allowed_ips.push(ip);
        }
    }

    fn is_listed(&self, ip: &str) -> (r: bool)
        ensures
            r == exists|i: int| 0 <= i < self.allowed_ips@.len() && (#[trigger] self.allowed_ips@[i])@ == ip@,
    {
        let mut i: usize = 0;
        while i < self.allowed_ips.len()
            invariant
                i <= self.allowed_ips@.len(),
                forall|j: int| 0 <= j < i ==> (#[trigger] self.allowed_ips@[j])@ != ip@,
            decreases self.allowed_ips.len() - i,
        {
            if str_eq(self.allowed_ips[i].as_str(), ip) {
                return true;
            }
            i = i + 1;
        }
        false
    }

    pub fn can_handle_outbound(&self) -> (r: bool)
        ensures
            r == (self.enabled && (self.direction == TrunkDirection::Outbound || self.direction
                == TrunkDirection::Bidirectional)),
    {
        self.enabled && (self.direction == TrunkDirection::Outbound || self.direction == TrunkDirection::Bidirectional)
    }

    pub fn can_handle_inbound(&self) -> (r: bool)
        ensures
            r == (self.enabled && (self.direction == TrunkDirection::Inbound || self.direction
                == TrunkDirection::Bidirectional)),
    {
        self.enabled && (self.direction == TrunkDirection::Inbound || self.direction == TrunkDirection::Bidirectional)
    }

    /// Any address may use a trunk that is not IP-based; an IP-based one
    /// takes only its listed addresses.
    pub fn is_ip_allowed(&self, ip: &str) -> (r: bool)
        ensures
            r == (self.trunk_type != TrunkType::IpBased || exists|i: int|
                0 <= i < self.allowed_ips@.len() && (#[trigger] self.allowed_ips@[i])@ == ip@),
    {
        if self.trunk_type != TrunkType::IpBased {
            return true;
        }
        self.is_listed(ip)
    }

    /// The number to dial on this trunk.
    pub fn format_outbound_number(&self, number: &str) -> (r: String)
        ensures
            r@ == formatted_number(*self, number@),
            self.add_prefix matches Some(a) ==> seq_starts_with(r@, a@),
            !(self.prefix matches Some(p) && self.strip_prefix && seq_starts_with(number@, p@)) ==> r@ == (match self.add_prefix {
                Some(a) => a@ + number@,
                None => number@,
            }),
    {
        proof {
            law_outbound_number(*self, number@);
        }
        let digits = chars_of(number);
        let stripped: Vec<char> = match &self.prefix {
            Some(p) => {
                let pv = chars_of(p.as_str());
                if self.strip_prefix && vec_starts_with(&digits, &pv) {
                    vec_slice(&digits, pv.len(), digits.len())
                } else {
                    digits
                }
            },
            None => digits,
        };
        match &self.add_prefix {
            Some(a) => {
                let mut out = a.clone();
                let tail = string_of_chars(&stripped);
                out.append(tail.as_str());
                out
            },
            None => string_of_chars(&stripped),
        }
    }

    /// Marks the trunk registered at `now`.
    pub fn mark_registered_at(&mut self, now: i64)
        ensures
            *final(self) == (SipTrunk {
                registered: true,
                last_registration: Some(now),
                updated_at: now,
                ..*old(self)
            }),
    {
        self.registered = true;
        self.last_registration = Some(now);
        self.updated_at = now;
    }

    /// Marks the trunk registered now.
    pub fn mark_registered(&mut self)
        ensures
            final(self).registered,
            final(self).last_registration is Some,
            final(self).register_enabled == old(self).register_enabled,
            final(self).register_expiry == old(self).register_expiry,
            final(self).trunk_type == old(self).trunk_type,
            exists|now: i64| #[trigger] clock_reading(now) && {
                &&& (*final(self) == (SipTrunk {
                    registered: true,
                    last_registration: Some(now),
                    updated_at: now,
                    ..*old(self)
                }))
            },
    {
        let now = now_millis();
        proof {
            assert(clock_reading(now));
        }
        self.mark_registered_at(now);
    }

    /// Marks the trunk unregistered at `now`.
    pub fn mark_unregistered_at(&mut self, now: i64)
        ensures
            *final(self) == (SipTrunk { registered: false, updated_at: now, ..*old(self) }),
    {
        self.registered = false;
        self.updated_at = now;
    }

    /// Marks the trunk unregistered now.
    pub fn mark_unregistered(&mut self)
        ensures
            !final(self).registered,
            final(self).last_registration == old(self).last_registration,
            final(self).trunk_type == old(self).trunk_type,
            exists|now: i64| #[trigger] clock_reading(now) && {
                &&& (*final(self) == (SipTrunk { registered: false, updated_at: now, ..*old(self) }))
            },
    {
        let now = now_millis();
        proof {
            assert(clock_reading(now));
        }
        self.mark_unregistered_at(now);
    }

    /// Whether the trunk must (re-)register at `now`.
    pub fn needs_registration_at(&self, now: i64) -> (r: bool)
        requires
            registration_check_fits(*self),
        ensures
            r == needs_registration_at_spec(*self, now),
    {
        if !self.register_enabled || self.trunk_type != TrunkType::Register {
            return false;
        }
        if !self.registered {
            return true;
        }
        match self.last_registration {
            Some(last) => {
                let elapsed = elapsed_seconds(now, last) as u32;
                elapsed >= self.register_expiry - 60
            },
            None => true,
        }
    }

    /// Whether the trunk must (re-)register now.
    pub fn needs_registration(&self) -> (r: bool)
        requires
            registration_check_fits(*self),
        ensures
            !self.register_enabled || self.trunk_type != TrunkType::Register ==> !r,
            self.register_enabled && self.trunk_type == TrunkType::Register && (!self.registered
                || self.last_registration is None) ==> r,
            exists|now: i64| #[trigger] clock_reading(now) && {
                &&& (r == needs_registration_at_spec(*self, now))
            },
    {
        let now = now_millis();
        proof {
            assert(clock_reading(now));
        }
        self.needs_registration_at(now)
    }
}

} // verus!
