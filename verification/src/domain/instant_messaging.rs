//! Instant messaging: messages and their delivery status, message groups,
//! bounded offline queues per user, and a bounded message history. Times are
//! milliseconds since the Unix epoch.
use vstd::prelude::*;
use vstd::utf8::{decode_utf8, encode_utf8, valid_utf8};
use crate::domain::shared::system::{clock_reading, is_v4_uuid, new_uuid, now_millis};
use crate::store::{has_key, KeyOf, Keyed, Store};
use crate::text::{str_eq, utf8_to_string};

verus! {

/// Message content type.
#[derive(Debug, Clone, PartialEq, Eq)]
pub enum MessageContentType {
    /// Plain text message
    TextPlain,
    /// HTML message
    TextHtml,
    /// JSON message
    ApplicationJson,
    /// Binary data
    ApplicationOctetStream,
    /// Custom content type
    Custom(String),
}

/// The text of a content type.
pub open spec fn spec_content_type_text(t: MessageContentType) -> Seq<char> {
    match t {
        MessageContentType::TextPlain => "text/plain"@,
        MessageContentType::TextHtml => "text/html"@,
        MessageContentType::ApplicationJson => "application/json"@,
        MessageContentType::ApplicationOctetStream => "application/octet-stream"@,
        MessageContentType::Custom(s) => s@,
    }
}

/// Whether a text names one of the standard content types.
pub open spec fn is_standard_content_type(s: Seq<char>) -> bool {
    s == "text/plain"@ || s == "text/html"@ || s == "application/json"@ || s
        == "application/octet-stream"@
}

impl MessageContentType {
    /// The content type named by `s`; any other text is a custom type.
    pub fn from_str(s: &str) -> (r: Self)
        ensures
            spec_content_type_text(r) == s@,
            (r is Custom) <==> !is_standard_content_type(s@),
    {
        proof {
            reveal_strlit("text/plain");
            reveal_strlit("text/html");
            reveal_strlit("application/json");
            reveal_strlit("application/octet-stream");
        }
        if str_eq(s, "text/plain") {
            MessageContentType::TextPlain
        } else if str_eq(s, "text/html") {
            MessageContentType::TextHtml
        } else if str_eq(s, "application/json") {
            MessageContentType::ApplicationJson
        } else if str_eq(s, "application/octet-stream") {
            MessageContentType::ApplicationOctetStream
        } else {
            MessageContentType::Custom(s.to_owned())
        }
    }

    /// The content type's text.
    pub fn to_string(&self) -> (r: String)
        ensures
            r@ == spec_content_type_text(*self),
    {
        match self {
            MessageContentType::TextPlain => String::from_str("text/plain"),
            MessageContentType::TextHtml => String::from_str("text/html"),
            MessageContentType::ApplicationJson => String::from_str("application/json"),
            MessageContentType::ApplicationOctetStream => String::from_str("application/octet-stream"),
            MessageContentType::Custom(s) => s.clone(),
        }
    }

    /// A copy of the content type.
    pub fn duplicate(&self) -> (r: Self)
        ensures
            r == *self,
    {
        match self {
            MessageContentType::TextPlain => MessageContentType::TextPlain,
            MessageContentType::TextHtml => MessageContentType::TextHtml,
            MessageContentType::ApplicationJson => MessageContentType::ApplicationJson,
            MessageContentType::ApplicationOctetStream => MessageContentType::ApplicationOctetStream,
            MessageContentType::Custom(s) => MessageContentType::Custom(s.clone()),
        }
    }
}

/// Message delivery status.
#[derive(Debug, Clone, Copy, PartialEq, Eq, Structural)]
pub enum MessageStatus {
    /// Message is pending delivery
    Pending,
    /// Message was delivered successfully
    Delivered,
    /// Message delivery failed
    Failed,
    /// Message was read by recipient
    Read,
}

/// Instant message.
#[derive(Debug, Clone)]
pub struct InstantMessage {
    pub id: u128,
    pub from: String,
    pub to: String,
    pub content_type: MessageContentType,
    pub content: Vec<u8>,
    pub status: MessageStatus,
    pub timestamp: i64,
    pub delivered_at: Option<i64>,
    pub read_at: Option<i64>,
    pub group_id: Option<u128>,
}

/// `b` holds what `a` holds but for the identifier and the recipient, the
/// content compared by its bytes.
pub open spec fn same_but_address(a: InstantMessage, b: InstantMessage) -> bool {
    &&& b.from == a.from
    &&& b.content_type == a.content_type
    &&& b.content@ == a.content@
    &&& b.status == a.status
    &&& b.timestamp == a.timestamp
    &&& b.delivered_at == a.delivered_at
    &&& b.read_at == a.read_at
    &&& b.group_id == a.group_id
}

/// `b` holds what `a` holds, the content compared by its bytes.
pub open spec fn same_message(a: InstantMessage, b: InstantMessage) -> bool {
    &&& same_but_address(a, b)
    &&& b.id == a.id
    &&& b.to == a.to
}


fn copy_bytes(b: &[u8]) -> (r: Vec<u8>)
    ensures
        r@ == b@,
{
    let mut v: Vec<u8> = Vec::new();
    let mut i: usize = 0;
    while i < b.len()
        invariant
            i <= b@.len(),
            v@ == b@.take(i as int),
        decreases b.len() - i,
    {
        v.push(b[i]);
        assert(b@.take(i as int).push(b@[i as int]) =~= b@.take(i + 1));
        i = i + 1;
    }
    assert(b@.take(b@.len() as int) =~= b@);
    v
}

impl InstantMessage {
    /// A pending message written at `now`, with the given identifier.
    pub fn new_at(id: u128, from: String, to: String, content: Vec<u8>, content_type: MessageContentType, now: i64) -> (r: Self)
        ensures
            r == (InstantMessage {
                id,
                from,
                to,
                content_type,
                content,
                status: MessageStatus::Pending,
                timestamp: now,
                delivered_at: None,
                read_at: None,
                group_id: None,
            }),
    {
        InstantMessage {
            id,
            from,
            to,
            content_type,
            content,
            status: MessageStatus::Pending,
            timestamp: now,
            delivered_at: None,
            read_at: None,
            group_id: None,
        }
    }

    /// A pending message written now, with a fresh identifier.
    pub fn new(from: String, to: String, content: Vec<u8>, content_type: MessageContentType) -> (r: Self)
        ensures
            is_v4_uuid(r.id),
            r.from == from,
            r.to == to,
            r.content == content,
            r.content_type == content_type,
            r.status == MessageStatus::Pending,
            r.delivered_at is None,
            r.read_at is None,
            r.group_id is None,
    {
        let id = new_uuid();
        Self::new_at(id, from, to, content, content_type, now_millis())
    }

    /// A plain-text message: the text's UTF-8 bytes.
    pub fn text(from: String, to: String, text: String) -> (r: Self)
        ensures
            is_v4_uuid(r.id),
            r.from == from,
            r.to == to,
            r.content@ == encode_utf8(text@),
            r.content_type == MessageContentType::TextPlain,
            r.status == MessageStatus::Pending,
            r.delivered_at is None,
            r.read_at is None,
            r.group_id is None,
    {
        let bytes = copy_bytes(text.as_str().as_bytes());
        Self::new(from, to, bytes, MessageContentType::TextPlain)
    }

    /// The message addressed to a group.
    pub fn for_group(self, group_id: u128) -> (r: Self)
        ensures
            r == (InstantMessage { group_id: Some(group_id), ..self }),
    {
        let mut m = self;
        m.group_id = Some(group_id);
        m
    }

    pub fn mark_delivered_at(&mut self, now: i64)
        ensures
            *final(self) == (InstantMessage {
                status: MessageStatus::Delivered,
                delivered_at: Some(now),
                ..*old(self)
            }),
    {
        self.status = MessageStatus::Delivered;
        self.delivered_at = Some(now);
    }

    pub fn mark_delivered(&mut self)
        ensures
            final(self).delivered_at matches Some(t) && *final(self) == (InstantMessage {
                status: MessageStatus::Delivered,
                delivered_at: Some(t),
                ..*old(self)
            }),
            exists|now: i64| #[trigger] clock_reading(now) && {
                &&& (*final(self) == (InstantMessage {
                    status: MessageStatus::Delivered,
                    delivered_at: Some(now),
                    ..*old(self)
                }))
            },
    {
        let now = now_millis();
        proof {
            assert(clock_reading(now));
        }
        self.mark_delivered_at(now);
    }

    pub fn mark_failed(&mut self)
        ensures
            *final(self) == (InstantMessage { status: MessageStatus::Failed, ..*old(self) }),
    {
        self.status = MessageStatus::Failed;
    }

    pub fn mark_read_at(&mut self, now: i64)
        ensures
            *final(self) == (InstantMessage { status: MessageStatus::Read, read_at: Some(now), ..*old(self) }),
    {
        self.status = MessageStatus::Read;
        self.read_at = Some(now);
    }

    pub fn mark_read(&mut self)
        ensures
            final(self).read_at matches Some(t) && *final(self) == (InstantMessage {
                status: MessageStatus::Read,
                read_at: Some(t),
                ..*old(self)
            }),
            exists|now: i64| #[trigger] clock_reading(now) && {
                &&& (*final(self) == (InstantMessage { status: MessageStatus::Read, read_at: Some(now), ..*old(self) }))
            },
    {
        let now = now_millis();
        proof {
            assert(clock_reading(now));
        }
        self.mark_read_at(now);
    }

    /// The content read as UTF-8 text.
    pub fn content_as_string(&self) -> (r: Result<String, String>)
        ensures
            r is Ok <==> valid_utf8(self.content@),
            r matches Ok(s) ==> s@ == decode_utf8(self.content@),
            r matches Err(m) ==> m@.len() >= 35 && m@.take(35) == "Failed to decode content as UTF-8: "@,
    {
        match utf8_to_string(&self.content) {
            Ok(s) => Ok(s),
            Err(e) => {
                let mut m = String::from_str("Failed to decode content as UTF-8: ");
                proof {
                    reveal_strlit("Failed to decode content as UTF-8: ");
                }
                let ghost prefix = m@;
                m.append(e.as_str());
                assert(m@.take(35) =~= prefix);
                Err(m)
            },
        }
    }

    pub fn is_group_message(&self) -> (r: bool)
        ensures
            r == self.group_id is Some,
    {
        self.group_id.is_some()
    }

    /// A copy of the message.
    pub fn duplicate(&self) -> (r: Self)
        ensures
            same_message(*self, r),
    {
        InstantMessage {
            id: self.id,
            from: self.from.clone(),
            to: self.to.clone(),
            content_type: self.content_type.duplicate(),
            content: copy_bytes(self.content.as_slice()),
            status: self.status,
            timestamp: self.timestamp,
            delivered_at: self.delivered_at,
            read_at: self.read_at,
            group_id: self.group_id,
        }
    }
}

/// The text of a plain-text message reads back as the text it was made from.
pub proof fn lemma_text_content_round_trip(text: Seq<char>)
    ensures
        valid_utf8(encode_utf8(text)),
        decode_utf8(encode_utf8(text)) == text,
{
    vstd::utf8::encode_utf8_valid_utf8(text);
    vstd::utf8::encode_utf8_decode_utf8(text);
}

/// The texts of a list of strings.
pub open spec fn texts(v: Seq<String>) -> Seq<Seq<char>> {
    v.map_values(|s: String| s@)
}

/// Message group.
#[derive(Debug, Clone)]
pub struct MessageGroup {
    pub id: u128,
    pub name: String,
    pub description: String,
    pub members: Vec<String>,
    pub created_by: String,
    pub created_at: i64,
    pub updated_at: i64,
}

/// `b` holds what `a` holds, the members compared by their contents.
pub open spec fn same_group(a: MessageGroup, b: MessageGroup) -> bool {
    &&& b.id == a.id
    &&& b.name == a.name
    &&& b.description == a.description
    &&& b.members@ == a.members@
    &&& b.created_by == a.created_by
    &&& b.created_at == a.created_at
    &&& b.updated_at == a.updated_at
}

/// The position of the first member named `user`, or the member count.
pub open spec fn member_position(members: Seq<String>, user: Seq<char>) -> int
    decreases members.len(),
{
    if members.len() == 0 {
        0
    } else if members[0]@ == user {
        0
    } else {
        1 + member_position(members.drop_first(), user)
    }
}

proof fn lemma_member_position(members: Seq<String>, user: Seq<char>)
    ensures
        0 <= member_position(members, user) <= members.len(),
        member_position(members, user) < members.len() <==> texts(members).contains(user),
        member_position(members, user) < members.len() ==> members[member_position(members, user)]@ == user,
        forall|j: int| 0 <= j < member_position(members, user) ==> (#[trigger] members[j])@ != user,
    decreases members.len(),
{
    if members.len() > 0 {
        lemma_member_position(members.drop_first(), user);
        if members[0]@ != user {
            assert forall|j: int| 0 <= j < member_position(members, user) implies (#[trigger] members[j])@ != user by {
                if j > 0 {
                    assert(members[j] == members.drop_first()[j - 1]);
                }
            }
            if texts(members).contains(user) {
                let k = choose|k: int| 0 <= k < texts(members).len() && texts(members)[k] == user;
                assert(k > 0);
                assert(texts(members.drop_first())[k - 1] == user);
            }
            if texts(members.drop_first()).contains(user) {
                let k = choose|k: int| 0 <= k < texts(members.drop_first()).len() && texts(members.drop_first())[k] == user;
                assert(texts(members)[k + 1] == user);
            }
        } else {
            assert(texts(members)[0] == user);
        }
    } else {
        assert(texts(members).len() == 0);
    }
}

fn find_member(members: &Vec<String>, user: &str) -> (r: usize)
    ensures
        r == member_position(members@, user@),
{
    proof {
        lemma_member_position(members@, user@);
    }
    let mut i: usize = 0;
    while i < members.len()
        invariant
            i <= members@.len(),
            i <= member_position(members@, user@),
            forall|j: int| 0 <= j < i ==> (#[trigger] members@[j])@ != user@,
            0 <= member_position(members@, user@) <= members@.len(),
            member_position(members@, user@) < members@.len() ==> members@[member_position(members@, user@)]@ == user@,
            forall|j: int| 0 <= j < member_position(members@, user@) ==> (#[trigger] members@[j])@ != user@,
        decreases members.len() - i,
    {
        if str_eq(members[i].as_str(), user) {
            return i;
        }
        i = i + 1;
    }
    i
}

impl MessageGroup {
    /// An empty group created at `now` with the given identifier.
    pub fn new_at(id: u128, name: String, created_by: String, now: i64) -> (r: Self)
        ensures
            r.id == id,
            r.name == name,
            r.description@.len() == 0,
            r.members@.len() == 0,
            r.created_by == created_by,
            r.created_at == now,
            r.updated_at == now,
    {
        MessageGroup {
            id,
            name,
            description: String::new(),
            members: Vec::new(),
            created_by,
            created_at: now,
            updated_at: now,
        }
    }

    /// An empty group created now with a fresh identifier.
    pub fn new(name: String, created_by: String) -> (r: Self)
        ensures
            is_v4_uuid(r.id),
            r.name == name,
            r.description@.len() == 0,
            r.members@.len() == 0,
            r.created_by == created_by,
    {
        let id = new_uuid();
        Self::new_at(id, name, created_by, now_millis())
    }

    pub fn with_description(self, description: String) -> (r: Self)
        ensures
            r.description == description,
            r.id == self.id,
            r.name == self.name,
            r.members@ == self.members@,
            r.created_by == self.created_by,
            r.created_at == self.created_at,
            r.updated_at == self.updated_at,
    {
        let mut g = self;
        g.description = description;
        g
    }

    /// Adds a member unless already present; the change is stamped `now`.
    pub fn add_member_at(&mut self, user: String, now: i64)
        ensures
            texts(old(self).members@).contains(user@) ==> same_group(*old(self), *final(self)),
            !texts(old(self).members@).contains(user@) ==> {
                &&& final(self).members@ == old(self).members@.push(user)
                &&& final(self).updated_at == now
                &&& same_group(
                    MessageGroup { members: final(self).members, updated_at: now, ..*old(self) },
                    *final(self),
                )
            },
    {
        let pos = find_member(&self.members, user.as_str());
        proof {
            lemma_member_position(self.members@, user@);
        }
        if pos == self.members.len() {
            self.members.push(user);
            self.updated_at = now;
        }
    }

    /// Adds a member unless already present.
    pub fn add_member(&mut self, user: String)
        ensures
            texts(old(self).members@).contains(user@) ==> same_group(*old(self), *final(self)),
            !texts(old(self).members@).contains(user@) ==> final(self).members@ == old(self).members@.push(user)
                && same_group(
                MessageGroup { members: final(self).members, updated_at: final(self).updated_at, ..*old(self) },
                *final(self),
            ),
            exists|now: i64| #[trigger] clock_reading(now) && {
                &&& (texts(old(self).members@).contains(user@) ==> same_group(*old(self), *final(self)))
                &&& (!texts(old(self).members@).contains(user@) ==> {
                    &&& final(self).members@ == old(self).members@.push(user)
                    &&& final(self).updated_at == now
                    &&& same_group(
                        MessageGroup { members: final(self).members, updated_at: now, ..*old(self) },
                        *final(self),
                    )
                })
            },
    {
        let now = now_millis();
        proof {
            assert(clock_reading(now));
        }
        self.add_member_at(user, now);
    }

    /// Removes the first member named `user`, stamping the change `now`;
    /// tells whether there was one.
    pub fn remove_member_at(&mut self, user: &str, now: i64) -> (r: bool)
        ensures
            r == texts(old(self).members@).contains(user@),
            !r ==> same_group(*old(self), *final(self)),
            r ==> {
                &&& final(self).members@ == old(self).members@.remove(member_position(old(self).members@, user@))
                &&& final(self).updated_at == now
                &&& same_group(
                    MessageGroup { members: final(self).members, updated_at: now, ..*old(self) },
                    *final(self),
                )
            },
    {
        let pos = find_member(&self.members, user);
        proof {
            lemma_member_position(self.members@, user@);
        }
        if pos < self.members.len() {
            self.members.remove(pos);
            self.updated_at = now;
            true
        } else {
            false
        }
    }

    /// Removes the first member named `user`; tells whether there was one.
    pub fn remove_member(&mut self, user: &str) -> (r: bool)
        ensures
            r == texts(old(self).members@).contains(user@),
            !r ==> same_group(*old(self), *final(self)),
            r ==> final(self).members@ == old(self).members@.remove(member_position(old(self).members@, user@))
                && same_group(
                MessageGroup { members: final(self).members, updated_at: final(self).updated_at, ..*old(self) },
                *final(self),
            ),
            exists|now: i64| #[trigger] clock_reading(now) && {
                &&& (r == texts(old(self).members@).contains(user@))
                &&& (!r ==> same_group(*old(self), *final(self)))
                &&& (r ==> {
                    &&& final(self).members@ == old(self).members@.remove(member_position(old(self).members@, user@))
                    &&& final(self).updated_at == now
                    &&& same_group(
                        MessageGroup { members: final(self).members, updated_at: now, ..*old(self) },
                        *final(self),
                    )
                })
            },
    {
        let now = now_millis();
        proof {
            assert(clock_reading(now));
        }
        self.remove_member_at(user, now)
    }

    pub fn is_member(&self, user: &str) -> (r: bool)
        ensures
            r == texts(self.members@).contains(user@),
    {
        proof {
            lemma_member_position(self.members@, user@);
        }
        find_member(&self.members, user) < self.members.len()
    }

    pub fn member_count(&self) -> (r: usize)
        ensures
            r == self.members@.len(),
    {
        self.members.len()
    }

    /// A copy of the group.
    pub fn duplicate(&self) -> (r: Self)
        ensures
            same_group(*self, r),
    {
        let mut members: Vec<String> = Vec::new();
        let mut i: usize = 0;
        while i < self.members.len()
            invariant
                i <= self.members@.len(),
                members@ == self.members@.take(i as int),
            decreases self.members.len() - i,
        {
            members.push(self.members[i].clone());
            assert(self.members@.take(i as int).push(self.members@[i as int]) =~= self.members@.take(i + 1));
            i = i + 1;
        }
        assert(self.members@.take(self.members@.len() as int) =~= self.members@);
        MessageGroup {
            id: self.id,
            name: self.name.clone(),
            description: self.description.clone(),
            members,
            created_by: self.created_by.clone(),
            created_at: self.created_at,
            updated_at: self.updated_at,
        }
    }
}

impl Keyed for MessageGroup {
    type Key = u128;

    open spec fn key(&self) -> u128 {
        self.id
    }

    open spec fn inv(&self) -> bool {
        true
    }

    fn key_ref(&self) -> (r: &u128) {
        let r = &self.id;
        assert(r.kv() == *r);
        r
    }
}

/// A queue of at most `max` items (and at least room for one): pushing onto
/// a full queue drops its oldest item first.
pub open spec fn bounded_push<T>(q: Seq<T>, max: int, x: T) -> Seq<T> {
    if q.len() >= max && q.len() > 0 { q.drop_first().push(x) } else { q.push(x) }
}

/// The largest length a bounded queue reaches.
pub open spec fn capacity(max: int) -> int {
    if max < 1 { 1 } else { max }
}

/// The messages queued for a user while offline.
pub struct OfflineQueue {
    user: String,
    messages: Vec<InstantMessage>,
}

impl Keyed for OfflineQueue {
    type Key = str;

    closed spec fn key(&self) -> Seq<char> {
        self.user@
    }

    closed spec fn inv(&self) -> bool {
        true
    }

    fn key_ref(&self) -> (r: &str) {
        let r = self.user.as_str();
        assert(r.kv() == r@);
        r
    }
}

impl OfflineQueue {
    pub closed spec fn spec_messages(&self) -> Seq<InstantMessage> {
        self.messages@
    }
}

/// Messaging statistics.
#[derive(Debug, Clone)]
pub struct MessagingStatistics {
    pub total_messages: usize,
    pub total_groups: usize,
    pub online_users: usize,
    pub offline_message_count: usize,
}

/// The sum of the lengths of the offline queues.
pub open spec fn total_queued(s: Seq<OfflineQueue>) -> int
    decreases s.len(),
{
    if s.len() == 0 {
        0
    } else {
        total_queued(s.drop_last()) + s.last().spec_messages().len()
    }
}

/// The last `limit` items of `s`, in order.
pub open spec fn last_n<T>(s: Seq<T>, limit: int) -> Seq<T> {
    if s.len() <= limit { s } else { s.skip(s.len() - limit) }
}

/// A message of the conversation between two users.
pub open spec fn in_conversation(m: InstantMessage, u1: Seq<char>, u2: Seq<char>) -> bool {
    (m.from@ == u1 && m.to@ == u2) || (m.from@ == u2 && m.to@ == u1)
}

/// The last message queued is a copy of `message` addressed to `u`, with a
/// fresh identifier.
pub open spec fn copy_queued_for(q: Seq<InstantMessage>, u: Seq<char>, message: InstantMessage) -> bool {
    &&& q.len() > 0
    &&& q.last().to@ == u
    &&& is_v4_uuid(q.last().id)
    &&& same_but_address(message, q.last())
}

/// Instant messaging manager: the message history (oldest first), offline
/// queues per user, message groups, and the users online.
pub struct InstantMessagingManager {
    message_history: Vec<InstantMessage>,
    offline_queues: Store<OfflineQueue>,
    groups: Store<MessageGroup>,
    online_users: Vec<String>,
    max_offline_messages: usize,
    max_history_size: usize,
}

impl InstantMessagingManager {
    pub closed spec fn spec_history(&self) -> Seq<InstantMessage> {
        self.message_history@
    }

    pub closed spec fn spec_queues(&self) -> Store<OfflineQueue> {
        self.offline_queues
    }

    pub closed spec fn spec_groups(&self) -> Store<MessageGroup> {
        self.groups
    }

    pub closed spec fn spec_online(&self) -> Seq<String> {
        self.online_users@
    }

    pub closed spec fn spec_max_offline(&self) -> usize {
        self.max_offline_messages
    }

    pub closed spec fn spec_max_history(&self) -> usize {
        self.max_history_size
    }

    /// The messages queued for a user.
    pub open spec fn spec_offline(&self, user: Seq<char>) -> Seq<InstantMessage> {
        match self.spec_queues().get_spec(user) {
            Some(q) => q.spec_messages(),
            None => Seq::empty(),
        }
    }

    /// Whether a user is online.
    pub open spec fn spec_is_online(&self, user: Seq<char>) -> bool {
        texts(self.spec_online()).contains(user)
    }

    /// The stores are well formed, and no queue or history outgrows its bound.
    pub open spec fn wf(&self) -> bool {
        &&& self.spec_queues().wf()
        &&& self.spec_groups().wf()
        &&& forall|i: int| 0 <= i < self.spec_queues().items().len() ==> (#[trigger] self.spec_queues().items()[i]).spec_messages().len()
            <= capacity(self.spec_max_offline() as int)
        &&& self.spec_history().len() <= capacity(self.spec_max_history() as int)
    }

    /// A manager keeping at most 100 offline messages per user and 10000
    /// messages of history.
    pub fn new() -> (r: Self)
        ensures
            r.wf(),
            r.spec_max_offline() == 100,
            r.spec_max_history() == 10000,
            r.spec_history().len() == 0,
            r.spec_queues().items().len() == 0,
            r.spec_groups().items().len() == 0,
            r.spec_online().len() == 0,
    {
        Self::with_limits(100, 10000)
    }

    /// A manager with the given bounds.
    pub fn with_limits(max_offline: usize, max_history: usize) -> (r: Self)
        ensures
            r.wf(),
            r.spec_max_offline() == max_offline,
            r.spec_max_history() == max_history,
            r.spec_history().len() == 0,
            r.spec_queues().items().len() == 0,
            r.spec_groups().items().len() == 0,
            r.spec_online().len() == 0,
    {
        InstantMessagingManager {
            message_history: Vec::new(),
            offline_queues: Store::new(),
            groups: Store::new(),
            online_users: Vec::new(),
            max_offline_messages: max_offline,
            max_history_size: max_history,
        }
    }

    /// Whether a user is online.
    pub fn is_user_online(&self, user: &str) -> (r: bool)
        ensures
            r == self.spec_is_online(user@),
    {
        proof {
            lemma_member_position(self.online_users@, user@);
        }
        find_member(&self.online_users, user) < self.online_users.len()
    }

    /// Queues a message for its recipient, dropping the oldest queued one
    /// when the queue is full.
    fn queue_offline_message(&mut self, message: InstantMessage)
        requires
            old(self).wf(),
        ensures
            final(self).wf(),
            final(self).spec_offline(message.to@) == bounded_push(
                old(self).spec_offline(message.to@),
                old(self).spec_max_offline() as int,
                message,
            ),
            forall|u: Seq<char>| u != message.to@ ==> final(self).spec_offline(u) == old(self).spec_offline(u),
            final(self).spec_history() == old(self).spec_history(),
            final(self).spec_groups() == old(self).spec_groups(),
            final(self).spec_online() == old(self).spec_online(),
            final(self).spec_max_offline() == old(self).spec_max_offline(),
            final(self).spec_max_history() == old(self).spec_max_history(),
    {
        let ghost to = message.to@;
        let ghost max = self.max_offline_messages as int;
        match self.offline_queues.find(message.to.as_str()) {
            Some(i) => {
                let mut q = self.offline_queues.take_at(i);
                let ghost before = q.messages@;
                if q.messages.len() >= self.max_offline_messages && q.messages.len() > 0 {
                    q.messages.remove(0);
                }
                q.messages.push(message);
                assert(q.messages@ =~= bounded_push(before, max, message));
                self.offline_queues.put_at(i, q);
                proof {
                    let items = self.offline_queues.items();
                    assert forall|j: int| 0 <= j < items.len() implies (#[trigger] items[j]).spec_messages().len()
                        <= capacity(max) by {
                        if j != i {
                            let jj = if j < i { j } else { j - 1 };
                            assert(items[j] == old(self).offline_queues.items().remove(i as int)[jj]);
                        }
                    }
                }
            },
            None => {
                let user = message.to.clone();
                let mut v: Vec<InstantMessage> = Vec::new();
                v.push(message);
                assert(v@ =~= bounded_push(Seq::<InstantMessage>::empty(), max, message));
                let q = OfflineQueue { user, messages: v };
                self.offline_queues.push_new(q);
                proof {
                    let items = self.offline_queues.items();
                    assert forall|j: int| 0 <= j < items.len() implies (#[trigger] items[j]).spec_messages().len()
                        <= capacity(max) by {
                        if j < items.len() - 1 {
                            assert(items[j] == old(self).offline_queues.items()[j]);
                        }
                    }
                }
            },
        }
    }

    /// Appends a message to the history, dropping the oldest when full.
    fn add_to_history(&mut self, message: InstantMessage)
        requires
            old(self).wf(),
        ensures
            final(self).wf(),
            final(self).spec_history() == bounded_push(
                old(self).spec_history(),
                old(self).spec_max_history() as int,
                message,
            ),
            final(self).spec_queues() == old(self).spec_queues(),
            final(self).spec_groups() == old(self).spec_groups(),
            final(self).spec_online() == old(self).spec_online(),
            final(self).spec_max_offline() == old(self).spec_max_offline(),
            final(self).spec_max_history() == old(self).spec_max_history(),
    {
        let ghost before = self.message_history@;
        if self.message_history.len() >= self.max_history_size && self.message_history.len() > 0 {
            self.message_history.remove(0);
        }
        self.message_history.push(message);
        assert(self.message_history@ =~= bounded_push(before, self.max_history_size as int, message));
    }

    /// Routes a message to its recipient: handed to the delivery callback
    /// when the recipient is online and there is one, else queued.
    fn route_message<F: Fn(&InstantMessage) -> Result<(), String>>(
        &mut self,
        message: InstantMessage,
        deliver: Option<&F>,
    ) -> (r: Result<(), String>)
        requires
            old(self).wf(),
            deliver matches Some(f) ==> forall|m: &InstantMessage| #[trigger] f.requires((m,)),
        ensures
            final(self).wf(),
            final(self).spec_history() == old(self).spec_history(),
            final(self).spec_groups() == old(self).spec_groups(),
            final(self).spec_online() == old(self).spec_online(),
            final(self).spec_max_offline() == old(self).spec_max_offline(),
            final(self).spec_max_history() == old(self).spec_max_history(),
            forall|u: Seq<char>| u != message.to@ ==> final(self).spec_offline(u) == old(self).spec_offline(u),
            (deliver is None || !old(self).spec_is_online(message.to@)) ==> {
                &&& r is Ok
                &&& final(self).spec_offline(message.to@) == bounded_push(
                    old(self).spec_offline(message.to@),
                    old(self).spec_max_offline() as int,
                    message,
                )
            },
            (deliver is Some && old(self).spec_is_online(message.to@)) ==> final(self).spec_offline(message.to@)
                == old(self).spec_offline(message.to@),
            r matches Err(m) ==> deliver is Some && m@.len() >= 17 && m@.take(17) == "Delivery failed: "@,
    {
        let is_online = self.is_user_online(message.to.as_str());
        if is_online {
            match deliver {
                Some(f) => {
                    match f(&message) {
                        Ok(_) => {
                            let mut delivered = message;
                            delivered.mark_delivered();
                            Ok(())
                        },
                        Err(e) => {
                            let mut failed = message;
                            failed.mark_failed();
                            let mut m = String::from_str("Delivery failed: ");
                            proof {
                                reveal_strlit("Delivery failed: ");
                            }
                            let ghost prefix = m@;
                            m.append(e.as_str());
                            assert(m@.take(17) =~= prefix);
                            Err(m)
                        },
                    }
                },
                None => {
                    self.queue_offline_message(message);
                    Ok(())
                },
            }
        } else {
            self.queue_offline_message(message);
            Ok(())
        }
    }

    /// Sends a message, through the delivery callback if one is given. A
    /// group message goes to every member but its sender, each copy with a
    /// fresh identifier, and is then marked delivered; a direct message goes
    /// to its recipient. Without a callback every copy is queued for its
    /// recipient. Once routed, the message is added to the history.
    pub fn send_message<F: Fn(&InstantMessage) -> Result<(), String>>(
        &mut self,
        message: InstantMessage,
        deliver: Option<&F>,
    ) -> (r: Result<u128, String>)
        requires
            old(self).wf(),
            deliver matches Some(f) ==> forall|m: &InstantMessage| #[trigger] f.requires((m,)),
        ensures
            final(self).wf(),
            final(self).spec_groups() == old(self).spec_groups(),
            final(self).spec_online() == old(self).spec_online(),
            (message.group_id matches Some(g) && !old(self).spec_groups().contains(g)) ==> {
                &&& r matches Err(m) && m@ == "Group not found"@
                &&& final(self).spec_history() == old(self).spec_history()
                &&& forall|u: Seq<char>| final(self).spec_offline(u) == old(self).spec_offline(u)
            },
            r matches Ok(id) ==> {
                &&& id == message.id
                &&& final(self).spec_history().len() > 0
                &&& final(self).spec_history().drop_last() == bounded_push(
                    old(self).spec_history(),
                    old(self).spec_max_history() as int,
                    message,
                ).drop_last()
                &&& match message.group_id {
                    Some(g) => final(self).spec_history().last().status == MessageStatus::Delivered
                        && final(self).spec_history().last().delivered_at is Some
                        && final(self).spec_history().last() == (InstantMessage {
                            status: MessageStatus::Delivered,
                            delivered_at: final(self).spec_history().last().delivered_at,
                            ..message
                        }),
                    None => final(self).spec_history().last() == message,
                }
            },
            r matches Err(m) ==> (m@ == "Group not found"@ && message.group_id is Some) || (deliver is Some
                && m@.len() >= 17 && m@.take(17) == "Delivery failed: "@),
            deliver is None && message.group_id is None ==> {
                &&& r is Ok
                &&& final(self).spec_offline(message.to@).len() > 0
                &&& same_message(message, final(self).spec_offline(message.to@).last())
                &&& final(self).spec_offline(message.to@).drop_last() == bounded_push(
                    old(self).spec_offline(message.to@),
                    old(self).spec_max_offline() as int,
                    message,
                ).drop_last()
                &&& forall|u: Seq<char>| u != message.to@ ==> final(self).spec_offline(u) == old(self).spec_offline(u)
            },
            deliver is None && (message.group_id matches Some(g) && old(self).spec_groups().contains(g)) ==> {
                let members = old(self).spec_groups().get_spec(message.group_id.unwrap()).unwrap().members@;
                &&& r is Ok
                &&& forall|u: Seq<char>| !(texts(members).contains(u) && u != message.from@) ==> final(self).spec_offline(u)
                    == old(self).spec_offline(u)
                &&& forall|u: Seq<char>| #[trigger] texts(members).contains(u) && u != message.from@ ==> copy_queued_for(
                    final(self).spec_offline(u),
                    u,
                    message,
                )
            },
            message.group_id is Some ==> forall|u: Seq<char>| !(texts(
                old(self).spec_groups().get_spec(message.group_id.unwrap()).unwrap().members@,
            ).contains(u) && u != message.from@) ==> final(self).spec_offline(u) == old(self).spec_offline(u),
    {
        let message_id = message.id;
        match message.group_id {
            Some(group_id) => {
                let group = match self.groups.get(&group_id) {
                    Some(g) => g.duplicate(),
                    None => {
                        return Err(String::from_str("Group not found"));
                    },
                };
                let ghost members = group.members@;
                let ghost q0 = *self;
                let mut j: usize = 0;
                while j < group.members.len()
                    invariant
                        q0 == *old(self),
                        message.group_id == Some(group_id),
                        old(self).spec_groups().contains(group_id),
                        members == old(self).spec_groups().get_spec(group_id).unwrap().members@,
                        j <= members.len(),
                        group.members@ == members,
                        self.wf(),
                        self.spec_history() == q0.spec_history(),
                        self.spec_groups() == q0.spec_groups(),
                        self.spec_online() == q0.spec_online(),
                        self.spec_max_offline() == q0.spec_max_offline(),
                        self.spec_max_history() == q0.spec_max_history(),
                        deliver matches Some(f) ==> forall|m: &InstantMessage| #[trigger] f.requires((m,)),
                        forall|u: Seq<char>| !(texts(members.take(j as int)).contains(u) && u != message.from@) ==> self.spec_offline(u)
                            == q0.spec_offline(u),
                        deliver is None ==> forall|u: Seq<char>| #[trigger] texts(members.take(j as int)).contains(u) && u != message.from@
                            ==> copy_queued_for(self.spec_offline(u), u, message),
                    decreases members.len() - j,
                {
                    let member = &group.members[j];
                    let ghost tj = texts(members.take(j as int));
                    let ghost tj1 = texts(members.take(j + 1));
                    proof {
                        assert(tj1 =~= tj.push(member@));
                    }
                    if !str_eq(member.as_str(), message.from.as_str()) {
                        let mut member_msg = message.duplicate();
                        member_msg.id = new_uuid();
                        member_msg.to = member.clone();
                        let ghost mm = member_msg;
                        let ghost before = *self;
                        match self.route_message(member_msg, deliver) {
                            Ok(()) => {},
                            Err(e) => {
                                proof {
                                    assert forall|u: Seq<char>| !(texts(members).contains(u) && u != message.from@) implies self.spec_offline(u)
                                        == old(self).spec_offline(u) by {
                                        if tj.contains(u) && u != message.from@ {
                                            let k = choose|k: int| 0 <= k < tj.len() && tj[k] == u;
                                            assert(texts(members)[k] == u);
                                        }
                                    }
                                }
                                return Err(e);
                            },
                        }
                        proof {
                            if deliver is None {
                                assert(self.spec_offline(member@) == bounded_push(
                                    before.spec_offline(member@),
                                    before.spec_max_offline() as int,
                                    mm,
                                ));
                                assert(mm.to@ == member@);
                                assert(same_but_address(message, mm));
                                assert(self.spec_offline(member@).last() == mm);
                                assert(copy_queued_for(self.spec_offline(member@), member@, message));
                                assert forall|u: Seq<char>| #[trigger] tj1.contains(u) && u != message.from@ implies copy_queued_for(
                                    self.spec_offline(u),
                                    u,
                                    message,
                                ) by {
                                    if u != member@ {
                                        assert(tj.contains(u)) by {
                                            let k = choose|k: int| 0 <= k < tj1.len() && tj1[k] == u;
                                            assert(k < j);
                                            assert(tj[k] == u);
                                        }
                                        assert(copy_queued_for(before.spec_offline(u), u, message));
                                        assert(self.spec_offline(u) == before.spec_offline(u));
                                    }
                                }
                            }
                            assert forall|u: Seq<char>| !(tj1.contains(u) && u != message.from@) implies self.spec_offline(u)
                                == q0.spec_offline(u) by {
                                if u != member@ {
                                    if tj.contains(u) && u != message.from@ {
                                        let k = choose|k: int| 0 <= k < tj.len() && tj[k] == u;
                                        assert(tj1[k] == u);
                                    }
                                } else {
                                    assert(tj1[j as int] == u);
                                }
                            }
                        }
                    } else {
                        proof {
                            assert forall|u: Seq<char>| !(tj1.contains(u) && u != message.from@) implies self.spec_offline(u)
                                == q0.spec_offline(u) by {
                                if tj.contains(u) && u != message.from@ {
                                    let k = choose|k: int| 0 <= k < tj.len() && tj[k] == u;
                                    assert(tj1[k] == u);
                                }
                            }
                            assert forall|u: Seq<char>| #[trigger] tj1.contains(u) && u != message.from@ implies tj.contains(u) by {
                                let k = choose|k: int| 0 <= k < tj1.len() && tj1[k] == u;
                                assert(k < j);
                                assert(texts(members.take(j as int))[k] == u);
                            }
                        }
                    }
                    j = j + 1;
                }
                proof {
                    assert(members.take(members.len() as int) =~= members);
                }
                let mut message = message;
                message.mark_delivered();
                let ghost last = message;
                self.add_to_history(message);
                assert(self.spec_history().last() == last);
            },
            None => {
                let copy = message.duplicate();
                let ghost c = copy;
                self.route_message(copy, deliver)?;
                self.add_to_history(message);
            },
        }
        Ok(message_id)
    }

    /// Marks a user online and hands over the messages queued for them,
    /// oldest first.
    pub fn user_online(&mut self, user: String) -> (r: Vec<InstantMessage>)
        requires
            old(self).wf(),
        ensures
            final(self).wf(),
            r@ == old(self).spec_offline(user@),
            final(self).spec_offline(user@).len() == 0,
            forall|u: Seq<char>| u != user@ ==> final(self).spec_offline(u) == old(self).spec_offline(u),
            final(self).spec_is_online(user@),
            old(self).spec_is_online(user@) ==> final(self).spec_online() == old(self).spec_online(),
            !old(self).spec_is_online(user@) ==> final(self).spec_online() == old(self).spec_online().push(user),
            final(self).spec_history() == old(self).spec_history(),
            final(self).spec_groups() == old(self).spec_groups(),
    {
        let online = self.is_user_online(user.as_str());
        let key = user.clone();
        if !online {
            self.online_users.push(user);
            proof {
                assert(texts(self.online_users@).last() == key@);
            }
        }
        let ghost q = self.offline_queues;
        match self.offline_queues.remove(key.as_str()) {
            Some(queue) => {
                proof {
                    let items = self.offline_queues.items();
                    let i = choose|i: int| 0 <= i < q.items().len() && items == q.items().remove(i);
                    assert forall|j: int| 0 <= j < items.len() implies (#[trigger] items[j]).spec_messages().len()
                        <= capacity(self.max_offline_messages as int) by {
                        let k = if j < i { j } else { j + 1 };
                        assert(items[j] == q.items()[k]);
                    }
                }
                queue.messages
            },
            None => Vec::new(),
        }
    }

    /// Marks a user offline.
    pub fn user_offline(&mut self, user: &str)
        ensures
            texts(final(self).spec_online()) == texts(old(self).spec_online()).filter(|u: Seq<char>| u != user@),
            !final(self).spec_is_online(user@),
            final(self).spec_history() == old(self).spec_history(),
            final(self).spec_queues() == old(self).spec_queues(),
            final(self).spec_groups() == old(self).spec_groups(),
            final(self).spec_max_offline() == old(self).spec_max_offline(),
            final(self).spec_max_history() == old(self).spec_max_history(),
    {
        let ghost all = texts(self.online_users@);
        let ghost keep = |u: Seq<char>| u != user@;
        let mut kept: Vec<String> = Vec::new();
        let mut i: usize = 0;
        while i < self.online_users.len()
            invariant
                i <= self.online_users@.len(),
                all == texts(self.online_users@),
                texts(kept@) == all.take(i as int).filter(keep),
                keep == (|u: Seq<char>| u != user@),
            decreases self.online_users.len() - i,
        {
            proof {
                reveal(Seq::filter);
                assert(all.take(i + 1).drop_last() =~= all.take(i as int));
                assert(all.take(i + 1).last() == self.online_users@[i as int]@);
            }
            if !str_eq(self.online_users[i].as_str(), user) {
                kept.push(self.online_users[i].clone());
                assert(texts(kept@) =~= all.take(i as int).filter(keep).push(self.online_users@[i as int]@));
            }
            i = i + 1;
        }
        assert(all.take(i as int) =~= all);
        self.online_users = kept;
        proof {
            if texts(self.online_users@).contains(user@) {
                let k = choose|k: int| 0 <= k < texts(self.online_users@).len() && texts(self.online_users@)[k] == user@;
                all.lemma_filter_pred(keep, k);
            }
        }
    }

    /// Creates (or replaces) a group under its identifier.
    pub fn create_group(&mut self, group: MessageGroup) -> (r: u128)
        requires
            old(self).wf(),
        ensures
            final(self).wf(),
            r == group.id,
            final(self).spec_groups().get_spec(group.id) == Some(group),
            forall|k: u128| k != group.id ==> final(self).spec_groups().get_spec(k) == old(self).spec_groups().get_spec(k),
            final(self).spec_history() == old(self).spec_history(),
            final(self).spec_queues() == old(self).spec_queues(),
            final(self).spec_online() == old(self).spec_online(),
    {
        let id = group.id;
        self.groups.insert(group);
        id
    }

    /// A copy of a group.
    pub fn get_group(&self, group_id: &u128) -> (r: Option<MessageGroup>)
        requires
            self.wf(),
        ensures
            match self.spec_groups().get_spec(*group_id) {
                Some(g) => r matches Some(c) && same_group(g, c),
                None => r is None,
            },
    {
        match self.groups.get(group_id) {
            Some(g) => Some(g.duplicate()),
            None => None,
        }
    }

    /// Adds a member to a group.
    pub fn add_group_member(&mut self, group_id: &u128, user: String) -> (r: Result<(), String>)
        requires
            old(self).wf(),
        ensures
            final(self).wf(),
            r is Ok <==> old(self).spec_groups().contains(*group_id),
            r matches Err(m) ==> m@ == "Group not found"@ && final(self).spec_groups().items() == old(self).spec_groups().items(),
            r is Ok ==> {
                let g = old(self).spec_groups().get_spec(*group_id).unwrap();
                &&& final(self).spec_groups().get_spec(*group_id) matches Some(h)
                &&& (texts(g.members@).contains(user@) ==> same_group(g, h))
                &&& (!texts(g.members@).contains(user@) ==> h.members@ == g.members@.push(user))
            },
            forall|k: u128| k != *group_id ==> final(self).spec_groups().get_spec(k) == old(self).spec_groups().get_spec(k),
            final(self).spec_history() == old(self).spec_history(),
            final(self).spec_queues() == old(self).spec_queues(),
            final(self).spec_online() == old(self).spec_online(),
    {
        match self.groups.find(group_id) {
            Some(i) => {
                let mut g = self.groups.take_at(i);
                g.add_member(user);
                self.groups.put_at(i, g);
                Ok(())
            },
            None => Err(String::from_str("Group not found")),
        }
    }

    /// Removes a member from a group.
    pub fn remove_group_member(&mut self, group_id: &u128, user: &str) -> (r: Result<(), String>)
        requires
            old(self).wf(),
        ensures
            final(self).wf(),
            !old(self).spec_groups().contains(*group_id) ==> (r matches Err(m) && m@ == "Group not found"@),
            old(self).spec_groups().get_spec(*group_id) matches Some(g) ==> {
                &&& (texts(g.members@).contains(user@) ==> r is Ok && (final(self).spec_groups().get_spec(*group_id) matches Some(h)
                    && h.members@ == g.members@.remove(member_position(g.members@, user@))))
                &&& (!texts(g.members@).contains(user@) ==> (r matches Err(m) && m@ == "User not in group"@))
            },
            forall|k: u128| k != *group_id ==> final(self).spec_groups().get_spec(k) == old(self).spec_groups().get_spec(k),
            final(self).spec_history() == old(self).spec_history(),
            final(self).spec_queues() == old(self).spec_queues(),
            final(self).spec_online() == old(self).spec_online(),
    {
        match self.groups.find(group_id) {
            Some(i) => {
                let mut g = self.groups.take_at(i);
                let removed = g.remove_member(user);
                self.groups.put_at(i, g);
                if removed {
                    Ok(())
                } else {
                    Err(String::from_str("User not in group"))
                }
            },
            None => Err(String::from_str("Group not found")),
        }
    }

    /// The groups a user belongs to, in the order they were created.
    pub fn list_user_groups(&self, user: &str) -> (r: Vec<MessageGroup>)
        ensures
            r@.len() == self.spec_groups().items().filter(|g: MessageGroup| texts(g.members@).contains(user@)).len(),
            forall|i: int| 0 <= i < r@.len() ==> same_group(
                self.spec_groups().items().filter(|g: MessageGroup| texts(g.members@).contains(user@))[i],
                #[trigger] r@[i],
            ),
    {
        let ghost all = self.groups.items();
        let ghost p = |g: MessageGroup| texts(g.members@).contains(user@);
        let mut out: Vec<MessageGroup> = Vec::new();
        let mut i: usize = 0;
        while i < self.groups.len()
            invariant
                i <= all.len(),
                all == self.groups.items(),
                p == (|g: MessageGroup| texts(g.members@).contains(user@)),
                out@.len() == all.take(i as int).filter(p).len(),
                forall|k: int| 0 <= k < out@.len() ==> same_group(all.take(i as int).filter(p)[k], #[trigger] out@[k]),
            decreases all.len() - i,
        {
            proof {
                reveal(Seq::filter);
                assert(all.take(i + 1).drop_last() =~= all.take(i as int));
                assert(all.take(i + 1).last() == all[i as int]);
            }
            let g = self.groups.at(i);
            if g.is_member(user) {
                out.push(g.duplicate());
            }
            i = i + 1;
        }
        assert(all.take(i as int) =~= all);
        out
    }

    /// The last `limit` messages between two users, oldest first.
    pub fn get_conversation_history(&self, user1: &str, user2: &str, limit: usize) -> (r: Vec<InstantMessage>)
        ensures
            r@.len() == last_n(
                self.spec_history().filter(|m: InstantMessage| in_conversation(m, user1@, user2@)),
                limit as int,
            ).len(),
            forall|i: int| 0 <= i < r@.len() ==> same_message(
                last_n(
                    self.spec_history().filter(|m: InstantMessage| in_conversation(m, user1@, user2@)),
                    limit as int,
                )[i],
                #[trigger] r@[i],
            ),
    {
        let ghost p = |m: InstantMessage| in_conversation(m, user1@, user2@);
        let ghost all = self.message_history@;
        let mut matching: Vec<InstantMessage> = Vec::new();
        let mut i: usize = 0;
        while i < self.message_history.len()
            invariant
                i <= all.len(),
                all == self.message_history@,
                p == (|m: InstantMessage| in_conversation(m, user1@, user2@)),
                matching@.len() == all.take(i as int).filter(p).len(),
                forall|k: int| 0 <= k < matching@.len() ==> same_message(all.take(i as int).filter(p)[k], #[trigger] matching@[k]),
            decreases all.len() - i,
        {
            proof {
                reveal(Seq::filter);
                assert(all.take(i + 1).drop_last() =~= all.take(i as int));
                assert(all.take(i + 1).last() == all[i as int]);
            }
            let m = &self.message_history[i];
            let a = str_eq(m.from.as_str(), user1) && str_eq(m.to.as_str(), user2);
            let b = str_eq(m.from.as_str(), user2) && str_eq(m.to.as_str(), user1);
            if a || b {
                matching.push(m.duplicate());
            }
            i = i + 1;
        }
        assert(all.take(i as int) =~= all);
        take_last(&matching, limit)
    }

    /// The last `limit` messages of a group, oldest first.
    pub fn get_group_history(&self, group_id: &u128, limit: usize) -> (r: Vec<InstantMessage>)
        ensures
            r@.len() == last_n(
                self.spec_history().filter(|m: InstantMessage| m.group_id == Some(*group_id)),
                limit as int,
            ).len(),
            forall|i: int| 0 <= i < r@.len() ==> same_message(
                last_n(
                    self.spec_history().filter(|m: InstantMessage| m.group_id == Some(*group_id)),
                    limit as int,
                )[i],
                #[trigger] r@[i],
            ),
    {
        let ghost p = |m: InstantMessage| m.group_id == Some(*group_id);
        let ghost all = self.message_history@;
        let mut matching: Vec<InstantMessage> = Vec::new();
        let mut i: usize = 0;
        while i < self.message_history.len()
            invariant
                i <= all.len(),
                all == self.message_history@,
                p == (|m: InstantMessage| m.group_id == Some(*group_id)),
                matching@.len() == all.take(i as int).filter(p).len(),
                forall|k: int| 0 <= k < matching@.len() ==> same_message(all.take(i as int).filter(p)[k], #[trigger] matching@[k]),
            decreases all.len() - i,
        {
            proof {
                reveal(Seq::filter);
                assert(all.take(i + 1).drop_last() =~= all.take(i as int));
                assert(all.take(i + 1).last() == all[i as int]);
            }
            let m = &self.message_history[i];
            if m.group_id == Some(*group_id) {
                matching.push(m.duplicate());
            }
            i = i + 1;
        }
        assert(all.take(i as int) =~= all);
        take_last(&matching, limit)
    }

    /// The number of messages queued for a user.
    pub fn get_offline_count(&self, user: &str) -> (r: usize)
        requires
            self.wf(),
        ensures
            r == self.spec_offline(user@).len(),
    {
        match self.offline_queues.get(user) {
            Some(q) => q.messages.len(),
            None => 0,
        }
    }

    /// Counts of messages, groups, online users and queued messages.
    pub fn get_statistics(&self) -> (r: MessagingStatistics)
        requires
            total_queued(self.spec_queues().items()) <= usize::MAX,
        ensures
            r.total_messages == self.spec_history().len(),
            r.total_groups == self.spec_groups().items().len(),
            r.online_users == self.spec_online().len(),
            r.offline_message_count == total_queued(self.spec_queues().items()),
    {
        let ghost items = self.offline_queues.items();
        let mut total: usize = 0;
        let mut i: usize = 0;
        while i < self.offline_queues.len()
            invariant
                i <= items.len(),
                items == self.offline_queues.items(),
                total == total_queued(items.take(i as int)),
                total_queued(items) <= usize::MAX,
            decreases items.len() - i,
        {
            proof {
                lemma_total_queued_prefix(items, i + 1);
            }
            total = total + self.offline_queues.at(i).messages.len();
            i = i + 1;
        }
        assert(items.take(i as int) =~= items);
        MessagingStatistics {
            total_messages: self.message_history.len(),
            total_groups: self.groups.len(),
            online_users: self.online_users.len(),
            offline_message_count: total,
        }
    }
}

/// The totals of a prefix extend by the next queue.
proof fn lemma_total_queued_prefix(s: Seq<OfflineQueue>, k: int)
    requires
        0 < k <= s.len(),
    ensures
        total_queued(s.take(k)) == total_queued(s.take(k - 1)) + s[k - 1].spec_messages().len(),
        total_queued(s.take(k)) <= total_queued(s),
    decreases s.len() - k,
{
    assert(s.take(k).drop_last() =~= s.take(k - 1));
    if k < s.len() {
        lemma_total_queued_prefix(s, k + 1);
    } else {
        assert(s.take(k) =~= s);
    }
}

/// Copies of the last `limit` messages, oldest first.
fn take_last(v: &Vec<InstantMessage>, limit: usize) -> (r: Vec<InstantMessage>)
    ensures
        r@.len() == last_n(v@, limit as int).len(),
        forall|i: int| 0 <= i < r@.len() ==> same_message(last_n(v@, limit as int)[i], #[trigger] r@[i]),
{
    let start: usize = if v.len() <= limit { 0 } else { v.len() - limit };
    let mut out: Vec<InstantMessage> = Vec::new();
    let mut i: usize = start;
    while i < v.len()
        invariant
            start <= i <= v@.len(),
            start == (if v@.len() <= limit { 0 } else { v@.len() - limit }),
            out@.len() == i - start,
            forall|k: int| 0 <= k < out@.len() ==> same_message(v@[start + k], #[trigger] out@[k]),
        decreases v.len() - i,
    {
        out.push(v[i].duplicate());
        i = i + 1;
    }
    out
}

impl Default for InstantMessagingManager {
    fn default() -> (r: Self)
        ensures
            r.wf(),
            r.spec_max_offline() == 100,
            r.spec_max_history() == 10000,
            r.spec_history().len() == 0,
            r.spec_queues().items().len() == 0,
            r.spec_groups().items().len() == 0,
            r.spec_online().len() == 0,
    {
        Self::new()
    }
}

} // verus!
