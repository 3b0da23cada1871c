//! Shared value objects: identifiers and SIP URIs.
use vstd::prelude::*;
use crate::domain::shared::system::{is_v4_uuid, new_uuid};
use crate::text::{
    chars_of, decimal, find_char, is_digit, lemma_decimal_digits, lemma_find_char, lemma_find_char_is,
    parse_u16_chars, parse_u16_spec, seq_starts_with, string_of_chars, u64_to_string, unsigned_part,
    vec_find_char, vec_slice,
};

verus! {

/// Call identifier (the 128-bit value of a UUID).
#[derive(Debug, Clone, Copy, PartialEq, Eq, Hash, Structural)]
pub struct CallId(pub u128);

impl CallId {
    /// A fresh random identifier.
    pub fn new() -> (r: Self)
        ensures
            is_v4_uuid(r.0),
    {
        CallId(new_uuid())
    }

    /// The identifier with the given value.
    pub fn from_uuid(uuid: u128) -> (r: Self)
        ensures
            r.0 == uuid,
    {
        CallId(uuid)
    }

    /// The identifier's value.
    pub fn as_uuid(&self) -> (r: u128)
        ensures
            r == self.0,
    {
        self.0
    }
}

/// Session identifier (the 128-bit value of a UUID).
#[derive(Debug, Clone, Copy, PartialEq, Eq, Hash, Structural)]
pub struct SessionId(pub u128);

impl SessionId {
    /// A fresh random identifier.
    pub fn new() -> (r: Self)
        ensures
            is_v4_uuid(r.0),
    {
        SessionId(new_uuid())
    }

    /// The identifier with the given value.
    pub fn from_uuid(uuid: u128) -> (r: Self)
        ensures
            r.0 == uuid,
    {
        SessionId(uuid)
    }

    /// The identifier's value.
    pub fn as_uuid(&self) -> (r: u128)
        ensures
            r == self.0,
    {
        self.0
    }
}

/// Endpoint identifier (the 128-bit value of a UUID).
#[derive(Debug, Clone, Copy, PartialEq, Eq, Hash, Structural)]
pub struct EndpointId(pub u128);

impl EndpointId {
    /// A fresh random identifier.
    pub fn new() -> (r: Self)
        ensures
            is_v4_uuid(r.0),
    {
        EndpointId(new_uuid())
    }

    /// The identifier with the given value.
    pub fn from_uuid(uuid: u128) -> (r: Self)
        ensures
            r.0 == uuid,
    {
        EndpointId(uuid)
    }

    /// The identifier's value.
    pub fn as_uuid(&self) -> (r: u128)
        ensures
            r == self.0,
    {
        self.0
    }
}

/// What a SIP URI holds.
pub struct SipUriView {
    pub user: Seq<char>,
    pub host: Seq<char>,
    pub port: Option<u16>,
}

/// The outcome of parsing a SIP URI: after the `sip:` prefix there must be
/// exactly one `@`; the user is what precedes it; after it the host runs to
/// the first `:`, and the port is the text between that `:` and the next one
/// (or the end), kept only when it parses as a `u16`.
pub open spec fn spec_parse_sip_uri(s: Seq<char>) -> Result<SipUriView, Seq<char>> {
    if !seq_starts_with(s, "sip:"@) {
        Err("URI must start with 'sip:'"@)
    } else {
        let rest = s.skip(4);
        let at = find_char(rest, '@');
        if at >= rest.len() {
            Err("Invalid SIP URI format"@)
        } else {
            let after = rest.skip(at + 1);
            if find_char(after, '@') < after.len() {
                Err("Invalid SIP URI format"@)
            } else {
                let colon = find_char(after, ':');
                let host = after.take(colon);
                let port = if colon < after.len() {
                    let tail = after.skip(colon + 1);
                    parse_u16_spec(tail.take(find_char(tail, ':')))
                } else {
                    None
                };
                Ok(SipUriView { user: rest.take(at), host, port })
            }
        }
    }
}

/// The text of a SIP URI: `sip:user@host`, followed by `:port` when there is one.
pub open spec fn spec_sip_uri_text(v: SipUriView) -> Seq<char> {
    match v.port {
        Some(p) => "sip:"@ + v.user + "@"@ + v.host + ":"@ + decimal(p as nat),
        None => "sip:"@ + v.user + "@"@ + v.host,
    }
}

/// SIP URI value object.
#[derive(Debug, Clone)]
pub struct SipUri {
    user: String,
    host: String,
    port: Option<u16>,
}

impl View for SipUri {
    type V = SipUriView;

    closed spec fn view(&self) -> SipUriView {
        SipUriView { user: self.user@, host: self.host@, port: self.port }
    }
}

impl SipUri {
    pub fn new(user: String, host: String, port: Option<u16>) -> (r: Self)
        ensures
            r@ == (SipUriView { user: user@, host: host@, port }),
    {
        Self { user, host, port }
    }

    /// Parses `sip:user@host[:port]`.
    pub fn parse(uri: &str) -> (r: Result<Self, String>)
        ensures
            match r {
                Ok(u) => spec_parse_sip_uri(uri@) == Ok::<SipUriView, Seq<char>>(u@),
                Err(m) => spec_parse_sip_uri(uri@) == Err::<SipUriView, Seq<char>>(m@),
            },
    {
        let s = chars_of(uri);
        let prefix = chars_of("sip:");
        if !crate::text::vec_starts_with(&s, &prefix) {
            return Err(String::from_str("URI must start with 'sip:'"));
        }
        proof { reveal_strlit("sip:"); }
        let rest = vec_slice(&s, 4, s.len());
        assert(rest@ =~= s@.skip(4));
        let at = vec_find_char(&rest, '@');
        if at >= rest.len() {
            return Err(String::from_str("Invalid SIP URI format"));
        }
        let after = vec_slice(&rest, at + 1, rest.len());
        assert(after@ =~= rest@.skip(at + 1));
        let second = vec_find_char(&after, '@');
        if second < after.len() {
            return Err(String::from_str("Invalid SIP URI format"));
        }
        let user = vec_slice(&rest, 0, at);
        assert(user@ =~= rest@.take(at as int));
        let colon = vec_find_char(&after, ':');
        proof { lemma_find_char(after@, ':'); }
        let host = vec_slice(&after, 0, colon);
        assert(host@ =~= after@.take(colon as int));
        let port = if colon < after.len() {
            let tail = vec_slice(&after, colon + 1, after.len());
            assert(tail@ =~= after@.skip(colon + 1));
            let end = vec_find_char(&tail, ':');
            proof { lemma_find_char(tail@, ':'); }
            let digits = vec_slice(&tail, 0, end);
            assert(digits@ =~= tail@.take(end as int));
            parse_u16_chars(&digits)
        } else {
            None
        };
        Ok(Self { user: string_of_chars(&user), host: string_of_chars(&host), port })
    }

    pub fn user(&self) -> (r: &str)
        ensures
            r@ == self@.user,
    {
        self.user.as_str()
    }

    pub fn host(&self) -> (r: &str)
        ensures
            r@ == self@.host,
    {
        self.host.as_str()
    }

    pub fn port(&self) -> (r: Option<u16>)
        ensures
            r == self@.port,
    {
        self.port
    }

    /// Whether the two URIs have the same user, host and port.
    pub fn same_as(&self, other: &SipUri) -> (r: bool)
        ensures
            r == (self@ == other@),
    {
        let u = crate::text::str_eq(self.user.as_str(), other.user.as_str());
        let h = crate::text::str_eq(self.host.as_str(), other.host.as_str());
        u && h && self.port == other.port
    }

    /// A copy of the URI.
    pub fn duplicate(&self) -> (r: Self)
        ensures
            r == *self,
    {
        SipUri { user: self.user.clone(), host: self.host.clone(), port: self.port }
    }

    /// The URI's text: `sip:user@host` or `sip:user@host:port`.
    pub fn to_string(&self) -> (r: String)
        ensures
            r@ == spec_sip_uri_text(self@),
    {
        let mut r = String::from_str("sip:");
        r.append(self.user.as_str());
        r.append("@");
        r.append(self.host.as_str());
        if let Some(p) = self.port {
            r.append(":");
            let n = u64_to_string(p as u64);
            r.append(n.as_str());
        }
        r
    }
}


/// No character of a text is `c`.
pub open spec fn lacks_char(s: Seq<char>, c: char) -> bool {
    forall|i: int| 0 <= i < s.len() ==> s[i] != c
}

/// A SIP URI reads back from its text: parsing `sip:user@host[:port]` gives
/// the same user, host and port, when the user holds no `@` and the host
/// neither `@` nor `:`.
pub proof fn lemma_sip_uri_round_trip(v: SipUriView)
    requires
        lacks_char(v.user, '@'),
        lacks_char(v.host, '@'),
        lacks_char(v.host, ':'),
    ensures
        spec_parse_sip_uri(spec_sip_uri_text(v)) == Ok::<SipUriView, Seq<char>>(v),
{
    reveal_strlit("sip:");
    reveal_strlit("@");
    reveal_strlit(":");
    let u = v.user;
    let h = v.host;
    let tail: Seq<char> = match v.port {
        Some(p) => ":"@ + decimal(p as nat),
        None => Seq::empty(),
    };
    let text = spec_sip_uri_text(v);
    assert(text =~= "sip:"@ + (u + ("@"@ + (h + tail))));
    assert(text.subrange(0, 4) =~= "sip:"@);
    let rest = text.skip(4);
    assert(rest =~= u + ("@"@ + (h + tail)));
    lemma_find_char_is(rest, '@', u.len() as int);
    let after = rest.skip(u.len() as int + 1);
    assert(after =~= h + tail);
    assert(rest.take(u.len() as int) =~= u);
    match v.port {
        Some(p) => {
            let d = decimal(p as nat);
            lemma_decimal_digits(p as nat);
            assert forall|j: int| 0 <= j < after.len() implies after[j] != '@' by {
                if j >= h.len() + 1 {
                    assert(after[j] == d[j - h.len() - 1]);
                    assert(is_digit(d[j - h.len() - 1]));
                }
            }
            lemma_find_char_is(after, '@', after.len() as int);
            lemma_find_char_is(after, ':', h.len() as int);
            assert(after.take(h.len() as int) =~= h);
            let t = after.skip(h.len() as int + 1);
            assert(t =~= d);
            assert forall|j: int| 0 <= j < t.len() implies t[j] != ':' by {
                assert(is_digit(d[j]));
            }
            lemma_find_char_is(t, ':', t.len() as int);
            assert(t.take(t.len() as int) =~= d);
            assert(is_digit(d[0]));
            assert(unsigned_part(d) == d);
        },
        None => {
            assert(after =~= h);
            lemma_find_char_is(after, '@', after.len() as int);
            lemma_find_char_is(after, ':', after.len() as int);
            assert(after.take(h.len() as int) =~= h);
        },
    }
}

} // verus!
