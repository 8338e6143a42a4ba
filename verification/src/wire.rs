//! The two objects of a token: the header, which names the algorithm and the
//! key, and the payload, which holds the claims. Each is written in one
//! spelling: the members below, in this order, with the optional ones left
//! out when absent.
//!
//! header:  `{"alg":"ES256","kid":K}`
//! payload: `{"exp":E,"nbf":N,"iat":I,"iss":S,"value":V}`
//!
//! A payload is read in that spelling only. A header is read from any object
//! that names the algorithm: further members are passed over, and the order
//! of members is free.
//!
//! Strings and numbers are spelled as `serde_json` spells them, so that these
//! are the bytes that other implementations of signed tokens write for the
//! same header and claims.

use vstd::prelude::*;
use vstd::slice::slice_to_vec;
use vstd::utf8::{
    decode_utf8,
    encode_utf8,
    encode_utf8_decode_utf8,
    encode_utf8_valid_utf8,
    valid_utf8,
};
use crate::json::object::{
    JsonValue,
    Member,
    MemberModel,
    ValueModel,
    lemma_object_json_injective,
    members_view,
    object_json,
    object_of_text,
    is_object_text,
    parse_object,
    write_object,
};
use crate::text::{same_bytes, string_from_utf8};

verus! {

pub open spec fn name_alg() -> Seq<u8> {
    seq![0x61u8, 0x6cu8, 0x67u8]
}

pub open spec fn name_kid() -> Seq<u8> {
    seq![0x6bu8, 0x69u8, 0x64u8]
}

pub open spec fn name_exp() -> Seq<u8> {
    seq![0x65u8, 0x78u8, 0x70u8]
}

pub open spec fn name_nbf() -> Seq<u8> {
    seq![0x6eu8, 0x62u8, 0x66u8]
}

pub open spec fn name_iat() -> Seq<u8> {
    seq![0x69u8, 0x61u8, 0x74u8]
}

pub open spec fn name_iss() -> Seq<u8> {
    seq![0x69u8, 0x73u8, 0x73u8]
}

pub open spec fn name_value() -> Seq<u8> {
    seq![0x76u8, 0x61u8, 0x6cu8, 0x75u8, 0x65u8]
}

/// The bytes of `ES256`.
pub open spec fn alg_es256() -> Seq<u8> {
    seq![0x45u8, 0x53u8, 0x32u8, 0x35u8, 0x36u8]
}

pub open spec fn text_member(name: Seq<u8>, text: Seq<char>) -> MemberModel {
    MemberModel { name: name, value: ValueModel::Text(encode_utf8(text)) }
}

pub open spec fn number_member(name: Seq<u8>, n: u64) -> MemberModel {
    MemberModel { name: name, value: ValueModel::Number(n) }
}

pub open spec fn alg_member() -> MemberModel {
    MemberModel { name: name_alg(), value: ValueModel::Text(alg_es256()) }
}

/// The header of a token, as far as it varies.
pub struct Header {
    pub key_id: Option<String>,
}

pub struct HeaderModel {
    pub key_id: Option<Seq<char>>,
}

impl View for Header {
    type V = HeaderModel;

    open spec fn view(&self) -> HeaderModel {
        HeaderModel {
            key_id: match self.key_id {
                Some(k) => Some(k@),
                None => None,
            },
        }
    }
}

/// The payload of a token.
pub struct Payload {
    pub expires_at: Option<u64>,
    pub not_before: Option<u64>,
    pub issued_at: u64,
    pub issuer: Option<String>,
    pub value: String,
}

pub struct PayloadModel {
    pub expires_at: Option<u64>,
    pub not_before: Option<u64>,
    pub issued_at: u64,
    pub issuer: Option<Seq<char>>,
    pub value: Seq<char>,
}

impl View for Payload {
    type V = PayloadModel;

    open spec fn view(&self) -> PayloadModel {
        PayloadModel {
            expires_at: self.expires_at,
            not_before: self.not_before,
            issued_at: self.issued_at,
            issuer: match self.issuer {
                Some(s) => Some(s@),
                None => None,
            },
            value: self.value@,
        }
    }
}

pub open spec fn header_members(h: HeaderModel) -> Seq<MemberModel> {
    match h.key_id {
        Some(k) => seq![alg_member(), text_member(name_kid(), k)],
        None => seq![alg_member()],
    }
}

pub open spec fn payload_members(p: PayloadModel) -> Seq<MemberModel> {
    let iat = number_member(name_iat(), p.issued_at);
    let value = text_member(name_value(), p.value);
    match (p.expires_at, p.not_before, p.issuer) {
        (Some(e), Some(n), Some(s)) => seq![number_member(name_exp(), e), number_member(name_nbf(), n), iat, text_member(name_iss(), s), value],
        (Some(e), Some(n), None) => seq![number_member(name_exp(), e), number_member(name_nbf(), n), iat, value],
        (Some(e), None, Some(s)) => seq![number_member(name_exp(), e), iat, text_member(name_iss(), s), value],
        (Some(e), None, None) => seq![number_member(name_exp(), e), iat, value],
        (None, Some(n), Some(s)) => seq![number_member(name_nbf(), n), iat, text_member(name_iss(), s), value],
        (None, Some(n), None) => seq![number_member(name_nbf(), n), iat, value],
        (None, None, Some(s)) => seq![iat, text_member(name_iss(), s), value],
        (None, None, None) => seq![iat, value],
    }
}

/// The one spelling of a header.
pub open spec fn header_text(h: HeaderModel) -> Seq<u8> {
    object_json(header_members(h))
}

/// The one spelling of a payload.
pub open spec fn payload_text(p: PayloadModel) -> Seq<u8> {
    object_json(payload_members(p))
}

/// The value of the first member with the name.
pub open spec fn member_named(ms: Seq<MemberModel>, name: Seq<u8>) -> Option<ValueModel>
    decreases ms.len(),
{
    if ms.len() == 0 {
        None
    } else if ms[0].name == name {
        Some(ms[0].value)
    } else {
        member_named(ms.drop_first(), name)
    }
}

/// The header that the members make: they must name `ES256` as the
/// algorithm, and where they name a key, its identifier must be text.
pub open spec fn header_of_members(ms: Seq<MemberModel>) -> Option<HeaderModel> {
    if member_named(ms, name_alg()) == Some(ValueModel::Text(alg_es256())) {
        match member_named(ms, name_kid()) {
            None => Some(HeaderModel { key_id: None }),
            Some(ValueModel::Text(k)) => {
                if valid_utf8(k) {
                    Some(HeaderModel { key_id: Some(decode_utf8(k)) })
                } else {
                    None
                }
            },
            Some(ValueModel::Number(_)) => None,
        }
    } else {
        None
    }
}

/// The header that the bytes hold, where they spell an object that makes one.
pub open spec fn header_read(b: Seq<u8>) -> Option<HeaderModel> {
    if is_object_text(b) {
        header_of_members(object_of_text(b))
    } else {
        None
    }
}

pub open spec fn is_payload_text(b: Seq<u8>) -> bool {
    exists|p: PayloadModel| payload_text(p) == b
}

/// The payload that the bytes spell, where they spell one.
pub open spec fn payload_of_text(b: Seq<u8>) -> PayloadModel {
    choose|p: PayloadModel| payload_text(p) == b
}

/// Text with the same bytes is the same text.
pub proof fn lemma_text_by_bytes(a: Seq<char>, b: Seq<char>)
    requires
        encode_utf8(a) == encode_utf8(b),
    ensures
        a == b,
{
    encode_utf8_decode_utf8(a);
    encode_utf8_decode_utf8(b);
}

/// Where the first member with a name stands, its value is the one found.
proof fn lemma_member_named_at(ms: Seq<MemberModel>, name: Seq<u8>, at: int)
    requires
        0 <= at <= ms.len(),
        forall|l: int| 0 <= l < at ==> (#[trigger] ms[l]).name != name,
        at < ms.len() ==> ms[at].name == name,
    ensures
        member_named(ms, name) == if at < ms.len() {
            Some(ms[at].value)
        } else {
            None
        },
    decreases ms.len(),
{
    if ms.len() > 0 && at > 0 {
        let t = ms.drop_first();
        assert forall|l: int| 0 <= l < at - 1 implies (#[trigger] t[l]).name != name by {
            assert(t[l] == ms[l + 1]);
        }
        lemma_member_named_at(t, name, at - 1);
    }
}

/// A header is read back from its spelling.
pub proof fn lemma_header_reads_back(h: HeaderModel)
    ensures
        header_read(header_text(h)) == Some(h),
{
    let ms = header_members(h);
    lemma_object_json_injective(ms, object_of_text(header_text(h)));
    lemma_member_named_at(ms, name_alg(), 0);
    match h.key_id {
        Some(k) => {
            assert(ms[0].name != name_kid()) by {
                assert(name_alg()[0] != name_kid()[0]);
            }
            lemma_member_named_at(ms, name_kid(), 1);
            encode_utf8_valid_utf8(k);
            encode_utf8_decode_utf8(k);
        },
        None => {
            assert(ms[0].name != name_kid()) by {
                assert(name_alg()[0] != name_kid()[0]);
            }
            lemma_member_named_at(ms, name_kid(), 1);
        },
    }
}

/// Two payloads with one spelling are one payload.
pub proof fn lemma_payload_text_injective(a: PayloadModel, b: PayloadModel)
    requires
        payload_text(a) == payload_text(b),
    ensures
        a == b,
{
    lemma_object_json_injective(payload_members(a), payload_members(b));
    let ma = payload_members(a);
    let mb = payload_members(b);
    assert(ma.len() == mb.len());
    if vstd::utf8::encode_utf8(a.value) == vstd::utf8::encode_utf8(b.value) {
        lemma_text_by_bytes(a.value, b.value);
    }
    if a.issuer is Some && b.issuer is Some && vstd::utf8::encode_utf8(a.issuer.unwrap())
        == vstd::utf8::encode_utf8(b.issuer.unwrap()) {
        lemma_text_by_bytes(a.issuer.unwrap(), b.issuer.unwrap());
    }
    assert(ma[0] == mb[0]);
    assert(ma[1] == mb[1]);
    if ma.len() > 2 {
        assert(ma[2] == mb[2]);
    }
    if ma.len() > 3 {
        assert(ma[3] == mb[3]);
    }
    if ma.len() > 4 {
        assert(ma[4] == mb[4]);
    }
}

fn bytes3(a: u8, b: u8, c: u8) -> (v: Vec<u8>)
    ensures
        v@ == seq![a, b, c],
{
    let mut v: Vec<u8> = Vec::new();
    v.push(a);
    v.push(b);
    v.push(c);
    assert(v@ =~= seq![a, b, c]);
    v
}

fn bytes5(a: u8, b: u8, c: u8, d: u8, e: u8) -> (v: Vec<u8>)
    ensures
        v@ == seq![a, b, c, d, e],
{
    let mut v: Vec<u8> = Vec::new();
    v.push(a);
    v.push(b);
    v.push(c);
    v.push(d);
    v.push(e);
    assert(v@ =~= seq![a, b, c, d, e]);
    v
}

fn text_entry(name: Vec<u8>, text: &str) -> (m: Member)
    ensures
        m@ == text_member(name@, text@),
{
    Member { name: name, value: JsonValue::Text(slice_to_vec(text.as_bytes())) }
}

fn number_entry(name: Vec<u8>, n: u64) -> (m: Member)
    ensures
        m@ == number_member(name@, n),
{
    Member { name: name, value: JsonValue::Number(n) }
}

/// Spells a header.
pub fn write_header(h: &Header) -> (out: Vec<u8>)
    ensures
        out@ == header_text(h@),
{
    let mut ms: Vec<Member> = Vec::new();
    ms.push(
        Member {
            name: bytes3(0x61, 0x6c, 0x67),
            value: JsonValue::Text(bytes5(0x45, 0x53, 0x32, 0x35, 0x36)),
        },
    );
    match &h.key_id {
        Some(k) => {
            ms.push(text_entry(bytes3(0x6b, 0x69, 0x64), k.as_str()));
        },
        None => {},
    }
    assert(members_view(ms@) =~= header_members(h@));
    write_object(&ms)
}

/// Spells a payload.
pub fn write_payload(p: &Payload) -> (out: Vec<u8>)
    ensures
        out@ == payload_text(p@),
{
    let mut ms: Vec<Member> = Vec::new();
    match p.expires_at {
        Some(e) => {
            ms.push(number_entry(bytes3(0x65, 0x78, 0x70), e));
        },
        None => {},
    }
    match p.not_before {
        Some(n) => {
            ms.push(number_entry(bytes3(0x6e, 0x62, 0x66), n));
        },
        None => {},
    }
    ms.push(number_entry(bytes3(0x69, 0x61, 0x74), p.issued_at));
    match &p.issuer {
        Some(s) => {
            ms.push(text_entry(bytes3(0x69, 0x73, 0x73), s.as_str()));
        },
        None => {},
    }
    ms.push(text_entry(bytes5(0x76, 0x61, 0x6c, 0x75, 0x65), p.value.as_str()));
    assert(members_view(ms@) =~= payload_members(p@));
    write_object(&ms)
}

/// The text of a member, if the member has the given name and holds text.
fn text_of(m: &Member, name: &Vec<u8>) -> (r: Option<String>)
    ensures
        match r {
            Some(s) => m@ == text_member(name@, s@),
            None => forall|t: Seq<char>| m@ != text_member(name@, t),
        },
{
    if !same_bytes(m.name.as_slice(), name.as_slice()) {
        return None;
    }
    match &m.value {
        JsonValue::Text(bytes) => {
            let r: Option<String> = string_from_utf8(slice_to_vec(bytes.as_slice()));
            proof {
                if r is None {
                    assert forall|t: Seq<char>| m@ != text_member(name@, t) by {
                        encode_utf8_valid_utf8(t);
                    }
                }
            }
            r
        },
        JsonValue::Number(_) => None,
    }
}

/// The number of a member, if the member has the given name and holds one.
fn number_of(m: &Member, name: &Vec<u8>) -> (r: Option<u64>)
    ensures
        match r {
            Some(n) => m@ == number_member(name@, n),
            None => forall|n: u64| m@ != number_member(name@, n),
        },
{
    if !same_bytes(m.name.as_slice(), name.as_slice()) {
        return None;
    }
    match &m.value {
        JsonValue::Text(_) => None,
        JsonValue::Number(n) => Some(*n),
    }
}

/// Where the first member with the name stands, if there is one.
fn find_member(ms: &Vec<Member>, name: &Vec<u8>) -> (r: Option<usize>)
    ensures
        match r {
            Some(at) => at < ms@.len() && ms@[at as int]@.name == name@ && member_named(
                members_view(ms@),
                name@,
            ) == Some(ms@[at as int]@.value),
            None => member_named(members_view(ms@), name@) is None,
        },
{
    let n: usize = ms.len();
    let mut i: usize = 0;
    while i < n
        invariant
            i <= n,
            n == ms@.len(),
            forall|l: int| 0 <= l < i ==> (#[trigger] members_view(ms@)[l]).name != name@,
        decreases n - i,
    {
        if same_bytes(ms[i].name.as_slice(), name.as_slice()) {
            proof {
                lemma_member_named_at(members_view(ms@), name@, i as int);
            }
            return Some(i);
        }
        i = i + 1;
    }
    proof {
        lemma_member_named_at(members_view(ms@), name@, n as int);
    }
    None
}

/// Reads a header from an object that names `ES256` as its algorithm. The key
/// identifier is the text of the member `kid`, where there is one; other
/// members are passed over.
pub fn read_header(b: &[u8]) -> (r: Option<Header>)
    ensures
        match r {
            Some(h) => header_read(b@) == Some(h@),
            None => header_read(b@) is None,
        },
{
    let ms: Vec<Member> = match parse_object(b) {
        Some(ms) => ms,
        None => {
            return None;
        },
    };
    let alg_name: Vec<u8> = bytes3(0x61, 0x6c, 0x67);
    let alg: Vec<u8> = bytes5(0x45, 0x53, 0x32, 0x35, 0x36);
    let at: usize = match find_member(&ms, &alg_name) {
        Some(at) => at,
        None => {
            return None;
        },
    };
    match &ms[at].value {
        JsonValue::Text(t) => {
            if !same_bytes(t.as_slice(), alg.as_slice()) {
                return None;
            }
        },
        JsonValue::Number(_) => {
            return None;
        },
    }
    let kid_name: Vec<u8> = bytes3(0x6b, 0x69, 0x64);
    let at: usize = match find_member(&ms, &kid_name) {
        Some(at) => at,
        None => {
            return Some(Header { key_id: None });
        },
    };
    match &ms[at].value {
        JsonValue::Text(k) => match string_from_utf8(slice_to_vec(k.as_slice())) {
            Some(key_id) => {
                proof {
                    encode_utf8_decode_utf8(key_id@);
                }
                Some(Header { key_id: Some(key_id) })
            },
            None => None,
        },
        JsonValue::Number(_) => None,
    }
}

/// Reads a payload. It answers exactly when the bytes are the spelling of a
/// payload, and then with that payload.
pub fn read_payload(b: &[u8]) -> (r: Option<Payload>)
    ensures
        r is Some <==> is_payload_text(b@),
        r matches Some(p) ==> payload_text(p@) == b@,
{
    let ms: Vec<Member> = match parse_object(b) {
        Some(ms) => ms,
        None => {
            return None;
        },
    };
    proof {
        if is_payload_text(b@) {
            lemma_object_json_injective(members_view(ms@), payload_members(payload_of_text(b@)));
        }
    }
    let n: usize = ms.len();
    if n < 2 || n > 5 {
        return None;
    }
    let exp_name: Vec<u8> = bytes3(0x65, 0x78, 0x70);
    let nbf_name: Vec<u8> = bytes3(0x6e, 0x62, 0x66);
    let iat_name: Vec<u8> = bytes3(0x69, 0x61, 0x74);
    let iss_name: Vec<u8> = bytes3(0x69, 0x73, 0x73);
    let value_name: Vec<u8> = bytes5(0x76, 0x61, 0x6c, 0x75, 0x65);
    let mut at: usize = 0;
    let expires_at: Option<u64> = number_of(&ms[0], &exp_name);
    if expires_at.is_some() {
        at = 1;
    }
    let not_before: Option<u64> = number_of(&ms[at], &nbf_name);
    if not_before.is_some() {
        at = at + 1;
    }
    if at >= n {
        return None;
    }
    let issued_at: u64 = match number_of(&ms[at], &iat_name) {
        Some(t) => t,
        None => {
            return None;
        },
    };
    at = at + 1;
    if at >= n {
        return None;
    }
    let issuer: Option<String> = if n - at == 2 {
        match text_of(&ms[at], &iss_name) {
            Some(s) => {
                at = at + 1;
                Some(s)
            },
            None => {
                return None;
            },
        }
    } else {
        None
    };
    if n - at != 1 {
        return None;
    }
    let value: String = match text_of(&ms[at], &value_name) {
        Some(v) => v,
        None => {
            return None;
        },
    };
    let p = Payload {
        expires_at: expires_at,
        not_before: not_before,
        issued_at: issued_at,
        issuer: issuer,
        value: value,
    };
    assert(members_view(ms@) =~= payload_members(p@));
    assert(payload_text(p@) == b@);
    Some(p)
}

} // verus!
