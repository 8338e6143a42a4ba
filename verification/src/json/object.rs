//! Flat objects: a brace, members separated by commas, a brace. A member is a
//! quoted name, a colon and a value; a value is a quoted string or a number.

use vstd::prelude::*;
use crate::json::string::{
    QUOTE,
    escaped,
    json_string,
    scan_string,
    parse_string,
    write_string,
    lemma_scan_string_sound,
    lemma_scan_string_complete,
};
use crate::json::number::{
    is_digit,
    decimal,
    scan_number,
    parse_number,
    write_number,
    lemma_decimal_shape,
    lemma_scan_number_sound,
    lemma_scan_number_complete,
};

verus! {

pub const OPEN: u8 = 0x7b;

pub const CLOSE: u8 = 0x7d;

pub const COMMA: u8 = 0x2c;

pub const COLON: u8 = 0x3a;

pub enum JsonValue {
    Text(Vec<u8>),
    Number(u64),
}

pub struct Member {
    pub name: Vec<u8>,
    pub value: JsonValue,
}

pub enum ValueModel {
    Text(Seq<u8>),
    Number(u64),
}

pub struct MemberModel {
    pub name: Seq<u8>,
    pub value: ValueModel,
}

impl View for JsonValue {
    type V = ValueModel;

    open spec fn view(&self) -> ValueModel {
        match *self {
            JsonValue::Text(s) => ValueModel::Text(s@),
            JsonValue::Number(n) => ValueModel::Number(n),
        }
    }
}

impl View for Member {
    type V = MemberModel;

    open spec fn view(&self) -> MemberModel {
        MemberModel { name: self.name@, value: self.value@ }
    }
}

/// The members of a list, each by its view.
pub open spec fn members_view(ms: Seq<Member>) -> Seq<MemberModel> {
    ms.map_values(|m: Member| m@)
}

pub open spec fn value_json(v: ValueModel) -> Seq<u8> {
    match v {
        ValueModel::Text(s) => json_string(s),
        ValueModel::Number(n) => decimal(n as nat),
    }
}

pub open spec fn member_json(m: MemberModel) -> Seq<u8> {
    json_string(m.name) + seq![COLON] + value_json(m.value)
}

/// The members one after the other, with a comma between neighbours.
pub open spec fn members_json(ms: Seq<MemberModel>) -> Seq<u8>
    decreases ms.len(),
{
    if ms.len() == 0 {
        Seq::<u8>::empty()
    } else if ms.len() == 1 {
        member_json(ms[0])
    } else {
        member_json(ms[0]) + seq![COMMA] + members_json(ms.drop_first())
    }
}

/// The one spelling of an object with the given members in the given order.
pub open spec fn object_json(ms: Seq<MemberModel>) -> Seq<u8> {
    seq![OPEN] + members_json(ms) + seq![CLOSE]
}

/// Whether the bytes spell an object.
pub open spec fn is_object_text(b: Seq<u8>) -> bool {
    exists|ms: Seq<MemberModel>| object_json(ms) == b
}

/// The members that the bytes spell, where they spell an object.
pub open spec fn object_of_text(b: Seq<u8>) -> Seq<MemberModel> {
    choose|ms: Seq<MemberModel>| object_json(ms) == b
}

pub open spec fn scan_value(b: Seq<u8>, i: int) -> Option<(ValueModel, int)> {
    if 0 <= i < b.len() && b[i] == QUOTE {
        match scan_string(b, i + 1, Seq::<u8>::empty()) {
            Some((s, e)) => Some((ValueModel::Text(s), e)),
            None => None,
        }
    } else {
        match scan_number(b, i) {
            Some((n, e)) => Some((ValueModel::Number(n), e)),
            None => None,
        }
    }
}

pub open spec fn scan_member(b: Seq<u8>, i: int) -> Option<(MemberModel, int)> {
    if 0 <= i < b.len() && b[i] == QUOTE {
        match scan_string(b, i + 1, Seq::<u8>::empty()) {
            Some((name, j)) => {
                if 0 <= j < b.len() && b[j] == COLON {
                    match scan_value(b, j + 1) {
                        Some((v, k)) => Some((MemberModel { name: name, value: v }, k)),
                        None => None,
                    }
                } else {
                    None
                }
            },
            None => None,
        }
    } else {
        None
    }
}

pub open spec fn scan_members(b: Seq<u8>, i: int, acc: Seq<MemberModel>) -> Option<
    (Seq<MemberModel>, int),
>
    decreases b.len() - i,
{
    match scan_member(b, i) {
        None => None,
        Some((m, k)) => {
            if k <= i {
                None
            } else if k < b.len() && b[k] == COMMA {
                scan_members(b, k + 1, acc.push(m))
            } else {
                Some((acc.push(m), k))
            }
        },
    }
}

pub open spec fn scan_object(b: Seq<u8>) -> Option<Seq<MemberModel>> {
    if b.len() < 2 || b[0] != OPEN {
        None
    } else if b[1] == CLOSE {
        if b.len() == 2 {
            Some(Seq::<MemberModel>::empty())
        } else {
            None
        }
    } else {
        match scan_members(b, 1, Seq::<MemberModel>::empty()) {
            Some((ms, k)) => {
                if k + 1 == b.len() && b[k] == CLOSE {
                    Some(ms)
                } else {
                    None
                }
            },
            None => None,
        }
    }
}

proof fn lemma_quoted_at(b: Seq<u8>, i: int, s: Seq<u8>, e: int)
    requires
        0 <= i < b.len(),
        b[i] == QUOTE,
        scan_string(b, i + 1, Seq::<u8>::empty()) == Some((s, e)),
    ensures
        i + 2 <= e <= b.len(),
        b.subrange(i, e) == json_string(s),
{
    lemma_scan_string_sound(b, i + 1, Seq::<u8>::empty());
    assert(s.subrange(0, s.len() as int) =~= s);
    assert(b.subrange(i, e) =~= seq![QUOTE] + b.subrange(i + 1, e));
    assert(b.subrange(i, e) =~= json_string(s));
}

proof fn lemma_quoted_read(b: Seq<u8>, i: int, s: Seq<u8>)
    requires
        0 <= i,
        i + json_string(s).len() <= b.len(),
        b.subrange(i, i + json_string(s).len()) == json_string(s),
    ensures
        b[i] == QUOTE,
        scan_string(b, i + 1, Seq::<u8>::empty()) == Some((s, i + json_string(s).len())),
{
    let len: int = json_string(s).len() as int;
    let piece = b.subrange(i, i + len);
    assert(b[i] == piece[0]);
    assert(b.subrange(i + 1, i + 1 + escaped(s).len() + 1) =~= escaped(s) + seq![QUOTE]) by {
        assert forall|k: int| 0 <= k < escaped(s).len() + 1 implies b[i + 1 + k] == (escaped(s)
            + seq![QUOTE])[k] by {
            assert(b[i + 1 + k] == piece[1 + k]);
        }
    }
    lemma_scan_string_complete(b, i + 1, Seq::<u8>::empty(), s);
    assert(Seq::<u8>::empty() + s =~= s);
}

pub proof fn lemma_scan_value_sound(b: Seq<u8>, i: int)
    requires
        scan_value(b, i) is Some,
    ensures
        ({
            let (v, e) = scan_value(b, i).unwrap();
            &&& 0 <= i < e <= b.len()
            &&& b.subrange(i, e) == value_json(v)
        }),
{
    if 0 <= i < b.len() && b[i] == QUOTE {
        let (s, e) = scan_string(b, i + 1, Seq::<u8>::empty()).unwrap();
        lemma_quoted_at(b, i, s, e);
    } else {
        lemma_scan_number_sound(b, i);
    }
}

pub proof fn lemma_scan_value_complete(b: Seq<u8>, i: int, v: ValueModel)
    requires
        0 <= i,
        i + value_json(v).len() <= b.len(),
        b.subrange(i, i + value_json(v).len()) == value_json(v),
        i + value_json(v).len() == b.len() || !is_digit(b[i + value_json(v).len()]),
    ensures
        scan_value(b, i) == Some((v, i + value_json(v).len())),
{
    match v {
        ValueModel::Text(s) => {
            lemma_quoted_read(b, i, s);
        },
        ValueModel::Number(n) => {
            lemma_decimal_shape(n as nat);
            assert(b[i] == b.subrange(i, i + value_json(v).len())[0]);
            lemma_scan_number_complete(b, i, n);
        },
    }
}

pub proof fn lemma_scan_member_sound(b: Seq<u8>, i: int)
    requires
        scan_member(b, i) is Some,
    ensures
        ({
            let (m, e) = scan_member(b, i).unwrap();
            &&& 0 <= i < e <= b.len()
            &&& b.subrange(i, e) == member_json(m)
        }),
{
    let (name, j) = scan_string(b, i + 1, Seq::<u8>::empty()).unwrap();
    lemma_quoted_at(b, i, name, j);
    lemma_scan_value_sound(b, j + 1);
    let (v, e) = scan_value(b, j + 1).unwrap();
    assert(b.subrange(i, e) =~= b.subrange(i, j) + seq![COLON] + b.subrange(j + 1, e));
}

pub proof fn lemma_scan_member_complete(b: Seq<u8>, i: int, m: MemberModel)
    requires
        0 <= i,
        i + member_json(m).len() <= b.len(),
        b.subrange(i, i + member_json(m).len()) == member_json(m),
        i + member_json(m).len() == b.len() || !is_digit(b[i + member_json(m).len()]),
    ensures
        scan_member(b, i) == Some((m, i + member_json(m).len())),
{
    let len: int = member_json(m).len() as int;
    let piece = b.subrange(i, i + len);
    let nl: int = json_string(m.name).len() as int;
    let vl: int = value_json(m.value).len() as int;
    assert(len == nl + 1 + vl);
    assert(b.subrange(i, i + nl) =~= json_string(m.name)) by {
        assert forall|k: int| 0 <= k < nl implies b[i + k] == json_string(m.name)[k] by {
            assert(b[i + k] == piece[k]);
        }
    }
    lemma_quoted_read(b, i, m.name);
    assert(b[i + nl] == piece[nl]);
    assert(b.subrange(i + nl + 1, i + nl + 1 + vl) =~= value_json(m.value)) by {
        assert forall|k: int| 0 <= k < vl implies b[i + nl + 1 + k] == value_json(m.value)[k] by {
            assert(b[i + nl + 1 + k] == piece[nl + 1 + k]);
        }
    }
    lemma_scan_value_complete(b, i + nl + 1, m.value);
}

pub proof fn lemma_members_json_push(ms: Seq<MemberModel>, m: MemberModel)
    ensures
        members_json(ms.push(m)) == if ms.len() == 0 {
            member_json(m)
        } else {
            members_json(ms) + seq![COMMA] + member_json(m)
        },
    decreases ms.len(),
{
    if ms.len() == 0 {
        assert(ms.push(m)[0] == m);
    } else if ms.len() == 1 {
        assert(ms.push(m).drop_first() =~= seq![m]);
        assert(seq![m][0] == m);
        assert(members_json(seq![m]) == member_json(m));
    } else {
        assert(ms.push(m).drop_first() =~= ms.drop_first().push(m));
        lemma_members_json_push(ms.drop_first(), m);
        assert(members_json(ms.push(m)) =~= members_json(ms) + seq![COMMA] + member_json(m));
    }
}

pub proof fn lemma_scan_members_sound(b: Seq<u8>, i: int, acc: Seq<MemberModel>)
    requires
        scan_members(b, i, acc) is Some,
    ensures
        ({
            let (r, e) = scan_members(b, i, acc).unwrap();
            &&& 0 <= i < e <= b.len()
            &&& acc.len() < r.len()
            &&& r.subrange(0, acc.len() as int) == acc
            &&& b.subrange(i, e) == members_json(r.subrange(acc.len() as int, r.len() as int))
        }),
    decreases b.len() - i,
{
    let (r, e) = scan_members(b, i, acc).unwrap();
    let (m, k) = scan_member(b, i).unwrap();
    let n: int = acc.len() as int;
    lemma_scan_member_sound(b, i);
    if k < b.len() && b[k] == COMMA {
        lemma_scan_members_sound(b, k + 1, acc.push(m));
        let t = r.subrange(n, r.len() as int);
        let tail = r.subrange(n + 1, r.len() as int);
        assert(r.subrange(0, n + 1) == acc.push(m));
        assert(r[n] == acc.push(m)[n]);
        assert(r.subrange(0, n) =~= acc);
        assert(t[0] == m);
        assert(t.drop_first() =~= tail);
        assert(b.subrange(i, e) =~= b.subrange(i, k) + seq![COMMA] + b.subrange(k + 1, e));
    } else {
        assert(r.subrange(0, n) =~= acc);
        assert(r.subrange(n, r.len() as int) =~= seq![m]);
        assert(seq![m][0] == m);
    }
}

pub proof fn lemma_scan_members_complete(
    b: Seq<u8>,
    i: int,
    acc: Seq<MemberModel>,
    ms: Seq<MemberModel>,
)
    requires
        0 <= i,
        ms.len() >= 1,
        i + members_json(ms).len() < b.len(),
        b.subrange(i, i + members_json(ms).len()) == members_json(ms),
        b[i + members_json(ms).len()] == CLOSE,
    ensures
        scan_members(b, i, acc) == Some((acc + ms, i + members_json(ms).len())),
    decreases ms.len(),
{
    let len: int = members_json(ms).len() as int;
    let piece = b.subrange(i, i + len);
    let m = ms[0];
    let ml: int = member_json(m).len() as int;
    if ms.len() == 1 {
        lemma_scan_member_complete(b, i, m);
        assert(acc + ms =~= acc.push(m));
    } else {
        let rest = ms.drop_first();
        let rl: int = members_json(rest).len() as int;
        assert(len == ml + 1 + rl);
        assert(b.subrange(i, i + ml) =~= member_json(m)) by {
            assert forall|k: int| 0 <= k < ml implies b[i + k] == member_json(m)[k] by {
                assert(b[i + k] == piece[k]);
            }
        }
        assert(b[i + ml] == piece[ml]);
        lemma_scan_member_complete(b, i, m);
        assert(b.subrange(i + ml + 1, i + ml + 1 + rl) =~= members_json(rest)) by {
            assert forall|k: int| 0 <= k < rl implies b[i + ml + 1 + k] == members_json(rest)[k] by {
                assert(b[i + ml + 1 + k] == piece[ml + 1 + k]);
            }
        }
        lemma_scan_members_complete(b, i + ml + 1, acc.push(m), rest);
        assert(acc.push(m) + rest =~= acc + ms);
    }
}

/// Only the spelling of its members reads as an object.
pub proof fn lemma_scan_object_sound(b: Seq<u8>)
    requires
        scan_object(b) is Some,
    ensures
        b == object_json(scan_object(b).unwrap()),
{
    let ms = scan_object(b).unwrap();
    if b[1] == CLOSE {
        assert(b =~= object_json(ms));
    } else {
        lemma_scan_members_sound(b, 1, Seq::<MemberModel>::empty());
        let (r, k) = scan_members(b, 1, Seq::<MemberModel>::empty()).unwrap();
        assert(r.subrange(0, r.len() as int) =~= r);
        assert(b =~= seq![OPEN] + b.subrange(1, k) + seq![CLOSE]);
    }
}

/// The spelling of any members reads back as those members.
pub proof fn lemma_scan_object_complete(ms: Seq<MemberModel>)
    ensures
        scan_object(object_json(ms)) == Some(ms),
{
    let b = object_json(ms);
    if ms.len() == 0 {
        assert(ms =~= Seq::<MemberModel>::empty());
    } else {
        let len: int = members_json(ms).len() as int;
        assert(b.subrange(1, 1 + len) =~= members_json(ms));
        assert(members_json(ms)[0] == QUOTE) by {
            assert(member_json(ms[0])[0] == QUOTE);
        }
        assert(b[1] == members_json(ms)[0]);
        lemma_scan_members_complete(b, 1, Seq::<MemberModel>::empty(), ms);
        assert(Seq::<MemberModel>::empty() + ms =~= ms);
    }
}

/// Two lists of members with one spelling are one list.
pub proof fn lemma_object_json_injective(a: Seq<MemberModel>, b: Seq<MemberModel>)
    requires
        object_json(a) == object_json(b),
    ensures
        a == b,
{
    lemma_scan_object_complete(a);
    lemma_scan_object_complete(b);
}

fn parse_value(input: &[u8], i: usize) -> (r: Option<(JsonValue, usize)>)
    requires
        i <= input@.len(),
    ensures
        match r {
            Some((v, e)) => scan_value(input@, i as int) == Some((v@, e as int)),
            None => scan_value(input@, i as int) is None,
        },
{
    if i < input.len() && input[i] == QUOTE {
        match parse_string(input, i + 1) {
            Some((s, e)) => Some((JsonValue::Text(s), e)),
            None => None,
        }
    } else {
        match parse_number(input, i) {
            Some((n, e)) => Some((JsonValue::Number(n), e)),
            None => None,
        }
    }
}

fn parse_member(input: &[u8], i: usize) -> (r: Option<(Member, usize)>)
    requires
        i <= input@.len(),
    ensures
        match r {
            Some((m, e)) => scan_member(input@, i as int) == Some((m@, e as int)),
            None => scan_member(input@, i as int) is None,
        },
{
    if i < input.len() && input[i] == QUOTE {
        match parse_string(input, i + 1) {
            Some((name, j)) => {
                proof {
                    lemma_scan_string_sound(input@, i as int + 1, Seq::<u8>::empty());
                }
                if j < input.len() && input[j] == COLON {
                    match parse_value(input, j + 1) {
                        Some((v, k)) => Some((Member { name: name, value: v }, k)),
                        None => None,
                    }
                } else {
                    None
                }
            },
            None => None,
        }
    } else {
        None
    }
}

/// Reads an object. It answers exactly when the input is the spelling of some
/// members, and then with those members.
pub fn parse_object(input: &[u8]) -> (r: Option<Vec<Member>>)
    ensures
        r is Some <==> is_object_text(input@),
        match r {
            Some(ms) => object_json(members_view(ms@)) == input@ && object_of_text(input@)
                == members_view(ms@),
            None => true,
        },
{
    let n: usize = input.len();
    proof {
        if is_object_text(input@) {
            let w = choose|ms: Seq<MemberModel>| object_json(ms) == input@;
            lemma_scan_object_complete(w);
        }
        if scan_object(input@) is Some {
            lemma_scan_object_sound(input@);
        }
    }
    assert(is_object_text(input@) <==> scan_object(input@) is Some);
    proof {
        if is_object_text(input@) {
            lemma_scan_object_complete(object_of_text(input@));
        }
    }
    assert(scan_object(input@) is Some ==> object_of_text(input@) == scan_object(input@).unwrap());
    if n < 2 || input[0] != OPEN {
        return None;
    }
    let mut out: Vec<Member> = Vec::new();
    if input[1] == CLOSE {
        if n == 2 {
            assert(members_view(out@) =~= Seq::<MemberModel>::empty());
            return Some(out);
        } else {
            return None;
        }
    }
    let mut i: usize = 1;
    assert(members_view(out@) =~= Seq::<MemberModel>::empty());
    while i < n
        invariant
            1 <= i <= n,
            n == input@.len(),
            scan_members(input@, 1, Seq::<MemberModel>::empty()) == scan_members(
                input@,
                i as int,
                members_view(out@),
            ),
            input@[0] == OPEN,
            input@[1] != CLOSE,
            n >= 2,
            is_object_text(input@) <==> scan_object(input@) is Some,
            scan_object(input@) is Some ==> input@ == object_json(scan_object(input@).unwrap()),
            scan_object(input@) is Some ==> object_of_text(input@) == scan_object(input@).unwrap(),
        decreases n - i,
    {
        match parse_member(input, i) {
            None => {
                return None;
            },
            Some((m, k)) => {
                proof {
                    lemma_scan_member_sound(input@, i as int);
                    assert(members_view(out@.push(m)) =~= members_view(out@).push(m@));
                }
                out.push(m);
                if k < n && input[k] == COMMA {
                    i = k + 1;
                } else if k < n && n - k == 1 && input[k] == CLOSE {
                    return Some(out);
                } else {
                    return None;
                }
            },
        }
    }
    None
}

fn write_value(out: &mut Vec<u8>, v: &JsonValue)
    ensures
        final(out)@ == old(out)@ + value_json(v@),
{
    match v {
        JsonValue::Text(s) => write_string(out, s.as_slice()),
        JsonValue::Number(n) => write_number(out, *n),
    }
}

fn write_member(out: &mut Vec<u8>, m: &Member)
    ensures
        final(out)@ == old(out)@ + member_json(m@),
{
    write_string(out, m.name.as_slice());
    out.push(COLON);
    write_value(out, &m.value);
    assert(out@ =~= old(out)@ + member_json(m@));
}

/// Spells an object with the given members in the given order.
pub fn write_object(ms: &Vec<Member>) -> (out: Vec<u8>)
    ensures
        out@ == object_json(members_view(ms@)),
{
    let mut out: Vec<u8> = Vec::new();
    out.push(OPEN);
    let mut i: usize = 0;
    let n: usize = ms.len();
    while i < n
        invariant
            i <= n,
            n == ms@.len(),
            out@ == seq![OPEN] + members_json(members_view(ms@).subrange(0, i as int)),
        decreases n - i,
    {
        proof {
            let done = members_view(ms@).subrange(0, i as int);
            lemma_members_json_push(done, ms@[i as int]@);
            assert(members_view(ms@).subrange(0, i as int + 1) =~= done.push(ms@[i as int]@));
        }
        if i > 0 {
            out.push(COMMA);
        }
        write_member(&mut out, &ms[i]);
        assert(out@ =~= seq![OPEN] + members_json(
            members_view(ms@).subrange(0, i as int + 1),
        ));
        i = i + 1;
    }
    out.push(CLOSE);
    assert(members_view(ms@).subrange(0, n as int) =~= members_view(ms@));
    out
}

} // verus!
