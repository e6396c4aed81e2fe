//! The wire formats of acknowledgements: the acknowledgement itself, and
//! the answers of actions that travel as its payload.

use vstd::prelude::*;
use vstd::string::*;
use crate::binary::{base64_text, from_base64, to_base64};
use crate::error::ContractError;
use crate::ibc_msg::{
    CreateLockupAck, Ics20Ack, Ics20AckView, LockResultAck, SwapAmountInAck, UnLockResultAck,
};
use crate::json::{
    decimal, expect, expect_at, lemma_digits_value_decimal, lemma_expect, lemma_expect_other,
    lemma_read_number, lemma_read_quoted, parse_digits, quoted, read_number, read_number_at,
    read_quoted, read_quoted_at, rest_of, value_of, write_number, write_quoted, write_text,
};
use crate::text::{chars_of, lemma_utf8_injective, str_eq, utf8_text};
use crate::timestamp::Timestamp;

verus! {

/// An acknowledgement as JSON text: an object with one key, `result` over
/// the payload in base64 or `error` over the message.
pub open spec fn ack_json(a: Ics20AckView) -> Seq<char> {
    match a {
        Ics20AckView::Result(payload) => "{\"result\":"@ + quoted(base64_text(payload)) + "}"@,
        Ics20AckView::Error(message) => "{\"error\":"@ + quoted(message) + "}"@,
    }
}

/// An acknowledgement on the wire: the UTF-8 bytes of its JSON text.
pub open spec fn ack_bytes(a: Ics20AckView) -> Seq<u8> {
    vstd::utf8::encode_utf8(ack_json(a))
}

/// The acknowledgement that the bytes are the wire form of, if they are
/// that of any.
pub open spec fn ack_of(data: Seq<u8>) -> Option<Ics20AckView> {
    if exists|q: Ics20AckView| ack_bytes(q) == data {
        Some(choose|q: Ics20AckView| ack_bytes(q) == data)
    } else {
        None
    }
}

/// The text under the one key of an acknowledgement, and whether the key
/// is `result`.
spec fn parse_ack(text: Seq<char>) -> Option<(bool, Seq<char>)> {
    let result = expect(text, "{\"result\":"@);
    let error = expect(text, "{\"error\":"@);
    let body = read_quoted(
        if result is Some {
            result->0
        } else {
            error->0
        },
    );
    let close = expect(rest_of(body), "}"@);
    if (result is Some || error is Some) && body is Some && close is Some && close->0.len()
        == 0 {
        Some((result is Some, value_of(body)))
    } else {
        None
    }
}

proof fn lemma_parse_ack(a: Ics20AckView)
    ensures
        parse_ack(ack_json(a)) == Some(
            match a {
                Ics20AckView::Result(payload) => (true, base64_text(payload)),
                Ics20AckView::Error(message) => (false, message),
            },
        ),
{
    let text = ack_json(a);
    reveal_strlit("{\"result\":");
    reveal_strlit("{\"error\":");
    lemma_expect("}"@, Seq::empty());
    assert("}"@ =~= "}"@ + Seq::<char>::empty());
    match a {
        Ics20AckView::Result(payload) => {
            let s0 = quoted(base64_text(payload)) + "}"@;
            assert(text =~= "{\"result\":"@ + s0);
            lemma_expect("{\"result\":"@, s0);
            lemma_read_quoted(base64_text(payload), "}"@);
        },
        Ics20AckView::Error(message) => {
            let s0 = quoted(message) + "}"@;
            assert(text =~= "{\"error\":"@ + s0);
            lemma_expect("{\"error\":"@, s0);
            lemma_expect_other(text, "{\"result\":"@, 2);
            lemma_read_quoted(message, "}"@);
        },
    }
}

fn parse_ack_at(v: &Vec<char>) -> (r: Option<(bool, String)>)
    ensures
        match r {
            Some((is_result, body)) => parse_ack(v@) == Some((is_result, body@)),
            None => parse_ack(v@) is None,
        },
{
    proof {
        assert(v@.skip(0) =~= v@);
    }
    let (is_result, p1) = match expect_at(v, 0, "{\"result\":") {
        Some(p) => (true, p),
        None => match expect_at(v, 0, "{\"error\":") {
            Some(p) => (false, p),
            None => {
                return None;
            },
        },
    };
    let (body, p2) = read_quoted_at(v, p1)?;
    match expect_at(v, p2, "}") {
        Some(p) => {
            if p == v.len() {
                Some((is_result, body))
            } else {
                None
            }
        },
        None => None,
    }
}

impl Ics20Ack {
    /// The acknowledgement as JSON text.
    pub fn to_json(&self) -> (r: String)
        ensures
            r@ == ack_json(self@),
    {
        let mut out = String::new();
        match self {
            Ics20Ack::Result(payload) => {
                write_text(&mut out, "{\"result\":");
                write_quoted(&mut out, to_base64(payload).as_str());
            },
            Ics20Ack::Error(message) => {
                write_text(&mut out, "{\"error\":");
                write_quoted(&mut out, message.as_str());
            },
        }
        write_text(&mut out, "}");
        assert(out@ =~= ack_json(self@));
        out
    }

    /// Reads an acknowledgement from its JSON text: the one
    /// acknowledgement for which `to_json` writes this text. A text that it
    /// writes for none is a decode error.
    pub fn from_json(text: &str) -> (r: Result<Ics20Ack, ContractError>)
        ensures
            match r {
                Ok(a) => ack_json(a@) == text@ && forall|q: Ics20AckView|
                    ack_json(q) == text@ ==> q == a@,
                Err(e) => e == ContractError::Decode && forall|q: Ics20AckView|
                    ack_json(q) != text@,
            },
    {
        let v = chars_of(text);
        let ack = match parse_ack_at(&v) {
            Some((true, body)) => match from_base64(body.as_str()) {
                Ok(payload) => Some(Ics20Ack::Result(payload)),
                Err(_) => None,
            },
            Some((false, body)) => Some(Ics20Ack::Error(body)),
            None => None,
        };
        let ok = match &ack {
            Some(a) => str_eq(a.to_json().as_str(), text),
            None => false,
        };
        if ok {
            match ack {
                Some(a) => {
                    proof {
                        assert forall|q: Ics20AckView| ack_json(q) == text@ implies q == a@ by {
                            lemma_parse_ack(q);
                            lemma_parse_ack(a@);
                        }
                    }
                    Ok(a)
                },
                None => Err(ContractError::Decode),
            }
        } else {
            proof {
                assert forall|q: Ics20AckView| ack_json(q) != text@ by {
                    if ack_json(q) == text@ {
                        lemma_parse_ack(q);
                    }
                }
            }
            Err(ContractError::Decode)
        }
    }

    /// The acknowledgement as it goes on the wire.
    pub fn encode(&self) -> (r: Vec<u8>)
        ensures
            r@ == ack_bytes(self@),
    {
        self.to_json().as_str().as_bytes_vec()
    }

    /// Reads an acknowledgement from the wire: the one acknowledgement for
    /// which `encode` writes these bytes. Bytes that it writes for none are
    /// a decode error.
    pub fn decode(data: &[u8]) -> (r: Result<Ics20Ack, ContractError>)
        ensures
            match r {
                Ok(a) => ack_bytes(a@) == data@ && ack_of(data@) == Some(a@),
                Err(e) => e == ContractError::Decode && ack_of(data@) is None
                    && forall|q: Ics20AckView| ack_bytes(q) != data@,
            },
    {
        match utf8_text(data) {
            Some(text) => {
                let r = Ics20Ack::from_json(text);
                proof {
                    if r is Ok {
                        let a = r->Ok_0@;
                        assert(ack_bytes(a) == data@);
                        let q = ack_of(data@)->0;
                        lemma_utf8_injective(ack_json(q), text@);
                    } else {
                        assert forall|q: Ics20AckView| ack_bytes(q) != data@ by {
                            if ack_bytes(q) == data@ {
                                lemma_utf8_injective(ack_json(q), text@);
                            }
                        }
                    }
                }
                r
            },
            None => {
                proof {
                    assert forall|q: Ics20AckView| ack_bytes(q) != data@ by {
                        vstd::utf8::encode_utf8_valid_utf8(ack_json(q));
                    }
                }
                Err(ContractError::Decode)
            },
        }
    }
}

/// An object of one key over a string: the key with its brace and colon,
/// the string, the closing brace.
pub open spec fn single_json(open: Seq<char>, value: Seq<char>) -> Seq<char> {
    open + quoted(value) + "}"@
}

/// The string under the one key of an object that opens with `open`.
spec fn parse_single(text: Seq<char>, open: Seq<char>) -> Option<Seq<char>> {
    let r1 = expect(text, open);
    let value = read_quoted(r1->0);
    let close = expect(rest_of(value), "}"@);
    if r1 is Some && value is Some && close is Some && close->0.len() == 0 {
        Some(value_of(value))
    } else {
        None
    }
}

proof fn lemma_parse_single(open: Seq<char>, value: Seq<char>)
    ensures
        parse_single(single_json(open, value), open) == Some(value),
{
    let s0 = quoted(value) + "}"@;
    assert(single_json(open, value) =~= open + s0);
    lemma_expect(open, s0);
    lemma_read_quoted(value, "}"@);
    lemma_expect("}"@, Seq::empty());
    assert("}"@ =~= "}"@ + Seq::<char>::empty());
}

fn parse_single_at(v: &Vec<char>, open: &str) -> (r: Option<String>)
    ensures
        match r {
            Some(value) => parse_single(v@, open@) == Some(value@),
            None => parse_single(v@, open@) is None,
        },
{
    proof {
        assert(v@.skip(0) =~= v@);
    }
    let p1 = expect_at(v, 0, open)?;
    let (value, p2) = read_quoted_at(v, p1)?;
    let p3 = expect_at(v, p2, "}")?;
    if p3 == v.len() {
        Some(value)
    } else {
        None
    }
}

fn write_single(open: &str, value: &str) -> (r: String)
    ensures
        r@ == single_json(open@, value@),
{
    let mut out = String::new();
    write_text(&mut out, open);
    write_quoted(&mut out, value);
    write_text(&mut out, "}");
    assert(out@ =~= single_json(open@, value@));
    out
}

fn write_single_number(open: &str, n: u128) -> (r: String)
    ensures
        r@ == single_json(open@, decimal(n as nat)),
{
    let mut out = String::new();
    write_text(&mut out, open);
    write_number(&mut out, n);
    write_text(&mut out, "}");
    assert(out@ =~= single_json(open@, decimal(n as nat)));
    out
}

/// What a `CreateLockupAck` stands for: the address of the account.
pub open spec fn create_lockup_ack_json(contract: Seq<char>) -> Seq<char> {
    single_json("{\"contract\":"@, contract)
}

/// The answer to a lock as JSON text.
pub open spec fn lock_result_ack_json(a: LockResultAck) -> Seq<char> {
    single_json("{\"lock_id\":"@, decimal(a.lock_id as nat))
}

/// The answer to an unlock as JSON text: the time in nanoseconds.
pub open spec fn unlock_result_ack_json(a: UnLockResultAck) -> Seq<char> {
    single_json("{\"end_time\":"@, decimal(a.end_time.nanos as nat))
}

/// The answer to a swap as JSON text: the amount as a string of digits,
/// then the denomination.
pub open spec fn swap_ack_json(amount: u128, denom: Seq<char>) -> Seq<char> {
    "{\"amount\":"@ + quoted(decimal(amount as nat)) + ",\"denom\":"@ + quoted(denom) + "}"@
}

spec fn parse_swap_ack(text: Seq<char>) -> Option<(u128, Seq<char>)> {
    let r1 = expect(text, "{\"amount\":"@);
    let amount = read_number(r1->0, u128::MAX as nat);
    let r2 = expect(rest_of(amount), ",\"denom\":"@);
    let denom = read_quoted(r2->0);
    let close = expect(rest_of(denom), "}"@);
    if r1 is Some && amount is Some && r2 is Some && denom is Some && close is Some
        && close->0.len() == 0 {
        Some((value_of(amount) as u128, value_of(denom)))
    } else {
        None
    }
}

proof fn lemma_parse_swap_ack(amount: u128, denom: Seq<char>)
    ensures
        parse_swap_ack(swap_ack_json(amount, denom)) == Some((amount, denom)),
{
    let s3 = quoted(denom) + "}"@;
    let s2 = ",\"denom\":"@ + s3;
    let s1 = quoted(decimal(amount as nat)) + s2;
    assert(swap_ack_json(amount, denom) =~= "{\"amount\":"@ + s1);
    lemma_expect("{\"amount\":"@, s1);
    lemma_read_number(amount as nat, u128::MAX as nat, s2);
    lemma_expect(",\"denom\":"@, s3);
    lemma_read_quoted(denom, "}"@);
    lemma_expect("}"@, Seq::empty());
    assert("}"@ =~= "}"@ + Seq::<char>::empty());
}

fn parse_swap_ack_at(v: &Vec<char>) -> (r: Option<SwapAmountInAck>)
    ensures
        match r {
            Some(a) => parse_swap_ack(v@) == Some((a.amount, a.denom@)),
            None => parse_swap_ack(v@) is None,
        },
{
    proof {
        assert(v@.skip(0) =~= v@);
    }
    let p1 = expect_at(v, 0, "{\"amount\":")?;
    let (amount, p2) = read_number_at(v, p1, u128::MAX)?;
    let p3 = expect_at(v, p2, ",\"denom\":")?;
    let (denom, p4) = read_quoted_at(v, p3)?;
    let p5 = expect_at(v, p4, "}")?;
    if p5 == v.len() {
        Some(SwapAmountInAck { amount, denom })
    } else {
        None
    }
}

impl SwapAmountInAck {
    /// The answer as JSON text.
    pub fn to_json(&self) -> (r: String)
        ensures
            r@ == swap_ack_json(self.amount, self.denom@),
    {
        let mut out = String::new();
        write_text(&mut out, "{\"amount\":");
        write_number(&mut out, self.amount);
        write_text(&mut out, ",\"denom\":");
        write_quoted(&mut out, self.denom.as_str());
        write_text(&mut out, "}");
        assert(out@ =~= swap_ack_json(self.amount, self.denom@));
        out
    }

    /// Reads the answer from its JSON text: the one answer for which
    /// `to_json` writes this text. A text that it writes for none is a
    /// decode error.
    pub fn from_json(text: &str) -> (r: Result<SwapAmountInAck, ContractError>)
        ensures
            match r {
                Ok(a) => swap_ack_json(a.amount, a.denom@) == text@,
                Err(e) => e == ContractError::Decode && forall|amount: u128, denom: Seq<char>|
                    swap_ack_json(amount, denom) != text@,
            },
    {
        let v = chars_of(text);
        let parsed = parse_swap_ack_at(&v);
        let ok = match &parsed {
            Some(a) => str_eq(a.to_json().as_str(), text),
            None => false,
        };
        if ok {
            match parsed {
                Some(a) => Ok(a),
                None => Err(ContractError::Decode),
            }
        } else {
            proof {
                assert forall|amount: u128, denom: Seq<char>|
                    swap_ack_json(amount, denom) != text@ by {
                    if swap_ack_json(amount, denom) == text@ {
                        lemma_parse_swap_ack(amount, denom);
                    }
                }
            }
            Err(ContractError::Decode)
        }
    }
}

/// The answer to the creation of a lockup account on the wire: the UTF-8
/// bytes of its JSON text.
pub open spec fn create_lockup_ack_bytes(contract: Seq<char>) -> Seq<u8> {
    vstd::utf8::encode_utf8(create_lockup_ack_json(contract))
}

/// The address that a payload names, where the payload is the answer to
/// the creation of a lockup account.
pub open spec fn lockup_address(payload: Seq<u8>) -> Option<Seq<char>> {
    if exists|c: Seq<char>| create_lockup_ack_bytes(c) == payload {
        Some(choose|c: Seq<char>| create_lockup_ack_bytes(c) == payload)
    } else {
        None
    }
}

/// Two answers with the same bytes on the wire name the same address.
pub proof fn lemma_create_lockup_ack_injective(a: Seq<char>, b: Seq<char>)
    requires
        create_lockup_ack_bytes(a) == create_lockup_ack_bytes(b),
    ensures
        a == b,
{
    lemma_utf8_injective(create_lockup_ack_json(a), create_lockup_ack_json(b));
    lemma_parse_single("{\"contract\":"@, a);
    lemma_parse_single("{\"contract\":"@, b);
}

impl CreateLockupAck {
    /// The answer as it goes on the wire.
    pub fn encode(&self) -> (r: Vec<u8>)
        ensures
            r@ == create_lockup_ack_bytes(self.contract@),
    {
        self.to_json().as_str().as_bytes_vec()
    }

    /// Reads the answer from the wire: the one answer for which `encode`
    /// writes these bytes. Bytes that it writes for none are a decode
    /// error.
    pub fn decode(data: &[u8]) -> (r: Result<CreateLockupAck, ContractError>)
        ensures
            match r {
                Ok(a) => lockup_address(data@) == Some(a.contract@),
                Err(e) => e == ContractError::Decode && lockup_address(data@) is None,
            },
    {
        match utf8_text(data) {
            Some(text) => {
                let r = CreateLockupAck::from_json(text);
                proof {
                    if r is Ok {
                        let c = r->Ok_0.contract@;
                        assert(create_lockup_ack_bytes(c) == data@);
                        lemma_create_lockup_ack_injective(c, lockup_address(data@)->0);
                    } else {
                        assert forall|c: Seq<char>| create_lockup_ack_bytes(c) != data@ by {
                            if create_lockup_ack_bytes(c) == data@ {
                                lemma_utf8_injective(create_lockup_ack_json(c), text@);
                            }
                        }
                    }
                }
                r
            },
            None => {
                proof {
                    assert forall|c: Seq<char>| create_lockup_ack_bytes(c) != data@ by {
                        vstd::utf8::encode_utf8_valid_utf8(create_lockup_ack_json(c));
                    }
                }
                Err(ContractError::Decode)
            },
        }
    }

    /// The answer as JSON text.
    pub fn to_json(&self) -> (r: String)
        ensures
            r@ == create_lockup_ack_json(self.contract@),
    {
        write_single("{\"contract\":", self.contract.as_str())
    }

    /// Reads the answer from its JSON text: the one answer for which
    /// `to_json` writes this text. A text that it writes for none is a
    /// decode error.
    pub fn from_json(text: &str) -> (r: Result<CreateLockupAck, ContractError>)
        ensures
            match r {
                Ok(a) => create_lockup_ack_json(a.contract@) == text@,
                Err(e) => e == ContractError::Decode && forall|contract: Seq<char>|
                    create_lockup_ack_json(contract) != text@,
            },
    {
        let v = chars_of(text);
        let parsed = match parse_single_at(&v, "{\"contract\":") {
            Some(contract) => Some(CreateLockupAck { contract }),
            None => None,
        };
        let ok = match &parsed {
            Some(a) => str_eq(a.to_json().as_str(), text),
            None => false,
        };
        if ok {
            match parsed {
                Some(a) => Ok(a),
                None => Err(ContractError::Decode),
            }
        } else {
            proof {
                assert forall|contract: Seq<char>| create_lockup_ack_json(contract) != text@ by {
                    if create_lockup_ack_json(contract) == text@ {
                        lemma_parse_single("{\"contract\":"@, contract);
                    }
                }
            }
            Err(ContractError::Decode)
        }
    }
}

impl LockResultAck {
    /// The answer as JSON text.
    pub fn to_json(&self) -> (r: String)
        ensures
            r@ == lock_result_ack_json(*self),
    {
        write_single_number("{\"lock_id\":", self.lock_id as u128)
    }

    /// Reads the answer from its JSON text: the one answer for which
    /// `to_json` writes this text. A text that it writes for none is a
    /// decode error.
    pub fn from_json(text: &str) -> (r: Result<LockResultAck, ContractError>)
        ensures
            match r {
                Ok(a) => lock_result_ack_json(a) == text@,
                Err(e) => e == ContractError::Decode && forall|a: LockResultAck|
                    lock_result_ack_json(a) != text@,
            },
    {
        let v = chars_of(text);
        let parsed = match parse_single_at(&v, "{\"lock_id\":") {
            Some(digits) => match parse_digits(digits.as_str(), u64::MAX as u128) {
                Some(n) => Some(LockResultAck { lock_id: n as u64 }),
                None => None,
            },
            None => None,
        };
        let ok = match &parsed {
            Some(a) => str_eq(a.to_json().as_str(), text),
            None => false,
        };
        if ok {
            match parsed {
                Some(a) => Ok(a),
                None => Err(ContractError::Decode),
            }
        } else {
            proof {
                assert forall|a: LockResultAck| lock_result_ack_json(a) != text@ by {
                    if lock_result_ack_json(a) == text@ {
                        lemma_parse_single("{\"lock_id\":"@, decimal(a.lock_id as nat));
                        lemma_digits_value_decimal(a.lock_id as nat);
                    }
                }
            }
            Err(ContractError::Decode)
        }
    }
}

impl UnLockResultAck {
    /// The answer as JSON text.
    pub fn to_json(&self) -> (r: String)
        ensures
            r@ == unlock_result_ack_json(*self),
    {
        write_single_number("{\"end_time\":", self.end_time.nanos as u128)
    }

    /// Reads the answer from its JSON text: the one answer for which
    /// `to_json` writes this text. A text that it writes for none is a
    /// decode error.
    pub fn from_json(text: &str) -> (r: Result<UnLockResultAck, ContractError>)
        ensures
            match r {
                Ok(a) => unlock_result_ack_json(a) == text@,
                Err(e) => e == ContractError::Decode && forall|a: UnLockResultAck|
                    unlock_result_ack_json(a) != text@,
            },
    {
        let v = chars_of(text);
        let parsed = match parse_single_at(&v, "{\"end_time\":") {
            Some(digits) => match parse_digits(digits.as_str(), u64::MAX as u128) {
                Some(n) => Some(UnLockResultAck { end_time: Timestamp { nanos: n as u64 } }),
                None => None,
            },
            None => None,
        };
        let ok = match &parsed {
            Some(a) => str_eq(a.to_json().as_str(), text),
            None => false,
        };
        if ok {
            match parsed {
                Some(a) => Ok(a),
                None => Err(ContractError::Decode),
            }
        } else {
            proof {
                assert forall|a: UnLockResultAck| unlock_result_ack_json(a) != text@ by {
                    if unlock_result_ack_json(a) == text@ {
                        lemma_parse_single("{\"end_time\":"@, decimal(a.end_time.nanos as nat));
                        lemma_digits_value_decimal(a.end_time.nanos as nat);
                    }
                }
            }
            Err(ContractError::Decode)
        }
    }
}

} // verus!
