//! A program that lets an account's owner withdraw from it, and tells the
//! outcome by an event whether it succeeds or not.
use crate::buffer::{EventBuffer, SequenceCounter};
use crate::codec::{DecodeError, DecodePayload, EncodePayload};
use crate::events::emit_event;
use crate::text::push_decimal;
use vstd::prelude::*;
use vstd::slice::slice_subrange;
use vstd::string::StringExecFns;

verus! {

/// Discriminant of [`InsufficientFunds`].
pub const INSUFFICIENT_FUNDS: u32 = 1;

/// Discriminant of [`WithdrawSuccess`].
pub const WITHDRAW_SUCCESS: u32 = 2;

/// The event of a withdrawal that asks for more than there is.
#[derive(Debug, Clone, Copy, PartialEq, Eq, Structural)]
pub struct InsufficientFunds {
    pub requested: u128,
    pub available: u128,
}

/// The event of a withdrawal that took place.
#[derive(Debug, Clone, Copy, PartialEq, Eq, Structural)]
pub struct WithdrawSuccess {
    pub amount: u128,
    pub remaining: u128,
}

/// The encoding of two amounts, one after the other.
pub open spec fn pair_encoding(first: u128, second: u128) -> Seq<u8> {
    crate::codec::le_bytes(first as nat, 16) + crate::codec::le_bytes(second as nat, 16)
}

/// Each amount takes half of the encoding of two.
proof fn pair_parts(first: u128, second: u128)
    ensures
        pair_encoding(first, second).len() == 32,
        pair_encoding(first, second).subrange(0, 16) == first.encoding(),
        pair_encoding(first, second).subrange(16, 32) == second.encoding(),
{
    crate::codec::le_bytes_len(first as nat, 16);
    crate::codec::le_bytes_len(second as nat, 16);
    assert(pair_encoding(first, second).subrange(0, 16) =~= first.encoding());
    assert(pair_encoding(first, second).subrange(16, 32) =~= second.encoding());
}

/// Encodes two amounts.
fn encode_pair(first: u128, second: u128) -> (bytes: Vec<u8>)
    ensures
        bytes@ == pair_encoding(first, second),
{
    let mut bytes = first.to_borsh();
    let mut rest = second.to_borsh();
    bytes.append(&mut rest);
    bytes
}

/// What is said of bytes that do not encode two amounts: of the first amount
/// that cannot be read.
pub open spec fn pair_refusal(bytes: Seq<u8>) -> Seq<char> {
    if bytes.len() < 16 {
        u128::refusal(bytes)
    } else {
        u128::refusal(bytes.skip(16))
    }
}

/// Decodes two amounts.
fn decode_pair(bytes: &[u8]) -> (res: Result<(u128, u128), DecodeError>)
    ensures
        match res {
            Ok((first, second)) => pair_encoding(first, second) == bytes@,
            Err(e) => {
                &&& forall|first: u128, second: u128|
                    #[trigger] pair_encoding(first, second) != bytes@
                &&& e.message@ == pair_refusal(bytes@)
            },
        },
{
    proof {
        assert forall|first: u128, second: u128|
            #[trigger] pair_encoding(first, second) == bytes@ implies {
            &&& bytes@.len() == 32
            &&& first.encoding() == bytes@.subrange(0, 16)
            &&& second.encoding() == bytes@.subrange(16, 32)
        } by {
            pair_parts(first, second);
        }
    }
    let len: usize = bytes.len();
    proof {
        assert(bytes@.subrange(0, len as int) =~= bytes@);
        if len >= 16 {
            assert(bytes@.subrange(16, len as int) =~= bytes@.skip(16));
        }
    }
    let first_end: usize = if len < 16 {
        len
    } else {
        16
    };
    let first: u128 = match u128::from_borsh(slice_subrange(bytes, 0, first_end)) {
        Ok(value) => value,
        Err(e) => return Err(e),
    };
    proof {
        crate::codec::le_bytes_len(first as nat, 16);
    }
    let second: u128 = match u128::from_borsh(slice_subrange(bytes, 16, len)) {
        Ok(value) => value,
        Err(e) => return Err(e),
    };
    proof {
        crate::codec::le_bytes_len(second as nat, 16);
    }
    assert(pair_encoding(first, second) =~= bytes@);
    Ok((first, second))
}

impl View for InsufficientFunds {
    type V = InsufficientFunds;

    open spec fn view(&self) -> InsufficientFunds {
        *self
    }
}

impl EncodePayload for InsufficientFunds {
    open spec fn encodable(&self) -> bool {
        true
    }

    open spec fn encoding(&self) -> Seq<u8> {
        pair_encoding(self.requested, self.available)
    }

    fn to_borsh(&self) -> (bytes: Vec<u8>) {
        encode_pair(self.requested, self.available)
    }
}

impl DecodePayload for InsufficientFunds {
    open spec fn refusal(bytes: Seq<u8>) -> Seq<char> {
        pair_refusal(bytes)
    }

    fn from_borsh(bytes: &[u8]) -> (res: Result<Self, DecodeError>) {
        match decode_pair(bytes) {
            Ok((requested, available)) => Ok(InsufficientFunds { requested, available }),
            Err(e) => Err(e),
        }
    }

    proof fn encoding_injective(a: Self, b: Self) {
        pair_encoding_injective(a.requested, a.available, b.requested, b.available);
    }
}

impl View for WithdrawSuccess {
    type V = WithdrawSuccess;

    open spec fn view(&self) -> WithdrawSuccess {
        *self
    }
}

impl EncodePayload for WithdrawSuccess {
    open spec fn encodable(&self) -> bool {
        true
    }

    open spec fn encoding(&self) -> Seq<u8> {
        pair_encoding(self.amount, self.remaining)
    }

    fn to_borsh(&self) -> (bytes: Vec<u8>) {
        encode_pair(self.amount, self.remaining)
    }
}

impl DecodePayload for WithdrawSuccess {
    open spec fn refusal(bytes: Seq<u8>) -> Seq<char> {
        pair_refusal(bytes)
    }

    fn from_borsh(bytes: &[u8]) -> (res: Result<Self, DecodeError>) {
        match decode_pair(bytes) {
            Ok((amount, remaining)) => Ok(WithdrawSuccess { amount, remaining }),
            Err(e) => Err(e),
        }
    }

    proof fn encoding_injective(a: Self, b: Self) {
        pair_encoding_injective(a.amount, a.remaining, b.amount, b.remaining);
    }
}

impl InsufficientFunds {
    /// The words in which the failure is reported.
    pub open spec fn message_text(self) -> Seq<char> {
        "Insufficient funds: requested "@ + crate::text::decimal(self.requested as nat)
            + ", available "@ + crate::text::decimal(self.available as nat)
    }

    /// Reports the failure in words.
    pub fn message(&self) -> (text: String)
        ensures
            text@ == self.message_text(),
    {
        let mut text = "Insufficient funds: requested ".to_owned();
        push_decimal(&mut text, self.requested);
        text.append(", available ");
        push_decimal(&mut text, self.available);
        text
    }
}

/// The balance after a withdrawal, or why there is none.
pub open spec fn withdrawal(balance: u128, amount: u128) -> Result<u128, InsufficientFunds> {
    if balance < amount {
        Err(InsufficientFunds { requested: amount, available: balance })
    } else {
        Ok((balance - amount) as u128)
    }
}

/// The discriminant and payload of the event that tells the outcome.
pub open spec fn withdrawal_event(balance: u128, amount: u128) -> (u32, Seq<u8>) {
    match withdrawal(balance, amount) {
        Ok(remaining) => (WITHDRAW_SUCCESS, pair_encoding(amount, remaining)),
        Err(_) => (INSUFFICIENT_FUNDS, pair_encoding(amount, balance)),
    }
}

/// Withdraws `amount` from an account that holds `balance`, and emits an event
/// in either case. The event is left out if the buffer has no room for it.
pub fn withdraw(
    counter: &mut SequenceCounter,
    buffer: &mut EventBuffer,
    balance: u128,
    amount: u128,
) -> (res: Result<u128, InsufficientFunds>)
    requires
        crate::buffer::total_bytes(old(buffer)@) + 32 <= usize::MAX,
    ensures
        res == withdrawal(balance, amount),
        if crate::events::emit_verdict(crate::buffer::total_bytes(old(buffer)@), 32) is Ok {
            &&& final(buffer)@ == crate::buffer::with_event(
                old(buffer)@,
                withdrawal_event(balance, amount).0,
                old(counter)@,
                withdrawal_event(balance, amount).1,
            )
            &&& final(counter)@ == crate::buffer::next_sequence(old(counter)@)
            &&& balance < amount ==> final(buffer)@.last().payload == (InsufficientFunds {
                requested: amount,
                available: balance,
            }).encoding()
            &&& balance >= amount ==> final(buffer)@.last().payload == (WithdrawSuccess {
                amount,
                remaining: (balance - amount) as u128,
            }).encoding()
        } else {
            *final(buffer) == *old(buffer) && *final(counter) == *old(counter)
        },
{
    if balance < amount {
        let failure = InsufficientFunds { requested: amount, available: balance };
        proof {
            pair_parts(amount, balance);
        }
        let _ = emit_event(counter, buffer, INSUFFICIENT_FUNDS, &failure);
        return Err(failure);
    }
    let remaining: u128 = balance - amount;
    proof {
        pair_parts(amount, remaining);
    }
    let _ = emit_event(counter, buffer, WITHDRAW_SUCCESS, &WithdrawSuccess { amount, remaining });
    Ok(remaining)
}

/// Nothing is lost or made: what is withdrawn and what remains is what was
/// there, and a withdrawal fails exactly if it asks for more than there is.
pub proof fn withdrawal_conserves(balance: u128, amount: u128)
    ensures
        withdrawal(balance, amount) is Err <==> amount > balance,
        withdrawal(balance, amount) matches Ok(remaining) ==> remaining + amount == balance,
{
}

/// The amounts of an event are read back from its payload.
pub proof fn pair_encoding_injective(a: u128, b: u128, c: u128, d: u128)
    requires
        pair_encoding(a, b) == pair_encoding(c, d),
    ensures
        a == c,
        b == d,
{
    pair_parts(a, b);
    pair_parts(c, d);
    reveal_with_fuel(crate::codec::le_bound, 17);
    crate::codec::le_bytes_injective(a as nat, c as nat, 16);
    crate::codec::le_bytes_injective(b as nat, d as nat, 16);
}

/// The event of a withdrawal within the balance says that it took place, and is
/// read back as the amount that was asked for and what is left of the balance.
pub proof fn success_is_told(
    balance: u128,
    amount: u128,
    read: Result<WithdrawSuccess, DecodeError>,
)
    requires
        amount <= balance,
        crate::codec::decodes_to(withdrawal_event(balance, amount).1, read),
    ensures
        withdrawal(balance, amount) == Ok::<u128, InsufficientFunds>((balance - amount) as u128),
        withdrawal_event(balance, amount).0 == WITHDRAW_SUCCESS,
        WITHDRAW_SUCCESS == 2,
        withdrawal_event(balance, amount).1.len() == 32,
        read is Ok,
        read->Ok_0.amount == amount,
        read->Ok_0.remaining == balance - amount,
{
    let told = WithdrawSuccess { amount, remaining: (balance - amount) as u128 };
    assert(told.encoding() == withdrawal_event(balance, amount).1);
    pair_parts(told.amount, told.remaining);
    crate::codec::decoding_an_encoding_succeeds(told, read);
}

/// The event of a withdrawal beyond the balance says that it failed, and is read
/// back as the amount that was asked for and the balance that there was.
pub proof fn failure_is_told(
    balance: u128,
    amount: u128,
    read: Result<InsufficientFunds, DecodeError>,
)
    requires
        amount > balance,
        crate::codec::decodes_to(withdrawal_event(balance, amount).1, read),
    ensures
        withdrawal(balance, amount) matches Err(failure) && failure.requested == amount
            && failure.available == balance,
        withdrawal_event(balance, amount).0 == INSUFFICIENT_FUNDS,
        INSUFFICIENT_FUNDS == 1,
        withdrawal_event(balance, amount).1.len() == 32,
        read is Ok,
        read->Ok_0.requested == amount,
        read->Ok_0.available == balance,
{
    let told = InsufficientFunds { requested: amount, available: balance };
    assert(told.encoding() == withdrawal_event(balance, amount).1);
    pair_parts(told.requested, told.available);
    crate::codec::decoding_an_encoding_succeeds(told, read);
}

/// The payload of either event is the two amounts in the order of its fields,
/// sixteen little-endian bytes each.
pub proof fn amounts_stand_in_order(success: WithdrawSuccess, failure: InsufficientFunds)
    ensures
        success.encoding().len() == 32,
        success.encoding().subrange(0, 16) == success.amount.encoding(),
        success.encoding().subrange(16, 32) == success.remaining.encoding(),
        failure.encoding().len() == 32,
        failure.encoding().subrange(0, 16) == failure.requested.encoding(),
        failure.encoding().subrange(16, 32) == failure.available.encoding(),
{
    pair_parts(success.amount, success.remaining);
    pair_parts(failure.requested, failure.available);
}

/// The report of a failed withdrawal names both amounts.
pub proof fn failure_names_both_amounts(failure: InsufficientFunds)
    ensures
        failure.message_text() == "Insufficient funds: requested "@ + crate::text::decimal(
            failure.requested as nat,
        ) + ", available "@ + crate::text::decimal(failure.available as nat),
{
}

/// What is said of bytes that are no event of a withdrawal is what is said of the
/// first of the two amounts that cannot be read.
pub proof fn first_unreadable_amount_is_named(bytes: Seq<u8>)
    ensures
        WithdrawSuccess::refusal(bytes) == InsufficientFunds::refusal(bytes),
        bytes.len() < 16 ==> WithdrawSuccess::refusal(bytes) == crate::codec::decoding_error(
            "u128"@,
            bytes,
        ),
        bytes.len() >= 16 ==> WithdrawSuccess::refusal(bytes) == crate::codec::decoding_error(
            "u128"@,
            bytes.subrange(16, bytes.len() as int),
        ),
{
    if bytes.len() >= 16 {
        assert(bytes.skip(16) =~= bytes.subrange(16, bytes.len() as int));
    }
}

} // verus!
