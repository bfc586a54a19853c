//! Identifiers of sessions.

use vstd::prelude::*;

verus! {

/// The bits of a UUID that hold its version and its variant.
pub const UUID_FORM_MASK: u128 = 0x0000_0000_0000_f000_c000_0000_0000_0000;

/// What those bits hold in a random (version 4) UUID of the RFC 9562 variant.
pub const UUID_V4_FORM: u128 = 0x0000_0000_0000_4000_8000_0000_0000_0000;

/// The identifier of a session: the 128 bits of a UUID, most significant
/// byte first.
#[derive(Clone, Copy, Debug, PartialEq, Eq, Hash, Structural)]
pub struct SessionId(pub u128);

impl View for SessionId {
    type V = u128;

    open spec fn view(&self) -> u128 {
        self.0
    }
}

/// Draws a random UUID with `uuid::Uuid::new_v4` and packs its bytes with
/// `Uuid::as_u128`. The value is random; the contract claims only what
/// `new_v4` sets whatever the random bits are: version 4 and the RFC variant.
#[verifier::external_body]
fn uuid_v4_bits() -> (bits: u128)
    ensures
        bits & UUID_FORM_MASK == UUID_V4_FORM,
{
    uuid::Uuid::new_v4().as_u128()
}

/// The hexadecimal digit of `n`, in lower case.
pub open spec fn hex_digit(n: int) -> char {
    seq!['0', '1', '2', '3', '4', '5', '6', '7', '8', '9', 'a', 'b', 'c', 'd', 'e', 'f'][n]
}

/// The last `count` hexadecimal digits of `value`, most significant first.
pub open spec fn hex_digits(value: nat, count: nat) -> Seq<char>
    decreases count,
{
    if count == 0 {
        Seq::empty()
    } else {
        hex_digits(value / 16, (count - 1) as nat).push(hex_digit((value % 16) as int))
    }
}

/// The text of the UUID that holds `bits`, in the hyphenated form: its 32
/// hexadecimal digits in lower case, most significant first, in groups of
/// 8, 4, 4, 4 and 12 digits parted by hyphens.
pub open spec fn uuid_hyphenated(bits: u128) -> Seq<char> {
    let digits = hex_digits(bits as nat, 32);
    digits.subrange(0, 8) + seq!['-'] + digits.subrange(8, 12) + seq!['-'] + digits.subrange(12, 16)
        + seq!['-'] + digits.subrange(16, 20) + seq!['-'] + digits.subrange(20, 32)
}

/// There are as many digits as were asked for, so the text of a UUID has 36
/// characters.
pub proof fn lemma_uuid_text_len(bits: u128)
    ensures
        uuid_hyphenated(bits).len() == 36,
{
    lemma_hex_digits_len(bits as nat, 32);
}

/// `hex_digits` gives exactly `count` digits.
pub proof fn lemma_hex_digits_len(value: nat, count: nat)
    ensures
        hex_digits(value, count).len() == count,
    decreases count,
{
    if count > 0 {
        lemma_hex_digits_len(value / 16, (count - 1) as nat);
    }
}

/// Makes the UUID of `bits` with `uuid::Uuid::from_u128`, which takes the
/// bits most significant byte first, and writes it with the `Display` of
/// `Uuid`, which is the hyphenated form in lower case.
#[verifier::external_body]
fn uuid_text(bits: u128) -> (text: String)
    ensures
        text@ == uuid_hyphenated(bits),
{
    uuid::Uuid::from_u128(bits).to_string()
}

impl SessionId {
    /// Whether the identifier has the form of a random UUID.
    pub open spec fn is_v4(self) -> bool {
        self.0 & UUID_FORM_MASK == UUID_V4_FORM
    }

    /// The identifier that holds exactly `bits`.
    pub fn from_u128(bits: u128) -> (id: SessionId)
        ensures
            id@ == bits,
    {
        SessionId(bits)
    }

    /// The 128 bits of the identifier.
    pub fn as_u128(&self) -> (bits: u128)
        ensures
            bits == self@,
    {
        self.0
    }

    /// The identifier in the hyphenated form of a UUID.
    pub fn to_text(&self) -> (text: String)
        ensures
            text@ == uuid_hyphenated(self@),
            text@.len() == 36,
    {
        proof {
            lemma_uuid_text_len(self.0);
        }
        uuid_text(self.0)
    }

    /// A new random identifier.
    pub fn random() -> (id: SessionId)
        ensures
            id.is_v4(),
    {
        SessionId(uuid_v4_bits())
    }
}

} // verus!
