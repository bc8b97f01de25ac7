//! Mint identifiers: reading one from text and finding one in a sequence.

use vstd::arithmetic::power::pow;
use vstd::prelude::*;

verus! {

/// The first position at which `ids` holds `id`; the length where it holds it nowhere.
pub open spec fn slot_of(ids: Seq<u128>, id: u128) -> int
    decreases ids.len(),
{
    if ids.len() == 0 {
        0
    } else if ids.first() == id {
        0
    } else {
        1 + slot_of(ids.drop_first(), id)
    }
}

/// `slot_of` is in range, names a position that holds the identifier when
/// there is one, and no position before it does.
pub proof fn lemma_slot_of(ids: Seq<u128>, id: u128)
    ensures
        0 <= slot_of(ids, id) <= ids.len(),
        slot_of(ids, id) < ids.len() ==> ids[slot_of(ids, id)] == id,
        forall|j: int| 0 <= j < slot_of(ids, id) ==> #[trigger] ids[j] != id,
    decreases ids.len(),
{
    if ids.len() > 0 && ids.first() != id {
        let rest = ids.drop_first();
        lemma_slot_of(rest, id);
        assert forall|j: int| 0 <= j < slot_of(ids, id) implies #[trigger] ids[j] != id by {
            if j > 0 {
                assert(ids[j] == rest[j - 1]);
            }
        }
    }
}

/// A position that holds the identifier, with none before it that does, is `slot_of`.
pub proof fn lemma_slot_is(ids: Seq<u128>, id: u128, slot: int)
    requires
        0 <= slot <= ids.len(),
        slot < ids.len() ==> ids[slot] == id,
        forall|j: int| 0 <= j < slot ==> #[trigger] ids[j] != id,
    ensures
        slot_of(ids, id) == slot,
{
    lemma_slot_of(ids, id);
}

/// Whether `ids` holds `id`.
pub open spec fn holds(ids: Seq<u128>, id: u128) -> bool {
    slot_of(ids, id) < ids.len()
}

/// `holds` says whether the identifier occurs.
pub proof fn lemma_holds(ids: Seq<u128>, id: u128)
    ensures
        holds(ids, id) <==> ids.contains(id),
{
    lemma_slot_of(ids, id);
    if ids.contains(id) {
        let j = choose|j: int| 0 <= j < ids.len() && ids[j] == id;
        assert(ids[j] == id);
    }
}

/// The value of the UUID that a text spells, or `None` where it spells none.
pub uninterp spec fn uuid_value(text: Seq<char>) -> Option<u128>;

/// Reads a text as a UUID with `uuid::Uuid::parse_str` and hands out its
/// value as `uuid::Uuid::as_u128` gives it. The parser accepts or refuses a
/// text by its characters alone, so the result is a function of the text;
/// nothing more is claimed of it.
#[verifier::external_body]
pub(crate) fn parse_uuid(text: &str) -> (value: Option<u128>)
    ensures
        value == uuid_value(text@),
{
    match uuid::Uuid::parse_str(text) {
        Ok(id) => Some(id.as_u128()),
        Err(_) => None,
    }
}

/// The sixteen hexadecimal digits, in lower case.
pub open spec fn hex_digits() -> Seq<char> {
    seq!['0', '1', '2', '3', '4', '5', '6', '7', '8', '9', 'a', 'b', 'c', 'd', 'e', 'f']
}

/// The hexadecimal digit of `id` at position `k` of 32, counted from the most significant.
pub open spec fn hex_digit_at(id: u128, k: int) -> char {
    hex_digits()[(id as int / pow(16, (31 - k) as nat)) % 16]
}

/// The hyphens that stand before position `i` of a hyphenated identifier.
pub open spec fn hyphens_before(i: int) -> int {
    if i > 23 {
        4
    } else if i > 18 {
        3
    } else if i > 13 {
        2
    } else if i > 8 {
        1
    } else {
        0
    }
}

/// An identifier in its usual text form: its 32 hexadecimal digits in lower
/// case, most significant first, in groups of 8, 4, 4, 4 and 12 with a
/// hyphen between two groups.
pub open spec fn hyphenated(id: u128) -> Seq<char> {
    Seq::new(
        36,
        |i: int|
            if i == 8 || i == 13 || i == 18 || i == 23 {
                '-'
            } else {
                hex_digit_at(id, i - hyphens_before(i))
            },
    )
}

/// Writes an identifier as text with `uuid::Uuid::from_u128` and the
/// `Display` of `uuid::Uuid`, which is its hyphenated lower-case form.
#[verifier::external_body]
pub(crate) fn uuid_text(id: u128) -> (text: String)
    ensures
        text@ == hyphenated(id),
{
    uuid::Uuid::from_u128(id).to_string()
}

} // verus!
