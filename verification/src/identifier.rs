//! The identifier value type: an immutable wrapper around owned text with
//! value-based equality, a content-determined hash, and a display form.

use vstd::prelude::*;
use vstd::string::StrSliceExecFns;

verus! {

/// The hash accumulator's starting value.
pub const HASH_SEED: u64 = 0xcbf2_9ce4_8422_2325;

/// The multiplier folded into the hash accumulator after each character.
pub const HASH_PRIME: u64 = 0x0000_0100_0000_01b3;

/// One folding step of the hash: mix one character's code point into the
/// accumulator.
pub closed spec fn hash_step(acc: u64, c: char) -> u64 {
    vstd::wrapping::u64_specs::wrapping_mul(acc ^ ((c as u32) as u64), HASH_PRIME)
}

/// The hash of `text`, folded left to right into the accumulator `acc`.
pub closed spec fn hash_from(text: Seq<char>, acc: u64) -> u64
    decreases text.len(),
{
    if text.len() == 0 {
        acc
    } else {
        hash_from(text.drop_first(), hash_step(acc, text[0]))
    }
}

/// The hash of an identifier's text: a pure function of the text alone, so
/// identifiers with equal text always hash alike. It is a fast, process-local
/// lookup key, not a content digest, and carries no stability promise across
/// implementations.
pub closed spec fn hash_of(text: Seq<char>) -> u64 {
    hash_from(text, HASH_SEED)
}

/// An immutable identifier for a trading position.
///
/// The identifier owns an independent copy of its text. Its text never
/// changes after construction, and equality and hashing are determined
/// solely by the text, never by storage identity.
#[derive(Clone, Debug, Hash)]
pub struct PositionId {
    value: String,
}

impl View for PositionId {
    type V = Seq<char>;

    closed spec fn view(&self) -> Seq<char> {
        self.value@
    }
}

impl PositionId {
    /// Constructs an identifier by copying `text` into newly owned storage.
    pub fn from(text: &str) -> (id: PositionId)
        ensures
            id@ == text@,
    {
        PositionId { value: text.to_owned() }
    }

    /// Returns exactly the text supplied at construction, as a fresh owned
    /// copy: no normalization, no case-folding, no trimming.
    pub fn display(&self) -> (text: String)
        ensures
            text@ == self@,
    {
        self.value.clone()
    }

    /// Borrows the identifier's text. The borrow is a non-owning view whose
    /// validity is tied to the identifier's own lifetime.
    pub fn as_text(&self) -> (text: &str)
        ensures
            text@ == self@,
    {
        self.value.as_str()
    }

    /// Content comparison: true exactly when the two identifiers hold the
    /// same text, character for character. Never based on storage identity.
    pub fn equals(&self, other: &PositionId) -> (r: bool)
        ensures
            r == (self@ == other@),
    {
        self.value == other.value
    }

    /// The identifier's hash: deterministic within a process run and
    /// consistent with `equals`, since it depends on the text alone.
    pub fn hash_value(&self) -> (h: u64)
        ensures
            h == hash_of(self@),
    {
        let text: &str = self.value.as_str();
        let n: usize = text.unicode_len();
        let mut h: u64 = HASH_SEED;
        let mut i: usize = 0;
        proof {
            assert(self@.skip(0) =~= self@);
        }
        while i < n
            invariant
                text@ == self@,
                n == self@.len(),
                i <= n,
                hash_from(self@.skip(i as int), h) == hash_of(self@),
            decreases n - i,
        {
            let c: char = text.get_char(i);
            proof {
                assert(self@.skip(i as int)[0] == self@[i as int]);
                assert(self@.skip(i as int).drop_first() =~= self@.skip(i as int + 1));
            }
            h = (h ^ ((c as u32) as u64)).wrapping_mul(HASH_PRIME);
            i = i + 1;
        }
        proof {
            assert(self@.skip(n as int) =~= Seq::<char>::empty());
        }
        h
    }
}

impl PartialEq for PositionId {
    fn eq(&self, other: &PositionId) -> (r: bool) {
        self.value == other.value
    }
}

impl Eq for PositionId {}

impl vstd::std_specs::cmp::PartialEqSpecImpl for PositionId {
    open spec fn obeys_eq_spec() -> bool {
        true
    }

    open spec fn eq_spec(&self, other: &PositionId) -> bool {
        self@ == other@
    }
}

/// Law: displaying a constructed identifier returns exactly the text it was
/// constructed from.
pub proof fn lemma_display_round_trip(text: &str, id: PositionId, shown: String)
    requires
        call_ensures(PositionId::from, (text,), id),
        call_ensures(PositionId::display, (&id,), shown),
    ensures
        shown@ == text@,
{
}

/// Law: two constructed identifiers compare equal exactly when the texts
/// they were constructed from are equal.
pub proof fn lemma_equals_matches_text_equality(
    t1: &str,
    t2: &str,
    a: PositionId,
    b: PositionId,
    r: bool,
)
    requires
        call_ensures(PositionId::from, (t1,), a),
        call_ensures(PositionId::from, (t2,), b),
        call_ensures(PositionId::equals, (&a, &b), r),
    ensures
        r == (t1@ == t2@),
{
}

/// Law: identifiers that compare equal hash alike.
pub proof fn lemma_equal_identifiers_hash_alike(
    a: &PositionId,
    b: &PositionId,
    r: bool,
    hash_a: u64,
    hash_b: u64,
)
    requires
        call_ensures(PositionId::equals, (a, b), r),
        r,
        call_ensures(PositionId::hash_value, (a,), hash_a),
        call_ensures(PositionId::hash_value, (b,), hash_b),
    ensures
        hash_a == hash_b,
{
}

/// Law: `equals` is reflexive.
pub proof fn lemma_equals_reflexive(a: &PositionId, r: bool)
    requires
        call_ensures(PositionId::equals, (a, a), r),
    ensures
        r,
{
}

/// Law: `equals` is symmetric.
pub proof fn lemma_equals_symmetric(a: &PositionId, b: &PositionId, r_ab: bool, r_ba: bool)
    requires
        call_ensures(PositionId::equals, (a, b), r_ab),
        call_ensures(PositionId::equals, (b, a), r_ba),
    ensures
        r_ab == r_ba,
{
}

/// Law: `equals` is transitive.
pub proof fn lemma_equals_transitive(
    a: &PositionId,
    b: &PositionId,
    c: &PositionId,
    r_ab: bool,
    r_bc: bool,
    r_ac: bool,
)
    requires
        call_ensures(PositionId::equals, (a, b), r_ab),
        call_ensures(PositionId::equals, (b, c), r_bc),
        call_ensures(PositionId::equals, (a, c), r_ac),
        r_ab,
        r_bc,
    ensures
        r_ac,
{
}

} // verus!
