//! Backend configuration: the presets and their parameters.
//!
//! A preset is a tag and the override of the query count. Everything else
//! follows from these two, so a preset is rebuilt from them, not copied, and
//! travels as the two.

use vstd::prelude::*;

verus! {

/// The order of the field of every preset: the prime `15 * 2^27 + 1`.
pub const FIELD_ORDER: u32 = 2013265921;

/// The degree of the extension field from which challenges are drawn.
pub const EXTENSION_DEGREE: usize = 4;

/// The degree bound, as a power of two, of the presets that commit with a
/// byte hash.
pub const LOG_DEGREE_BOUND: usize = 31;

/// The degree bound, as a power of two, of the presets that commit with
/// Poseidon2.
pub const POSEIDON2_LOG_DEGREE_BOUND: usize = 27;

/// The number of full rounds of the permutation.
pub const ROUNDS_F: usize = 8;

/// The number of partial rounds of the permutation.
pub const ROUNDS_P: usize = 13;

/// The query count of a preset at blowup 1, where nothing overrides it.
pub const DEFAULT_QUERIES: usize = 100;

/// The query count of the compressed preset, where nothing overrides it.
pub const COMPRESSED_QUERIES: usize = 33;

/// The parameters of the proximity proof.
#[derive(Clone, Copy, Debug, PartialEq, Eq, Structural)]
pub struct FriParameters {
    /// The blowup factor, as a power of two.
    pub log_blowup: usize,
    /// The number of queries.
    pub num_queries: usize,
    /// The difficulty of the proof of work, in bits.
    pub proof_of_work_bits: usize,
}

/// The override, where there is one, else the default.
pub open spec fn queries_or(fri_queries: Option<usize>, default: usize) -> usize {
    match fri_queries {
        Some(queries) => queries,
        None => default,
    }
}

/// The parameters at blowup 1: 100 queries unless overridden, 16 bits of
/// proof of work.
pub fn default_fri_config(fri_queries: Option<usize>) -> (config: FriParameters)
    ensures
        config == (FriParameters {
            log_blowup: 1,
            num_queries: queries_or(fri_queries, DEFAULT_QUERIES),
            proof_of_work_bits: 16,
        }),
{
    let num_queries: usize = match fri_queries {
        Some(queries) => queries,
        None => DEFAULT_QUERIES,
    };
    FriParameters { log_blowup: 1, num_queries, proof_of_work_bits: 16 }
}

/// The parameters at blowup 3: 33 queries unless overridden, 16 bits of
/// proof of work.
pub fn compressed_fri_config(fri_queries: Option<usize>) -> (config: FriParameters)
    ensures
        config == (FriParameters {
            log_blowup: 3,
            num_queries: queries_or(fri_queries, COMPRESSED_QUERIES),
            proof_of_work_bits: 16,
        }),
{
    let num_queries: usize = match fri_queries {
        Some(queries) => queries,
        None => COMPRESSED_QUERIES,
    };
    FriParameters { log_blowup: 3, num_queries, proof_of_work_bits: 16 }
}

/// Whether a byte is a decimal digit.
pub open spec fn is_digit(b: u8) -> bool {
    48 <= b <= 57
}

/// The number that decimal digits write.
pub open spec fn decimal_value(digits: Seq<u8>) -> nat
    decreases digits.len(),
{
    if digits.len() == 0 {
        0
    } else {
        decimal_value(digits.drop_last()) * 10 + (digits.last() - 48) as nat
    }
}

/// The text without the plus sign that may lead it.
pub open spec fn unsigned_part(text: Seq<u8>) -> Seq<u8> {
    if text.len() > 0 && text[0] == 43 {
        text.skip(1)
    } else {
        text
    }
}

/// Whether a text writes a query count: an optional plus sign, then one
/// decimal digit or more and nothing else, the number no larger than the
/// machine can hold.
pub open spec fn writes_count(text: Seq<u8>) -> bool {
    let digits = unsigned_part(text);
    &&& digits.len() > 0
    &&& forall|i: int| 0 <= i < digits.len() ==> is_digit(#[trigger] digits[i])
    &&& decimal_value(digits) <= usize::MAX
}

/// More digits do not write a smaller number.
proof fn lemma_decimal_value_grows(digits: Seq<u8>, n: int)
    requires
        0 <= n <= digits.len(),
        forall|i: int| 0 <= i < digits.len() ==> is_digit(#[trigger] digits[i]),
    ensures
        decimal_value(digits.take(n)) <= decimal_value(digits),
    decreases digits.len() - n,
{
    if n == digits.len() {
        assert(digits.take(n) =~= digits);
    } else {
        lemma_decimal_value_grows(digits, n + 1);
        assert(digits.take(n + 1).drop_last() =~= digits.take(n));
    }
}

/// Reads the override of the query count from its text: the number, or
/// nothing where the text writes none.
pub fn parse_fri_queries(text: &[u8]) -> (queries: Option<usize>)
    ensures
        queries is Some <==> writes_count(text@),
        queries matches Some(n) ==> n == decimal_value(unsigned_part(text@)),
{
    let start: usize = if text.len() > 0 && text[0] == 43 {
        1
    } else {
        0
    };
    let ghost digits = unsigned_part(text@);
    if start == text.len() {
        return None;
    }
    let mut value: usize = 0;
    let mut i: usize = start;
    while i < text.len()
        invariant
            start <= i <= text@.len(),
            digits == unsigned_part(text@),
            digits == text@.skip(start as int),
            forall|j: int| 0 <= j < i - start ==> is_digit(#[trigger] digits[j]),
            value == decimal_value(digits.take(i - start)),
        decreases text@.len() - i,
    {
        let b: u8 = text[i];
        if b < 48 || b > 57 {
            assert(!is_digit(digits[i - start]));
            return None;
        }
        let digit: usize = (b - 48) as usize;
        proof {
            assert(digits.take(i - start + 1).drop_last() =~= digits.take(i - start));
        }
        if value > (usize::MAX - digit) / 10 {
            proof {
                if forall|j: int| 0 <= j < digits.len() ==> is_digit(#[trigger] digits[j]) {
                    lemma_decimal_value_grows(digits, i - start + 1);
                }
            }
            return None;
        }
        value = value * 10 + digit;
        i += 1;
    }
    assert(digits.take(digits.len() as int) =~= digits);
    Some(value)
}

/// The hash that commits and drives the transcript.
#[derive(Clone, Copy, Debug, PartialEq, Eq, Structural)]
pub enum HashPrimitive {
    Poseidon2,
    Keccak256,
    Blake3,
}

/// How the transcript turns observed words into challenges.
#[derive(Clone, Copy, Debug, PartialEq, Eq, Structural)]
pub enum TranscriptPrimitive {
    /// A duplex sponge over the permutation.
    DuplexSponge,
    /// A chain of hashes over the serialized words.
    HashChain,
}

/// The two forms of the Poseidon2 preset.
#[derive(Clone, Copy, Debug, PartialEq, Eq, Structural)]
pub enum BabyBearPoseidon2Type {
    Default,
    Compressed,
}

/// The preset over Poseidon2.
#[derive(Debug, PartialEq, Eq)]
pub struct BabyBearPoseidon2 {
    pub config_type: BabyBearPoseidon2Type,
    /// The override of the query count.
    pub fri_queries: Option<usize>,
}

impl BabyBearPoseidon2 {
    /// The default form.
    pub fn new(fri_queries: Option<usize>) -> (config: BabyBearPoseidon2)
        ensures
            config == (BabyBearPoseidon2 {
                config_type: BabyBearPoseidon2Type::Default,
                fri_queries,
            }),
    {
        BabyBearPoseidon2 { config_type: BabyBearPoseidon2Type::Default, fri_queries }
    }

    /// The compressed form: smaller proofs at a higher blowup.
    pub fn compressed(fri_queries: Option<usize>) -> (config: BabyBearPoseidon2)
        ensures
            config == (BabyBearPoseidon2 {
                config_type: BabyBearPoseidon2Type::Compressed,
                fri_queries,
            }),
    {
        BabyBearPoseidon2 { config_type: BabyBearPoseidon2Type::Compressed, fri_queries }
    }

    /// The parameters of the proximity proof, as mathematics.
    pub open spec fn spec_fri_config(&self) -> FriParameters {
        match self.config_type {
            BabyBearPoseidon2Type::Default => FriParameters {
                log_blowup: 1,
                num_queries: queries_or(self.fri_queries, DEFAULT_QUERIES),
                proof_of_work_bits: 16,
            },
            BabyBearPoseidon2Type::Compressed => FriParameters {
                log_blowup: 3,
                num_queries: queries_or(self.fri_queries, COMPRESSED_QUERIES),
                proof_of_work_bits: 16,
            },
        }
    }

    /// The parameters of the proximity proof.
    #[verifier::when_used_as_spec(spec_fri_config)]
    pub fn fri_config(&self) -> (config: FriParameters)
        ensures
            config == self.spec_fri_config(),
    {
        match self.config_type {
            BabyBearPoseidon2Type::Default => default_fri_config(self.fri_queries),
            BabyBearPoseidon2Type::Compressed => compressed_fri_config(self.fri_queries),
        }
    }
}

impl Clone for BabyBearPoseidon2 {
    /// Builds the same preset anew.
    fn clone(&self) -> (copy: BabyBearPoseidon2)
        ensures
            copy == *self,
    {
        match self.config_type {
            BabyBearPoseidon2Type::Default => BabyBearPoseidon2::new(self.fri_queries),
            BabyBearPoseidon2Type::Compressed => BabyBearPoseidon2::compressed(self.fri_queries),
        }
    }
}

impl Default for BabyBearPoseidon2 {
    fn default() -> (config: BabyBearPoseidon2)
        ensures
            config == (BabyBearPoseidon2 {
                config_type: BabyBearPoseidon2Type::Default,
                fri_queries: None,
            }),
    {
        BabyBearPoseidon2::new(None)
    }
}

/// The preset over Keccak-256.
#[derive(Debug, PartialEq, Eq)]
pub struct BabyBearKeccak {
    /// The override of the query count.
    pub fri_queries: Option<usize>,
}

impl BabyBearKeccak {
    pub fn new(fri_queries: Option<usize>) -> (config: BabyBearKeccak)
        ensures
            config == (BabyBearKeccak { fri_queries }),
    {
        BabyBearKeccak { fri_queries }
    }

    /// The parameters of the proximity proof, as mathematics.
    pub open spec fn spec_fri_config(&self) -> FriParameters {
        FriParameters {
            log_blowup: 1,
            num_queries: queries_or(self.fri_queries, DEFAULT_QUERIES),
            proof_of_work_bits: 16,
        }
    }

    /// The parameters of the proximity proof.
    #[verifier::when_used_as_spec(spec_fri_config)]
    pub fn fri_config(&self) -> (config: FriParameters)
        ensures
            config == self.spec_fri_config(),
    {
        default_fri_config(self.fri_queries)
    }
}

impl Clone for BabyBearKeccak {
    /// Builds the same preset anew.
    fn clone(&self) -> (copy: BabyBearKeccak)
        ensures
            copy == *self,
    {
        BabyBearKeccak::new(self.fri_queries)
    }
}

impl Default for BabyBearKeccak {
    fn default() -> (config: BabyBearKeccak)
        ensures
            config == (BabyBearKeccak { fri_queries: None }),
    {
        BabyBearKeccak::new(None)
    }
}

/// The preset over Blake3.
#[derive(Debug, PartialEq, Eq)]
pub struct BabyBearBlake3 {
    /// The override of the query count.
    pub fri_queries: Option<usize>,
}

impl BabyBearBlake3 {
    pub fn new(fri_queries: Option<usize>) -> (config: BabyBearBlake3)
        ensures
            config == (BabyBearBlake3 { fri_queries }),
    {
        BabyBearBlake3 { fri_queries }
    }

    /// The parameters of the proximity proof, as mathematics.
    pub open spec fn spec_fri_config(&self) -> FriParameters {
        FriParameters {
            log_blowup: 1,
            num_queries: queries_or(self.fri_queries, DEFAULT_QUERIES),
            proof_of_work_bits: 16,
        }
    }

    /// The parameters of the proximity proof.
    #[verifier::when_used_as_spec(spec_fri_config)]
    pub fn fri_config(&self) -> (config: FriParameters)
        ensures
            config == self.spec_fri_config(),
    {
        default_fri_config(self.fri_queries)
    }
}

impl Clone for BabyBearBlake3 {
    /// Builds the same preset anew.
    fn clone(&self) -> (copy: BabyBearBlake3)
        ensures
            copy == *self,
    {
        BabyBearBlake3::new(self.fri_queries)
    }
}

impl Default for BabyBearBlake3 {
    fn default() -> (config: BabyBearBlake3)
        ensures
            config == (BabyBearBlake3 { fri_queries: None }),
    {
        BabyBearBlake3::new(None)
    }
}

/// One of the supported presets.
#[derive(Debug, PartialEq, Eq)]
pub enum Backend {
    Poseidon2(BabyBearPoseidon2),
    Keccak(BabyBearKeccak),
    Blake3(BabyBearBlake3),
}

/// The preset with the given tag and override, if the tag names one.
pub open spec fn backend_of_tag(tag: u8, fri_queries: Option<usize>) -> Option<Backend> {
    if tag == 0 {
        Some(
            Backend::Poseidon2(
                BabyBearPoseidon2 { config_type: BabyBearPoseidon2Type::Default, fri_queries },
            ),
        )
    } else if tag == 1 {
        Some(
            Backend::Poseidon2(
                BabyBearPoseidon2 { config_type: BabyBearPoseidon2Type::Compressed, fri_queries },
            ),
        )
    } else if tag == 2 {
        Some(Backend::Keccak(BabyBearKeccak { fri_queries }))
    } else if tag == 3 {
        Some(Backend::Blake3(BabyBearBlake3 { fri_queries }))
    } else {
        None
    }
}

impl Backend {
    /// The tag under which the preset travels, as mathematics.
    pub open spec fn spec_tag(&self) -> u8 {
        match self {
            Backend::Poseidon2(config) => match config.config_type {
                BabyBearPoseidon2Type::Default => 0,
                BabyBearPoseidon2Type::Compressed => 1,
            },
            Backend::Keccak(_) => 2,
            Backend::Blake3(_) => 3,
        }
    }

    /// The tag under which the preset travels.
    #[verifier::when_used_as_spec(spec_tag)]
    pub fn tag(&self) -> (tag: u8)
        ensures
            tag == self.spec_tag(),
    {
        match self {
            Backend::Poseidon2(config) => match config.config_type {
                BabyBearPoseidon2Type::Default => 0,
                BabyBearPoseidon2Type::Compressed => 1,
            },
            Backend::Keccak(_) => 2,
            Backend::Blake3(_) => 3,
        }
    }

    /// The override of the query count that the preset was built with, as
    /// mathematics.
    pub open spec fn spec_fri_queries(&self) -> Option<usize> {
        match self {
            Backend::Poseidon2(config) => config.fri_queries,
            Backend::Keccak(config) => config.fri_queries,
            Backend::Blake3(config) => config.fri_queries,
        }
    }

    /// The override of the query count that the preset was built with.
    #[verifier::when_used_as_spec(spec_fri_queries)]
    pub fn fri_queries(&self) -> (queries: Option<usize>)
        ensures
            queries == self.spec_fri_queries(),
    {
        match self {
            Backend::Poseidon2(config) => config.fri_queries,
            Backend::Keccak(config) => config.fri_queries,
            Backend::Blake3(config) => config.fri_queries,
        }
    }

    /// Builds the preset that a tag names; none for a tag that names none.
    pub fn from_tag(tag: u8, fri_queries: Option<usize>) -> (backend: Option<Backend>)
        ensures
            backend == backend_of_tag(tag, fri_queries),
    {
        if tag == 0 {
            Some(Backend::Poseidon2(BabyBearPoseidon2::new(fri_queries)))
        } else if tag == 1 {
            Some(Backend::Poseidon2(BabyBearPoseidon2::compressed(fri_queries)))
        } else if tag == 2 {
            Some(Backend::Keccak(BabyBearKeccak::new(fri_queries)))
        } else if tag == 3 {
            Some(Backend::Blake3(BabyBearBlake3::new(fri_queries)))
        } else {
            None
        }
    }

    /// The parameters of the proximity proof, as mathematics.
    pub open spec fn spec_fri_config(&self) -> FriParameters {
        match self {
            Backend::Poseidon2(config) => config.spec_fri_config(),
            Backend::Keccak(config) => config.spec_fri_config(),
            Backend::Blake3(config) => config.spec_fri_config(),
        }
    }

    /// The parameters of the proximity proof.
    #[verifier::when_used_as_spec(spec_fri_config)]
    pub fn fri_config(&self) -> (config: FriParameters)
        ensures
            config == self.spec_fri_config(),
    {
        match self {
            Backend::Poseidon2(config) => config.fri_config(),
            Backend::Keccak(config) => config.fri_config(),
            Backend::Blake3(config) => config.fri_config(),
        }
    }

    /// The hash of the preset, as mathematics.
    pub open spec fn spec_hash(&self) -> HashPrimitive {
        match self {
            Backend::Poseidon2(_) => HashPrimitive::Poseidon2,
            Backend::Keccak(_) => HashPrimitive::Keccak256,
            Backend::Blake3(_) => HashPrimitive::Blake3,
        }
    }

    /// The hash that commits and drives the transcript.
    #[verifier::when_used_as_spec(spec_hash)]
    pub fn hash(&self) -> (hash: HashPrimitive)
        ensures
            hash == self.spec_hash(),
    {
        match self {
            Backend::Poseidon2(_) => HashPrimitive::Poseidon2,
            Backend::Keccak(_) => HashPrimitive::Keccak256,
            Backend::Blake3(_) => HashPrimitive::Blake3,
        }
    }

    /// The transcript primitive of the preset, as mathematics.
    pub open spec fn spec_transcript(&self) -> TranscriptPrimitive {
        match self {
            Backend::Poseidon2(_) => TranscriptPrimitive::DuplexSponge,
            Backend::Keccak(_) => TranscriptPrimitive::HashChain,
            Backend::Blake3(_) => TranscriptPrimitive::HashChain,
        }
    }

    /// How the transcript of the preset turns observed words into
    /// challenges.
    #[verifier::when_used_as_spec(spec_transcript)]
    pub fn transcript(&self) -> (primitive: TranscriptPrimitive)
        ensures
            primitive == self.spec_transcript(),
    {
        match self {
            Backend::Poseidon2(_) => TranscriptPrimitive::DuplexSponge,
            Backend::Keccak(_) => TranscriptPrimitive::HashChain,
            Backend::Blake3(_) => TranscriptPrimitive::HashChain,
        }
    }

    /// The degree bound of the preset, as a power of two, as mathematics.
    pub open spec fn spec_log_degree_bound(&self) -> usize {
        match self {
            Backend::Poseidon2(_) => POSEIDON2_LOG_DEGREE_BOUND,
            Backend::Keccak(_) => LOG_DEGREE_BOUND,
            Backend::Blake3(_) => LOG_DEGREE_BOUND,
        }
    }

    /// The degree bound of the preset, as a power of two.
    #[verifier::when_used_as_spec(spec_log_degree_bound)]
    pub fn log_degree_bound(&self) -> (bound: usize)
        ensures
            bound == self.spec_log_degree_bound(),
    {
        match self {
            Backend::Poseidon2(_) => POSEIDON2_LOG_DEGREE_BOUND,
            Backend::Keccak(_) => LOG_DEGREE_BOUND,
            Backend::Blake3(_) => LOG_DEGREE_BOUND,
        }
    }
}

impl Clone for Backend {
    /// Builds the same preset anew.
    fn clone(&self) -> (copy: Backend)
        ensures
            copy == *self,
    {
        match self {
            Backend::Poseidon2(config) => Backend::Poseidon2(config.clone()),
            Backend::Keccak(config) => Backend::Keccak(config.clone()),
            Backend::Blake3(config) => Backend::Blake3(config.clone()),
        }
    }
}

/// A preset is rebuilt from its tag and its override: what travels is
/// enough to build the same preset on the other side.
pub proof fn lemma_backend_rebuilds(backend: Backend)
    ensures
        backend_of_tag(backend.spec_tag(), backend.spec_fri_queries()) == Some(backend),
{
}

/// Every preset takes the override: built with an override, a preset asks
/// for that many queries, whatever its tag.
pub proof fn lemma_override_sets_queries(tag: u8, queries: usize)
    requires
        backend_of_tag(tag, Some(queries)) is Some,
    ensures
        backend_of_tag(tag, Some(queries)).unwrap().spec_fri_queries() == Some(queries),
        backend_of_tag(tag, Some(queries)).unwrap().spec_fri_config().num_queries == queries,
        backend_of_tag(tag, Some(queries)).unwrap().spec_fri_config().proof_of_work_bits == 16,
{
}

/// Two presets under one tag and one override are one preset.
pub proof fn lemma_tag_names_one(one: Backend, other: Backend)
    requires
        one.spec_tag() == other.spec_tag(),
        one.spec_fri_queries() == other.spec_fri_queries(),
    ensures
        one == other,
{
    lemma_backend_rebuilds(one);
    lemma_backend_rebuilds(other);
}

/// The constants of the permutation, split by the kind of round.
#[derive(Debug, PartialEq, Eq)]
pub struct PermutationConstants {
    /// The number of full rounds.
    pub rounds_f: usize,
    /// The constants of the full rounds, a row for each.
    pub external_constants: Vec<[u32; 16]>,
    /// The number of partial rounds.
    pub rounds_p: usize,
    /// The constants of the partial rounds, one for each.
    pub internal_constants: Vec<u32>,
}

/// The rows of a table of round constants that go to the full rounds: all
/// but those of the partial rounds, which stand behind the first half of the
/// full rounds.
pub open spec fn external_rows(table: Seq<[u32; 16]>) -> Seq<[u32; 16]> {
    table.take((ROUNDS_F / 2) as int) + table.skip((ROUNDS_F / 2 + ROUNDS_P) as int)
}

/// The constants of the partial rounds: the first word of each of their
/// rows.
pub open spec fn internal_words(table: Seq<[u32; 16]>) -> Seq<u32> {
    Seq::new(ROUNDS_P as nat, |i: int| table[ROUNDS_F / 2 + i][0])
}

/// Splits a table of round constants, a row for each round, into the
/// constants of the 8 full and of the 13 partial rounds of the permutation.
pub fn my_perm(round_constants: &Vec<[u32; 16]>) -> (perm: PermutationConstants)
    requires
        round_constants@.len() >= ROUNDS_F / 2 + ROUNDS_P,
    ensures
        perm.rounds_f == ROUNDS_F,
        perm.rounds_p == ROUNDS_P,
        perm.external_constants@ == external_rows(round_constants@),
        perm.internal_constants@ == internal_words(round_constants@),
{
    let internal_start: usize = ROUNDS_F / 2;
    let internal_end: usize = ROUNDS_F / 2 + ROUNDS_P;
    let mut external_constants: Vec<[u32; 16]> = Vec::new();
    let mut internal_constants: Vec<u32> = Vec::new();
    let mut i: usize = 0;
    while i < round_constants.len()
        invariant
            internal_start == ROUNDS_F / 2,
            internal_end == ROUNDS_F / 2 + ROUNDS_P,
            internal_end <= round_constants@.len(),
            i <= round_constants@.len(),
            i <= internal_start ==> external_constants@ == round_constants@.take(i as int)
                && internal_constants@.len() == 0,
            internal_start < i <= internal_end ==> external_constants@ == round_constants@.take(
                internal_start as int,
            ) && internal_constants@.len() == i - internal_start,
            internal_end < i ==> external_constants@ == round_constants@.take(
                internal_start as int,
            ) + round_constants@.subrange(internal_end as int, i as int)
                && internal_constants@.len() == ROUNDS_P,
            forall|j: int|
                0 <= j < internal_constants@.len() ==> internal_constants@[j]
                    == round_constants@[internal_start + j][0],
        decreases round_constants@.len() - i,
    {
        let row: [u32; 16] = round_constants[i];
        if internal_start <= i && i < internal_end {
            internal_constants.push(row[0]);
        } else {
            external_constants.push(row);
        }
        i += 1;
    }
    PermutationConstants {
        rounds_f: ROUNDS_F,
        external_constants,
        rounds_p: ROUNDS_P,
        internal_constants,
    }
}

} // verus!
