//! Composition of a variant identifier from record fields.

use vstd::prelude::*;
use vstd::utf8::valid_utf8;
use crate::digits::{dec_digits, u64_to_dec};
use crate::hashing::{sha1_digest, sha1_of};
use crate::hex::{hex_encode, hex_encode_prefix, is_lower_hex_digit, lemma_hex_encode_shape};

verus! {

/// The ASCII comma that joins multiple alternate alleles.
pub const COMMA: u8 = 0x2c;

/// Run-wide settings for identifier derivation, fixed at startup.
pub struct Config {
    /// Bytes placed between chromosome, position, reference and the joined
    /// alternatives in the composed identifier.
    pub delimiter: Vec<u8>,
    /// When set, the composed identifier is replaced by the first four bytes
    /// of its SHA-1 digest, rendered as lowercase hexadecimal digits.
    pub use_hash: bool,
    /// Literal prefix prepended to every final identifier, with no separator.
    pub prefix: Vec<u8>,
}

impl Default for Config {
    /// The default settings: underscore delimiter, no hashing, no prefix.
    fn default() -> (c: Config)
        ensures
            c.delimiter@ == seq![0x5fu8],
            !c.use_hash,
            c.prefix@ == Seq::<u8>::empty(),
    {
        let mut delimiter: Vec<u8> = Vec::new();
        delimiter.push(0x5f);
        proof {
            assert(delimiter@ =~= seq![0x5fu8]);
        }
        Config { delimiter, use_hash: false, prefix: Vec::new() }
    }
}

/// The error for record text that identifier derivation must interpret but
/// that is not valid UTF-8.
#[derive(Clone, Copy, Debug, PartialEq, Eq, Structural)]
pub struct DecodingError;

/// The alternate alleles joined with a literal comma, in the order given,
/// with no sorting and no deduplication; empty when there are none.
pub open spec fn join_commas(alts: Seq<Seq<u8>>) -> Seq<u8>
    decreases alts.len(),
{
    if alts.len() == 0 {
        Seq::empty()
    } else if alts.len() == 1 {
        alts[0]
    } else {
        join_commas(alts.drop_last()) + seq![COMMA] + alts.last()
    }
}

/// All the record text that identifier derivation reads is valid UTF-8.
pub open spec fn fields_decodable(chrom: Seq<u8>, refa: Seq<u8>, alts: Seq<Seq<u8>>) -> bool {
    &&& valid_utf8(chrom)
    &&& valid_utf8(refa)
    &&& forall|i: int| 0 <= i < alts.len() ==> valid_utf8(#[trigger] alts[i])
}

/// The identifier composed from the record fields, before hashing and
/// prefixing: chromosome, decimal position, reference allele and the joined
/// alternate alleles, separated by the delimiter.
pub open spec fn base_id(
    chrom: Seq<u8>,
    position: u64,
    refa: Seq<u8>,
    alts: Seq<Seq<u8>>,
    delim: Seq<u8>,
) -> Seq<u8> {
    chrom + delim + dec_digits(position as nat) + delim + refa + delim + join_commas(alts)
}

/// The candidate identifier: the composed identifier itself, or, in hash
/// mode, the first four bytes of its SHA-1 digest in lowercase hexadecimal.
pub open spec fn candidate_id(base: Seq<u8>, use_hash: bool) -> Seq<u8> {
    if use_hash {
        hex_encode(sha1_digest(base).take(4))
    } else {
        base
    }
}

/// The final identifier for the given record fields and configuration:
/// the prefix followed by the candidate identifier.
pub open spec fn derived_id(
    chrom: Seq<u8>,
    position: u64,
    refa: Seq<u8>,
    alts: Seq<Seq<u8>>,
    config: &Config,
) -> Seq<u8> {
    config.prefix@ + candidate_id(
        base_id(chrom, position, refa, alts, config.delimiter@),
        config.use_hash,
    )
}

/// Law: identifier derivation is deterministic. Two configurations that
/// agree on delimiter, hash mode and prefix yield the same identifier for
/// the same record fields.
pub proof fn lemma_derived_id_deterministic(
    chrom: Seq<u8>,
    position: u64,
    refa: Seq<u8>,
    alts: Seq<Seq<u8>>,
    c1: &Config,
    c2: &Config,
)
    requires
        c1.delimiter@ == c2.delimiter@,
        c1.use_hash == c2.use_hash,
        c1.prefix@ == c2.prefix@,
    ensures
        derived_id(chrom, position, refa, alts, c1) == derived_id(chrom, position, refa, alts, c2),
{
}

/// Appends all of `src` to `dst`.
fn push_bytes(dst: &mut Vec<u8>, src: &Vec<u8>)
    ensures
        final(dst)@ == old(dst)@ + src@,
{
    proof {
        assert(dst@ + src@.take(0) =~= dst@);
    }
    let mut j: usize = 0;
    while j < src.len()
        invariant
            j <= src@.len(),
            dst@ == old(dst)@ + src@.take(j as int),
        decreases src@.len() - j,
    {
        dst.push(src[j]);
        proof {
            assert(old(dst)@ + src@.take(j + 1) =~= (old(dst)@ + src@.take(j as int)).push(
                src@[j as int],
            ));
        }
        j = j + 1;
    }
    proof {
        assert(old(dst)@ + src@.take(src@.len() as int) =~= old(dst)@ + src@);
    }
}

/// The sequence of byte sequences a list of alleles stands for.
proof fn lemma_deep_view_index(alts: &Vec<Vec<u8>>, i: int)
    requires
        0 <= i < alts@.len(),
    ensures
        alts.deep_view().len() == alts@.len(),
        alts.deep_view()[i] == alts@[i]@,
{
    assert(alts@[i].deep_view() =~= alts@[i]@);
}

/// Joins the alternate alleles with a literal comma, in the order given.
pub fn join_alternatives(alts: &Vec<Vec<u8>>) -> (r: Vec<u8>)
    ensures
        r@ == join_commas(alts.deep_view()),
{
    let ghost s = alts.deep_view();
    let mut r: Vec<u8> = Vec::new();
    proof {
        assert(r@ =~= join_commas(s.take(0)));
    }
    let mut i: usize = 0;
    while i < alts.len()
        invariant
            i <= alts@.len(),
            s == alts.deep_view(),
            s.len() == alts@.len(),
            r@ == join_commas(s.take(i as int)),
        decreases alts@.len() - i,
    {
        if i > 0 {
            r.push(COMMA);
        }
        push_bytes(&mut r, &alts[i]);
        proof {
            lemma_deep_view_index(alts, i as int);
            let t = s.take(i + 1);
            assert(t.last() == s[i as int]);
            if i == 0 {
                assert(r@ =~= join_commas(t));
            } else {
                assert(t.drop_last() =~= s.take(i as int));
                assert(r@ =~= join_commas(s.take(i as int)) + seq![COMMA] + s[i as int]);
                assert(r@ =~= join_commas(t));
            }
        }
        i = i + 1;
    }
    proof {
        assert(s.take(s.len() as int) =~= s);
    }
    r
}

/// Derives the identifier for one record's fields under `config`.
///
/// Succeeds exactly when the chromosome, the reference allele and every
/// alternate allele are valid UTF-8; the identifier is then the prefixed
/// candidate identifier. In hash mode the candidate is always eight
/// lowercase hexadecimal digits.
pub fn derive_id(
    chromosome: &Vec<u8>,
    position: u64,
    reference: &Vec<u8>,
    alternative: &Vec<Vec<u8>>,
    config: &Config,
) -> (r: Result<Vec<u8>, DecodingError>)
    ensures
        match r {
            Ok(id) => {
                &&& fields_decodable(chromosome@, reference@, alternative.deep_view())
                &&& id@ == derived_id(
                    chromosome@,
                    position,
                    reference@,
                    alternative.deep_view(),
                    config,
                )
                &&& config.use_hash ==> {
                    &&& id@.len() == config.prefix@.len() + 8
                    &&& forall|i: int|
                        config.prefix@.len() <= i < id@.len() ==> is_lower_hex_digit(
                            #[trigger] id@[i],
                        )
                }
            },
            Err(_) => !fields_decodable(chromosome@, reference@, alternative.deep_view()),
        },
{
    let ghost alts = alternative.deep_view();
    if !crate::text::is_valid_utf8(chromosome) {
        return Err(DecodingError);
    }
    if !crate::text::is_valid_utf8(reference) {
        return Err(DecodingError);
    }
    let mut k: usize = 0;
    while k < alternative.len()
        invariant
            k <= alternative@.len(),
            alts == alternative.deep_view(),
            alts.len() == alternative@.len(),
            forall|j: int| 0 <= j < k ==> valid_utf8(#[trigger] alts[j]),
        decreases alternative@.len() - k,
    {
        proof {
            lemma_deep_view_index(alternative, k as int);
        }
        if !crate::text::is_valid_utf8(&alternative[k]) {
            proof {
                assert(!valid_utf8(alts[k as int]));
            }
            return Err(DecodingError);
        }
        k = k + 1;
    }

    let mut base: Vec<u8> = Vec::new();
    push_bytes(&mut base, chromosome);
    push_bytes(&mut base, &config.delimiter);
    let pos_digits = u64_to_dec(position);
    push_bytes(&mut base, &pos_digits);
    push_bytes(&mut base, &config.delimiter);
    push_bytes(&mut base, reference);
    push_bytes(&mut base, &config.delimiter);
    let joined = join_alternatives(alternative);
    push_bytes(&mut base, &joined);
    proof {
        assert(base@ =~= base_id(chromosome@, position, reference@, alts, config.delimiter@));
    }
    let ghost base_view = base@;

    let candidate: Vec<u8> = if config.use_hash {
        let digest = sha1_of(&base);
        let hexed = hex_encode_prefix(&digest, 4);
        proof {
            assert(digest@.take(4) =~= sha1_digest(base_view).take(4));
            lemma_hex_encode_shape(sha1_digest(base_view).take(4));
        }
        hexed
    } else {
        base
    };
    proof {
        assert(candidate@ == candidate_id(base_view, config.use_hash));
    }

    let mut id: Vec<u8> = Vec::new();
    push_bytes(&mut id, &config.prefix);
    push_bytes(&mut id, &candidate);
    proof {
        assert(id@ =~= derived_id(chromosome@, position, reference@, alts, config));
        if config.use_hash {
            assert(sha1_digest(base_view).take(4).len() == 4);
            assert(candidate@.len() == 8);
            assert forall|i: int|
                config.prefix@.len() <= i < id@.len() implies is_lower_hex_digit(
                #[trigger] id@[i],
            ) by {
                assert(id@[i] == candidate@[i - config.prefix@.len()]);
            }
        }
    }
    Ok(id)
}

} // verus!
