//! The record-level rewrite: install the derived identifier in place.

use vstd::prelude::*;
use crate::ids::{Config, DecodingError, derive_id, derived_id, fields_decodable};

verus! {

/// One variant record, reduced to the fields that identifier derivation
/// reads and writes. Every other column of a record is opaque to this
/// library and is carried unchanged by its callers.
pub struct VariantRecord {
    /// Contig name; bytes of UTF-8 text.
    pub chromosome: Vec<u8>,
    /// 1-based coordinate on the contig.
    pub position: u64,
    /// The record's identifiers; replaced by `rewrite_id`.
    pub id: Vec<Vec<u8>>,
    /// Reference allele; bytes of UTF-8 text.
    pub reference: Vec<u8>,
    /// Alternate alleles in order; each bytes of UTF-8 text.
    pub alternative: Vec<Vec<u8>>,
}

/// All the text of `record` that identifier derivation reads is valid UTF-8.
pub open spec fn record_decodable(record: VariantRecord) -> bool {
    fields_decodable(record.chromosome@, record.reference@, record.alternative.deep_view())
}

/// The identifier that `record` receives under `config`.
pub open spec fn record_derived_id(record: VariantRecord, config: &Config) -> Seq<u8> {
    derived_id(
        record.chromosome@,
        record.position,
        record.reference@,
        record.alternative.deep_view(),
        config,
    )
}

/// `after` is `before` with its derived identifier installed: the sole ID is
/// the identifier derived from `before`'s fields, and every other field is
/// unchanged.
pub open spec fn rewritten(after: VariantRecord, before: VariantRecord, config: &Config) -> bool {
    &&& after.chromosome == before.chromosome
    &&& after.position == before.position
    &&& after.reference == before.reference
    &&& after.alternative == before.alternative
    &&& after.id.deep_view() == seq![record_derived_id(before, config)]
}

/// Every record in the sequence has only valid UTF-8 in the fields that
/// identifier derivation reads.
pub open spec fn all_decodable(records: Seq<VariantRecord>) -> bool {
    forall|i: int| 0 <= i < records.len() ==> record_decodable(#[trigger] records[i])
}

/// Derives the identifier for `record` under `config` and installs it as the
/// record's sole ID, discarding any prior IDs. Every field other than the ID
/// is left unchanged. When some text field is not valid UTF-8, the record is
/// returned unchanged and the error says so.
pub fn rewrite_id(record: &mut VariantRecord, config: &Config) -> (r: Result<(), DecodingError>)
    ensures
        final(record).chromosome == old(record).chromosome,
        final(record).position == old(record).position,
        final(record).reference == old(record).reference,
        final(record).alternative == old(record).alternative,
        match r {
            Ok(()) => {
                &&& record_decodable(*old(record))
                &&& rewritten(*final(record), *old(record), config)
            },
            Err(_) => {
                &&& !record_decodable(*old(record))
                &&& final(record).id == old(record).id
            },
        },
{
    match derive_id(
        &record.chromosome,
        record.position,
        &record.reference,
        &record.alternative,
        config,
    ) {
        Ok(new_id) => {
            let ghost new_id_view = new_id@;
            let mut ids: Vec<Vec<u8>> = Vec::new();
            ids.push(new_id);
            record.id = ids;
            proof {
                assert(record.id@[0].deep_view() =~= new_id_view);
                assert(record.id.deep_view() =~= seq![record_derived_id(*old(record), config)]);
            }
            Ok(())
        },
        Err(e) => Err(e),
    }
}

/// Rewrites the IDs of a whole batch of records, in order, failing fast at
/// the first record whose text is not valid UTF-8, as the stream transform
/// does.
///
/// Succeeds exactly when every record is decodable; the output then holds
/// exactly as many records as the input, in the same order, each with its
/// derived identifier installed and every other field unchanged.
#[verifier::loop_isolation(false)]
pub fn rewrite_all(records: Vec<VariantRecord>, config: &Config) -> (r: Result<
    Vec<VariantRecord>,
    DecodingError,
>)
    ensures
        match r {
            Ok(out) => {
                &&& all_decodable(records@)
                &&& out@.len() == records@.len()
                &&& forall|i: int|
                    0 <= i < records@.len() ==> rewritten(#[trigger] out@[i], records@[i], config)
            },
            Err(_) => !all_decodable(records@),
        },
{
    let ghost orig = records@;
    let mut input = records;
    let mut out: Vec<VariantRecord> = Vec::new();
    proof {
        assert(input@ =~= orig.subrange(0, orig.len() as int));
    }
    while input.len() > 0
        invariant
            out@.len() + input@.len() == orig.len(),
            input@ == orig.subrange(out@.len() as int, orig.len() as int),
            forall|j: int| 0 <= j < out@.len() ==> record_decodable(#[trigger] orig[j]),
            forall|j: int|
                0 <= j < out@.len() ==> rewritten(#[trigger] out@[j], orig[j], config),
        decreases input@.len(),
    {
        let ghost k = out@.len() as int;
        let mut rec = input.remove(0);
        proof {
            assert(rec == orig[k]);
        }
        let ghost before = rec;
        match rewrite_id(&mut rec, config) {
            Ok(()) => {
                let ghost prev = out@;
                out.push(rec);
                proof {
                    assert(input@ =~= orig.subrange(out@.len() as int, orig.len() as int));
                    assert forall|j: int|
                        0 <= j < out@.len() implies rewritten(
                        #[trigger] out@[j],
                        orig[j],
                        config,
                    ) by {
                        if j < k {
                            assert(out@[j] == prev[j]);
                            assert(rewritten(prev[j], orig[j], config));
                        } else {
                            assert(prev.len() == k);
                            assert(out@[j] == rec);
                            assert(before == orig[k]);
                            assert(rewritten(rec, before, config));
                        }
                    }
                    assert forall|j: int|
                        0 <= j < out@.len() implies record_decodable(#[trigger] orig[j]) by {
                        if j == k {
                            assert(record_decodable(before));
                        }
                    }
                }
            },
            Err(e) => {
                proof {
                    assert(0 <= k < orig.len());
                    assert(!record_decodable(orig[k]));
                    assert(!all_decodable(orig));
                }
                return Err(e);
            },
        }
    }
    Ok(out)
}

} // verus!
