//! Batch assembly: guaranteeing a fixed-size batch of sentence pairs despite
//! an upstream corpus that may return fewer than requested.
//!
//! The boundary performs the actual fetches; this module decides whether a
//! supplemental fetch is owed and assembles the final batch from the results.
//! A failure of the primary fetch is fatal; a failure of the supplemental
//! fetch is swallowed and only shortens the batch.

use vstd::prelude::*;
use crate::sentence::Sentence;

verus! {

/// The number of sentence pairs a batch aims for.
pub const BATCH_TARGET: usize = 10;

/// Why a batch could not be fetched: a transport failure reaching the
/// corpus, or a response that does not decode to the expected record shape.
/// Each carries a human-readable description from the boundary.
#[derive(Debug)]
pub enum FetchError {
    Network(String),
    Decode(String),
}

/// After the primary fetch returned `count` sentences, exactly one
/// supplemental fetch is issued when the batch is still short.
pub fn needs_supplemental(count: usize) -> (b: bool)
    ensures
        b == (count < BATCH_TARGET),
{
    count < BATCH_TARGET
}

/// What the assembled batch owes: the primary failure if there was one;
/// otherwise the primary sentences, extended — when the primary fell short
/// and the supplemental fetch succeeded — by a prefix of the supplemental
/// sentences, in their original order, up to the batch target.
pub open spec fn batch_spec(
    primary: Result<Vec<Sentence>, FetchError>,
    supplemental: Option<Result<Vec<Sentence>, FetchError>>,
    r: Result<Vec<Sentence>, FetchError>,
) -> bool {
    match primary {
        Err(e) => r == Err::<Vec<Sentence>, FetchError>(e),
        Ok(p) => {
            if p@.len() >= BATCH_TARGET as nat {
                r == Ok::<Vec<Sentence>, FetchError>(p)
            } else {
                match supplemental {
                    Some(Ok(s)) => {
                        let need = BATCH_TARGET - p@.len();
                        let m = if need <= s@.len() {
                            need
                        } else {
                            s@.len() as int
                        };
                        &&& r is Ok
                        &&& r->Ok_0@ == p@ + s@.take(m)
                    },
                    _ => r == Ok::<Vec<Sentence>, FetchError>(p),
                }
            }
        },
    }
}

/// Assembles the final batch from the primary fetch's result and, when one
/// was issued, the supplemental fetch's result.
pub fn generate_sentences(
    primary: Result<Vec<Sentence>, FetchError>,
    supplemental: Option<Result<Vec<Sentence>, FetchError>>,
) -> (r: Result<Vec<Sentence>, FetchError>)
    ensures
        batch_spec(primary, supplemental, r),
{
    match primary {
        Err(e) => Err(e),
        Ok(mut p) => {
            if p.len() >= BATCH_TARGET {
                Ok(p)
            } else {
                match supplemental {
                    Some(Ok(mut s)) => {
                        let need = BATCH_TARGET - p.len();
                        let ghost olds = s@;
                        s.truncate(need);
                        proof {
                            if need as int <= olds.len() {
                                assert(s@ =~= olds.take(need as int));
                            } else {
                                assert(s@ =~= olds.take(olds.len() as int));
                            }
                        }
                        p.append(&mut s);
                        Ok(p)
                    },
                    _ => Ok(p),
                }
            }
        },
    }
}

} // verus!
