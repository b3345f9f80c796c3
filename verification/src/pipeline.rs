//! The transformer applied across a fetched collection, and the
//! aggregator that partitions the per-record results into an ordered
//! sequence of successes and a count of failures.
use vstd::prelude::*;
use crate::bookmark::PinboardBookmark;
use crate::bookmark::RaindropBookmark;
use crate::bookmark::TransformError;
use crate::bookmark::opt_text;
use crate::bookmark::transform_rel;
use crate::bookmark::converted;
use crate::bookmark::rfc3339_ok;

verus! {

/// The successful destination records of a result sequence, in their
/// original relative order.
pub open spec fn oks_of(rs: Seq<Result<RaindropBookmark, TransformError>>) -> Seq<
    RaindropBookmark,
>
    decreases rs.len(),
{
    if rs.len() == 0 {
        Seq::empty()
    } else {
        let rest = oks_of(rs.drop_last());
        if rs.last() is Ok {
            rest.push(rs.last()->Ok_0)
        } else {
            rest
        }
    }
}

/// How many results of the sequence are failures.
pub open spec fn err_count(rs: Seq<Result<RaindropBookmark, TransformError>>) -> nat
    decreases rs.len(),
{
    if rs.len() == 0 {
        0
    } else {
        err_count(rs.drop_last()) + if rs.last() is Err {
            1nat
        } else {
            0nat
        }
    }
}

/// The source records whose `created` value is valid RFC 3339, in
/// their original relative order: exactly the ones the transform
/// keeps.
pub open spec fn kept(bms: Seq<PinboardBookmark>) -> Seq<PinboardBookmark>
    decreases bms.len(),
{
    if bms.len() == 0 {
        Seq::empty()
    } else {
        let rest = kept(bms.drop_last());
        if rfc3339_ok(bms.last().created@) {
            rest.push(bms.last())
        } else {
            rest
        }
    }
}

/// How many source records have an invalid `created` value: exactly
/// the ones the transform drops and counts as failures.
pub open spec fn invalid_count(bms: Seq<PinboardBookmark>) -> nat
    decreases bms.len(),
{
    if bms.len() == 0 {
        0
    } else {
        invalid_count(bms.drop_last()) + if rfc3339_ok(bms.last().created@) {
            0nat
        } else {
            1nat
        }
    }
}

/// Every source record is either kept or counted as a failure: the
/// kept records and the invalid records together account for the whole
/// collection.
pub proof fn lemma_kept_invalid_total(bms: Seq<PinboardBookmark>)
    ensures
        kept(bms).len() + invalid_count(bms) == bms.len(),
    decreases bms.len(),
{
    if bms.len() > 0 {
        lemma_kept_invalid_total(bms.drop_last());
    }
}

/// The folder field of every output record of a run equals the
/// configured folder value, regardless of the record's own content.
pub proof fn lemma_folder_uniform(
    bms: Seq<PinboardBookmark>,
    folder: Seq<char>,
    user: Option<Seq<char>>,
    clean: bool,
    outs: Seq<RaindropBookmark>,
)
    requires
        outs.len() == kept(bms).len(),
        forall|i: int| 0 <= i < outs.len() ==> converted(kept(bms)[i], folder, user, clean, outs[i]),
    ensures
        forall|i: int| 0 <= i < outs.len() ==> outs[i].folder@ == folder,
{
}

/// A result sequence that relates pointwise to its source records
/// partitions the same way the sources do: the successes are the
/// converted forms of the kept records, in order, and the failure
/// count is the number of invalid records.
pub proof fn lemma_partition_matches_sources(
    bms: Seq<PinboardBookmark>,
    rs: Seq<Result<RaindropBookmark, TransformError>>,
    folder: Seq<char>,
    user: Option<Seq<char>>,
    clean: bool,
)
    requires
        rs.len() == bms.len(),
        forall|i: int| 0 <= i < rs.len() ==> transform_rel(bms[i], folder, user, clean, rs[i]),
    ensures
        oks_of(rs).len() == kept(bms).len(),
        forall|i: int|
            0 <= i < oks_of(rs).len() ==> converted(kept(bms)[i], folder, user, clean, oks_of(rs)[i]),
        err_count(rs) == invalid_count(bms),
    decreases bms.len(),
{
    if bms.len() > 0 {
        let bh = bms.drop_last();
        let rh = rs.drop_last();
        assert(forall|i: int|
            0 <= i < rh.len() ==> rh[i] == rs[i] && bh[i] == bms[i] && transform_rel(
                bh[i],
                folder,
                user,
                clean,
                rh[i],
            ));
        lemma_partition_matches_sources(bh, rh, folder, user, clean);
        assert(transform_rel(bms.last(), folder, user, clean, rs.last()));
        if rs.last() is Ok {
            assert(oks_of(rs) == oks_of(rh).push(rs.last()->Ok_0));
            assert(kept(bms) == kept(bh).push(bms.last()));
            assert(forall|i: int|
                0 <= i < oks_of(rh).len() ==> oks_of(rs)[i] == oks_of(rh)[i] && kept(bms)[i]
                    == kept(bh)[i]);
            assert(oks_of(rs)[oks_of(rs).len() - 1] == rs.last()->Ok_0);
            assert(kept(bms)[kept(bms).len() - 1] == bms.last());
        }
    }
}

/// Transforms every fetched record independently, in order: element
/// `i` of the result is exactly the outcome of transforming source
/// record `i` with this configuration.
pub fn transform_all(
    bookmarks: Vec<PinboardBookmark>,
    folder: &str,
    user_tags: &Option<String>,
    clean_description: &bool,
) -> (r: Vec<Result<RaindropBookmark, TransformError>>)
    ensures
        r@.len() == bookmarks@.len(),
        forall|i: int|
            0 <= i < r@.len() ==> transform_rel(
                bookmarks@[i],
                folder@,
                opt_text(user_tags),
                *clean_description,
                r@[i],
            ),
{
    let ghost orig = bookmarks@;
    let mut bookmarks = bookmarks;
    let mut results: Vec<Result<RaindropBookmark, TransformError>> = Vec::new();
    while bookmarks.len() > 0
        invariant
            orig.len() == results@.len() + bookmarks@.len(),
            bookmarks@ == orig.skip(results@.len() as int),
            forall|i: int|
                0 <= i < results@.len() ==> transform_rel(
                    orig[i],
                    folder@,
                    opt_text(user_tags),
                    *clean_description,
                    results@[i],
                ),
        decreases bookmarks@.len(),
    {
        let ghost done = results@.len() as int;
        let bm = bookmarks.remove(0);
        assert(bm == orig[done]);
        assert(bookmarks@ =~= orig.skip(done + 1));
        let r = bm.into_raindrop(folder, user_tags, clean_description);
        results.push(r);
    }
    assert(orig.skip(results@.len() as int).len() == 0);
    results
}

/// Splits the per-record results into the ordered successes and the
/// number of failures. The failed records contribute only to the
/// count; their details are discarded.
pub fn partition_results(results: Vec<Result<RaindropBookmark, TransformError>>) -> (r: (
    Vec<RaindropBookmark>,
    usize,
))
    ensures
        r.0@ == oks_of(results@),
        r.1 == err_count(results@),
{
    let ghost orig = results@;
    let mut results = results;
    // a Vec never holds more than usize::MAX elements
    let total = results.len();
    assert(orig.len() == total);
    let mut oks: Vec<RaindropBookmark> = Vec::new();
    let mut n_err: usize = 0;
    let ghost mut done: int = 0;
    while results.len() > 0
        invariant
            orig.len() <= usize::MAX,
            0 <= done <= orig.len(),
            done + results@.len() == orig.len(),
            results@ == orig.skip(done),
            oks@ == oks_of(orig.take(done)),
            n_err == err_count(orig.take(done)),
            n_err <= done,
        decreases results@.len(),
    {
        let r = results.remove(0);
        assert(r == orig[done]);
        assert(results@ =~= orig.skip(done + 1));
        proof {
            assert(orig.take(done + 1).drop_last() =~= orig.take(done));
            assert(orig.take(done + 1).last() == orig[done]);
        }
        match r {
            Result::Ok(bm) => {
                oks.push(bm);
            },
            Result::Err(_) => {
                n_err = n_err + 1;
            },
        }
        proof {
            done = done + 1;
        }
    }
    assert(orig.take(done) =~= orig);
    (oks, n_err)
}

/// The compute core of one run after the fetch: transforms every
/// record, keeps the successes in order, and counts the failures.
pub fn run_pipeline(
    bookmarks: Vec<PinboardBookmark>,
    folder: &str,
    user_tags: &Option<String>,
    clean_description: &bool,
) -> (r: (Vec<RaindropBookmark>, usize))
    ensures
        r.0@.len() == kept(bookmarks@).len(),
        forall|i: int|
            0 <= i < r.0@.len() ==> converted(
                kept(bookmarks@)[i],
                folder@,
                opt_text(user_tags),
                *clean_description,
                r.0@[i],
            ),
        r.1 == invalid_count(bookmarks@),
        r.0@.len() + r.1 == bookmarks@.len(),
{
    let ghost bms = bookmarks@;
    let results = transform_all(bookmarks, folder, user_tags, clean_description);
    proof {
        lemma_partition_matches_sources(
            bms,
            results@,
            folder@,
            opt_text(user_tags),
            *clean_description,
        );
        lemma_kept_invalid_total(bms);
    }
    partition_results(results)
}

} // verus!
