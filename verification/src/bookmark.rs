//! The record model: the source bookmark shape, the destination
//! bookmark shape, and the per-record transform between them.
use vstd::prelude::*;
use vstd::string::StringExecFns;
use crate::text::clean_text;
use crate::text::clean_description_text;

verus! {

/// One entry exported from the source service. The source schema names
/// its fields differently: `href` is the url, `description` is the
/// title, `time` is the creation timestamp, and `extended` is the free
/// text description. The `created` value is stored unvalidated.
#[derive(Clone, Debug)]
pub struct PinboardBookmark {
    pub url: String,
    pub title: String,
    pub created: String,
    pub description: String,
    pub tags: String,
}

/// One record ready for import into the destination service. It only
/// comes into being when its `created` value was re-validated as an
/// RFC 3339 timestamp by the transform.
#[derive(Clone, Debug)]
pub struct RaindropBookmark {
    pub url: String,
    pub folder: String,
    pub title: String,
    pub description: String,
    pub tags: String,
    pub created: String,
}

/// The one record-level failure: the `created` value did not parse as
/// an RFC 3339 timestamp. It is isolated to its record and never
/// aborts the run.
#[derive(Clone, Copy, Debug, PartialEq, Eq, Structural)]
pub enum TransformError {
    InvalidTimestamp,
}

/// Whether a string is a syntactically valid RFC 3339 date-and-time.
/// The parser decides this from the characters alone.
pub uninterp spec fn rfc3339_ok(s: Seq<char>) -> bool;

/// Relies on chrono's DateTime::parse_from_rfc3339: it parses all
/// valid RFC 3339 date-and-time values and rejects the rest, judging
/// from the characters of its argument alone.
#[verifier::external_body]
fn rfc3339_parses(s: &str) -> (r: bool)
    ensures
        r == rfc3339_ok(s@),
{
    chrono::DateTime::parse_from_rfc3339(s).is_ok()
}

/// The tag string after augmentation: the user tags, when present,
/// appended after a single space; no deduplication, no sorting.
pub open spec fn augmented_tags(tags: Seq<char>, user: Option<Seq<char>>) -> Seq<char> {
    match user {
        Option::None => tags,
        Option::Some(u) => tags + seq![' '] + u,
    }
}

/// The view of an optional user tag string.
pub open spec fn opt_text(o: &Option<String>) -> Option<Seq<char>> {
    match o {
        Option::None => Option::None,
        Option::Some(s) => Option::Some(s@),
    }
}

/// The destination record `out` is exactly what transforming `bm` with
/// this configuration must produce: url, title and created copied
/// verbatim, the folder set to the run-wide value, the description
/// cleaned only when cleaning is enabled, and the tags augmented.
pub open spec fn converted(
    bm: PinboardBookmark,
    folder: Seq<char>,
    user: Option<Seq<char>>,
    clean: bool,
    out: RaindropBookmark,
) -> bool {
    &&& out.url@ == bm.url@
    &&& out.folder@ == folder
    &&& out.title@ == bm.title@
    &&& out.description@ == (if clean {
        clean_text(bm.description@)
    } else {
        bm.description@
    })
    &&& out.tags@ == augmented_tags(bm.tags@, user)
    &&& out.created@ == bm.created@
}

/// The full contract of transforming one record: it succeeds exactly
/// when the `created` value is valid RFC 3339, a success is the
/// converted record, and a failure is the invalid-timestamp error.
pub open spec fn transform_rel(
    bm: PinboardBookmark,
    folder: Seq<char>,
    user: Option<Seq<char>>,
    clean: bool,
    r: Result<RaindropBookmark, TransformError>,
) -> bool {
    &&& (r is Ok <==> rfc3339_ok(bm.created@))
    &&& (r is Ok ==> converted(bm, folder, user, clean, r->Ok_0))
    &&& (r is Err ==> r->Err_0 == TransformError::InvalidTimestamp)
}

impl PinboardBookmark {
    /// Appends the user-supplied tags, when given, to the record's tag
    /// string after a single space; with no user tags the tag string
    /// passes through unchanged.
    pub fn tag(tags: &str, user_tags: &Option<String>) -> (r: String)
        ensures
            r@ == augmented_tags(tags@, opt_text(user_tags)),
    {
        match user_tags {
            Option::None => tags.to_owned(),
            Option::Some(t) => {
                let mut s = tags.to_owned();
                s.append(" ");
                s.append(t.as_str());
                proof {
                    reveal_strlit(" ");
                    assert(" "@ =~= seq![' ']);
                }
                s
            },
        }
    }

    /// Collapses the line breaks of a description: each line is
    /// trimmed of surrounding whitespace, lines left empty are
    /// dropped, and the rest are joined by single spaces.
    pub fn clean_description(desc: &str) -> (r: String)
        ensures
            r@ == clean_text(desc@),
    {
        clean_description_text(desc)
    }

    /// Transforms one source record into a destination record, or
    /// fails for this record alone. The `created` value must parse as
    /// RFC 3339; a success carries it verbatim, with the configured
    /// folder, the optionally cleaned description, and the augmented
    /// tags.
    pub fn into_raindrop(
        self,
        folder: &str,
        user_tags: &Option<String>,
        clean_description: &bool,
    ) -> (r: Result<RaindropBookmark, TransformError>)
        ensures
            transform_rel(self, folder@, opt_text(user_tags), *clean_description, r),
    {
        if !rfc3339_parses(self.created.as_str()) {
            return Err(TransformError::InvalidTimestamp);
        }
        let description = if *clean_description {
            Self::clean_description(self.description.as_str())
        } else {
            self.description
        };
        Ok(
            RaindropBookmark {
                url: self.url,
                folder: folder.to_owned(),
                title: self.title,
                description,
                tags: Self::tag(self.tags.as_str(), user_tags),
                created: self.created,
            },
        )
    }
}

} // verus!
