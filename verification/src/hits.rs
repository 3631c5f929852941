//! Documents handed to the index and search hits handed back.
//!
//! `DocFromIndex` carries the raw stored fields of one engine hit;
//! `decode_hit` turns it into a `DocFromIndexOuter` or rejects it as a
//! per-hit defect, and `assemble_hits` decodes a retrieved batch, skips the
//! defective hits and re-ranks the rest by creation time, newest first.

use vstd::prelude::*;

use crate::codec::{is_uuid_str, is_uuid_text, parse_timestamp, spec_parse_timestamp};

verus! {

/// Why a query produced no result set. A query that merely matches nothing
/// succeeds with an empty result; these are failures.
#[derive(Debug, PartialEq, Eq)]
pub enum QueryError {
    /// The query text does not parse under the engine's query syntax.
    ParseFailed,
    /// The engine failed while searching or while fetching a stored hit.
    EngineFailed,
}

/// A document as the owning application hands it in for indexing.
#[derive(Debug)]
pub struct Doc2Index {
    pub article_id: String,
    pub created_time: i64,
    pub title: String,
    pub content: String,
}

/// The raw stored fields of one hit as the engine returns them; a field the
/// stored document lacks is absent.
#[derive(Debug)]
pub struct DocFromIndex {
    pub article_id: Option<String>,
    pub created_time: Option<String>,
    pub title: Option<String>,
}

/// One decoded search hit, ready for presentation.
#[derive(Debug, PartialEq)]
pub struct DocFromIndexOuter {
    pub article_id: String,
    pub title: String,
    pub created_time: i64,
}

/// Decoding a raw hit succeeds exactly when all three stored fields are
/// present, the identifier has the stored hyphenated form and the timestamp
/// string parses; the hit then carries the parsed values.
pub open spec fn spec_decode_hit(raw: DocFromIndex) -> Option<DocFromIndexOuter> {
    match (raw.article_id, raw.created_time, raw.title) {
        (Some(id), Some(ts), Some(title)) => {
            if is_uuid_text(id@) {
                match spec_parse_timestamp(ts@) {
                    Some(t) => Some(
                        DocFromIndexOuter { article_id: id, title: title, created_time: t },
                    ),
                    None => None,
                }
            } else {
                None
            }
        },
        _ => None,
    }
}

/// Decode one raw hit, or reject it as defective.
pub fn decode_hit(raw: &DocFromIndex) -> (r: Option<DocFromIndexOuter>)
    ensures
        r == spec_decode_hit(*raw),
{
    match (&raw.article_id, &raw.created_time, &raw.title) {
        (Some(id), Some(ts), Some(title)) => {
            if is_uuid_str(id.as_str()) {
                match parse_timestamp(ts.as_str()) {
                    Some(t) => Some(
                        DocFromIndexOuter {
                            article_id: id.clone(),
                            title: title.clone(),
                            created_time: t,
                        },
                    ),
                    None => None,
                }
            } else {
                None
            }
        },
        _ => None,
    }
}

/// The codec round-trip law: a document whose identifier has the stored
/// hyphenated form, once encoded into stored fields — identifier and title
/// verbatim, timestamp as its decimal string — decodes back to a hit
/// carrying exactly the document's identifier, title and timestamp.
/// The content field is write-only and takes no part in decoding.
pub proof fn lemma_hit_decode_round_trip(doc: Doc2Index, raw: DocFromIndex)
    requires
        is_uuid_text(doc.article_id@),
        raw.article_id == Some(doc.article_id),
        raw.created_time matches Some(ts) && ts@ == crate::codec::spec_encode_timestamp(
            doc.created_time as int,
        ),
        raw.title == Some(doc.title),
    ensures
        spec_decode_hit(raw) == Some(
            (DocFromIndexOuter {
                article_id: doc.article_id,
                title: doc.title,
                created_time: doc.created_time,
            }),
        ),
{
    crate::codec::lemma_timestamp_round_trip(doc.created_time);
}

/// Entries come newest first: creation times never increase along the
/// sequence.
pub open spec fn sorted_by_time_desc(s: Seq<DocFromIndexOuter>) -> bool {
    forall|i: int, j: int|
        0 <= i <= j < s.len() ==> #[trigger] s[i].created_time >= #[trigger] s[j].created_time
}

/// The hits that survive decoding a batch of raw hits, in retrieval order.
pub open spec fn spec_decoded_hits(raws: Seq<DocFromIndex>) -> Seq<DocFromIndexOuter>
    decreases raws.len(),
{
    if raws.len() == 0 {
        Seq::empty()
    } else {
        spec_decoded_hits(raws.drop_last()) + (match spec_decode_hit(raws.last()) {
            Some(h) => seq![h],
            None => Seq::<DocFromIndexOuter>::empty(),
        })
    }
}

pub proof fn lemma_decoded_len_le(raws: Seq<DocFromIndex>)
    ensures
        spec_decoded_hits(raws).len() <= raws.len(),
    decreases raws.len(),
{
    if raws.len() > 0 {
        lemma_decoded_len_le(raws.drop_last());
    }
}

/// Re-rank a retrieved batch by creation time, newest first. The result is
/// a permutation of the input.
pub fn sort_hits_desc(hits: Vec<DocFromIndexOuter>) -> (r: Vec<DocFromIndexOuter>)
    ensures
        r@.to_multiset() == hits@.to_multiset(),
        sorted_by_time_desc(r@),
        r@.len() == hits@.len(),
{
    broadcast use vstd::seq_lib::group_to_multiset_ensures;

    let mut rest = hits;
    let mut out: Vec<DocFromIndexOuter> = Vec::new();
    while rest.len() > 0
        invariant
            out@.to_multiset().add(rest@.to_multiset()) =~= hits@.to_multiset(),
            out@.len() + rest@.len() == hits@.len(),
            sorted_by_time_desc(out@),
            forall|k: int|
                0 <= k < rest@.len() && out@.len() > 0 ==> out@.last().created_time
                    >= #[trigger] rest@[k].created_time,
        decreases rest@.len(),
    {
        let ghost rest0 = rest@;
        let ghost out0 = out@;
        let mut best: usize = 0;
        let mut j: usize = 1;
        while j < rest.len()
            invariant
                rest@ == rest0,
                rest@.len() > 0,
                best < j <= rest@.len(),
                forall|k: int|
                    0 <= k < j ==> rest@[best as int].created_time
                        >= #[trigger] rest@[k].created_time,
            decreases rest@.len() - j,
        {
            if rest[j].created_time > rest[best].created_time {
                best = j;
            }
            j = j + 1;
        }
        let x = rest.remove(best);
        proof {
            broadcast use vstd::seq_lib::group_to_multiset_ensures;

            assert(x == rest0[best as int]);
            assert(rest@ =~= rest0.remove(best as int));
            assert(rest@.to_multiset() =~= rest0.to_multiset().remove(x));
            assert(rest0.to_multiset().count(x) > 0) by {
                assert(rest0.contains(x));
            }
            assert forall|k: int|
                0 <= k < rest@.len() implies x.created_time
                >= #[trigger] rest@[k].created_time by {
                if k < best {
                    assert(rest@[k] == rest0[k]);
                } else {
                    assert(rest@[k] == rest0[k + 1]);
                }
            }
        }
        out.push(x);
        proof {
            assert(out@ =~= out0.push(x));
            assert(out@.to_multiset() =~= out0.to_multiset().insert(x));
            assert(out@.to_multiset().add(rest@.to_multiset()) =~= hits@.to_multiset());
            assert forall|i: int, j2: int|
                0 <= i <= j2 < out@.len() implies #[trigger] out@[i].created_time
                >= #[trigger] out@[j2].created_time by {
                if j2 < out@.len() - 1 {
                    assert(out@[i] == out0[i] && out@[j2] == out0[j2]);
                } else if i < out@.len() - 1 {
                    assert(out@[i] == out0[i]);
                    assert(out@[j2] == x);
                    if out0.len() > 0 {
                        assert(out0.last().created_time >= x.created_time);
                        assert(out0[i].created_time >= out0.last().created_time);
                    }
                }
            }
        }
    }
    out
}

/// Decode a retrieved batch, skip defective hits, and return the survivors
/// ordered by creation time, newest first.
pub fn assemble_hits(raws: &Vec<DocFromIndex>) -> (r: Vec<DocFromIndexOuter>)
    ensures
        r@.to_multiset() == spec_decoded_hits(raws@).to_multiset(),
        r@.len() == spec_decoded_hits(raws@).len(),
        sorted_by_time_desc(r@),
        r@.len() <= raws@.len(),
{
    let mut decoded: Vec<DocFromIndexOuter> = Vec::new();
    let n = raws.len();
    let mut i: usize = 0;
    while i < n
        invariant
            i <= n,
            n == raws@.len(),
            decoded@ == spec_decoded_hits(raws@.subrange(0, i as int)),
        decreases n - i,
    {
        proof {
            assert(raws@.subrange(0, i + 1).drop_last() =~= raws@.subrange(0, i as int));
            assert(raws@.subrange(0, i + 1).last() == raws@[i as int]);
        }
        match decode_hit(&raws[i]) {
            Some(h) => {
                decoded.push(h);
                assert(decoded@ =~= spec_decoded_hits(raws@.subrange(0, i + 1)));
            },
            None => {
                assert(decoded@ =~= spec_decoded_hits(raws@.subrange(0, i + 1)));
            },
        }
        i = i + 1;
    }
    proof {
        assert(raws@.subrange(0, n as int) =~= raws@);
        lemma_decoded_len_le(raws@);
    }
    sort_hits_desc(decoded)
}

} // verus!
