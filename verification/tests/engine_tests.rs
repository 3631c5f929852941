//! Scenarios against the real engine over a fresh in-memory index.

use forum_search::hits::{Doc2Index, QueryError};
use forum_search::index::{init_in_ram, TantivyIndex};

const ID_A: &str = "00000000-0000-0000-0000-0000000000a1";
const ID_B: &str = "00000000-0000-0000-0000-0000000000b2";
const ID_C: &str = "00000000-0000-0000-0000-0000000000c3";
const ID_D: &str = "00000000-0000-0000-0000-0000000000d4";

fn doc(id: &str, time: i64, title: &str, content: &str) -> Doc2Index {
    Doc2Index {
        article_id: id.to_string(),
        created_time: time,
        title: title.to_string(),
        content: content.to_string(),
    }
}

fn fresh() -> TantivyIndex {
    init_in_ram().expect("in-memory index")
}

fn ids(index: &TantivyIndex, q: &str) -> Vec<String> {
    index
        .query(q)
        .expect("query")
        .into_iter()
        .map(|h| h.article_id)
        .collect()
}

#[test]
fn added_document_is_found_by_title_and_content_terms() {
    let mut index = fresh();
    index
        .add_doc(doc(ID_A, 100, "evening news", "market report"))
        .expect("add");
    assert!(ids(&index, "evening").contains(&ID_A.to_string()));
    assert!(ids(&index, "market").contains(&ID_A.to_string()));
}

#[test]
fn scenario_no_cross_contamination() {
    let mut index = fresh();
    index
        .add_doc(doc(ID_A, 100, "apple pie", "apple pie recipe"))
        .expect("add A");
    assert!(ids(&index, "apple").contains(&ID_A.to_string()));

    index
        .add_doc(doc(ID_B, 200, "banana", "banana bread"))
        .expect("add B");
    assert_eq!(ids(&index, "banana"), vec![ID_B.to_string()]);
    assert_eq!(ids(&index, "apple"), vec![ID_A.to_string()]);
}

#[test]
fn scenario_recency_order_within_window() {
    let mut index = fresh();
    index
        .add_doc(doc(ID_A, 100, "fruit basket", "fruit for sale"))
        .expect("add A");
    index
        .add_doc(doc(ID_B, 200, "fruit bowl", "fruit for sale"))
        .expect("add B");
    assert_eq!(ids(&index, "fruit"), vec![ID_B.to_string(), ID_A.to_string()]);
}

#[test]
fn hits_carry_stored_fields_back() {
    let mut index = fresh();
    index
        .add_doc(doc(ID_A, 1700000000, "evening news", "market report"))
        .expect("add");
    let hits = index.query("evening").expect("query");
    assert_eq!(hits.len(), 1);
    assert_eq!(hits[0].article_id, ID_A);
    assert_eq!(hits[0].title, "evening news");
    assert_eq!(hits[0].created_time, 1700000000);
}

#[test]
fn deleted_document_no_longer_matches() {
    let mut index = fresh();
    index
        .add_doc(doc(ID_C, 100, "garden", "cucumber salad"))
        .expect("add");
    assert_eq!(ids(&index, "cucumber"), vec![ID_C.to_string()]);
    index.delete_doc(ID_C).expect("delete");
    assert!(ids(&index, "cucumber").is_empty());
}

#[test]
fn updated_document_matches_new_content_only() {
    let mut index = fresh();
    index
        .add_doc(doc(ID_D, 100, "orchard", "dragonfruit harvest"))
        .expect("add");
    assert_eq!(ids(&index, "dragonfruit"), vec![ID_D.to_string()]);
    index
        .update_doc(doc(ID_D, 150, "orchard", "elderberry harvest"))
        .expect("update");
    assert_eq!(ids(&index, "elderberry"), vec![ID_D.to_string()]);
    assert!(ids(&index, "dragonfruit").is_empty());
}

#[test]
fn result_set_capped_at_fifty() {
    let mut index = fresh();
    for i in 0..60 {
        let id = format!("00000000-0000-0000-0000-0000000{:05}", i);
        index
            .add_doc(doc(&id, i as i64, "pantry", "fruit salad"))
            .expect("add");
    }
    let hits = index.query("fruit").expect("query");
    assert_eq!(hits.len(), 50);
    for w in hits.windows(2) {
        assert!(w[0].created_time >= w[1].created_time);
    }
}

#[test]
fn empty_query_yields_empty_result_without_error() {
    let mut index = fresh();
    index
        .add_doc(doc(ID_A, 100, "apple pie", "apple pie recipe"))
        .expect("add");
    assert_eq!(index.query("").expect("empty query"), Vec::new());
}

#[test]
fn unparsable_query_is_an_error_not_empty() {
    let index = fresh();
    let got = index.query("\"");
    assert_eq!(got, Err(QueryError::ParseFailed));
}

#[test]
fn cjk_text_is_searchable() {
    let mut index = fresh();
    index
        .add_doc(doc(ID_A, 100, "中文标题", "论坛搜索功能"))
        .expect("add");
    assert_eq!(ids(&index, "搜索"), vec![ID_A.to_string()]);
    assert_eq!(ids(&index, "标题"), vec![ID_A.to_string()]);
}

#[test]
fn query_matching_nothing_succeeds_empty() {
    let mut index = fresh();
    index
        .add_doc(doc(ID_A, 100, "apple pie", "apple pie recipe"))
        .expect("add");
    assert_eq!(index.query("zucchini").expect("query"), Vec::new());
}
