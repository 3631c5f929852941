//! The index handle and the operations the index owner applies to it.
//!
//! A `TantivyIndex` bundles the engine's schema, writer, reader and query
//! parser; it is created once and meant to be owned by a single task for
//! the life of the process. Mutations commit immediately and reload the
//! reader, so a query issued after a mutation returns observes its effect.

use vstd::prelude::*;

use crate::codec::encode_timestamp;
use crate::engine::{
    build_schema, commit_writer, create_index_in_ram, delete_term_text, doc_add_text,
    make_query_parser, make_reader, make_searcher, make_writer, new_document,
    open_or_create_index, register_tokenizer, reload_reader, search_top_stored, write_document,
    EngineWriter,
};
use crate::hits::{
    assemble_hits, sorted_by_time_desc, Doc2Index, DocFromIndexOuter, QueryError,
};

verus! {

/// A result set never exceeds this many entries: the retrieval window of
/// one query.
pub const MAX_RESULTS: usize = 50;

/// Memory budget, in bytes, handed to the engine's writer.
pub const WRITER_MEMORY_BUDGET: usize = 50 * 1024 * 1024;

/// Directory under which the persistent index lives.
pub const INDEX_DIR: &'static str = "search_index/";

/// Why the index could not be created or a mutation was not applied.
#[derive(Debug, PartialEq, Eq)]
pub enum IndexError {
    /// The persistent index could neither be opened nor created.
    OpenFailed,
    /// The engine refused to hand out a writer.
    WriterFailed,
    /// The engine refused to hand out a reader, or the reader failed to
    /// reload after a commit.
    ReaderFailed,
    /// A document could not be handed to the writer.
    WriteFailed,
    /// A commit failed; the pending writes are not durable.
    CommitFailed,
}

/// The engine handles, exclusively owned by the index owner.
pub struct TantivyIndex {
    pub schema: tantivy::schema::Schema,
    pub reader: tantivy::IndexReader,
    pub writer: EngineWriter,
    pub query_parser: tantivy::query::QueryParser,
    f_id: tantivy::schema::Field,
    f_time: tantivy::schema::Field,
    f_title: tantivy::schema::Field,
    f_content: tantivy::schema::Field,
}

fn finish_init(index: tantivy::Index, schema: tantivy::schema::Schema, f_id: tantivy::schema::Field, f_time: tantivy::schema::Field, f_title: tantivy::schema::Field, f_content: tantivy::schema::Field) -> (r: Result<TantivyIndex, IndexError>)
    ensures
        r matches Err(e) ==> e == IndexError::WriterFailed || e == IndexError::ReaderFailed,
{
    register_tokenizer(&index);
    let writer = match make_writer(&index, WRITER_MEMORY_BUDGET) {
        Ok(w) => w,
        Err(_) => {
            return Err(IndexError::WriterFailed);
        },
    };
    let reader = match make_reader(&index) {
        Ok(r) => r,
        Err(_) => {
            return Err(IndexError::ReaderFailed);
        },
    };
    let query_parser = make_query_parser(&index, f_title, f_content);
    Ok(TantivyIndex { schema, reader, writer, query_parser, f_id, f_time, f_title, f_content })
}

/// Open the persistent index under its fixed directory, creating it there
/// if absent, and wire up the tokenizer, writer, reader and query parser.
/// Failure here is fatal to the caller: there is no degraded mode without
/// an index.
pub fn init() -> (r: Result<TantivyIndex, IndexError>)
    ensures
        r matches Err(e) ==> e == IndexError::OpenFailed || e == IndexError::WriterFailed
            || e == IndexError::ReaderFailed,
{
    let (schema, f_id, f_time, f_title, f_content) = build_schema();
    let index = match open_or_create_index(INDEX_DIR, &schema) {
        Ok(i) => i,
        Err(_) => {
            return Err(IndexError::OpenFailed);
        },
    };
    finish_init(index, schema, f_id, f_time, f_title, f_content)
}

/// Like `init`, but over a fresh index held purely in memory; nothing is
/// persisted.
pub fn init_in_ram() -> (r: Result<TantivyIndex, IndexError>)
    ensures
        r matches Err(e) ==> e == IndexError::WriterFailed || e == IndexError::ReaderFailed,
{
    let (schema, f_id, f_time, f_title, f_content) = build_schema();
    let index = create_index_in_ram(&schema);
    finish_init(index, schema, f_id, f_time, f_title, f_content)
}

impl TantivyIndex {
    /// Encode one document into the fixed field layout, append it, commit,
    /// and reload the reader so that a query issued after this call returns
    /// observes the document.
    pub fn add_doc(&mut self, doc: Doc2Index) -> (r: Result<(), IndexError>)
        ensures
            r matches Err(e) ==> e == IndexError::WriteFailed || e == IndexError::CommitFailed
                || e == IndexError::ReaderFailed,
    {
        let time_str = encode_timestamp(doc.created_time);
        let mut tdoc = new_document();
        doc_add_text(&mut tdoc, self.f_id, doc.article_id.as_str());
        doc_add_text(&mut tdoc, self.f_time, time_str.as_str());
        doc_add_text(&mut tdoc, self.f_title, doc.title.as_str());
        doc_add_text(&mut tdoc, self.f_content, doc.content.as_str());
        match write_document(&self.writer, tdoc) {
            Ok(_) => {},
            Err(_) => {
                return Err(IndexError::WriteFailed);
            },
        }
        match commit_writer(&mut self.writer) {
            Ok(_) => {},
            Err(_) => {
                return Err(IndexError::CommitFailed);
            },
        }
        match reload_reader(&self.reader) {
            Ok(_) => Ok(()),
            Err(_) => Err(IndexError::ReaderFailed),
        }
    }

    /// Replace whatever the index holds under this document's id: delete
    /// every entry bearing the id, commit, then add the new revision as
    /// `add_doc` does. The two commits are separate, not atomic: between
    /// them no entry with this id is visible.
    pub fn update_doc(&mut self, doc: Doc2Index) -> (r: Result<(), IndexError>)
        ensures
            r matches Err(e) ==> e == IndexError::WriteFailed || e == IndexError::CommitFailed
                || e == IndexError::ReaderFailed,
    {
        let _removed = delete_term_text(&self.writer, self.f_id, doc.article_id.as_str());
        match commit_writer(&mut self.writer) {
            Ok(_) => {},
            Err(_) => {
                return Err(IndexError::CommitFailed);
            },
        }
        self.add_doc(doc)
    }

    /// Delete every entry whose id field holds exactly `doc_id`, commit,
    /// and reload the reader.
    pub fn delete_doc(&mut self, doc_id: &str) -> (r: Result<(), IndexError>)
        ensures
            r matches Err(e) ==> e == IndexError::CommitFailed || e == IndexError::ReaderFailed,
    {
        let _removed = delete_term_text(&self.writer, self.f_id, doc_id);
        match commit_writer(&mut self.writer) {
            Ok(_) => {},
            Err(_) => {
                return Err(IndexError::CommitFailed);
            },
        }
        match reload_reader(&self.reader) {
            Ok(_) => Ok(()),
            Err(_) => Err(IndexError::ReaderFailed),
        }
    }

    /// Execute one search: parse the query text over the title and content
    /// fields, retrieve the engine's best-ranked matches up to the fixed
    /// cap, decode their stored fields, skip defective hits, and return the
    /// rest re-ranked by creation time, newest first. An empty query yields
    /// an empty result without consulting the engine; a query that fails to
    /// parse is an error, not an empty result.
    pub fn query(&self, s: &str) -> (r: Result<Vec<DocFromIndexOuter>, QueryError>)
        ensures
            r matches Ok(hits) ==> hits@.len() <= MAX_RESULTS && sorted_by_time_desc(hits@),
            s@.len() == 0 ==> (r matches Ok(hits) && hits@ =~= Seq::<DocFromIndexOuter>::empty()),
    {
        if s.unicode_len() == 0 {
            let empty: Vec<DocFromIndexOuter> = Vec::new();
            return Ok(empty);
        }
        let searcher = make_searcher(&self.reader);
        let raws = match search_top_stored(
            &self.query_parser,
            &searcher,
            s,
            MAX_RESULTS,
            self.f_id,
            self.f_time,
            self.f_title,
        ) {
            Ok(raws) => raws,
            Err(e) => {
                return Err(e);
            },
        };
        let hits = assemble_hits(&raws);
        Ok(hits)
    }
}

} // verus!
