//! The trusted boundary around the tantivy engine and the cang-jie
//! tokenizer. Every item in this module is believed rather than verified:
//! each doc comment names the outside functions it relies on. The rest of
//! the crate reaches the engine only through these declarations.

use vstd::prelude::*;

use crate::hits::{DocFromIndex, QueryError};
use tantivy::schema::Value;

verus! {

#[verifier::external_type_specification]
#[verifier::external_body]
pub struct ExIndex(tantivy::Index);

#[verifier::external_type_specification]
#[verifier::external_body]
pub struct ExSchema(tantivy::schema::Schema);

#[verifier::external_type_specification]
#[verifier::external_body]
pub struct ExField(tantivy::schema::Field);

#[verifier::external_type_specification]
#[verifier::external_body]
pub struct ExIndexReader(tantivy::IndexReader);

/// Holds the engine's writer handle. `tantivy::IndexWriter` is generic over
/// a document trait that cannot be named in a type declaration here, so the
/// handle lives opaquely in this struct instead.
#[verifier::external_body]
pub struct EngineWriter {
    inner: tantivy::IndexWriter<tantivy::TantivyDocument>,
}

#[verifier::external_type_specification]
#[verifier::external_body]
pub struct ExSearcher(tantivy::Searcher);

#[verifier::external_type_specification]
#[verifier::external_body]
pub struct ExQueryParser(tantivy::query::QueryParser);

#[verifier::external_type_specification]
#[verifier::external_body]
pub struct ExTantivyDocument(tantivy::TantivyDocument);

#[verifier::external_type_specification]
#[verifier::external_body]
pub struct ExTantivyError(tantivy::TantivyError);

/// Relies on tantivy's SchemaBuilder and text options: builds the fixed
/// field layout — "article_id" and "created_time" as raw stored strings,
/// "title" tokenized under the CANG_JIE tokenizer name and stored,
/// "content" tokenized and not stored — and returns the schema together
/// with the four fields, in that order.
#[verifier::external_body]
pub(crate) fn build_schema() -> (tantivy::schema::Schema, tantivy::schema::Field, tantivy::schema::Field, tantivy::schema::Field, tantivy::schema::Field) {
    let mut builder = tantivy::schema::SchemaBuilder::default();
    let indexing = tantivy::schema::TextFieldIndexing::default().set_tokenizer(cang_jie::CANG_JIE).set_index_option(tantivy::schema::IndexRecordOption::WithFreqsAndPositions);
    let stored = tantivy::schema::TextOptions::default().set_indexing_options(indexing.clone()).set_stored();
    let unstored = tantivy::schema::TextOptions::default().set_indexing_options(indexing);
    let f_id = builder.add_text_field("article_id", tantivy::schema::STRING | tantivy::schema::STORED);
    let f_time = builder.add_text_field("created_time", tantivy::schema::STRING | tantivy::schema::STORED);
    let f_title = builder.add_text_field("title", stored);
    let f_content = builder.add_text_field("content", unstored);
    (builder.build(), f_id, f_time, f_title, f_content)
}

/// Relies on tantivy's Index::create_in_ram: a fresh, empty, purely
/// in-memory index over the given schema.
#[verifier::external_body]
pub(crate) fn create_index_in_ram(schema: &tantivy::schema::Schema) -> tantivy::Index {
    tantivy::Index::create_in_ram(schema.clone())
}

/// Relies on tantivy's MmapDirectory::open and Index::open_or_create:
/// opens the index persisted under `path` if one exists, otherwise creates
/// it there with the given schema; never destructive.
#[verifier::external_body]
pub(crate) fn open_or_create_index(path: &str, schema: &tantivy::schema::Schema) -> Result<tantivy::Index, tantivy::TantivyError> {
    let dir = tantivy::directory::MmapDirectory::open(path)
        .map_err(tantivy::TantivyError::from)?;
    tantivy::Index::open_or_create(dir, schema.clone())
}

/// Relies on cang-jie's CangJieTokenizer and tantivy's
/// TokenizerManager::register: installs the character-level segmenter under
/// the CANG_JIE name so that the title and content fields use it.
#[verifier::external_body]
pub(crate) fn register_tokenizer(index: &tantivy::Index) {
    index.tokenizers().register(cang_jie::CANG_JIE, cang_jie::CangJieTokenizer {
        worker: std::sync::Arc::new(jieba_rs::Jieba::empty()),
        option: cang_jie::TokenizerOption::Unicode,
    });
}

/// Relies on tantivy's Index::writer with the given memory budget in bytes.
#[verifier::external_body]
pub(crate) fn make_writer(index: &tantivy::Index, memory_budget: usize) -> Result<EngineWriter, tantivy::TantivyError> {
    Ok(EngineWriter { inner: index.writer::<tantivy::TantivyDocument>(memory_budget)? })
}

/// Relies on tantivy's IndexReaderBuilder with a manual reload policy; the
/// index owner reloads explicitly after each commit instead.
#[verifier::external_body]
pub(crate) fn make_reader(index: &tantivy::Index) -> Result<tantivy::IndexReader, tantivy::TantivyError> {
    index.reader_builder().reload_policy(tantivy::ReloadPolicy::Manual).try_into()
}

/// Relies on tantivy's QueryParser::for_index: a parser whose default
/// fields are the two given ones.
#[verifier::external_body]
pub(crate) fn make_query_parser(index: &tantivy::Index, title: tantivy::schema::Field, content: tantivy::schema::Field) -> tantivy::query::QueryParser {
    tantivy::query::QueryParser::for_index(index, vec![title, content])
}

/// Relies on tantivy's TantivyDocument::new: a fresh document holding no
/// field values.
#[verifier::external_body]
pub(crate) fn new_document() -> tantivy::TantivyDocument {
    tantivy::TantivyDocument::new()
}

/// Relies on TantivyDocument::add_text: appends one text value under the
/// given field.
#[verifier::external_body]
pub(crate) fn doc_add_text(doc: &mut tantivy::TantivyDocument, field: tantivy::schema::Field, value: &str) {
    doc.add_text(field, value);
}

/// Relies on IndexWriter::add_document: hands the document to the writer;
/// it becomes visible only after a later successful commit.
#[verifier::external_body]
pub(crate) fn write_document(writer: &EngineWriter, doc: tantivy::TantivyDocument) -> Result<u64, tantivy::TantivyError> {
    writer.inner.add_document(doc)
}

/// Relies on Term::from_field_text and IndexWriter::delete_term: marks
/// every document whose `field` holds exactly `text` for deletion at the
/// next commit.
#[verifier::external_body]
pub(crate) fn delete_term_text(writer: &EngineWriter, field: tantivy::schema::Field, text: &str) -> u64 {
    writer.inner.delete_term(tantivy::Term::from_field_text(field, text))
}

/// Relies on IndexWriter::commit: makes all pending writes and deletions
/// durable; they become visible to a reader reloaded afterwards.
#[verifier::external_body]
pub(crate) fn commit_writer(writer: &mut EngineWriter) -> Result<u64, tantivy::TantivyError> {
    writer.inner.commit()
}

/// Relies on IndexReader::reload: points the reader at the latest commit.
#[verifier::external_body]
pub(crate) fn reload_reader(reader: &tantivy::IndexReader) -> Result<(), tantivy::TantivyError> {
    reader.reload()
}

/// Relies on IndexReader::searcher: a consistent point-in-time snapshot of
/// the index, used to serve one query.
#[verifier::external_body]
pub(crate) fn make_searcher(reader: &tantivy::IndexReader) -> tantivy::Searcher {
    reader.searcher()
}

/// Relies on QueryParser::parse_query, TopDocs::with_limit and
/// order_by_score, Searcher::search, Searcher::doc,
/// TantivyDocument::get_first and Value::as_str. Search and retrieval share
/// one body: the parsed query is a trait object that cannot cross this
/// boundary, and a hit's address is meaningful only against the searcher
/// that produced it — Searcher::doc panics on a mismatched pair, which this
/// shape makes unformable. Returns the stored text of the three stored
/// fields of the at most `limit` best-ranked matches; a field a stored
/// document lacks, or holds as something other than text, comes back
/// absent. A failure to parse the query text and a failure inside the
/// engine are told apart in the error.
#[verifier::external_body]
pub(crate) fn search_top_stored(parser: &tantivy::query::QueryParser, searcher: &tantivy::Searcher, text: &str, limit: usize, f_id: tantivy::schema::Field, f_time: tantivy::schema::Field, f_title: tantivy::schema::Field) -> (r: Result<Vec<DocFromIndex>, QueryError>)
    requires
        limit >= 1,
    ensures
        r matches Ok(raws) ==> raws@.len() <= limit,
{
    let query = parser.parse_query(text).map_err(|_| QueryError::ParseFailed)?;
    let top = tantivy::collector::TopDocs::with_limit(limit).order_by_score();
    let found = searcher.search(&*query, &top).map_err(|_| QueryError::EngineFailed)?;
    let mut raws = Vec::new();
    for (_score, addr) in found {
        let doc: tantivy::TantivyDocument = searcher.doc(addr).map_err(|_| QueryError::EngineFailed)?;
        let text_of = |f: tantivy::schema::Field| doc.get_first(f).and_then(|v| v.as_str()).map(|s| s.to_string());
        raws.push(DocFromIndex { article_id: text_of(f_id), created_time: text_of(f_time), title: text_of(f_title) });
    }
    Ok(raws)
}

} // verus!
