//! The bulk insert that loads a batch of records.

use crate::document::{
    area_fields, documents_in, documents_view, elements_view, lemma_document_view, Document,
    Element, ElementView,
};
use crate::kind::{database_name, kind_of_name, text_of, ElectionDatabase, ElectionKind};
use crate::record::{area_views, Area, AreaView, DecodeError};
use crate::util::mini_hash_of;
use crate::walker::{
    all_decode, error_for, first_bad, flat, records_of, tree_view, walk_constituency_subdirs,
};
use vstd::prelude::*;
use vstd::string::*;

verus! {

/// One bulk insert: the documents, and where they go.
#[derive(Debug, PartialEq)]
pub struct BulkInsert {
    pub database: String,
    pub collection: String,
    pub documents: Vec<Document>,
}

/// Dropping the last element drops the last document, or none.
pub proof fn lemma_documents_in_push(elements: Seq<ElementView>, last: ElementView)
    ensures
        documents_in(elements.push(last)) == match last {
            ElementView::Document(fields) => documents_in(elements).push(fields),
            _ => documents_in(elements),
        },
{
    assert(elements.push(last).drop_last() =~= elements);
}

/// Keeps the documents among the elements, in order, and drops the rest.
pub fn documents_of(elements: Vec<Element>) -> (documents: Vec<Document>)
    ensures
        documents_view(documents@) == documents_in(elements_view(elements@)),
{
    let ghost all = elements@;
    let mut documents: Vec<Document> = Vec::new();
    assert(documents_view(documents@) =~= documents_in(elements_view(all.take(0))));
    for element in it: elements
        invariant
            it.seq() == all,
            documents_view(documents@) == documents_in(
                elements_view(all.take(it.index() as int)),
            ),
    {
        let ghost before = documents_view(documents@);
        let ghost k = it.index() as int;
        proof {
            lemma_documents_in_push(elements_view(all.take(k)), element@);
            assert(elements_view(all.take(k + 1)) =~= elements_view(all.take(k)).push(element@));
        }
        match element {
            Element::Document(fields) => {
                proof {
                    lemma_document_view(fields);
                }
                documents.push(Document { fields });
                assert(documents_view(documents@) =~= before.push(crate::document::fields_view(fields@)));
            },
            _ => {},
        }
    }
    assert(all.take(all.len() as int) =~= all);
    documents
}

/// Why no database is created.
#[derive(Debug, PartialEq)]
pub enum Failure {
    /// The working directory's name is no election kind.
    Unsupported,
    /// A database name had to be generated and the clock reads a time
    /// before the Unix epoch.
    Clock,
    /// The working directory has no `constituencies` directory.
    MissingConstituencies,
    /// The tree holds no file: there is nothing to create.
    NothingToCreate,
    /// A file describes no record.
    Decode(DecodeError),
}

/// What creating a database comes to: the database, and the bulk insert
/// to perform, if any.
#[derive(Debug, PartialEq)]
pub struct Creation {
    pub database: ElectionDatabase,
    pub insert: Option<BulkInsert>,
}

/// The documents of a batch: one per record, in order.
pub open spec fn documents_for(areas: Seq<AreaView>) -> Seq<Seq<(Seq<char>, ElementView)>> {
    Seq::new(areas.len(), |i: int| area_fields(areas[i]))
}

/// The bulk insert that belongs to a batch: for a Dail database, all the
/// batch's documents into the collection `area` of the database; for the
/// other kinds, none.
pub open spec fn planned(
    kind: ElectionKind,
    database: Seq<char>,
    areas: Seq<AreaView>,
    plan: Option<BulkInsert>,
) -> bool {
    if kind == ElectionKind::Dail {
        &&& plan matches Some(p)
        &&& p.database@ == database
        &&& p.collection@ == "area"@
        &&& documents_view(p.documents@) == documents_for(areas)
    } else {
        plan is None
    }
}

/// The files of the tree below the constituencies directory, where there
/// is one.
pub open spec fn root_view(root: Option<&Vec<Vec<Vec<u8>>>>) -> Option<Seq<Seq<Seq<u8>>>> {
    match root {
        Some(subdirs) => Some(tree_view(subdirs@)),
        None => None,
    }
}

/// When a tree gives which failure: the directory is missing; it holds no
/// file; or, first in order, a file describes no record.
pub open spec fn failure_of(root: Option<Seq<Seq<Seq<u8>>>>, f: Failure) -> bool {
    match root {
        None => f is MissingConstituencies,
        Some(tree) => {
            if all_decode(flat(tree)) {
                flat(tree).len() == 0 && f is NothingToCreate
            } else {
                f matches Failure::Decode(e) && exists|k: int|
                    first_bad(flat(tree), k) && error_for(flat(tree)[k], e)
            }
        },
    }
}

/// When a tree gives a bulk insert, and which: every file describes a
/// record, there is at least one, and the insert is the one planned for
/// the records in order.
pub open spec fn success_of(
    kind: ElectionKind,
    database: Seq<char>,
    root: Option<Seq<Seq<Seq<u8>>>>,
    plan: Option<BulkInsert>,
) -> bool {
    &&& root matches Some(tree)
    &&& all_decode(flat(tree))
    &&& flat(tree).len() > 0
    &&& planned(kind, database, records_of(flat(tree)), plan)
}

/// Where every element is a document, all of them are kept.
pub proof fn lemma_all_documents(
    elements: Seq<ElementView>,
    fields: Seq<Seq<(Seq<char>, ElementView)>>,
)
    requires
        elements.len() == fields.len(),
        forall|i: int|
            0 <= i < elements.len() ==> #[trigger] elements[i] == ElementView::Document(fields[i]),
    ensures
        documents_in(elements) == fields,
    decreases elements.len(),
{
    if elements.len() == 0 {
        assert(fields =~= Seq::empty());
    } else {
        lemma_all_documents(elements.drop_last(), fields.drop_last());
        assert(elements.last() == ElementView::Document(fields.last()));
        assert(fields =~= fields.drop_last().push(fields.last()));
    }
}

/// An insert carries one document for each record of its batch.
pub proof fn lemma_one_document_each(
    kind: ElectionKind,
    database: Seq<char>,
    areas: Seq<AreaView>,
    plan: Option<BulkInsert>,
)
    requires
        planned(kind, database, areas, plan),
    ensures
        plan matches Some(p) ==> p.documents@.len() == areas.len(),
        plan is Some <==> kind == ElectionKind::Dail,
{
    if let Some(p) = plan {
        assert(documents_view(p.documents@).len() == p.documents@.len());
        assert(documents_for(areas).len() == areas.len());
    }
}

/// Writes each record as an element, in order.
pub fn encode_all(areas: &Vec<Area>) -> (encoded: Vec<Element>)
    ensures
        encoded@.len() == areas@.len(),
        forall|i: int|
            0 <= i < areas@.len() ==> (#[trigger] encoded@[i])@ == ElementView::Document(
                area_fields(areas@[i]@),
            ),
{
    let mut encoded: Vec<Element> = Vec::new();
    let mut i: usize = 0;
    while i < areas.len()
        invariant
            i <= areas.len(),
            encoded@.len() == i,
            forall|j: int|
                0 <= j < i ==> (#[trigger] encoded@[j])@ == ElementView::Document(
                    area_fields(areas@[j]@),
                ),
        decreases areas.len() - i,
    {
        encoded.push(areas[i].encode());
        i += 1;
    }
    encoded
}

impl ElectionDatabase {
    /// Prepares the bulk insert of a batch: each record is written as an
    /// element, the documents among the elements are kept in order, and a
    /// Dail database gets one insert of them into the collection `area`.
    /// The other kinds get none.
    pub fn create_documents(&self, areas: &Vec<Area>) -> (plan: Option<BulkInsert>)
        ensures
            planned(self.kind(), self.database(), area_views(areas@), plan),
    {
        let encoded = encode_all(areas);
        proof {
            lemma_all_documents(elements_view(encoded@), documents_for(area_views(areas@)));
        }
        let documents = documents_of(encoded);
        match self {
            ElectionDatabase::Dail(database) => Some(
                BulkInsert {
                    database: database.clone(),
                    collection: String::from_str("area"),
                    documents,
                },
            ),
            _ => None,
        }
    }

    /// Turns the files below the constituencies directory into the bulk
    /// insert to perform. `root` is `None` where the directory is missing;
    /// else it holds, for each subdirectory in the order of the listing,
    /// the contents of its files in their order.
    pub fn create_constituencies(&self, root: Option<&Vec<Vec<Vec<u8>>>>) -> (r: Result<
        Option<BulkInsert>,
        Failure,
    >)
        ensures
            match r {
                Ok(plan) => success_of(self.kind(), self.database(), root_view(root), plan),
                Err(f) => failure_of(root_view(root), f),
            },
    {
        match root {
            None => Err(Failure::MissingConstituencies),
            Some(subdirs) => match walk_constituency_subdirs(subdirs) {
                Err(e) => Err(Failure::Decode(e)),
                Ok(None) => Err(Failure::NothingToCreate),
                Ok(Some(areas)) => Ok(self.create_documents(&areas)),
            },
        }
    }
}

/// Resolves the database from the working directory's name and turns the
/// files below the constituencies directory into the bulk insert to
/// perform. An unsupported name fails before anything else is looked at.
pub fn create_database(cwd_name: &str, db_name: Option<&str>, root: Option<&Vec<Vec<Vec<u8>>>>) -> (r:
    Result<Creation, Failure>)
    ensures
        kind_of_name(cwd_name@) is None ==> r matches Err(Failure::Unsupported),
        kind_of_name(cwd_name@) is Some ==> match r {
            Ok(c) => {
                &&& Some(c.database.kind()) == kind_of_name(cwd_name@)
                &&& exists|seconds: u64|
                    c.database.database() == database_name(
                        cwd_name@,
                        text_of(db_name),
                        mini_hash_of(seconds),
                    )
                &&& success_of(
                    c.database.kind(),
                    c.database.database(),
                    root_view(root),
                    c.insert,
                )
            },
            Err(Failure::Unsupported) => false,
            Err(Failure::Clock) => db_name is None,
            Err(f) => failure_of(root_view(root), f),
        },
{
    if ElectionKind::from_name(cwd_name).is_none() {
        return Err(Failure::Unsupported);
    }
    match ElectionDatabase::from_str(cwd_name, db_name) {
        None => Err(Failure::Clock),
        Some(database) => match database.create_constituencies(root) {
            Err(f) => Err(f),
            Ok(insert) => Ok(Creation { database, insert }),
        },
    }
}

} // verus!
