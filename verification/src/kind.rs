//! The election kinds, and the database that the results of one of them
//! are loaded into.

use crate::util::{mini_hash, mini_hash_of, MINI_HASH_LEN};
use vstd::prelude::*;
use vstd::string::*;

verus! {

/// The three kinds of election whose results can be loaded.
#[derive(Clone, Copy, Debug, PartialEq, Eq, Structural)]
pub enum ElectionKind {
    Assembly,
    Dail,
    Westminster,
}

/// An election kind together with the name of the database that receives
/// its results.
#[derive(Debug, PartialEq)]
pub enum ElectionDatabase {
    Assembly(String),
    Dail(String),
    Westminster(String),
}

/// The kind that a directory name stands for: the name has to be exactly
/// `assembly`, `dail` or `westminster`.
pub open spec fn kind_of_name(name: Seq<char>) -> Option<ElectionKind> {
    if name == "assembly"@ {
        Some(ElectionKind::Assembly)
    } else if name == "dail"@ {
        Some(ElectionKind::Dail)
    } else if name == "westminster"@ {
        Some(ElectionKind::Westminster)
    } else {
        None
    }
}

/// The database name: the explicit name where one is given, else the
/// directory name, an underscore and the fingerprint.
pub open spec fn database_name(
    name: Seq<char>,
    explicit: Option<Seq<char>>,
    unique: Seq<char>,
) -> Seq<char> {
    match explicit {
        Some(given) => given,
        None => name + seq!['_'] + unique,
    }
}

/// The view of an optional string slice.
pub open spec fn text_of(s: Option<&str>) -> Option<Seq<char>> {
    match s {
        Some(t) => Some(t@),
        None => None,
    }
}

/// Whether two string slices hold the same characters.
pub fn same_text(a: &str, b: &str) -> (same: bool)
    ensures
        same == (a@ == b@),
{
    String::from_str(a) == String::from_str(b)
}

impl ElectionKind {
    /// Reads a directory name as an election kind.
    pub fn from_name(name: &str) -> (kind: Option<ElectionKind>)
        ensures
            kind == kind_of_name(name@),
    {
        if same_text(name, "assembly") {
            Some(ElectionKind::Assembly)
        } else if same_text(name, "dail") {
            Some(ElectionKind::Dail)
        } else if same_text(name, "westminster") {
            Some(ElectionKind::Westminster)
        } else {
            None
        }
    }
}

impl ElectionDatabase {
    /// The election kind.
    pub open spec fn kind(&self) -> ElectionKind {
        match self {
            ElectionDatabase::Assembly(_) => ElectionKind::Assembly,
            ElectionDatabase::Dail(_) => ElectionKind::Dail,
            ElectionDatabase::Westminster(_) => ElectionKind::Westminster,
        }
    }

    /// The database name.
    pub open spec fn database(&self) -> Seq<char> {
        match self {
            ElectionDatabase::Assembly(db) => db@,
            ElectionDatabase::Dail(db) => db@,
            ElectionDatabase::Westminster(db) => db@,
        }
    }

    /// Puts a kind and a database name together.
    pub fn new(kind: ElectionKind, database: String) -> (db: ElectionDatabase)
        ensures
            db.kind() == kind,
            db.database() == database@,
    {
        match kind {
            ElectionKind::Assembly => ElectionDatabase::Assembly(database),
            ElectionKind::Dail => ElectionDatabase::Dail(database),
            ElectionKind::Westminster => ElectionDatabase::Westminster(database),
        }
    }

    /// Resolves a directory name with a fingerprint that the caller
    /// supplies. The result is `None` exactly for a name that is no election
    /// kind; the fingerprint is used only where no explicit name is given.
    pub fn from_parts(input: &str, db_name: Option<&str>, unique: &str) -> (db: Option<
        ElectionDatabase,
    >)
        ensures
            db is None <==> kind_of_name(input@) is None,
            db matches Some(d) ==> Some(d.kind()) == kind_of_name(input@) && d.database()
                == database_name(input@, text_of(db_name), unique@),
    {
        match ElectionKind::from_name(input) {
            None => None,
            Some(kind) => {
                let database = match db_name {
                    Some(given) => String::from_str(given),
                    None => {
                        proof {
                            reveal_strlit("_");
                            assert("_"@ =~= seq!['_']);
                        }
                        String::from_str(input).concat("_").concat(unique)
                    },
                };
                Some(ElectionDatabase::new(kind, database))
            },
        }
    }

    /// Resolves a directory name. A name that is no election kind gives
    /// `None`, and the clock is not read for it. With an explicit database
    /// name a supported directory name always resolves, to that name
    /// verbatim. Without one the name is the directory name, an underscore
    /// and the fingerprint of the current second; the result is then `None`
    /// when the clock reads a time before the Unix epoch.
    pub fn from_str(input: &str, db_name: Option<&str>) -> (db: Option<ElectionDatabase>)
        ensures
            kind_of_name(input@) is None ==> db is None,
            kind_of_name(input@) is Some && db_name is Some ==> db is Some,
            db matches Some(d) ==> Some(d.kind()) == kind_of_name(input@) && exists|seconds: u64|
                d.database() == database_name(input@, text_of(db_name), mini_hash_of(seconds)),
            db matches Some(d) ==> db_name is None ==> d.database().len() == input@.len() + 1
                + MINI_HASH_LEN,
    {
        if ElectionKind::from_name(input).is_none() {
            return None;
        }
        match db_name {
            Some(_) => {
                let db = ElectionDatabase::from_parts(input, db_name, "");
                proof {
                    let d = db->Some_0;
                    assert(d.database() == database_name(
                        input@,
                        text_of(db_name),
                        mini_hash_of(0),
                    ));
                }
                db
            },
            None => match mini_hash() {
                Some(unique) => ElectionDatabase::from_parts(input, db_name, unique.as_str()),
                None => None,
            },
        }
    }

    /// The database name, as a new string.
    pub fn get_database(&self) -> (name: String)
        ensures
            name@ == self.database(),
    {
        match self {
            ElectionDatabase::Assembly(database) => database.clone(),
            ElectionDatabase::Dail(database) => database.clone(),
            ElectionDatabase::Westminster(database) => database.clone(),
        }
    }

    /// The election kind.
    pub fn get_kind(&self) -> (kind: ElectionKind)
        ensures
            kind == self.kind(),
    {
        match self {
            ElectionDatabase::Assembly(_) => ElectionKind::Assembly,
            ElectionDatabase::Dail(_) => ElectionKind::Dail,
            ElectionDatabase::Westminster(_) => ElectionKind::Westminster,
        }
    }
}

/// A directory name outside the three kinds never resolves, whatever
/// database name or fingerprint comes with it.
pub proof fn lemma_unsupported_name(name: Seq<char>)
    requires
        name != "assembly"@,
        name != "dail"@,
        name != "westminster"@,
    ensures
        kind_of_name(name) is None,
{
}

/// An explicit database name is used verbatim: the directory name and the
/// fingerprint leave no trace in it.
pub proof fn lemma_explicit_name_verbatim(
    name: Seq<char>,
    given: Seq<char>,
    unique: Seq<char>,
)
    ensures
        database_name(name, Some(given), unique) == given,
{
}

/// A generated database name is the directory name, an underscore and the
/// fingerprint: it grows the directory name by six characters where the
/// fingerprint has five.
pub proof fn lemma_generated_name_shape(name: Seq<char>, unique: Seq<char>)
    ensures
        database_name(name, None, unique).len() == name.len() + 1 + unique.len(),
        database_name(name, None, unique).subrange(0, name.len() as int) == name,
        database_name(name, None, unique)[name.len() as int] == '_',
        database_name(name, None, unique).subrange(
            name.len() as int + 1,
            name.len() as int + 1 + unique.len() as int,
        ) == unique,
{
    let full = database_name(name, None, unique);
    assert(full.subrange(0, name.len() as int) =~= name);
    assert(full.subrange(name.len() as int + 1, name.len() as int + 1 + unique.len() as int)
        =~= unique);
}

} // verus!
