use crate::drive_id::DriveId;
use crate::metadata::RemoteMetadata;
use vstd::prelude::*;
use vstd::std_specs::iter::IteratorSpec;

verus! {

/// Why a value cannot stand in a query for the remote, or why a query did
/// not single out an object.
#[derive(Debug, Clone, Copy, PartialEq, Eq, Structural)]
pub enum QueryError {
    /// The value is empty.
    Empty,
    /// The value holds a single quote, which would end the quoted text.
    HasQuote,
    /// The query found nothing.
    NoFiles,
    /// The query found more than one object.
    MultipleFiles,
    /// The object that was found has no id.
    MissingId,
}

/// Whether a text holds no single quote.
pub open spec fn is_quote_free(text: Seq<char>) -> bool {
    forall|i: int| 0 <= i < text.len() ==> text[i] != '\''
}

/// Why `value` cannot stand between quotes in a query, if so.
pub open spec fn query_value_error(value: Seq<char>) -> Option<QueryError> {
    if value.len() == 0 {
        Some(QueryError::Empty)
    } else if !is_quote_free(value) {
        Some(QueryError::HasQuote)
    } else {
        None
    }
}

/// Checks that a value can stand between quotes in a query: it is not
/// empty and holds no single quote.
pub fn check_query_value(value: &str) -> (r: Result<(), QueryError>)
    ensures
        r == match query_value_error(value@) {
            Some(e) => Err::<(), QueryError>(e),
            None => Ok::<(), QueryError>(()),
        },
{
    let mut quote_free = true;
    let mut empty = true;
    broadcast use vstd::string::axiom_spec_iter;

    for c in it: value.chars()
        invariant
            it.seq() == value@,
            empty == (it.index() == 0),
            quote_free == (forall|j: int| 0 <= j < it.index() ==> value@[j] != '\''),
    {
        empty = false;
        if c == '\'' {
            quote_free = false;
        }
    }
    if empty {
        Err(QueryError::Empty)
    } else if !quote_free {
        Err(QueryError::HasQuote)
    } else {
        Ok(())
    }
}

/// The text of the query for the objects that lie in a folder.
pub open spec fn in_folder_query(folder_id: Seq<char>) -> Seq<char> {
    "'"@ + folder_id + "' in parents"@
}

/// The text of the query for the objects of a name.
pub open spec fn by_name_query(name: Seq<char>) -> Seq<char> {
    "name = '"@ + name + "'"@
}

/// The text of the query for the objects of a name that lie in a folder.
pub open spec fn by_name_in_folder_query(name: Seq<char>, folder_id: Seq<char>) -> Seq<char> {
    "name = '"@ + name + "' and '"@ + folder_id + "' in parents"@
}

/// Builds the query for the objects that lie in the folder `folder_id`.
pub fn list_files_query(folder_id: &DriveId) -> (r: Result<String, QueryError>)
    ensures
        match query_value_error(folder_id@) {
            Some(e) => r == Err::<String, QueryError>(e),
            None => r is Ok && r->Ok_0@ == in_folder_query(folder_id@),
        },
{
    match check_query_value(folder_id.as_str()) {
        Ok(()) => {},
        Err(e) => {
            return Err(e);
        },
    }
    let mut query = String::from_str("'");
    query.append(folder_id.as_str());
    query.append("' in parents");
    Ok(query)
}

/// Builds the query for the objects of the name `name`.
pub fn get_files_by_name_query(name: &str) -> (r: Result<String, QueryError>)
    ensures
        match query_value_error(name@) {
            Some(e) => r == Err::<String, QueryError>(e),
            None => r is Ok && r->Ok_0@ == by_name_query(name@),
        },
{
    match check_query_value(name) {
        Ok(()) => {},
        Err(e) => {
            return Err(e);
        },
    }
    let mut query = String::from_str("name = '");
    query.append(name);
    query.append("'");
    Ok(query)
}

/// Why no query for a name in a folder can be built, if so.
pub open spec fn get_id_query_error(name: Seq<char>, folder: Seq<char>) -> Option<QueryError> {
    if query_value_error(name) is Some {
        query_value_error(name)
    } else {
        query_value_error(folder)
    }
}

/// Builds the query for the objects of the name `path` that lie in the
/// folder `parent_drive_id`, or in the root where no folder is named.
pub fn get_id_query(path: &str, parent_drive_id: Option<DriveId>) -> (r: Result<String, QueryError>)
    ensures
        match get_id_query_error(
            path@,
            match parent_drive_id {
                Some(p) => p@,
                None => crate::drive_id::root_alias(),
            },
        ) {
            Some(e) => r == Err::<String, QueryError>(e),
            None => r is Ok && r->Ok_0@ == by_name_in_folder_query(
                path@,
                match parent_drive_id {
                    Some(p) => p@,
                    None => crate::drive_id::root_alias(),
                },
            ),
        },
{
    let parent = match parent_drive_id {
        Some(p) => p,
        None => DriveId::root(),
    };
    match check_query_value(path) {
        Ok(()) => {},
        Err(e) => {
            return Err(e);
        },
    }
    match check_query_value(parent.as_str()) {
        Ok(()) => {},
        Err(e) => {
            return Err(e);
        },
    }
    let mut query = String::from_str("name = '");
    query.append(path);
    query.append("' and '");
    query.append(parent.as_str());
    query.append("' in parents");
    Ok(query)
}

/// The id of the one object that a query found. No object or several are
/// errors, as is an object without an id.
pub fn get_id(files: &Option<Vec<RemoteMetadata>>) -> (r: Result<DriveId, QueryError>)
    ensures
        match *files {
            None => r == Err::<DriveId, QueryError>(QueryError::NoFiles),
            Some(list) => if list@.len() == 0 {
                r == Err::<DriveId, QueryError>(QueryError::NoFiles)
            } else if list@.len() > 1 {
                r == Err::<DriveId, QueryError>(QueryError::MultipleFiles)
            } else if list@[0]@.id is None {
                r == Err::<DriveId, QueryError>(QueryError::MissingId)
            } else {
                r is Ok && Some(r->Ok_0@) == list@[0]@.id
            },
        },
{
    let list = match files {
        Some(list) => list,
        None => {
            return Err(QueryError::NoFiles);
        },
    };
    if list.len() == 0 {
        return Err(QueryError::NoFiles);
    }
    if list.len() > 1 {
        return Err(QueryError::MultipleFiles);
    }
    match &list[0].id {
        Some(id) => Ok(id.clone()),
        None => Err(QueryError::MissingId),
    }
}

} // verus!
