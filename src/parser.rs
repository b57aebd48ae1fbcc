//! Checking a file's kind and turning a document's text into records or
//! columns.
use vstd::prelude::*;

use crate::error::PreludeError;
use crate::normalize::char_vec;
use crate::record::{
    columns_spec, group_columns, group_records, records_spec, ColumnSet, RecordSet,
};
use crate::xml::{parse_document, walk, walk_spec, xml_accepts};

verus! {

pub open spec fn xml_extension() -> Seq<char> {
    seq!['x', 'm', 'l']
}

pub open spec fn is_xml_extension(extension: Option<&str>) -> bool {
    match extension {
        Some(e) => e@ == xml_extension(),
        None => false,
    }
}

/// Checks, before anything is read, that a path names a regular file with
/// the extension `xml`. Whether it is a regular file is tested first, so a
/// missing file is reported as such whatever its extension.
pub fn validate_file(path: &str, is_file: bool, extension: Option<&str>) -> (r: Result<
    (),
    PreludeError,
>)
    ensures
        !is_file ==> (r matches Err(PreludeError::FileNotFound(p)) && p@ == path@),
        is_file && !is_xml_extension(extension) ==> (r matches Err(
            PreludeError::InvalidFileType(p),
        ) && p@ == path@),
        is_file && is_xml_extension(extension) ==> r is Ok,
{
    if !is_file {
        return Err(PreludeError::FileNotFound(path.to_owned()));
    }
    let ok = match extension {
        Some(e) => {
            let cs = char_vec(e);
            let r = cs.len() == 3 && cs[0] == 'x' && cs[1] == 'm' && cs[2] == 'l';
            assert(r ==> cs@ =~= xml_extension());
            r
        },
        None => false,
    };
    if ok {
        Ok(())
    } else {
        Err(PreludeError::InvalidFileType(path.to_owned()))
    }
}

/// Reads a document's forms into records grouped by form name.
pub fn parse_xml(text: &str, short_names: bool) -> (r: Result<RecordSet, PreludeError>)
    ensures
        r is Ok <==> xml_accepts(text@),
        r matches Ok(rs) ==> rs@ == records_spec(walk_spec(text@), short_names),
        r matches Err(e) ==> e is Parsing,
{
    match parse_document(text) {
        Ok(t) => {
            let forms = walk(&t);
            Ok(group_records(&forms, short_names))
        },
        Err(e) => Err(PreludeError::Parsing(e)),
    }
}

/// Reads a document's fields into columns by field name, across all forms.
pub fn parse_xml_pandas(text: &str, short_names: bool) -> (r: Result<ColumnSet, PreludeError>)
    ensures
        r is Ok <==> xml_accepts(text@),
        r matches Ok(cs) ==> cs@ == columns_spec(walk_spec(text@), short_names),
        r matches Err(e) ==> e is Parsing,
{
    match parse_document(text) {
        Ok(t) => {
            let forms = walk(&t);
            Ok(group_columns(&forms, short_names))
        },
        Err(e) => Err(PreludeError::Parsing(e)),
    }
}

} // verus!
