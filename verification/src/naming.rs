use vstd::prelude::*;

use crate::text::{after_last, remove_char, strip_char, text_after_last, trim_end, trim_end_char};

verus! {

/// Name of the file at `location`: the part after its last `/`.
pub fn file_name_of(location: &str) -> (name: String)
    ensures
        name@ == after_last(location@, '/'),
{
    text_after_last(location, '/')
}

/// Key under which a file at `location` is uploaded: the override when one
/// is given, the file's name otherwise.
pub fn upload_object_key(location: &str, override_filename: Option<String>) -> (key: String)
    ensures
        key@ == match override_filename {
            Some(f) => f@,
            None => after_last(location@, '/'),
        },
{
    match override_filename {
        Some(f) => f,
        None => file_name_of(location),
    }
}

/// Local path a download is written to: `location` without quotes and
/// trailing slashes, a slash, then `filename` without quotes.
pub open spec fn spec_download_path(location: Seq<char>, filename: Seq<char>) -> Seq<char> {
    trim_end_char(strip_char(location, '"'), '/') + seq!['/'] + strip_char(filename, '"')
}

/// Path that downloading `key` into directory `location` writes: the file
/// is named after the override when one is given, after the key otherwise.
pub fn download_file_path(location: &str, key: &str, override_filename: Option<String>) -> (path:
    String)
    ensures
        path@ == spec_download_path(
            location@,
            match override_filename {
                Some(f) => f@,
                None => key@,
            },
        ),
{
    let unquoted = remove_char(location, '"');
    let mut path = trim_end(unquoted.as_str(), '/');
    path.append("/");
    let name = match override_filename {
        Some(f) => remove_char(f.as_str(), '"'),
        None => remove_char(key, '"'),
    };
    path.append(name.as_str());
    proof {
        reveal_strlit("/");
    }
    path
}

} // verus!
