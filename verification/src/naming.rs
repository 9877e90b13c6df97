//! On-disk naming: the output root and the sanitised directory name of a
//! project.

use crate::text::{replace_str, spec_replace};
use vstd::prelude::*;

verus! {

/// What `sanitise_file_name::sanitise` returns: a function of the
/// characters alone.
pub uninterp spec fn spec_sanitised(s: Seq<char>) -> Seq<char>;

/// Relies on `sanitise_file_name::sanitise` with the default options: the
/// result is usable as a file name and documented never to be empty.
#[verifier::external_body]
fn sanitise_file_name_str(s: &str) -> (r: String)
    ensures
        r@ == spec_sanitised(s@),
        r@.len() > 0,
{
    sanitise_file_name::sanitise(s)
}

/// What `str::to_lowercase` returns: a function of the characters alone.
pub uninterp spec fn spec_lowercase(s: Seq<char>) -> Seq<char>;

/// Relies on `str::to_lowercase`: Unicode lowercasing, independent of any
/// locale or environment.
#[verifier::external_body]
fn to_lowercase_str(s: &str) -> (r: String)
    ensures
        r@ == spec_lowercase(s@),
{
    s.to_lowercase()
}

/// A project's directory name: the project name sanitised for use as a
/// file name, lowercased, with spaces turned into underscores.
pub open spec fn spec_sanitised_directory(s: Seq<char>) -> Seq<char> {
    spec_replace(spec_lowercase(spec_sanitised(s)), " "@, "_"@)
}

/// Sanitise a project name into a directory name.
pub fn sanitise_directory_name(s: &str) -> (r: String)
    ensures
        r@ == spec_sanitised_directory(s@),
{
    proof {
        reveal_strlit(" ");
    }
    let sanitised = sanitise_file_name_str(s);
    let lowered = to_lowercase_str(sanitised.as_str());
    replace_str(lowered.as_str(), " ", "_")
}

/// The output root: the destination with the benchmark directories below
/// it.
pub fn get_output_dir(destination_path: &str) -> (r: String)
    ensures
        r@ == destination_path@ + "/benchmark/darpa"@,
{
    let mut r = destination_path.to_owned();
    r.append("/benchmark/darpa");
    r
}

} // verus!
