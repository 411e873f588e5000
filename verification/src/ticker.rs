//! Ticker symbols and the resources that hold their data.

use vstd::prelude::*;
use vstd::string::*;

verus! {

/// The upper-case form of a text, as `str::to_uppercase` gives it.
pub uninterp spec fn uppercased(text: Seq<char>) -> Seq<char>;

/// Calls `str::to_uppercase`, which maps every character to its Unicode
/// upper-case form. The contract only names the result.
#[verifier::external_body]
pub(crate) fn to_uppercase(text: &str) -> (upper: String)
    ensures
        upper@ == uppercased(text@),
{
    text.to_uppercase()
}

/// Name of the resource that holds the data of `ticker`: the upper-case
/// ticker followed by `.csv`.
pub fn resource_name(ticker: &str) -> (name: String)
    ensures
        name@ == uppercased(ticker@) + ".csv"@,
{
    let mut name = to_uppercase(ticker);
    name.append(".csv");
    name
}

} // verus!
