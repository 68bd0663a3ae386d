use vstd::prelude::*;
use crate::text::{chars_of, slice_is};

verus! {

/// What `str::to_uppercase` gives for the characters `s`.
pub uninterp spec fn upper_of(s: Seq<char>) -> Seq<char>;

/// Relies on `str::to_uppercase`: the upper-case form of `s`, a function of
/// its characters alone.
#[verifier::external_body]
fn to_upper(s: &str) -> (r: String)
    ensures
        r@ == upper_of(s@),
{
    s.to_uppercase()
}

/// The two-letter code shown for an upper-case country name or code, or
/// `--` for one that is not known.
pub open spec fn flag_code_of(u: Seq<char>) -> Seq<char> {
    if u == "FR"@ || u == "FRANCE"@ {
        "FR"@
    } else if u == "US"@ || u == "USA"@ || u == "UNITED STATES"@ {
        "US"@
    } else if u == "DE"@ || u == "GERMANY"@ || u == "ALLEMAGNE"@ {
        "DE"@
    } else if u == "UK"@ || u == "GB"@ || u == "UNITED KINGDOM"@ || u == "ROYAUME-UNI"@ {
        "GB"@
    } else if u == "NL"@ || u == "NETHERLANDS"@ || u == "PAYS-BAS"@ {
        "NL"@
    } else if u == "JP"@ || u == "JAPAN"@ || u == "JAPON"@ {
        "JP"@
    } else if u == "CA"@ || u == "CANADA"@ {
        "CA"@
    } else if u == "AU"@ || u == "AUSTRALIA"@ || u == "AUSTRALIE"@ {
        "AU"@
    } else if u == "SG"@ || u == "SINGAPORE"@ || u == "SINGAPOUR"@ {
        "SG"@
    } else if u == "CH"@ || u == "SWITZERLAND"@ || u == "SUISSE"@ {
        "CH"@
    } else {
        "--"@
    }
}

/// The code for an already upper-case country name or code.
pub fn flag_code(upper: &str) -> (r: &'static str)
    ensures
        r@ == flag_code_of(upper@),
{
    let v = chars_of(upper);
    let n = v.len();
    assert(v@.subrange(0, n as int) =~= upper@);
    if slice_is(&v, 0, n, "FR") || slice_is(&v, 0, n, "FRANCE") {
        "FR"
    } else if slice_is(&v, 0, n, "US") || slice_is(&v, 0, n, "USA") || slice_is(
        &v,
        0,
        n,
        "UNITED STATES",
    ) {
        "US"
    } else if slice_is(&v, 0, n, "DE") || slice_is(&v, 0, n, "GERMANY") || slice_is(
        &v,
        0,
        n,
        "ALLEMAGNE",
    ) {
        "DE"
    } else if slice_is(&v, 0, n, "UK") || slice_is(&v, 0, n, "GB") || slice_is(
        &v,
        0,
        n,
        "UNITED KINGDOM",
    ) || slice_is(&v, 0, n, "ROYAUME-UNI") {
        "GB"
    } else if slice_is(&v, 0, n, "NL") || slice_is(&v, 0, n, "NETHERLANDS") || slice_is(
        &v,
        0,
        n,
        "PAYS-BAS",
    ) {
        "NL"
    } else if slice_is(&v, 0, n, "JP") || slice_is(&v, 0, n, "JAPAN") || slice_is(
        &v,
        0,
        n,
        "JAPON",
    ) {
        "JP"
    } else if slice_is(&v, 0, n, "CA") || slice_is(&v, 0, n, "CANADA") {
        "CA"
    } else if slice_is(&v, 0, n, "AU") || slice_is(&v, 0, n, "AUSTRALIA") || slice_is(
        &v,
        0,
        n,
        "AUSTRALIE",
    ) {
        "AU"
    } else if slice_is(&v, 0, n, "SG") || slice_is(&v, 0, n, "SINGAPORE") || slice_is(
        &v,
        0,
        n,
        "SINGAPOUR",
    ) {
        "SG"
    } else if slice_is(&v, 0, n, "CH") || slice_is(&v, 0, n, "SWITZERLAND") || slice_is(
        &v,
        0,
        n,
        "SUISSE",
    ) {
        "CH"
    } else {
        "--"
    }
}

/// The code shown for a country name or code, in any case: the code of its
/// upper-case form.
pub fn country_flag(country: &str) -> (r: &'static str)
    ensures
        r@ == flag_code_of(upper_of(country@)),
{
    let upper = to_upper(country);
    flag_code(upper.as_str())
}

} // verus!
