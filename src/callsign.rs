use vstd::prelude::*;

verus! {

/// What `str::to_uppercase` gives for a string.
pub uninterp spec fn upper_of(s: Seq<char>) -> Seq<char>;

/// Relies on `str::to_uppercase`: its result depends on the characters of the
/// input alone.
#[verifier::external_body]
fn uppercased(s: &str) -> (r: String)
    ensures
        r@ == upper_of(s@),
{
    s.to_uppercase()
}

/// The lookup failed: no country is known for the callsign's prefix.
#[derive(PartialEq, Eq, Structural, Clone, Copy, Debug)]
pub enum CallsignError {
    UnknownPrefix,
}

/// The country allocated the prefix that `p` (in upper case) starts with:
/// `A2` to `A7` and `A9` one country each, the range `AP` to `AS`, and `B`.
pub open spec fn country_of(p: Seq<char>) -> Option<Seq<char>> {
    if p.len() >= 2 && p[0] == 'A' && p[1] == '2' {
        Some("Botswana"@)
    } else if p.len() >= 2 && p[0] == 'A' && p[1] == '3' {
        Some("Tonga"@)
    } else if p.len() >= 2 && p[0] == 'A' && p[1] == '4' {
        Some("Oman"@)
    } else if p.len() >= 2 && p[0] == 'A' && p[1] == '5' {
        Some("Bhutan"@)
    } else if p.len() >= 2 && p[0] == 'A' && p[1] == '6' {
        Some("United Arab Emirates"@)
    } else if p.len() >= 2 && p[0] == 'A' && p[1] == '7' {
        Some("Qatar"@)
    } else if p.len() >= 2 && p[0] == 'A' && p[1] == '9' {
        Some("Bahrain"@)
    } else if p.len() >= 2 && p[0] == 'A' && 'P' <= p[1] && p[1] <= 'S' {
        Some("Pakistan"@)
    } else if p.len() >= 1 && p[0] == 'B' {
        Some("China"@)
    } else {
        None
    }
}

/// `r` is the outcome of looking up the prefix of `p`: the country's name,
/// or `UnknownPrefix` where none is known.
pub open spec fn lookup_outcome(p: Seq<char>, r: Result<String, CallsignError>) -> bool {
    match country_of(p) {
        Some(name) => r matches Ok(s) && s@ == name,
        None => r == Err::<String, CallsignError>(CallsignError::UnknownPrefix),
    }
}

/// Looks up the country of a callsign that is already in upper case.
pub fn country_of_upper(callsign: &str) -> (r: Result<String, CallsignError>)
    ensures
        lookup_outcome(callsign@, r),
{
    let n = callsign.unicode_len();
    if n == 0 {
        return Err(CallsignError::UnknownPrefix);
    }
    let c0 = callsign.get_char(0);
    if c0 == 'B' {
        return Ok(String::from_str("China"));
    }
    if c0 != 'A' || n < 2 {
        return Err(CallsignError::UnknownPrefix);
    }
    let c1 = callsign.get_char(1);
    let name = if c1 == '2' {
        "Botswana"
    } else if c1 == '3' {
        "Tonga"
    } else if c1 == '4' {
        "Oman"
    } else if c1 == '5' {
        "Bhutan"
    } else if c1 == '6' {
        "United Arab Emirates"
    } else if c1 == '7' {
        "Qatar"
    } else if c1 == '9' {
        "Bahrain"
    } else if 'P' <= c1 && c1 <= 'S' {
        "Pakistan"
    } else {
        return Err(CallsignError::UnknownPrefix);
    };
    Ok(String::from_str(name))
}

/// Looks up the country of a callsign in any case, by the prefix of its upper
/// case form.
pub fn callsign_country(callsign: String) -> (r: Result<String, CallsignError>)
    ensures
        lookup_outcome(upper_of(callsign@), r),
{
    let upper = uppercased(callsign.as_str());
    country_of_upper(upper.as_str())
}

} // verus!
