//! The fruit-argument exercise: polishing a material, validating an
//! argument against the accepted fruit names, greeting, and predicting
//! whether the argument could name an apple.

use vstd::prelude::*;
use crate::text::{
    has_substring, has_suffix, replaced, str_eq, str_has_substring, str_has_suffix, str_replace,
};

verus! {

/// The arguments the exercise accepts.
pub open spec fn is_valid_arg(s: Seq<char>) -> bool {
    ||| s == "apple"@
    ||| s == "apples"@
    ||| s == "banana"@
    ||| s == "bananas"@
    ||| s == "black mulberry"@
    ||| s == "black mulberries"@
}

/// Turns any mud in the material into glitter.
pub fn bedazzle(s: &mut String)
    ensures
        final(s)@ == replaced(old(s)@, "mud"@, "glitter"@),
{
    proof {
        reveal_strlit("mud");
    }
    let r = str_replace(s.as_str(), "mud", "glitter");
    *s = r;
}

/// Validates the argument and picks the reply: an error message for an
/// argument outside the accepted set, a question for a plural-looking
/// argument, a demand for more otherwise.
pub fn inspect(s: &String) -> (r: Result<String, String>)
    ensures
        r is Ok <==> is_valid_arg(s@),
        r is Ok && (has_suffix(s@, "s"@) || has_suffix(s@, "es"@)) ==> (r->Ok_0)@ == "Do you want some "@
            + s@ + "?"@,
        r is Ok && !(has_suffix(s@, "s"@) || has_suffix(s@, "es"@)) ==> (r->Ok_0)@ == "I want more "@
            + s@ + "!"@,
        r is Err ==> (r->Err_0)@ == s@ + " is not a valid argument"@,
{
    let valid = str_eq(s.as_str(), "apple") || str_eq(s.as_str(), "apples") || str_eq(
        s.as_str(),
        "banana",
    ) || str_eq(s.as_str(), "bananas") || str_eq(s.as_str(), "black mulberry") || str_eq(
        s.as_str(),
        "black mulberries",
    );
    if !valid {
        let mut msg = s.clone();
        msg.append(" is not a valid argument");
        return Err(msg);
    }
    if str_has_suffix(s.as_str(), "s") || str_has_suffix(s.as_str(), "es") {
        let mut msg = String::from_str("Do you want some ");
        msg.append(s.as_str());
        msg.append("?");
        Ok(msg)
    } else {
        let mut msg = String::from_str("I want more ");
        msg.append(s.as_str());
        msg.append("!");
        Ok(msg)
    }
}

/// Prefixes the argument with an invitation to eat it.
pub fn change(s: &mut String)
    ensures
        final(s)@ == "Okay, let's eat "@ + old(s)@,
{
    let mut r = String::from_str("Okay, let's eat ");
    r.append(s.as_str());
    *s = r;
}

/// Whether the argument could name an apple: it ends like one and holds a
/// double p.
pub fn predict(s: String) -> (r: bool)
    ensures
        r == ((has_suffix(s@, "e"@) || has_suffix(s@, "es"@)) && has_substring(s@, "pp"@)),
{
    (str_has_suffix(s.as_str(), "e") || str_has_suffix(s.as_str(), "es")) && str_has_substring(
        s.as_str(),
        "pp",
    )
}

} // verus!
