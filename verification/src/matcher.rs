//! Capability matching: checks the discovered document-type identifiers
//! against a fixed table of known document types.

use vstd::prelude::*;
use vstd::string::StringExecFns;
use crate::strfind::contains_string;
use crate::strfind::contains_view;

verus! {

/// For each named capability in the known table, whether its canonical
/// identifier is present in the discovered set, by exact string equality.
/// Pure and total: every well-formed input gets one flag per table entry.
pub fn matches(discovered: &Vec<String>, known: &Vec<(String, String)>) -> (r: Vec<(
    String,
    bool,
)>)
    ensures
        r@.len() == known@.len(),
        forall|i: int|
            0 <= i < known@.len() ==> (#[trigger] r@[i]).0@ == known@[i].0@ && (r@[i].1
                <==> contains_view(discovered@, known@[i].1@)),
{
    let mut r: Vec<(String, bool)> = Vec::new();
    let mut i: usize = 0;
    while i < known.len()
        invariant
            i <= known@.len(),
            r@.len() == i,
            forall|j: int|
                0 <= j < i ==> (#[trigger] r@[j]).0@ == known@[j].0@ && (r@[j].1
                    <==> contains_view(discovered@, known@[j].1@)),
        decreases known@.len() - i,
    {
        let name = known[i].0.clone();
        let present = contains_string(discovered, &known[i].1);
        r.push((name, present));
        i = i + 1;
    }
    r
}

/// The built-in table of known document types: the invoice and credit-note
/// identifiers of the billing profile, under their display names.
pub fn bis_billing_known_types() -> (r: Vec<(String, String)>)
    ensures
        r@.len() == 2,
        r@[0].0@ == "Invoice"@,
        r@[0].1@ == "urn:oasis:names:specification:ubl:schema:xsd:Invoice-2::Invoice"@,
        r@[1].0@ == "Credit Note"@,
        r@[1].1@ == "urn:oasis:names:specification:ubl:schema:xsd:CreditNote-2::CreditNote"@,
{
    let mut r: Vec<(String, String)> = Vec::new();
    r.push(
        (
            String::from_str("Invoice"),
            String::from_str("urn:oasis:names:specification:ubl:schema:xsd:Invoice-2::Invoice"),
        ),
    );
    r.push(
        (
            String::from_str("Credit Note"),
            String::from_str(
                "urn:oasis:names:specification:ubl:schema:xsd:CreditNote-2::CreditNote",
            ),
        ),
    );
    r
}

} // verus!
