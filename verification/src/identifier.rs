//! Participant identifiers: a scheme (registration-authority code) and a
//! value (the organization number within that scheme).

use vstd::prelude::*;
use vstd::string::StringExecFns;

verus! {

/// A network participant, identified by a scheme and a value, joined with a
/// colon to form the canonical identifier string used for hashing and for
/// the metadata query.
pub struct ParticipantIdentifier {
    pub scheme: String,
    pub value: String,
}

impl ParticipantIdentifier {
    /// Well-formedness: both parts are non-empty.
    pub open spec fn wf(&self) -> bool {
        self.scheme@.len() > 0 && self.value@.len() > 0
    }

    /// The canonical identifier string: scheme, a colon, value.
    pub open spec fn canonical_spec(&self) -> Seq<char> {
        self.scheme@ + seq![':'] + self.value@
    }

    /// Builds an identifier; rejects an empty scheme or an empty value.
    pub fn new(scheme: String, value: String) -> (r: Option<Self>)
        ensures
            r is Some <==> (scheme@.len() > 0 && value@.len() > 0),
            r matches Some(id) ==> id.wf() && id.scheme@ == scheme@ && id.value@ == value@,
    {
        if scheme.as_str().is_empty() || value.as_str().is_empty() {
            None
        } else {
            Some(ParticipantIdentifier { scheme, value })
        }
    }

    /// The canonical identifier string, built as scheme + ":" + value.
    pub fn canonical(&self) -> (r: String)
        ensures
            r@ == self.canonical_spec(),
    {
        let mut r = self.scheme.clone();
        r.push(':');
        r.append(self.value.as_str());
        proof {
            assert(r@ =~= self.canonical_spec());
        }
        r
    }
}

/// The canonical string determines the identifier: two identifiers whose
/// schemes are free of colons and whose canonical strings are equal have
/// equal parts.
pub proof fn lemma_canonical_injective(a: ParticipantIdentifier, b: ParticipantIdentifier)
    requires
        forall|i: int| 0 <= i < a.scheme@.len() ==> a.scheme@[i] != ':',
        forall|i: int| 0 <= i < b.scheme@.len() ==> b.scheme@[i] != ':',
        a.canonical_spec() == b.canonical_spec(),
    ensures
        a.scheme@ == b.scheme@,
        a.value@ == b.value@,
{
    let ca = a.canonical_spec();
    let la = a.scheme@.len() as int;
    let lb = b.scheme@.len() as int;
    assert(ca[la] == ':');
    assert(ca[lb] == ':');
    if la < lb {
        assert(b.scheme@[la] == ca[la]);
        assert(false);
    }
    if lb < la {
        assert(a.scheme@[lb] == ca[lb]);
        assert(false);
    }
    assert(la == lb);
    assert forall|i: int| 0 <= i < la implies a.scheme@[i] == b.scheme@[i] by {
        assert(a.canonical_spec()[i] == a.scheme@[i]);
        assert(b.canonical_spec()[i] == b.scheme@[i]);
    }
    assert(a.scheme@ =~= b.scheme@);
    assert(a.canonical_spec().len() == la + 1 + a.value@.len());
    assert(b.canonical_spec().len() == lb + 1 + b.value@.len());
    assert(a.value@.len() == b.value@.len());
    assert forall|i: int| 0 <= i < a.value@.len() implies a.value@[i] == b.value@[i] by {
        assert(a.canonical_spec()[la + 1 + i] == a.value@[i]);
        assert(b.canonical_spec()[lb + 1 + i] == b.value@[i]);
    }
    assert(a.value@ =~= b.value@);
}

} // verus!
