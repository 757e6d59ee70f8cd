//! Metadata retrieval: the query URL for a resolved hostname, and the
//! tolerant scan that extracts document-type identifiers from a response
//! body.
//!
//! The scan is a targeted pattern match against an expected structured
//! response, not full structured parsing: it looks for each
//! `ServiceMetadataReference` element whose `href` attribute is present and
//! takes the quoted attribute value, ignoring any malformed surrounding
//! markup.

use vstd::prelude::*;
use vstd::string::StrSliceExecFns;
use vstd::string::StringExecFns;
use crate::identifier::ParticipantIdentifier;
use crate::strfind::contains_string;
use crate::strfind::contains_view;
use crate::strfind::find_from;
use crate::strfind::find_str_from;
use crate::strfind::lemma_find_from;

verus! {

/// The name of the element that carries a metadata reference.
pub open spec fn marker() -> Seq<char> {
    "ServiceMetadataReference"@
}

/// The start of the attribute whose value is taken.
pub open spec fn href_attr() -> Seq<char> {
    "href=\""@
}

/// The end of an element's opening tag.
pub open spec fn tag_end() -> Seq<char> {
    ">"@
}

/// The closing quote of an attribute value.
pub open spec fn quote_mark() -> Seq<char> {
    "\""@
}

/// The views of a sequence of strings.
pub open spec fn views_of(v: Seq<String>) -> Seq<Seq<char>> {
    v.map_values(|x: String| x@)
}

/// The `href` values of the metadata-reference elements of `s` at or after
/// position `i`, in order: at each occurrence of the element name, if
/// `href="` appears before the end of the tag, the quoted value is taken
/// and the scan continues after its closing quote; an element without an
/// `href` is skipped; an unterminated tag or a value without a closing
/// quote ends the scan.
pub open spec fn extract_from(s: Seq<char>, i: int) -> Seq<Seq<char>>
    decreases s.len() - i,
    when 0 <= i
{
    match find_from(s, marker(), i) {
        None => Seq::empty(),
        Some(m) => {
            let after = m + marker().len();
            match find_from(s, tag_end(), after) {
                None => Seq::empty(),
                Some(g) => match find_from(s, href_attr(), after) {
                    Some(h) => if h < g {
                        let vs = h + href_attr().len();
                        match find_from(s, quote_mark(), vs) {
                            Some(q) => {
                                proof {
                                    reveal_strlit("\"");
                                    lemma_find_from(s, marker(), i);
                                    lemma_find_from(s, href_attr(), after);
                                    lemma_find_from(s, quote_mark(), vs);
                                }
                                seq![s.subrange(vs, q)] + extract_from(s, q + 1)
                            },
                            None => Seq::empty(),
                        }
                    } else {
                        proof {
                            reveal_strlit(">");
                            lemma_find_from(s, marker(), i);
                            lemma_find_from(s, tag_end(), after);
                        }
                        extract_from(s, g + 1)
                    },
                    None => {
                        proof {
                            reveal_strlit(">");
                            lemma_find_from(s, marker(), i);
                            lemma_find_from(s, tag_end(), after);
                        }
                        extract_from(s, g + 1)
                    },
                },
            }
        },
    }
}

/// Scans a response body for metadata-reference elements and returns their
/// `href` attribute values, in order of occurrence.
pub fn extract_hrefs(body: &str) -> (r: Vec<String>)
    ensures
        views_of(r@) == extract_from(body@, 0),
{
    let n = body.unicode_len();
    let mut out: Vec<String> = Vec::new();
    let mut i: usize = 0;
    loop
        invariant
            i <= n,
            n == body@.len(),
            extract_from(body@, 0) == views_of(out@) + extract_from(body@, i as int),
        decreases n - i,
    {
        let m = match find_str_from(body, "ServiceMetadataReference", i) {
            Some(m) => m,
            None => {
                proof {
                    assert(extract_from(body@, i as int) =~= Seq::<Seq<char>>::empty());
                    assert(extract_from(body@, 0) =~= views_of(out@));
                }
                return out;
            },
        };
        proof {
            lemma_find_from(body@, marker(), i as int);
        }
        let after = m + "ServiceMetadataReference".unicode_len();
        let g = match find_str_from(body, ">", after) {
            Some(g) => g,
            None => {
                proof {
                    assert(extract_from(body@, i as int) =~= Seq::<Seq<char>>::empty());
                    assert(extract_from(body@, 0) =~= views_of(out@));
                }
                return out;
            },
        };
        proof {
            reveal_strlit(">");
            lemma_find_from(body@, tag_end(), after as int);
        }
        let h_found = match find_str_from(body, "href=\"", after) {
            Some(h) => if h < g {
                Some(h)
            } else {
                None
            },
            None => None,
        };
        match h_found {
            Some(h) => {
                proof {
                    lemma_find_from(body@, href_attr(), after as int);
                }
                let vs = h + "href=\"".unicode_len();
                let q = match find_str_from(body, "\"", vs) {
                    Some(q) => q,
                    None => {
                        proof {
                            assert(extract_from(body@, i as int)
                                =~= Seq::<Seq<char>>::empty());
                            assert(extract_from(body@, 0) =~= views_of(out@));
                        }
                        return out;
                    },
                };
                proof {
                    reveal_strlit("\"");
                    lemma_find_from(body@, quote_mark(), vs as int);
                }
                let href = body.substring_char(vs, q).to_owned();
                proof {
                    assert(extract_from(body@, i as int) == seq![body@.subrange(
                        vs as int,
                        q as int,
                    )] + extract_from(body@, q + 1));
                    assert(views_of(out@.push(href)) =~= views_of(out@) + seq![href@]);
                    assert(views_of(out@) + (seq![href@] + extract_from(body@, q + 1))
                        =~= (views_of(out@) + seq![href@]) + extract_from(body@, q + 1));
                }
                out.push(href);
                i = q + 1;
            },
            None => {
                proof {
                    assert(extract_from(body@, i as int) == extract_from(body@, g + 1));
                }
                i = g + 1;
            },
        }
    }
}

/// The marker that precedes a document-type identifier inside a decoded
/// `href` value.
pub open spec fn busdox_marker() -> Seq<char> {
    "busdox-docid-qns::"@
}

/// The start of an optional trailing fragment.
pub open spec fn fragment_mark() -> Seq<char> {
    "#"@
}

/// The view of an optional string.
pub open spec fn view_opt(r: Option<String>) -> Option<Seq<char>> {
    match r {
        Some(s) => Some(s@),
        None => None,
    }
}

/// The result of percent-decoding a string, or nothing where decoding
/// fails.
pub uninterp spec fn decoded_of(s: Seq<char>) -> Option<Seq<char>>;

/// Relies on urlencoding::decode: percent-decoding depends on the input
/// characters alone, and fails exactly when the decoded bytes are not
/// valid UTF-8.
#[verifier::external_body]
fn percent_decode(s: &str) -> (r: Option<String>)
    ensures
        view_opt(r) == decoded_of(s@),
{
    match urlencoding::decode(s) {
        Ok(c) => Some(c.into_owned()),
        Err(_) => None,
    }
}

/// The percent-encoding of a string.
pub uninterp spec fn encoded_of(s: Seq<char>) -> Seq<char>;

/// Relies on urlencoding::encode: percent-encoding depends on the input
/// characters alone.
#[verifier::external_body]
fn percent_encode(s: &str) -> (r: String)
    ensures
        r@ == encoded_of(s@),
{
    urlencoding::encode(s).into_owned()
}

/// The document-type identifier inside a decoded `href` value: everything
/// after the first occurrence of the marker, up to but not including an
/// optional trailing fragment; nothing where the marker is absent.
pub open spec fn doc_type_of(h: Seq<char>) -> Option<Seq<char>> {
    match find_from(h, busdox_marker(), 0) {
        None => None,
        Some(b) => {
            let start = b + busdox_marker().len();
            match find_from(h, fragment_mark(), start) {
                Some(p) => Some(h.subrange(start, p)),
                None => Some(h.subrange(start, h.len() as int)),
            }
        },
    }
}

/// Extracts the document-type identifier from a decoded `href` value.
pub fn doc_type_of_href(h: &str) -> (r: Option<String>)
    ensures
        view_opt(r) == doc_type_of(h@),
{
    let b = match find_str_from(h, "busdox-docid-qns::", 0) {
        Some(b) => b,
        None => {
            return None;
        },
    };
    proof {
        lemma_find_from(h@, busdox_marker(), 0);
    }
    let n = h.unicode_len();
    let start = b + "busdox-docid-qns::".unicode_len();
    let end = match find_str_from(h, "#", start) {
        Some(p) => {
            proof {
                lemma_find_from(h@, fragment_mark(), start as int);
            }
            p
        },
        None => h.unicode_len(),
    };
    Some(h.substring_char(start, end).to_owned())
}

/// The document-type identifier that an extracted `href` yields after
/// decoding, if decoding succeeds and the marker is present.
pub open spec fn doc_type_from_href(href: Seq<char>) -> Option<Seq<char>> {
    match decoded_of(href) {
        Some(d) => doc_type_of(d),
        None => None,
    }
}

/// Some `href` among the first `jmax` extracted from `body` yields the
/// document-type identifier `t`.
pub open spec fn yields_in_prefix(body: Seq<char>, jmax: int, t: Seq<char>) -> bool {
    exists|j: int|
        0 <= j < jmax && #[trigger] doc_type_from_href(extract_from(body, 0)[j]) == Some(t)
}

/// Some `href` extracted from `body` yields the document-type identifier
/// `t`.
pub open spec fn body_yields(body: Seq<char>, t: Seq<char>) -> bool {
    yields_in_prefix(body, extract_from(body, 0).len() as int, t)
}

/// `out` lists exactly the document-type identifiers that `body` yields,
/// with duplicates collapsed.
pub open spec fn is_doc_type_listing(body: Seq<char>, out: Seq<String>) -> bool {
    &&& forall|k: int| 0 <= k < out.len() ==> body_yields(body, #[trigger] out[k]@)
    &&& forall|t: Seq<char>| #[trigger] body_yields(body, t) ==> contains_view(out, t)
    &&& forall|k1: int, k2: int| 0 <= k1 < k2 < out.len() ==> out[k1]@ != out[k2]@
}

proof fn lemma_prefix_monotone(body: Seq<char>, jmax: int, t: Seq<char>)
    requires
        yields_in_prefix(body, jmax, t),
    ensures
        yields_in_prefix(body, jmax + 1, t),
{
    let j = choose|j: int|
        0 <= j < jmax && #[trigger] doc_type_from_href(extract_from(body, 0)[j]) == Some(t);
    assert(0 <= j < jmax + 1 && doc_type_from_href(extract_from(body, 0)[j]) == Some(t));
}

/// Collects the document-type identifiers advertised by a response body:
/// each extracted `href` is percent-decoded and its identifier taken; a
/// value that fails to decode is skipped rather than failing the whole
/// scan; duplicates are collapsed. An empty result is a normal outcome,
/// not an error.
pub fn extract_document_types(body: &str) -> (r: Vec<String>)
    ensures
        is_doc_type_listing(body@, r@),
{
    let hrefs = extract_hrefs(body);
    let mut out: Vec<String> = Vec::new();
    let mut j: usize = 0;
    while j < hrefs.len()
        invariant
            j <= hrefs@.len(),
            views_of(hrefs@) == extract_from(body@, 0),
            forall|k: int|
                0 <= k < out@.len() ==> yields_in_prefix(body@, j as int, #[trigger] out@[k]@),
            forall|t: Seq<char>|
                #[trigger] yields_in_prefix(body@, j as int, t) ==> contains_view(out@, t),
            forall|k1: int, k2: int| 0 <= k1 < k2 < out@.len() ==> out@[k1]@ != out@[k2]@,
        decreases hrefs@.len() - j,
    {
        proof {
            assert(views_of(hrefs@)[j as int] == hrefs@[j as int]@);
        }
        let ghost prev = out@;
        let href = &hrefs[j];
        let ghost href_yield = doc_type_from_href(href@);
        match percent_decode(href.as_str()) {
            None => {
                proof {
                    assert(href_yield is None);
                }
            },
            Some(d) => {
                match doc_type_of_href(d.as_str()) {
                    None => {
                        proof {
                            assert(href_yield is None);
                        }
                    },
                    Some(t) => {
                        proof {
                            assert(href_yield == Some(t@));
                        }
                        if !contains_string(&out, &t) {
                            let ghost tv = t@;
                            out.push(t);
                            proof {
                                assert(forall|k: int|
                                    0 <= k < prev.len() ==> out@[k] == prev[k]);
                                assert(out@[prev.len() as int]@ == tv);
                                assert(contains_view(out@, tv));
                                assert forall|k1: int, k2: int|
                                    0 <= k1 < k2 < out@.len() implies out@[k1]@
                                    != out@[k2]@ by {
                                    if k2 == out@.len() - 1 {
                                        assert(out@[k1] == prev[k1]);
                                        assert(prev[k1]@ != tv);
                                    } else {
                                        assert(out@[k1] == prev[k1]);
                                        assert(out@[k2] == prev[k2]);
                                    }
                                }
                            }
                        } else {
                            proof {
                                assert(contains_view(out@, t@));
                            }
                        }
                    },
                }
            },
        }
        proof {
            assert forall|k: int|
                0 <= k < out@.len() implies yields_in_prefix(
                body@,
                j + 1,
                #[trigger] out@[k]@,
            ) by {
                if k < prev.len() {
                    assert(out@[k] == prev[k]);
                    lemma_prefix_monotone(body@, j as int, prev[k]@);
                } else {
                    assert(doc_type_from_href(extract_from(body@, 0)[j as int]) == Some(
                        out@[k]@,
                    ));
                }
            }
            assert forall|t: Seq<char>|
                #[trigger] yields_in_prefix(body@, j + 1, t) implies contains_view(
                out@,
                t,
            ) by {
                let jj = choose|jj: int|
                    0 <= jj < j + 1 && #[trigger] doc_type_from_href(
                        extract_from(body@, 0)[jj],
                    ) == Some(t);
                if jj < j {
                    assert(yields_in_prefix(body@, j as int, t));
                    assert(contains_view(prev, t));
                    let k = choose|k: int| 0 <= k < prev.len() && prev[k]@ == t;
                    assert(out@[k]@ == t);
                } else {
                    assert(href_yield == Some(t));
                }
            }
        }
        j = j + 1;
    }
    proof {
        assert forall|t: Seq<char>| #[trigger] body_yields(body@, t) implies contains_view(
            out@,
            t,
        ) by {
            assert(yields_in_prefix(body@, hrefs@.len() as int, t));
        }
    }
    out
}

/// A body from which the scan extracts no `href` at all yields an empty
/// listing, not an error: every listed identifier comes from some
/// extracted `href`.
pub proof fn lemma_empty_scan_yields_nothing(body: Seq<char>, out: Seq<String>)
    requires
        extract_from(body, 0).len() == 0,
        is_doc_type_listing(body, out),
    ensures
        out.len() == 0,
{
    if out.len() > 0 {
        assert(body_yields(body, out[0]@));
    }
}

/// The metadata query URL for a resolved hostname and a canonical
/// identifier: plain HTTP, the hostname, the identifier scheme path, and
/// the percent-encoded canonical identifier.
pub open spec fn smp_url_spec(host: Seq<char>, canonical: Seq<char>) -> Seq<char> {
    "http://"@ + host + "/iso6523-actorid-upis::"@ + encoded_of(canonical)
}

/// Builds the metadata query URL for a participant on a resolved hostname.
pub fn smp_url(hostname: &str, id: &ParticipantIdentifier) -> (r: String)
    ensures
        r@ == smp_url_spec(hostname@, id.canonical_spec()),
{
    let canonical = id.canonical();
    let encoded = percent_encode(canonical.as_str());
    let mut r = String::from_str("http://");
    r.append(hostname);
    r.append("/iso6523-actorid-upis::");
    r.append(encoded.as_str());
    proof {
        assert(r@ =~= smp_url_spec(hostname@, id.canonical_spec()));
    }
    r
}

/// The metadata request for a resolution outcome. A participant that did
/// not resolve gets no request: the pipeline short-circuits and metadata
/// retrieval is never invoked.
pub fn metadata_request_url(resolved: &Option<String>, id: &ParticipantIdentifier) -> (r: Option<
    String,
>)
    ensures
        resolved is None ==> r is None,
        resolved matches Some(h) ==> r matches Some(u) && u@ == smp_url_spec(
            h@,
            id.canonical_spec(),
        ),
{
    match resolved {
        None => None,
        Some(h) => Some(smp_url(h.as_str(), id)),
    }
}

/// Why metadata retrieval failed: the request did not complete, or the
/// server answered with a non-success status.
#[derive(Debug, PartialEq, Eq)]
pub enum MetadataError {
    Transport,
    HttpStatus(u16),
}

/// A success status: any status in the 200 to 299 range.
pub open spec fn is_success_status(status: u16) -> bool {
    200 <= status <= 299
}

/// Decides the outcome of metadata retrieval. The caller performs the
/// request and hands over the status and body, or nothing where the
/// request itself failed; every document-type identifier is extracted from
/// a success response.
pub fn document_types_from_response(resp: Option<(u16, String)>) -> (r: Result<
    Vec<String>,
    MetadataError,
>)
    ensures
        resp is None ==> r == Err::<Vec<String>, MetadataError>(MetadataError::Transport),
        resp matches Some(p) ==> {
            &&& !is_success_status(p.0) ==> r == Err::<Vec<String>, MetadataError>(
                MetadataError::HttpStatus(p.0),
            )
            &&& is_success_status(p.0) ==> (r matches Ok(v) && is_doc_type_listing(p.1@, v@))
        },
{
    match resp {
        None => Err(MetadataError::Transport),
        Some((status, body)) => {
            if status < 200 || status > 299 {
                Err(MetadataError::HttpStatus(status))
            } else {
                Ok(extract_document_types(body.as_str()))
            }
        },
    }
}

} // verus!
