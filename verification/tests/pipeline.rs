use md5::Digest;
use md5::Md5;
use peppol_lookup::hex::to_hex_lower;
use peppol_lookup::identifier::ParticipantIdentifier;
use peppol_lookup::matcher::bis_billing_known_types;
use peppol_lookup::metadata::document_types_from_response;
use peppol_lookup::metadata::extract_document_types;
use peppol_lookup::metadata::extract_hrefs;
use peppol_lookup::metadata::metadata_request_url;
use peppol_lookup::metadata::smp_url;
use peppol_lookup::metadata::MetadataError;
use peppol_lookup::resolver::candidate_hostname;
use peppol_lookup::resolver::resolve;

const INVOICE: &str = "urn:oasis:names:specification:ubl:schema:xsd:Invoice-2::Invoice";
const CREDIT_NOTE: &str = "urn:oasis:names:specification:ubl:schema:xsd:CreditNote-2::CreditNote";

fn test_identifier() -> ParticipantIdentifier {
    ParticipantIdentifier::new("0192".to_string(), "921605900".to_string()).unwrap()
}

fn md5_hex(s: &str) -> String {
    let digest = Md5::digest(s.as_bytes());
    let mut hex = String::new();
    for b in digest.iter() {
        hex.push_str(&format!("{:02x}", b));
    }
    hex
}

#[test]
fn identifier_rejects_empty_parts() {
    assert!(ParticipantIdentifier::new(String::new(), "921605900".to_string()).is_none());
    assert!(ParticipantIdentifier::new("0192".to_string(), String::new()).is_none());
    assert!(ParticipantIdentifier::new("0192".to_string(), "921605900".to_string()).is_some());
}

#[test]
fn canonical_joins_with_colon() {
    assert_eq!(test_identifier().canonical(), "0192:921605900");
}

#[test]
fn hex_rendering_is_lowercase_two_digits_per_byte() {
    assert_eq!(to_hex_lower(&vec![0x00u8, 0xff, 0x1a]), "00ff1a");
    assert_eq!(to_hex_lower(&vec![]), "");
}

#[test]
fn candidate_hostname_is_deterministic() {
    let id1 = test_identifier();
    let id2 = test_identifier();
    let h1 = candidate_hostname(&id1, "edelivery.tech.ec.europa.eu");
    let h2 = candidate_hostname(&id2, "edelivery.tech.ec.europa.eu");
    assert_eq!(h1, h2);
}

#[test]
fn candidate_hostname_matches_hash_construction() {
    let id = test_identifier();
    let hostname = candidate_hostname(&id, "edelivery.tech.ec.europa.eu");
    let expected = format!(
        "b-{}.iso6523-actorid-upis.edelivery.tech.ec.europa.eu",
        md5_hex("0192:921605900")
    );
    assert_eq!(hostname, expected);
}

#[test]
fn resolution_failure_short_circuits_pipeline() {
    let id = test_identifier();
    let hostname = candidate_hostname(&id, "edelivery.tech.ec.europa.eu");
    let outcome = resolve(hostname, false);
    assert!(outcome.is_none());
    assert!(metadata_request_url(&outcome, &id).is_none());
}

#[test]
fn resolution_success_keeps_hostname() {
    let id = test_identifier();
    let hostname = candidate_hostname(&id, "edelivery.tech.ec.europa.eu");
    let outcome = resolve(hostname.clone(), true);
    assert_eq!(outcome, Some(hostname));
}

#[test]
fn smp_url_percent_encodes_identifier() {
    let id = test_identifier();
    let url = smp_url("smp.example.org", &id);
    assert_eq!(
        url,
        "http://smp.example.org/iso6523-actorid-upis::0192%3A921605900"
    );
}

#[test]
fn href_extraction_decodes_and_strips_fragment() {
    let body = "<ServiceMetadataReferenceCollection>\
        <ServiceMetadataReference href=\"%2Fiso6523-actorid-upis%3A%3A0192%3A921605900\
        %2Fbusdox-docid-qns%3A%3Aurn%3Aoasis%3Anames%3Aspecification%3Aubl%3Aschema%3Axsd\
        %3AInvoice-2%3A%3AInvoice%23ver1.0\">\
        </ServiceMetadataReferenceCollection>";
    let types = extract_document_types(body);
    assert_eq!(types, vec![INVOICE.to_string()]);
}

#[test]
fn href_extraction_keeps_plain_hrefs() {
    let body = format!(
        "<ServiceMetadataReference href=\"/x/busdox-docid-qns::{}#v\">",
        INVOICE
    );
    let types = extract_document_types(&body);
    assert_eq!(types, vec![INVOICE.to_string()]);
}

#[test]
fn extraction_ignores_unrelated_elements() {
    let body = "<Other href=\"/busdox-docid-qns::nope\"><More>text</More>";
    assert!(extract_hrefs(body).is_empty());
    assert!(extract_document_types(body).is_empty());
}

#[test]
fn element_without_href_is_skipped() {
    let body = format!(
        "<ServiceMetadataReference id=\"1\">\
         <ServiceMetadataReference href=\"/busdox-docid-qns::{}\">",
        INVOICE
    );
    let types = extract_document_types(&body);
    assert_eq!(types, vec![INVOICE.to_string()]);
}

#[test]
fn duplicates_are_collapsed() {
    let href = format!("/busdox-docid-qns::{}", INVOICE);
    let body = format!(
        "<ServiceMetadataReference href=\"{h}\"><ServiceMetadataReference href=\"{h}\">",
        h = href
    );
    let types = extract_document_types(&body);
    assert_eq!(types, vec![INVOICE.to_string()]);
}

#[test]
fn undecodable_href_is_skipped_not_fatal() {
    let body = format!(
        "<ServiceMetadataReference href=\"%FFbusdox-docid-qns::bad\">\
         <ServiceMetadataReference href=\"/busdox-docid-qns::{}\">",
        INVOICE
    );
    let types = extract_document_types(&body);
    assert_eq!(types, vec![INVOICE.to_string()]);
}

#[test]
fn href_without_marker_yields_nothing() {
    let body = "<ServiceMetadataReference href=\"/plain/path\">";
    assert_eq!(extract_hrefs(body).len(), 1);
    assert!(extract_document_types(body).is_empty());
}

#[test]
fn empty_body_yields_empty_set_not_error() {
    let r = document_types_from_response(Some((200, "<NoReferencesHere/>".to_string())));
    assert_eq!(r, Ok(vec![]));
}

#[test]
fn transport_failure_is_reported() {
    let r = document_types_from_response(None);
    assert_eq!(r, Err(MetadataError::Transport));
}

#[test]
fn non_success_status_is_reported_with_code() {
    let r = document_types_from_response(Some((404, "ignored".to_string())));
    assert_eq!(r, Err(MetadataError::HttpStatus(404)));
    let r = document_types_from_response(Some((500, "ignored".to_string())));
    assert_eq!(r, Err(MetadataError::HttpStatus(500)));
}

#[test]
fn matcher_reports_presence_and_absence() {
    let known = bis_billing_known_types();
    let discovered = vec![INVOICE.to_string(), "urn:something:else".to_string()];
    let flags = peppol_lookup::matcher::matches(&discovered, &known);
    assert_eq!(flags.len(), 2);
    assert_eq!(flags[0], ("Invoice".to_string(), true));
    assert_eq!(flags[1], ("Credit Note".to_string(), false));
}

#[test]
fn matcher_on_empty_set_is_all_false() {
    let known = bis_billing_known_types();
    let flags = peppol_lookup::matcher::matches(&vec![], &known);
    assert_eq!(flags[0].1, false);
    assert_eq!(flags[1].1, false);
}

#[test]
fn end_to_end_both_capabilities_supported() {
    let id = test_identifier();
    let hostname = candidate_hostname(&id, "edelivery.tech.ec.europa.eu");
    let outcome = resolve(hostname, true);
    let url = metadata_request_url(&outcome, &id);
    assert!(url.is_some());
    let body = format!(
        "<ServiceMetadataReference href=\"/busdox-docid-qns::{}\">\
         <ServiceMetadataReference href=\"/busdox-docid-qns::{}\">",
        INVOICE, CREDIT_NOTE
    );
    let types = document_types_from_response(Some((200, body))).unwrap();
    let flags = peppol_lookup::matcher::matches(&types, &bis_billing_known_types());
    assert_eq!(flags[0].1, true);
    assert_eq!(flags[1].1, true);
}

#[test]
fn end_to_end_no_capabilities_supported() {
    let id = test_identifier();
    let hostname = candidate_hostname(&id, "edelivery.tech.ec.europa.eu");
    let outcome = resolve(hostname, true);
    let url = metadata_request_url(&outcome, &id);
    assert!(url.is_some());
    let types = document_types_from_response(Some((200, "<Empty/>".to_string()))).unwrap();
    let flags = peppol_lookup::matcher::matches(&types, &bis_billing_known_types());
    assert_eq!(flags[0].1, false);
    assert_eq!(flags[1].1, false);
}
