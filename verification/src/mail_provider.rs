//! Mail provider classifier: maps the first MX exchange hostname to a
//! canonical provider label through an ordered first-match substring list.

use crate::answers::RawAnswerSet;
use crate::text::{contains_seq, lower_seq, str_contains, to_ascii_lower};
use vstd::prelude::*;

verus! {

/// The provider label for an already-lowered exchange hostname: the fixed
/// substring rules are tried in priority order and the first match wins;
/// without a match the hostname is echoed as unknown.
pub open spec fn provider_label(ex: Seq<char>) -> Seq<char> {
    if contains_seq(ex, "google"@) {
        "Google"@
    } else if contains_seq(ex, "outlook"@) || contains_seq(ex, "microsoft"@) {
        "Microsoft"@
    } else if contains_seq(ex, "amazonses"@) {
        "Amazon SES"@
    } else if contains_seq(ex, "mimecast"@) {
        "Mimecast"@
    } else if contains_seq(ex, "mailgun"@) {
        "Mailgun"@
    } else if contains_seq(ex, "sendgrid"@) {
        "SendGrid"@
    } else if contains_seq(ex, "protonmail"@) {
        "ProtonMail"@
    } else if contains_seq(ex, "zoho"@) {
        "Zoho"@
    } else if contains_seq(ex, "cloudflare"@) {
        "Cloudflare Email Routing"@
    } else if contains_seq(ex, "pphosted"@) || contains_seq(ex, "proofpoint"@) {
        "Proofpoint"@
    } else if contains_seq(ex, "barracuda"@) {
        "Barracuda"@
    } else if contains_seq(ex, "mailprotector"@) {
        "Mailprotector"@
    } else if contains_seq(ex, "spamhero"@) {
        "SpamHero"@
    } else {
        "Unknown ("@ + ex + ")"@
    }
}

/// The provider label for the MX answers: only the first exchange hostname
/// is consulted, lowered; no MX answer at all is its own label, not an error.
pub open spec fn mail_provider_of(answers: Seq<Seq<char>>) -> Seq<char> {
    if answers.len() == 0 {
        "No MX records found"@
    } else {
        provider_label(lower_seq(answers[0]))
    }
}

/// The provider label for the domain's MX answers, each answer text an
/// exchange hostname in resolver order.
pub fn check_mail_provider(answers: &RawAnswerSet) -> (r: String)
    ensures
        r@ == mail_provider_of(answers.texts()),
{
    match answers {
        RawAnswerSet::NoRecords => "No MX records found".to_owned(),
        RawAnswerSet::Records(v) => {
            if v.len() == 0 {
                "No MX records found".to_owned()
            } else {
                let ex = to_ascii_lower(v[0].as_str());
                if str_contains(ex.as_str(), "google") {
                    "Google".to_owned()
                } else if str_contains(ex.as_str(), "outlook") || str_contains(
                    ex.as_str(),
                    "microsoft",
                ) {
                    "Microsoft".to_owned()
                } else if str_contains(ex.as_str(), "amazonses") {
                    "Amazon SES".to_owned()
                } else if str_contains(ex.as_str(), "mimecast") {
                    "Mimecast".to_owned()
                } else if str_contains(ex.as_str(), "mailgun") {
                    "Mailgun".to_owned()
                } else if str_contains(ex.as_str(), "sendgrid") {
                    "SendGrid".to_owned()
                } else if str_contains(ex.as_str(), "protonmail") {
                    "ProtonMail".to_owned()
                } else if str_contains(ex.as_str(), "zoho") {
                    "Zoho".to_owned()
                } else if str_contains(ex.as_str(), "cloudflare") {
                    "Cloudflare Email Routing".to_owned()
                } else if str_contains(ex.as_str(), "pphosted") || str_contains(
                    ex.as_str(),
                    "proofpoint",
                ) {
                    "Proofpoint".to_owned()
                } else if str_contains(ex.as_str(), "barracuda") {
                    "Barracuda".to_owned()
                } else if str_contains(ex.as_str(), "mailprotector") {
                    "Mailprotector".to_owned()
                } else if str_contains(ex.as_str(), "spamhero") {
                    "SpamHero".to_owned()
                } else {
                    let mut u = "Unknown (".to_owned();
                    u.append(ex.as_str());
                    u.append(")");
                    u
                }
            }
        },
    }
}

/// Classification is order-sensitive and the first match wins: a hostname
/// whose lowered form contains `google` is labelled Google whatever else it
/// contains, and one that avoids `google` but contains `outlook` or
/// `microsoft` is labelled Microsoft.
pub proof fn lemma_provider_first_match_wins(ex: Seq<char>)
    ensures
        contains_seq(ex, "google"@) ==> provider_label(ex) == "Google"@,
        !contains_seq(ex, "google"@) && (contains_seq(ex, "outlook"@) || contains_seq(
            ex,
            "microsoft"@,
        )) ==> provider_label(ex) == "Microsoft"@,
{
}

} // verus!
