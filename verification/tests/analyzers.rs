use domain_health::answers::RawAnswerSet;
use domain_health::dkim::{check_dkim, dkim_query_name, dkim_selectors, trim_dkim_record};
use domain_health::dmarc::{check_dmarc, dmarc_query_name, parse_dmarc_tags};
use domain_health::mail_provider::check_mail_provider;
use domain_health::spf::{check_spf, parse_trusted_senders};

fn records(texts: &[&str]) -> RawAnswerSet {
    RawAnswerSet::Records(texts.iter().map(|t| t.to_string()).collect())
}

fn no_records_per_selector(n: usize) -> Vec<RawAnswerSet> {
    (0..n).map(|_| RawAnswerSet::NoRecords).collect()
}

const KEY40: &str = "0123456789ABCDEFGHIJKLMNOPQRSTUVWXYZabcd";

#[test]
fn spf_no_records_signal_is_absent() {
    let (status, senders, recs) = check_spf(&RawAnswerSet::NoRecords);
    assert_eq!(status, "No SPF records found");
    assert!(senders.is_empty());
    assert!(recs.is_empty());
}

#[test]
fn spf_answers_without_version_tag_are_absent() {
    let (status, senders, recs) = check_spf(&records(&["hello world", "v=spf2 ip4:1.2.3.4"]));
    assert_eq!(status, "No SPF records found");
    assert!(senders.is_empty());
    assert!(recs.is_empty());
}

#[test]
fn spf_single_record_with_hard_fail() {
    let (status, senders, recs) = check_spf(&records(&["v=spf1 ip4:1.2.3.4 -all"]));
    assert_eq!(status, "Valid SPF record found");
    assert_eq!(senders, vec!["ip4:1.2.3.4".to_string(), "-all".to_string()]);
    assert_eq!(recs, vec!["v=spf1 ip4:1.2.3.4 -all".to_string()]);
}

#[test]
fn spf_token_classification() {
    let senders = parse_trusted_senders(
        "v=spf1 a:mail.example.com include:spf.example.net mx:mx.example.org foo ~all ip6:2001:db8::1 exists:x",
    );
    assert_eq!(
        senders,
        vec![
            "a:mail.example.com".to_string(),
            "include:spf.example.net".to_string(),
            "mx:mx.example.org".to_string(),
            "~all".to_string(),
            "ip6:2001:db8::1".to_string(),
        ]
    );
}

#[test]
fn spf_qualifier_must_match_exactly() {
    let senders = parse_trusted_senders("v=spf1 all -allx ?all");
    assert_eq!(senders, vec!["?all".to_string()]);
}

#[test]
fn spf_senders_keep_record_then_token_order() {
    let (status, senders, recs) = check_spf(&records(&[
        "v=spf1 ip4:1.1.1.1",
        "not spf",
        "v=spf1 include:a.example -all",
    ]));
    assert_eq!(status, "Valid SPF record found");
    assert_eq!(
        senders,
        vec![
            "ip4:1.1.1.1".to_string(),
            "include:a.example".to_string(),
            "-all".to_string(),
        ]
    );
    assert_eq!(recs.len(), 2);
}

#[test]
fn spf_tokenizes_on_unicode_whitespace() {
    let senders = parse_trusted_senders("v=spf1\u{a0}ip4:1.2.3.4\u{2003}-all");
    assert_eq!(senders, vec!["ip4:1.2.3.4".to_string(), "-all".to_string()]);
}

#[test]
fn dmarc_tags_trim_unicode_whitespace() {
    let tags = parse_dmarc_tags("v=DMARC1;\u{a0}p=none\u{a0}");
    assert_eq!(tags, vec!["v=DMARC1".to_string(), "p=none".to_string()]);
}

#[test]
fn dmarc_no_records_signal_is_absent() {
    let (status, tags) = check_dmarc(&RawAnswerSet::NoRecords);
    assert_eq!(status, "No DMARC record found");
    assert!(tags.is_empty());
}

#[test]
fn dmarc_answers_without_version_tag_are_absent() {
    let (status, tags) = check_dmarc(&records(&["v=spf1 -all", "something"]));
    assert_eq!(status, "No valid DMARC records found");
    assert!(tags.is_empty());
}

#[test]
fn dmarc_single_record_is_valid_with_trimmed_tags() {
    let (status, tags) = check_dmarc(&records(&["v=DMARC1; p=quarantine; rua=mailto:x@y.com"]));
    assert_eq!(status, "Valid DMARC record found");
    assert_eq!(
        tags,
        vec![
            "v=DMARC1".to_string(),
            "p=quarantine".to_string(),
            "rua=mailto:x@y.com".to_string(),
        ]
    );
}

#[test]
fn dmarc_two_records_are_invalid_but_tags_are_kept() {
    let (status, tags) = check_dmarc(&records(&["v=DMARC1; p=none", "v=DMARC1; p=reject"]));
    assert_eq!(status, "Multiple DMARC records found (invalid)");
    assert_eq!(
        tags,
        vec![
            "v=DMARC1".to_string(),
            "p=none".to_string(),
            "v=DMARC1".to_string(),
            "p=reject".to_string(),
        ]
    );
}

#[test]
fn dmarc_tags_drop_empty_segments() {
    let tags = parse_dmarc_tags("v=DMARC1;; p=none ;");
    assert_eq!(tags, vec!["v=DMARC1".to_string(), "p=none".to_string()]);
}

#[test]
fn dkim_long_key_is_truncated() {
    let record = format!("v=DKIM1; k=rsa; p={}", KEY40);
    assert_eq!(
        trim_dkim_record(&record),
        "v=DKIM1; k=rsa; p=01234567...WXYZabcd"
    );
}

#[test]
fn dkim_short_key_is_unchanged() {
    let record = "v=DKIM1; k=rsa; p=SHORTKEY123";
    assert_eq!(trim_dkim_record(record), record);
}

#[test]
fn dkim_key_of_twenty_chars_is_unchanged() {
    let record = "v=DKIM1; p=01234567890123456789";
    assert_eq!(trim_dkim_record(record), record);
}

#[test]
fn dkim_key_runs_to_the_segment_end_past_equals_signs() {
    // The value is everything after the leading `p=`, inner `=` included:
    // 27 characters here, so it is truncated.
    let record = "v=DKIM1; p=ABC=defghijklmnopqrstuvwxyz";
    assert_eq!(trim_dkim_record(record), "v=DKIM1; p=ABC=defg...stuvwxyz");
}

#[test]
fn dkim_base64_padding_counts_towards_the_key_length() {
    // A 20-character key plus `==` padding is 22 characters long and is
    // truncated, padding shown among the last 8.
    let record = "v=DKIM1; p=ABCDEFGHIJKLMNOPQRST==";
    assert_eq!(trim_dkim_record(record), "v=DKIM1; p=ABCDEFGH...OPQRST==");
}

#[test]
fn dkim_nine_segments_are_collapsed() {
    assert_eq!(trim_dkim_record("a;b;c;d;e;f;g;h;i"), "a;b;c;d; ... ;f;g;h;i");
}

#[test]
fn dkim_eight_segments_are_joined_in_full() {
    assert_eq!(trim_dkim_record("a;b;c;d;e;f;g;h"), "a;b;c;d;e;f;g;h");
}

#[test]
fn dkim_selector_list_is_fixed_and_ordered() {
    assert_eq!(
        dkim_selectors(),
        vec![
            "default".to_string(),
            "google".to_string(),
            "dkim".to_string(),
            "k1".to_string(),
            "selector1".to_string(),
            "selector2".to_string(),
            "microsoft".to_string(),
            "sendgrid".to_string(),
        ]
    );
}

#[test]
fn dkim_one_matching_selector() {
    let mut sets = no_records_per_selector(8);
    let record = format!("v=DKIM1; k=rsa; p={}", KEY40);
    sets[0] = records(&[record.as_str()]);
    let (status, entries) = check_dkim(&sets);
    assert_eq!(status, "DKIM records found for 1 selector(s)");
    assert_eq!(entries, vec!["default: v=DKIM1; k=rsa; p=01234567...WXYZabcd".to_string()]);
}

#[test]
fn dkim_no_selector_matches() {
    let (status, entries) = check_dkim(&no_records_per_selector(8));
    assert_eq!(status, "No DKIM records found for common selectors");
    assert!(entries.is_empty());
}

#[test]
fn dkim_answers_without_version_tag_do_not_match() {
    let mut sets = no_records_per_selector(8);
    sets[2] = records(&["v=spf1 -all", "unrelated text"]);
    let (status, entries) = check_dkim(&sets);
    assert_eq!(status, "No DKIM records found for common selectors");
    assert!(entries.is_empty());
}

#[test]
fn dkim_counts_every_matching_record() {
    let mut sets = no_records_per_selector(8);
    sets[1] = records(&["v=DKIM1; k=rsa; p=a", "v=DKIM1; k=rsa; p=b"]);
    sets[7] = records(&["v=DKIM1; k=rsa; p=c"]);
    let (status, entries) = check_dkim(&sets);
    assert_eq!(status, "DKIM records found for 3 selector(s)");
    assert_eq!(
        entries,
        vec![
            "google: v=DKIM1; k=rsa; p=a".to_string(),
            "google: v=DKIM1; k=rsa; p=b".to_string(),
            "sendgrid: v=DKIM1; k=rsa; p=c".to_string(),
        ]
    );
}

#[test]
fn dkim_count_renders_two_digits() {
    let mut sets = no_records_per_selector(8);
    let answers: Vec<String> = (0..11).map(|i| format!("v=DKIM1; n={}", i)).collect();
    sets[0] = RawAnswerSet::Records(answers);
    let (status, entries) = check_dkim(&sets);
    assert_eq!(status, "DKIM records found for 11 selector(s)");
    assert_eq!(entries.len(), 11);
}

#[test]
fn query_names_are_assembled_from_the_domain() {
    assert_eq!(dkim_query_name("default", "example.com"), "default._domainkey.example.com");
    assert_eq!(dmarc_query_name("example.com"), "_dmarc.example.com");
}

#[test]
fn provider_no_mx_records() {
    assert_eq!(check_mail_provider(&RawAnswerSet::NoRecords), "No MX records found");
    assert_eq!(check_mail_provider(&records(&[])), "No MX records found");
}

#[test]
fn provider_known_labels() {
    assert_eq!(check_mail_provider(&records(&["aspmx.l.google.com."])), "Google");
    assert_eq!(check_mail_provider(&records(&["example-com.mail.protection.outlook.com."])), "Microsoft");
    assert_eq!(check_mail_provider(&records(&["inbound-smtp.amazonses.com."])), "Amazon SES");
    assert_eq!(check_mail_provider(&records(&["us-smtp-inbound-1.mimecast.com."])), "Mimecast");
    assert_eq!(check_mail_provider(&records(&["mxa.mailgun.org."])), "Mailgun");
    assert_eq!(check_mail_provider(&records(&["mx.sendgrid.net."])), "SendGrid");
    assert_eq!(check_mail_provider(&records(&["mail.protonmail.ch."])), "ProtonMail");
    assert_eq!(check_mail_provider(&records(&["mx.zoho.com."])), "Zoho");
    assert_eq!(check_mail_provider(&records(&["isaac.mx.cloudflare.net."])), "Cloudflare Email Routing");
    assert_eq!(check_mail_provider(&records(&["mxa-0001.gslb.pphosted.com."])), "Proofpoint");
    assert_eq!(check_mail_provider(&records(&["d12345a.ess.barracudanetworks.com."])), "Barracuda");
    assert_eq!(check_mail_provider(&records(&["in.mailprotector.net."])), "Mailprotector");
    assert_eq!(check_mail_provider(&records(&["mx1.spamhero.com."])), "SpamHero");
}

#[test]
fn provider_first_match_wins() {
    // Hypothetical hostname holding both substrings: the earlier rule decides.
    assert_eq!(check_mail_provider(&records(&["outlook.google.example."])), "Google");
    assert_eq!(check_mail_provider(&records(&["microsoft.protonmail.example."])), "Microsoft");
}

#[test]
fn provider_matching_is_case_insensitive() {
    assert_eq!(check_mail_provider(&records(&["ASPMX.L.GOOGLE.COM."])), "Google");
}

#[test]
fn provider_unknown_echoes_lowered_hostname() {
    assert_eq!(
        check_mail_provider(&records(&["MX.Example.COM."])),
        "Unknown (mx.example.com.)"
    );
}

#[test]
fn provider_uses_only_the_first_exchange() {
    assert_eq!(
        check_mail_provider(&records(&["mx.example.com.", "aspmx.l.google.com."])),
        "Unknown (mx.example.com.)"
    );
}
