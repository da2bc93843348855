//! Email-authentication posture of a domain: analyzers for the SPF, DMARC and
//! DKIM records published in DNS and for the mail-exchanger configuration,
//! and a weighted health score over their findings.
//!
//! Every analyzer is a pure function from raw DNS answer text to a finding;
//! DNS resolution itself, argument handling and report rendering live outside
//! the library and hand plain values in.

pub mod answers;
pub mod dkim;
pub mod dmarc;
pub mod health_score;
pub mod mail_provider;
pub mod spf;
pub mod text;
