use mydtu_dktc::config::{parse_accounts, ConfigError};
use mydtu_dktc::model::{Account, Accounts, Context};
use mydtu_dktc::plan::{cookie_value, plan_submissions, prepare_request};
use mydtu_dktc::crypto::open_envelope;

fn sample_account(session: &str, classes: &[&str]) -> Account {
    Account {
        session_id: session.to_string(),
        class_codes: classes.iter().map(|c| c.to_string()).collect(),
        student_id: "1".to_string(),
        curriculum_id: "2".to_string(),
        captcha: "c".to_string(),
    }
}

#[test]
fn parse_single_account() {
    let text = "[[acc]]\n\
                session_id    = \"ABCDEF0123456789\"\n\
                class_codes   = [\"CS101\", \"CS102\"]\n\
                student_id    = \"12345\"\n\
                curriculum_id = \"67890\"\n\
                captcha       = \"xk7q\"\n";
    let accounts = parse_accounts(text).unwrap();
    assert_eq!(accounts.acc.len(), 1);
    let a = &accounts.acc[0];
    assert_eq!(a.session_id, "ABCDEF0123456789");
    assert_eq!(a.class_codes, vec!["CS101", "CS102"]);
    assert_eq!(a.student_id, "12345");
    assert_eq!(a.curriculum_id, "67890");
    assert_eq!(a.captcha, "xk7q");
}

#[test]
fn parse_two_accounts_with_comments() {
    let text = "# accounts\n\
                \n\
                [[acc]]\n\
                session_id = \"S1\"\n\
                class_codes = [\"A\"]\n\
                student_id = \"1\"\n\
                curriculum_id = \"2\"\n\
                captcha = \"c\"\n\
                \n\
                [[acc]]\n\
                session_id = \"S2\"\n\
                class_codes = []\n\
                student_id = \"3\"\n\
                curriculum_id = \"4\"\n\
                captcha = \"d\"\n";
    let accounts = parse_accounts(text).unwrap();
    assert_eq!(accounts.acc.len(), 2);
    assert_eq!(accounts.acc[0].session_id, "S1");
    assert_eq!(accounts.acc[1].session_id, "S2");
    assert!(accounts.acc[1].class_codes.is_empty());
}

#[test]
fn parse_crlf_and_trailing_comma() {
    let text = "[[acc]]\r\n\
                session_id = \"S1\"\r\n\
                class_codes = [ \"A\" , \"B\" , ]\r\n\
                student_id = \"1\"\r\n\
                curriculum_id = \"2\"\r\n\
                captcha = \"c\"\r\n";
    let accounts = parse_accounts(text).unwrap();
    assert_eq!(accounts.acc[0].class_codes, vec!["A", "B"]);
}

#[test]
fn parse_rejects_missing_field() {
    let text = "[[acc]]\n\
                session_id = \"S1\"\n\
                class_codes = [\"A\"]\n\
                student_id = \"1\"\n\
                curriculum_id = \"2\"\n";
    assert_eq!(parse_accounts(text).unwrap_err(), ConfigError::Malformed);
}

#[test]
fn parse_rejects_duplicate_field() {
    let text = "[[acc]]\n\
                session_id = \"S1\"\n\
                session_id = \"S2\"\n\
                class_codes = [\"A\"]\n\
                student_id = \"1\"\n\
                curriculum_id = \"2\"\n\
                captcha = \"c\"\n";
    assert_eq!(parse_accounts(text).unwrap_err(), ConfigError::Malformed);
}

#[test]
fn parse_rejects_unknown_key() {
    let text = "[[acc]]\n\
                nickname = \"S1\"\n";
    assert_eq!(parse_accounts(text).unwrap_err(), ConfigError::Malformed);
}

#[test]
fn parse_rejects_assignment_outside_table() {
    let text = "session_id = \"S1\"\n";
    assert_eq!(parse_accounts(text).unwrap_err(), ConfigError::Malformed);
}

#[test]
fn parse_rejects_unterminated_string() {
    let text = "[[acc]]\nsession_id = \"S1\n";
    assert_eq!(parse_accounts(text).unwrap_err(), ConfigError::Malformed);
}

#[test]
fn parse_rejects_wrong_shape() {
    let text = "[[acc]]\n\
                session_id = [\"S1\"]\n";
    assert_eq!(parse_accounts(text).unwrap_err(), ConfigError::Malformed);
}

#[test]
fn parse_without_trailing_newline() {
    let text = "[[acc]]\n\
                session_id = \"S1\"\n\
                class_codes = [\"A\"]\n\
                student_id = \"1\"\n\
                curriculum_id = \"2\"\n\
                captcha = \"c\"";
    let accounts = parse_accounts(text).unwrap();
    assert_eq!(accounts.acc.len(), 1);
    assert_eq!(accounts.acc[0].captcha, "c");
}

#[test]
fn parse_empty_text_is_no_accounts() {
    let accounts = parse_accounts("").unwrap();
    assert!(accounts.acc.is_empty());
}

#[test]
fn plan_counts_every_pair() {
    let accounts = Accounts {
        acc: vec![
            sample_account("S1", &["A", "B"]),
            sample_account("S2", &[]),
            sample_account("S3", &["C"]),
        ],
    };
    let ctx = Context { year: "2024".to_string(), semester: "1".to_string() };
    let subs = plan_submissions(&accounts, &ctx);
    assert_eq!(subs.len(), 3);
    assert_eq!(subs[0].session_id, "S1");
    assert_eq!(subs[0].class_code, "A");
    assert_eq!(subs[0].params, "A,2024,1,1,2,c");
    assert_eq!(subs[1].session_id, "S1");
    assert_eq!(subs[1].class_code, "B");
    assert_eq!(subs[2].session_id, "S3");
    assert_eq!(subs[2].class_code, "C");
}

#[test]
fn plan_empty_accounts_is_empty() {
    let accounts = Accounts { acc: vec![] };
    let ctx = Context { year: "2024".to_string(), semester: "1".to_string() };
    assert!(plan_submissions(&accounts, &ctx).is_empty());
}

#[test]
fn plan_empty_class_codes_is_empty() {
    let accounts = Accounts { acc: vec![sample_account("S1", &[])] };
    let ctx = Context { year: "2024".to_string(), semester: "1".to_string() };
    assert!(plan_submissions(&accounts, &ctx).is_empty());
}

#[test]
fn cookie_names_the_session() {
    assert_eq!(cookie_value("ABC123"), "ASP.NET_SessionId=ABC123");
}

#[test]
fn prepared_request_carries_cookie_and_envelope() {
    let accounts = Accounts { acc: vec![sample_account("S1", &["CS101"])] };
    let ctx = Context { year: "2024".to_string(), semester: "1".to_string() };
    let subs = plan_submissions(&accounts, &ctx);
    assert_eq!(subs.len(), 1);
    let req = prepare_request(&subs[0]).unwrap();
    assert_eq!(req.cookie, "ASP.NET_SessionId=S1");
    let prefix = "{\"encryptedPara\":\"";
    let suffix = "\"}";
    assert!(req.body.starts_with(prefix));
    assert!(req.body.ends_with(suffix));
    let token = &req.body[prefix.len()..req.body.len() - suffix.len()];
    let opened = open_envelope(token).unwrap();
    assert_eq!(opened, b"CS101,2024,1,1,2,c");
}

#[test]
fn one_request_per_session_and_class() {
    let accounts = Accounts {
        acc: vec![sample_account("S1", &["A", "B"]), sample_account("S2", &["A"])],
    };
    let ctx = Context { year: "2024".to_string(), semester: "1".to_string() };
    let subs = plan_submissions(&accounts, &ctx);
    let mut pairs: Vec<(String, String)> =
        subs.iter().map(|s| (s.session_id.clone(), s.class_code.clone())).collect();
    pairs.sort();
    pairs.dedup();
    assert_eq!(pairs.len(), 3);
}
