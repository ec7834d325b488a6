use jmap_client::mail::{Email, EmailAddress, EmailBodyPart, EmailBodyValue};
use jmap_client::reply::{ReplyDraft, quote, reply_draft, reply_subject};

fn addr(name: Option<&str>, email: &str) -> EmailAddress {
    EmailAddress { name: name.map(|n| n.to_string()), email: email.to_string() }
}

fn original() -> Email {
    Email {
        id: Some("e1".to_string()),
        blob_id: None,
        thread_id: Some("t1".to_string()),
        mailbox_ids: None,
        keywords: None,
        size: None,
        received_at: Some("2024-01-15T10:30:00Z".to_string()),
        from: Some(vec![addr(Some("Ann"), "ann@x.org")]),
        to: Some(vec![addr(None, "me@x.org"), addr(None, "bob@x.org")]),
        cc: Some(vec![addr(None, "carl@x.org"), addr(None, "me@x.org")]),
        bcc: None,
        reply_to: None,
        subject: Some("Plans".to_string()),
        sent_at: None,
        has_attachment: None,
        preview: None,
        text_body: Some(vec![EmailBodyPart {
            part_id: Some("1".to_string()),
            blob_id: None,
            size: None,
            type_: Some("text/plain".to_string()),
            name: None,
            charset: None,
            disposition: None,
        }]),
        html_body: None,
        body_values: Some(vec![(
            "1".to_string(),
            EmailBodyValue { value: "Hi\r\nsee you\n".to_string(), is_encoding_problem: None, is_truncated: None },
        )]),
    }
}

#[test]
fn reply_subject_adds_prefix_once() {
    assert_eq!(reply_subject("Plans"), "Re: Plans");
    assert_eq!(reply_subject("Re: Plans"), "Re: Plans");
    assert_eq!(reply_subject(""), "Re: ");
}

#[test]
fn quote_prefixes_each_line() {
    assert_eq!(quote("a\r\nb\n\nc\n"), "> a\n> b\n> \n> c");
    assert_eq!(quote(""), "");
    assert_eq!(quote("x\r"), "> x\r");
}

#[test]
fn reply_goes_to_sender() {
    let d = reply_draft(&original(), "me@x.org", false);
    assert_eq!(
        d,
        ReplyDraft {
            to: "ann@x.org".to_string(),
            cc: String::new(),
            subject: "Re: Plans".to_string(),
            body: "\n\nOn 2024-01-15T10:30:00Z, Ann <ann@x.org> wrote:\n> Hi\n> see you".to_string(),
        }
    );
}

#[test]
fn reply_all_leaves_out_the_user() {
    let d = reply_draft(&original(), "me@x.org", true);
    assert_eq!(d.to, "ann@x.org, bob@x.org");
    assert_eq!(d.cc, "carl@x.org");
}
