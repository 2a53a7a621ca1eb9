use email_parser::{
    bcc, cc, comments, date, fields, from, in_reply_to, keywords, message_id, received, references,
    reply_to, resent_bcc, resent_cc, resent_date, resent_from, resent_sender, resent_to, return_path,
    sender, subject, to, trace, unknown, Address, Error, Field, Month, ReceivedToken, Text,
    TraceField,
};

#[test]
fn test_fields() {
    assert!(fields(b"To: Mubelotix <mubelotix@gmail.com>\r\nFrOm: Mubelotix <mubelotix@gmail.com>\r\n").unwrap().0.is_empty());
}

#[test]
fn test_unknown_field() {
    assert_eq!(unknown(b"hidden-field:hidden message\r\n").unwrap().1 .1.as_bytes(), b"hidden message");
    assert_eq!(unknown(b"hidden-field:hidden message\r\n").unwrap().1 .0.as_bytes(), b"hidden-field");
}

#[test]
fn test_trace() {
    assert!(return_path(b"Return-Path:<>\r\n").unwrap().1.is_none());
    assert_eq!(
        return_path(b"Return-Path:<mubelotix@gmail.com>\r\n").unwrap().1.unwrap().0.as_bytes(),
        b"mubelotix"
    );

    assert!(matches!(received(b"Received:test<mubelotix@gmail.com>;5 May 2003 18:59:03 +0000\r\n").unwrap().1 .0[0], ReceivedToken::Word(_)));
    assert!(matches!(received(b"Received:test<mubelotix@gmail.com>;5 May 2003 18:59:03 +0000\r\n").unwrap().1 .0[1], ReceivedToken::Addr(_)));
    assert!(matches!(received(b"Received:mubelotix.dev;5 May 2003 18:59:03 +0000\r\n").unwrap().1 .0[0], ReceivedToken::Domain(_)));

    assert!(trace(b"Return-Path:<>\r\nReceived:akala miam miam;5 May 2003 18:59:03 +0000\r\nReceived:mubelotix.dev;5 May 2003 18:59:03 +0000\r\n").unwrap().0.is_empty());
}

#[test]
fn test_resent() {
    assert_eq!(
        resent_date(b"Resent-Date:5 May 2003 18:59:03 +0000\r\n").unwrap().1,
        (None, (5, Month::May, 2003), ((18, 59, 3), (true, 0, 0)))
    );
    assert_eq!(resent_from(b"Resent-FrOm: Mubelotix <mubelotix@gmail.com>\r\n").unwrap().1[0].1 .0.as_bytes(), b"mubelotix");
    assert_eq!(resent_sender(b"Resent-sender: Mubelotix <mubelotix@gmail.com>\r\n").unwrap().1 .1 .1.as_bytes(), b"gmail.com");
    assert!(!resent_to(b"Resent-To: Mubelotix <mubelotix@gmail.com>\r\n").unwrap().1.is_empty());
    assert!(!resent_cc(b"Resent-Cc: Mubelotix <mubelotix@gmail.com>\r\n").unwrap().1.is_empty());
    assert!(!resent_bcc(b"Resent-Bcc: Mubelotix <mubelotix@gmail.com>\r\n").unwrap().1.is_empty());
}

#[test]
fn test_date() {
    assert_eq!(
        date(b"Date:5 May 2003 18:59:03 +0000\r\n").unwrap().1,
        (None, (5, Month::May, 2003), ((18, 59, 3), (true, 0, 0)))
    );
}

#[test]
fn test_originators() {
    assert_eq!(from(b"FrOm: Mubelotix <mubelotix@gmail.com>\r\n").unwrap().1[0].1 .0.as_bytes(), b"mubelotix");
    assert_eq!(sender(b"sender: Mubelotix <mubelotix@gmail.com>\r\n").unwrap().1 .1 .1.as_bytes(), b"gmail.com");
    assert_eq!(reply_to(b"Reply-to: Mubelotix <mubelotix@gmail.com>\r\n").unwrap().1.len(), 1);
}

#[test]
fn test_destination() {
    assert!(!to(b"To: Mubelotix <mubelotix@gmail.com>\r\n").unwrap().1.is_empty());
    assert!(!cc(b"Cc: Mubelotix <mubelotix@gmail.com>\r\n").unwrap().1.is_empty());
    assert!(!bcc(b"Bcc: Mubelotix <mubelotix@gmail.com>\r\n").unwrap().1.is_empty());
    assert!(bcc(b"Bcc: \r\n \r\n").unwrap().1.is_empty());
}

#[test]
fn test_ids() {
    assert_eq!(message_id(b"Message-ID:<556100154@gmail.com>\r\n").unwrap().1 .0.as_bytes(), b"556100154");
    assert_eq!(message_id(b"Message-ID:<556100154@gmail.com>\r\n").unwrap().1 .1.as_bytes(), b"gmail.com");
    assert_eq!(references(b"References:<qzdzdq@qdz.com><dzdzjd@zdzdj.dz>\r\n").unwrap().1.len(), 2);
    assert_eq!(in_reply_to(b"In-Reply-To:<eefes@qzd.fr><52@s.dz><adzd@zd.d>\r\n").unwrap().1.len(), 3);
}

#[test]
fn test_informational() {
    assert_eq!(subject(b"Subject:French school is boring\r\n").unwrap().1.as_bytes(), b"French school is boring");
    assert_eq!(subject(b"Subject:Folding\r\n is slow\r\n").unwrap().1.as_bytes(), b"Folding is slow");
    assert_eq!(comments(b"Comments:Rust is great\r\n").unwrap().1.as_bytes(), b"Rust is great");
    assert_eq!(keywords(b"Keywords:rust parser fast zero copy,email rfc5322\r\n").unwrap().1.len(), 2);
}

#[test]
fn parsing_twice_gives_the_same_fields() {
    let input: &[u8] = b"Return-Path:<a@b.c>\r\nReceived:x.y;5 May 2003 18:59:03 +0000\r\nSubject:Hi there\r\nTo: A <a@b.c>, g: x@y.z;\r\n";
    let first = fields(input).unwrap();
    let second = fields(input).unwrap();
    assert_eq!(format!("{:?}", first), format!("{:?}", second));
    assert!(first.0.is_empty());
    assert_eq!(first.1.len(), 3);
}

#[test]
fn field_names_in_any_casing() {
    let a = date(b"date:5 May 2003 18:59:03 +0000\r\n").unwrap().1;
    let b = date(b"DATE:5 May 2003 18:59:03 +0000\r\n").unwrap().1;
    let c = date(b"dAtE:5 May 2003 18:59:03 +0000\r\n").unwrap().1;
    assert_eq!(a, b);
    assert_eq!(a, c);
    assert_eq!(subject(b"SUBJECT:x\r\n").unwrap().1.as_bytes(), b"x");
    assert_eq!(message_id(b"message-id:<a@b>\r\n").unwrap().1 .1.as_bytes(), b"b");
}

#[test]
fn empty_bcc_gives_no_address() {
    assert!(bcc(b"Bcc: \r\n \r\n").unwrap().1.is_empty());
}

#[test]
fn bcc_with_one_mailbox() {
    let list = bcc(b"Bcc: Mubelotix <mubelotix@gmail.com>\r\n").unwrap().1;
    assert_eq!(list.len(), 1);
    match &list[0] {
        Address::Mailbox((name, (local, domain))) => {
            assert_eq!(name.as_ref().unwrap()[0].as_bytes(), b"Mubelotix");
            assert_eq!(local.as_bytes(), b"mubelotix");
            assert_eq!(domain.as_bytes(), b"gmail.com");
        }
        Address::Group(_) => panic!("expected a mailbox"),
    }
}

#[test]
fn message_id_pair() {
    let (rest, (l, r)) = message_id(b"Message-ID:<556100154@gmail.com>\r\n").unwrap();
    assert!(rest.is_empty());
    assert_eq!(l.as_bytes(), b"556100154");
    assert_eq!(r.as_bytes(), b"gmail.com");
}

#[test]
fn identifier_counts() {
    assert_eq!(references(b"References:<a@b.c><d@e.f>\r\n").unwrap().1.len(), 2);
    assert_eq!(in_reply_to(b"In-Reply-To:<a@b.c><d@e.f><g@h.i>\r\n").unwrap().1.len(), 3);
    assert!(references(b"References:\r\n").is_err());
}

#[test]
fn fold_reads_as_one_space() {
    assert_eq!(subject(b"Subject:Folding\r\n is slow\r\n").unwrap().1.as_bytes(), b"Folding is slow");
    assert_eq!(subject(b"Subject:  a \t b\r\n").unwrap().1.as_bytes(), b"a b");
    assert_eq!(subject(b"Subject:\r\n").unwrap().1.as_bytes(), b"");
}

#[test]
fn keywords_two_phrases() {
    let k = keywords(b"Keywords:a b,c d\r\n").unwrap().1;
    assert_eq!(k.len(), 2);
    assert_eq!(k[0].len(), 2);
    assert_eq!(k[1][1].as_bytes(), b"d");
    assert!(keywords(b"Keywords:\r\n").is_err());
}

#[test]
fn trace_group_collects_resent_fields() {
    let input: &[u8] = b"Return-Path:<a@b.c>\r\n\
Received:x.y;5 May 2003 18:59:03 +0000\r\n\
Resent-Date:5 May 2003 18:59:03 +0000\r\n\
Received:z.w;6 May 2003 18:59:03 +0000\r\n\
Resent-From: A <a@b.c>\r\n\
Resent-Message-ID:<1@b.c>\r\n\
Subject:after\r\n";
    let (rest, list) = fields(input).unwrap();
    assert!(rest.is_empty());
    assert_eq!(list.len(), 3);
    assert!(matches!(list[2], Field::Subject(_)));
    match &list[0] {
        Field::Trace { return_path, received, fields } => {
            assert_eq!(return_path.as_ref().unwrap().as_ref().unwrap().0.as_bytes(), b"a");
            assert_eq!(received.len(), 1);
            assert_eq!(fields.len(), 1);
            assert!(matches!(fields[0], TraceField::Date(_)));
        }
        _ => panic!("expected a trace group"),
    }
    assert!(matches!(list[1], Field::Trace { .. }));
    match &list[1] {
        Field::Trace { return_path, received, fields } => {
            assert!(return_path.is_none());
            assert_eq!(received.len(), 1);
            assert_eq!(fields.len(), 2);
            assert!(matches!(fields[0], TraceField::From(_)));
            assert!(matches!(fields[1], TraceField::MessageId(_)));
        }
        _ => panic!("expected a trace group"),
    }
}

#[test]
fn trace_group_with_two_received() {
    let input: &[u8] = b"Return-Path:<a@b.c>\r\n\
Received:x.y;5 May 2003 18:59:03 +0000\r\n\
Received:z.w;6 May 2003 18:59:03 +0000\r\n\
Resent-To: A <a@b.c>\r\n\
Resent-Cc: B <b@b.c>\r\n\
Subject:after\r\n";
    let (rest, list) = fields(input).unwrap();
    assert!(rest.is_empty());
    assert_eq!(list.len(), 2);
    match &list[0] {
        Field::Trace { received, fields, .. } => {
            assert_eq!(received.len(), 2);
            assert_eq!(fields.len(), 2);
            assert!(matches!(fields[0], TraceField::To(_)));
            assert!(matches!(fields[1], TraceField::Cc(_)));
        }
        _ => panic!("expected a trace group"),
    }
    assert!(matches!(list[1], Field::Subject(_)));
}

#[test]
fn received_prefers_longer_domain() {
    let (_, (tokens, _)) = received(b"Received:mubelotix.dev;5 May 2003 18:59:03 +0000\r\n").unwrap();
    assert_eq!(tokens.len(), 1);
    match &tokens[0] {
        ReceivedToken::Domain(d) => assert_eq!(d.as_bytes(), b"mubelotix.dev"),
        _ => panic!("expected a domain"),
    }
    let (_, (tokens, _)) = received(b"Received:by mx;5 May 2003 18:59:03 +0000\r\n").unwrap();
    assert!(matches!(tokens[0], ReceivedToken::Word(_)));
}

#[test]
fn unknown_field_name_and_value() {
    let list = fields(b"hidden-field:hidden message\r\n").unwrap().1;
    match &list[0] {
        Field::Unknown { name, value } => {
            assert_eq!(name.as_bytes(), b"hidden-field");
            assert_eq!(value.as_bytes(), b"hidden message");
        }
        _ => panic!("expected an unknown field"),
    }
}

#[test]
fn bad_month_or_day_fails_date() {
    assert!(date(b"Date:5 Mai 2003 18:59:03 +0000\r\n").is_err());
    assert!(date(b"Date:32 May 2003 18:59:03 +0000\r\n").is_err());
    assert!(date(b"Date:0 May 2003 18:59:03 +0000\r\n").is_err());
    assert_eq!(date(b"Date:31 May 2003 18:59:03 +0000\r\n").unwrap().1 .1 .0, 31);
}

#[test]
fn date_formats() {
    let d = date(b"Date:Mon, 5 May 2003 18:59 -0130\r\n").unwrap().1;
    assert_eq!(d, (Some(email_parser::Day::Monday), (5, Month::May, 2003), ((18, 59, 0), (false, 1, 30))));
    let d = date(b"Date:5 Dec 03 01:02:03 EST\r\n").unwrap().1;
    assert_eq!(d, (None, (5, Month::December, 2003), ((1, 2, 3), (false, 5, 0))));
    let d = date(b"Date:5 Dec 99 01:02:03 GMT\r\n").unwrap().1;
    assert_eq!(d.1 .2, 1999);
    let d = date(b"Date:5 Dec 2003 01:02:03 PDT\r\n").unwrap().1;
    assert_eq!(d.2 .1, (false, 7, 0));
    assert!(date(b"Date:5 May 2003 24:00:00 +0000\r\n").is_err());
    assert_eq!(date(b"Date:5 May 103 01:02 UT\r\n").unwrap().1 .1 .2, 2003);
    assert_eq!(date(b"Date:5 May 49 01:02 z\r\n").unwrap().1, (None, (5, Month::May, 2049), ((1, 2, 0), (true, 0, 0))));
    assert_eq!(date(b"Date:5 May 50 01:02 cdt\r\n").unwrap().1 .1 .2, 1950);
    assert_eq!(date(b"Date:5 May 50 01:02 cdt\r\n").unwrap().1 .2 .1, (false, 5, 0));
}

#[test]
fn text_storage_follows_decoding() {
    let list = from(b"From: \"Joe\" <joe@example.com>\r\n").unwrap().1;
    let name = list[0].0.as_ref().unwrap();
    assert!(matches!(name[0], Text::Borrowed(_)));
    assert_eq!(name[0].as_bytes(), b"Joe");
    let list = from(b"From: \"J\\oe\" <joe@example.com>\r\n").unwrap().1;
    let name = list[0].0.as_ref().unwrap();
    assert!(matches!(name[0], Text::Owned(_)));
    assert_eq!(name[0].as_bytes(), b"Joe");
    assert_eq!(name[0].len(), 3);
}

#[test]
fn quoted_strings_and_comments() {
    let list = from(b"From: \"Joe \\\"Q\\\" Public\" (a (nested) comment) <joe@example.com>\r\n").unwrap().1;
    let name = list[0].0.as_ref().unwrap();
    assert_eq!(name[0].as_bytes(), b"Joe \"Q\" Public");
    assert_eq!(list[0].1 .1.as_bytes(), b"example.com");
    let list = to(b"To: joe@[127.0.0.1], Friends: a@b.c, d@e.f;\r\n").unwrap().1;
    assert_eq!(list.len(), 2);
    match &list[1] {
        Address::Group((name, members)) => {
            assert_eq!(name[0].as_bytes(), b"Friends");
            assert_eq!(members.len(), 2);
        }
        _ => panic!("expected a group"),
    }
    match &list[0] {
        Address::Mailbox((_, (_, d))) => assert_eq!(d.as_bytes(), b"[127.0.0.1]"),
        _ => panic!("expected a mailbox"),
    }
}

#[test]
fn failures_carry_a_category() {
    assert_eq!(date(b"Subject:x\r\n").unwrap_err(), Error::Literal);
    assert_eq!(date(b"Date:x\r\n").unwrap_err(), Error::DateTime);
    assert_eq!(to(b"To:\r\n").unwrap_err(), Error::Word);
    assert_eq!(message_id(b"Message-ID:<a>\r\n").unwrap_err(), Error::Literal);
    assert_eq!(unknown(b":\r\n").unwrap_err(), Error::Word);
    assert_eq!(received(b"Received:a@b;x\r\n").unwrap_err(), Error::Literal);
    assert_eq!(bcc(b"Bcc:\r\n").unwrap_err(), Error::Whitespace);
}

#[test]
fn leftover_bytes_are_returned() {
    let (rest, list) = fields(b"Subject:a\r\n\r\nbody").unwrap();
    assert_eq!(list.len(), 1);
    assert_eq!(rest, b"\r\nbody");
}
