use vstd::prelude::*;
use crate::address::{
    addr_spec, address_list, addresses_of, angle_addr, domain, mailbox, mailbox_list, mailbox_of,
    mailboxes_of, msg_id, pair_of, pairs_of, spec_addr_spec, spec_address_list, spec_angle_addr,
    spec_domain, spec_mailbox, spec_mailbox_list, spec_msg_id, AddrSpec, Address, AddressModel,
    Mailbox, MailboxModel, PairModel,
};
use crate::chars::Class;
use crate::text::{byte, res_view, spec_byte, spec_tag_ci, tag_no_case, Error, Res, Text};
use crate::time::{date_time, spec_date_time, DateTime};
use crate::whitespace::{cfws, opt_cfws, spec_cfws, spec_opt_cfws};
use crate::words::{
    phrase, spec_phrase, spec_take_while1, spec_unstructured, spec_word, take_while1, texts,
    unstructured, word,
};

verus! {

/// A field of a trace group, given under a `Resent-` name.
#[derive(Debug)]
pub enum TraceField<'a> {
    Date(DateTime),
    From(Vec<Mailbox<'a>>),
    Sender(Mailbox<'a>),
    To(Vec<Address<'a>>),
    Cc(Vec<Address<'a>>),
    Bcc(Vec<Address<'a>>),
    MessageId(AddrSpec<'a>),
}

/// One token of a `Received:` field.
#[derive(Debug)]
pub enum ReceivedToken<'a> {
    Word(Text<'a>),
    Addr(AddrSpec<'a>),
    Domain(Text<'a>),
}

/// A header field.
#[derive(Debug)]
pub enum Field<'a> {
    Date(DateTime),
    From(Vec<Mailbox<'a>>),
    Sender(Mailbox<'a>),
    ReplyTo(Vec<Address<'a>>),
    To(Vec<Address<'a>>),
    Cc(Vec<Address<'a>>),
    Bcc(Vec<Address<'a>>),
    MessageId(AddrSpec<'a>),
    InReplyTo(Vec<AddrSpec<'a>>),
    References(Vec<AddrSpec<'a>>),
    Subject(Text<'a>),
    Comments(Text<'a>),
    Keywords(Vec<Vec<Text<'a>>>),
    Trace {
        return_path: Option<Option<AddrSpec<'a>>>,
        received: Vec<(Vec<ReceivedToken<'a>>, DateTime)>,
        fields: Vec<TraceField<'a>>,
    },
    Unknown { name: Text<'a>, value: Text<'a> },
}

/// The model of a trace group's field.
pub enum TraceFieldModel {
    Date(DateTime),
    From(Seq<MailboxModel>),
    Sender(MailboxModel),
    To(Seq<AddressModel>),
    Cc(Seq<AddressModel>),
    Bcc(Seq<AddressModel>),
    MessageId(PairModel),
}

/// The model of a `Received:` token.
pub enum TokenModel {
    Word(Seq<u8>),
    Addr(PairModel),
    Domain(Seq<u8>),
}

pub type ReceivedModel = (Seq<TokenModel>, DateTime);

/// The model of a header field.
pub enum FieldModel {
    Date(DateTime),
    From(Seq<MailboxModel>),
    Sender(MailboxModel),
    ReplyTo(Seq<AddressModel>),
    To(Seq<AddressModel>),
    Cc(Seq<AddressModel>),
    Bcc(Seq<AddressModel>),
    MessageId(PairModel),
    InReplyTo(Seq<PairModel>),
    References(Seq<PairModel>),
    Subject(Seq<u8>),
    Comments(Seq<u8>),
    Keywords(Seq<Seq<Seq<u8>>>),
    Trace {
        return_path: Option<Option<PairModel>>,
        received: Seq<ReceivedModel>,
        fields: Seq<TraceFieldModel>,
    },
    Unknown { name: Seq<u8>, value: Seq<u8> },
}

pub open spec fn trace_field_of<'a>(f: TraceField<'a>) -> TraceFieldModel {
    match f {
        TraceField::Date(d) => TraceFieldModel::Date(d),
        TraceField::From(v) => TraceFieldModel::From(mailboxes_of(v@)),
        TraceField::Sender(m) => TraceFieldModel::Sender(mailbox_of(m)),
        TraceField::To(v) => TraceFieldModel::To(addresses_of(v@)),
        TraceField::Cc(v) => TraceFieldModel::Cc(addresses_of(v@)),
        TraceField::Bcc(v) => TraceFieldModel::Bcc(addresses_of(v@)),
        TraceField::MessageId(p) => TraceFieldModel::MessageId(pair_of(p)),
    }
}

pub open spec fn trace_fields_of<'a>(v: Seq<TraceField<'a>>) -> Seq<TraceFieldModel> {
    v.map_values(|f: TraceField<'a>| trace_field_of(f))
}

pub open spec fn token_of<'a>(t: ReceivedToken<'a>) -> TokenModel {
    match t {
        ReceivedToken::Word(w) => TokenModel::Word(w@),
        ReceivedToken::Addr(p) => TokenModel::Addr(pair_of(p)),
        ReceivedToken::Domain(d) => TokenModel::Domain(d@),
    }
}

pub open spec fn tokens_of<'a>(v: Seq<ReceivedToken<'a>>) -> Seq<TokenModel> {
    v.map_values(|t: ReceivedToken<'a>| token_of(t))
}

pub open spec fn received_of<'a>(r: (Vec<ReceivedToken<'a>>, DateTime)) -> ReceivedModel {
    (tokens_of(r.0@), r.1)
}

pub open spec fn receiveds_of<'a>(v: Seq<(Vec<ReceivedToken<'a>>, DateTime)>) -> Seq<ReceivedModel> {
    v.map_values(|r: (Vec<ReceivedToken<'a>>, DateTime)| received_of(r))
}

pub open spec fn return_path_of<'a>(p: Option<Option<AddrSpec<'a>>>) -> Option<Option<PairModel>> {
    match p {
        Some(Some(a)) => Some(Some(pair_of(a))),
        Some(None) => Some(None),
        None => None,
    }
}

pub open spec fn phrases_of<'a>(v: Seq<Vec<Text<'a>>>) -> Seq<Seq<Seq<u8>>> {
    v.map_values(|p: Vec<Text<'a>>| texts(p@))
}

pub open spec fn field_of<'a>(f: Field<'a>) -> FieldModel {
    match f {
        Field::Date(d) => FieldModel::Date(d),
        Field::From(v) => FieldModel::From(mailboxes_of(v@)),
        Field::Sender(m) => FieldModel::Sender(mailbox_of(m)),
        Field::ReplyTo(v) => FieldModel::ReplyTo(addresses_of(v@)),
        Field::To(v) => FieldModel::To(addresses_of(v@)),
        Field::Cc(v) => FieldModel::Cc(addresses_of(v@)),
        Field::Bcc(v) => FieldModel::Bcc(addresses_of(v@)),
        Field::MessageId(p) => FieldModel::MessageId(pair_of(p)),
        Field::InReplyTo(v) => FieldModel::InReplyTo(pairs_of(v@)),
        Field::References(v) => FieldModel::References(pairs_of(v@)),
        Field::Subject(t) => FieldModel::Subject(t@),
        Field::Comments(t) => FieldModel::Comments(t@),
        Field::Keywords(v) => FieldModel::Keywords(phrases_of(v@)),
        Field::Trace { return_path, received, fields } => FieldModel::Trace {
            return_path: return_path_of(return_path),
            received: receiveds_of(received@),
            fields: trace_fields_of(fields@),
        },
        Field::Unknown { name, value } => FieldModel::Unknown { name: name@, value: value@ },
    }
}

pub open spec fn fields_of<'a>(v: Seq<Field<'a>>) -> Seq<FieldModel> {
    v.map_values(|f: Field<'a>| field_of(f))
}

/// The line break that ends every field.
pub open spec fn spec_crlf(s: Seq<u8>) -> Option<Seq<u8>> {
    match spec_byte(s, 13) {
        Some(r) => spec_byte(r, 10),
        None => None,
    }
}

fn crlf(input: &[u8]) -> (r: Result<&[u8], Error>)
    ensures
        match r {
            Ok(rest) => spec_crlf(input@) == Some(rest@),
            Err(_) => spec_crlf(input@) is None,
        },
{
    let input = byte(input, 13)?;
    byte(input, 10)
}

/// A body's result followed by the line break.
pub open spec fn then_crlf<V>(x: Option<(Seq<u8>, V)>) -> Option<(Seq<u8>, V)> {
    match x {
        Some((r, v)) => match spec_crlf(r) {
            Some(r2) => Some((r2, v)),
            None => None,
        },
        None => None,
    }
}

/// `date:` in lower case.
pub const NAME_DATE: [u8; 5] = [100, 97, 116, 101, 58];

/// `from:` in lower case.
pub const NAME_FROM: [u8; 5] = [102, 114, 111, 109, 58];

/// `sender:` in lower case.
pub const NAME_SENDER: [u8; 7] = [115, 101, 110, 100, 101, 114, 58];

/// `reply-to:` in lower case.
pub const NAME_REPLY_TO: [u8; 9] = [114, 101, 112, 108, 121, 45, 116, 111, 58];

/// `to:` in lower case.
pub const NAME_TO: [u8; 3] = [116, 111, 58];

/// `cc:` in lower case.
pub const NAME_CC: [u8; 3] = [99, 99, 58];

/// `bcc:` in lower case.
pub const NAME_BCC: [u8; 4] = [98, 99, 99, 58];

/// `message-id:` in lower case.
pub const NAME_MESSAGE_ID: [u8; 11] = [109, 101, 115, 115, 97, 103, 101, 45, 105, 100, 58];

/// `in-reply-to:` in lower case.
pub const NAME_IN_REPLY_TO: [u8; 12] = [105, 110, 45, 114, 101, 112, 108, 121, 45, 116, 111, 58];

/// `references:` in lower case.
pub const NAME_REFERENCES: [u8; 11] = [114, 101, 102, 101, 114, 101, 110, 99, 101, 115, 58];

/// `subject:` in lower case.
pub const NAME_SUBJECT: [u8; 8] = [115, 117, 98, 106, 101, 99, 116, 58];

/// `comments:` in lower case.
pub const NAME_COMMENTS: [u8; 9] = [99, 111, 109, 109, 101, 110, 116, 115, 58];

/// `keywords:` in lower case.
pub const NAME_KEYWORDS: [u8; 9] = [107, 101, 121, 119, 111, 114, 100, 115, 58];

/// `resent-` in lower case.
pub const NAME_RESENT: [u8; 7] = [114, 101, 115, 101, 110, 116, 45];

/// `return-path:` in lower case.
pub const NAME_RETURN_PATH: [u8; 12] = [114, 101, 116, 117, 114, 110, 45, 112, 97, 116, 104, 58];

/// `received:` in lower case.
pub const NAME_RECEIVED: [u8; 9] = [114, 101, 99, 101, 105, 118, 101, 100, 58];

/// `Date:` field: a date and time.
pub open spec fn spec_date(s: Seq<u8>) -> Option<(Seq<u8>, DateTime)> {
    match spec_tag_ci(s, NAME_DATE@) {
        Some(r) => then_crlf(spec_date_time(r)),
        None => None,
    }
}

pub fn date<'a>(input: &'a [u8]) -> (r: Res<'a, DateTime>)
    ensures
        res_view(r, |v: DateTime| v) == spec_date(input@),
{
    let input = tag_no_case(input, &NAME_DATE)?;
    let (input, v) = date_time(input)?;
    let input = crlf(input)?;
    Ok((input, v))
}

/// `From:` field: a mailbox list.
pub open spec fn spec_from(s: Seq<u8>) -> Option<(Seq<u8>, Seq<MailboxModel>)> {
    match spec_tag_ci(s, NAME_FROM@) {
        Some(r) => then_crlf(spec_mailbox_list(r)),
        None => None,
    }
}

pub fn from<'a>(input: &'a [u8]) -> (r: Res<'a, Vec<Mailbox<'a>>>)
    ensures
        res_view(r, |v: Vec<Mailbox<'a>>| mailboxes_of(v@)) == spec_from(input@),
{
    let input = tag_no_case(input, &NAME_FROM)?;
    let (input, v) = mailbox_list(input)?;
    let input = crlf(input)?;
    Ok((input, v))
}

/// `Sender:` field: one mailbox.
pub open spec fn spec_sender(s: Seq<u8>) -> Option<(Seq<u8>, MailboxModel)> {
    match spec_tag_ci(s, NAME_SENDER@) {
        Some(r) => then_crlf(spec_mailbox(r)),
        None => None,
    }
}

pub fn sender<'a>(input: &'a [u8]) -> (r: Res<'a, Mailbox<'a>>)
    ensures
        res_view(r, |v: Mailbox<'a>| mailbox_of(v)) == spec_sender(input@),
{
    let input = tag_no_case(input, &NAME_SENDER)?;
    let (input, v) = mailbox(input)?;
    let input = crlf(input)?;
    Ok((input, v))
}

/// `Reply-To:` field: an address list.
pub open spec fn spec_reply_to(s: Seq<u8>) -> Option<(Seq<u8>, Seq<AddressModel>)> {
    match spec_tag_ci(s, NAME_REPLY_TO@) {
        Some(r) => then_crlf(spec_address_list(r)),
        None => None,
    }
}

pub fn reply_to<'a>(input: &'a [u8]) -> (r: Res<'a, Vec<Address<'a>>>)
    ensures
        res_view(r, |v: Vec<Address<'a>>| addresses_of(v@)) == spec_reply_to(input@),
{
    let input = tag_no_case(input, &NAME_REPLY_TO)?;
    let (input, v) = address_list(input)?;
    let input = crlf(input)?;
    Ok((input, v))
}

/// `To:` field: an address list.
pub open spec fn spec_to(s: Seq<u8>) -> Option<(Seq<u8>, Seq<AddressModel>)> {
    match spec_tag_ci(s, NAME_TO@) {
        Some(r) => then_crlf(spec_address_list(r)),
        None => None,
    }
}

pub fn to<'a>(input: &'a [u8]) -> (r: Res<'a, Vec<Address<'a>>>)
    ensures
        res_view(r, |v: Vec<Address<'a>>| addresses_of(v@)) == spec_to(input@),
{
    let input = tag_no_case(input, &NAME_TO)?;
    let (input, v) = address_list(input)?;
    let input = crlf(input)?;
    Ok((input, v))
}

/// `Cc:` field: an address list.
pub open spec fn spec_cc(s: Seq<u8>) -> Option<(Seq<u8>, Seq<AddressModel>)> {
    match spec_tag_ci(s, NAME_CC@) {
        Some(r) => then_crlf(spec_address_list(r)),
        None => None,
    }
}

pub fn cc<'a>(input: &'a [u8]) -> (r: Res<'a, Vec<Address<'a>>>)
    ensures
        res_view(r, |v: Vec<Address<'a>>| addresses_of(v@)) == spec_cc(input@),
{
    let input = tag_no_case(input, &NAME_CC)?;
    let (input, v) = address_list(input)?;
    let input = crlf(input)?;
    Ok((input, v))
}

/// `Message-ID:` field: one message identifier.
pub open spec fn spec_message_id(s: Seq<u8>) -> Option<(Seq<u8>, PairModel)> {
    match spec_tag_ci(s, NAME_MESSAGE_ID@) {
        Some(r) => then_crlf(spec_msg_id(r)),
        None => None,
    }
}

pub fn message_id<'a>(input: &'a [u8]) -> (r: Res<'a, AddrSpec<'a>>)
    ensures
        res_view(r, |v: AddrSpec<'a>| pair_of(v)) == spec_message_id(input@),
{
    let input = tag_no_case(input, &NAME_MESSAGE_ID)?;
    let (input, v) = msg_id(input)?;
    let input = crlf(input)?;
    Ok((input, v))
}

/// The `date` field again, its name prefixed with `Resent-`.
pub open spec fn spec_resent_date(s: Seq<u8>) -> Option<(Seq<u8>, DateTime)> {
    match spec_tag_ci(s, NAME_RESENT@) {
        Some(r) => spec_date(r),
        None => None,
    }
}

pub fn resent_date<'a>(input: &'a [u8]) -> (r: Res<'a, DateTime>)
    ensures
        res_view(r, |v: DateTime| v) == spec_resent_date(input@),
{
    let input = tag_no_case(input, &NAME_RESENT)?;
    date(input)
}

/// The `from` field again, its name prefixed with `Resent-`.
pub open spec fn spec_resent_from(s: Seq<u8>) -> Option<(Seq<u8>, Seq<MailboxModel>)> {
    match spec_tag_ci(s, NAME_RESENT@) {
        Some(r) => spec_from(r),
        None => None,
    }
}

pub fn resent_from<'a>(input: &'a [u8]) -> (r: Res<'a, Vec<Mailbox<'a>>>)
    ensures
        res_view(r, |v: Vec<Mailbox<'a>>| mailboxes_of(v@)) == spec_resent_from(input@),
{
    let input = tag_no_case(input, &NAME_RESENT)?;
    from(input)
}

/// The `sender` field again, its name prefixed with `Resent-`.
pub open spec fn spec_resent_sender(s: Seq<u8>) -> Option<(Seq<u8>, MailboxModel)> {
    match spec_tag_ci(s, NAME_RESENT@) {
        Some(r) => spec_sender(r),
        None => None,
    }
}

pub fn resent_sender<'a>(input: &'a [u8]) -> (r: Res<'a, Mailbox<'a>>)
    ensures
        res_view(r, |v: Mailbox<'a>| mailbox_of(v)) == spec_resent_sender(input@),
{
    let input = tag_no_case(input, &NAME_RESENT)?;
    sender(input)
}

/// The `to` field again, its name prefixed with `Resent-`.
pub open spec fn spec_resent_to(s: Seq<u8>) -> Option<(Seq<u8>, Seq<AddressModel>)> {
    match spec_tag_ci(s, NAME_RESENT@) {
        Some(r) => spec_to(r),
        None => None,
    }
}

pub fn resent_to<'a>(input: &'a [u8]) -> (r: Res<'a, Vec<Address<'a>>>)
    ensures
        res_view(r, |v: Vec<Address<'a>>| addresses_of(v@)) == spec_resent_to(input@),
{
    let input = tag_no_case(input, &NAME_RESENT)?;
    to(input)
}

/// The `cc` field again, its name prefixed with `Resent-`.
pub open spec fn spec_resent_cc(s: Seq<u8>) -> Option<(Seq<u8>, Seq<AddressModel>)> {
    match spec_tag_ci(s, NAME_RESENT@) {
        Some(r) => spec_cc(r),
        None => None,
    }
}

pub fn resent_cc<'a>(input: &'a [u8]) -> (r: Res<'a, Vec<Address<'a>>>)
    ensures
        res_view(r, |v: Vec<Address<'a>>| addresses_of(v@)) == spec_resent_cc(input@),
{
    let input = tag_no_case(input, &NAME_RESENT)?;
    cc(input)
}

/// The `bcc` field again, its name prefixed with `Resent-`.
pub open spec fn spec_resent_bcc(s: Seq<u8>) -> Option<(Seq<u8>, Seq<AddressModel>)> {
    match spec_tag_ci(s, NAME_RESENT@) {
        Some(r) => spec_bcc(r),
        None => None,
    }
}

pub fn resent_bcc<'a>(input: &'a [u8]) -> (r: Res<'a, Vec<Address<'a>>>)
    ensures
        res_view(r, |v: Vec<Address<'a>>| addresses_of(v@)) == spec_resent_bcc(input@),
{
    let input = tag_no_case(input, &NAME_RESENT)?;
    bcc(input)
}

/// The `message_id` field again, its name prefixed with `Resent-`.
pub open spec fn spec_resent_message_id(s: Seq<u8>) -> Option<(Seq<u8>, PairModel)> {
    match spec_tag_ci(s, NAME_RESENT@) {
        Some(r) => spec_message_id(r),
        None => None,
    }
}

pub fn resent_message_id<'a>(input: &'a [u8]) -> (r: Res<'a, AddrSpec<'a>>)
    ensures
        res_view(r, |v: AddrSpec<'a>| pair_of(v)) == spec_resent_message_id(input@),
{
    let input = tag_no_case(input, &NAME_RESENT)?;
    message_id(input)
}

/// `Bcc:` field: an address list, or only CFWS, which reads as no address.
pub open spec fn spec_bcc(s: Seq<u8>) -> Option<(Seq<u8>, Seq<AddressModel>)> {
    match spec_tag_ci(s, NAME_BCC@) {
        Some(r) => if spec_address_list(r) is Some {
            then_crlf(spec_address_list(r))
        } else {
            match spec_cfws(r) {
                Some(r2) => then_crlf(Some((r2, Seq::empty()))),
                None => None,
            }
        },
        None => None,
    }
}

pub fn bcc<'a>(input: &'a [u8]) -> (r: Res<'a, Vec<Address<'a>>>)
    ensures
        res_view(r, |v: Vec<Address<'a>>| addresses_of(v@)) == spec_bcc(input@),
{
    let input = tag_no_case(input, &NAME_BCC)?;
    let (input, list) = match address_list(input) {
        Ok(x) => x,
        Err(_) => {
            let (rest, _) = cfws(input)?;
            proof {
                assert(addresses_of(Seq::<Address<'a>>::empty()) =~= Seq::<AddressModel>::empty());
            }
            (rest, Vec::new())
        },
    };
    let input = crlf(input)?;
    Ok((input, list))
}

/// Further message identifiers, as many as follow.
pub open spec fn spec_more_ids(s: Seq<u8>) -> (Seq<u8>, Seq<PairModel>)
    decreases s.len(),
{
    match spec_msg_id(s) {
        Some((r, p)) => if r.len() < s.len() {
            let (r2, ps) = spec_more_ids(r);
            (r2, seq![p] + ps)
        } else {
            (s, Seq::empty())
        },
        None => (s, Seq::empty()),
    }
}

/// One or more message identifiers.
pub open spec fn spec_ids(s: Seq<u8>) -> Option<(Seq<u8>, Seq<PairModel>)> {
    match spec_msg_id(s) {
        Some((r, p)) => {
            let (r2, ps) = spec_more_ids(r);
            Some((r2, seq![p] + ps))
        },
        None => None,
    }
}

fn ids<'a>(input: &'a [u8]) -> (r: Res<'a, Vec<AddrSpec<'a>>>)
    ensures
        res_view(r, |v: Vec<AddrSpec<'a>>| pairs_of(v@)) == spec_ids(input@),
        r is Ok ==> r->Ok_0.1@.len() > 0,
{
    let (mut cur, first) = msg_id(input)?;
    let mut out: Vec<AddrSpec<'a>> = Vec::new();
    let ghost fv = pair_of(first);
    out.push(first);
    proof {
        assert(pairs_of(out@) =~= seq![fv]);
    }
    loop
        invariant
            out@.len() > 0,
            spec_ids(input@) == Some((spec_more_ids(cur@).0, pairs_of(out@) + spec_more_ids(cur@).1)),
        decreases cur@.len(),
    {
        proof {
            assert(pairs_of(out@) + Seq::<PairModel>::empty() =~= pairs_of(out@));
        }
        match msg_id(cur) {
            Ok((rest, p)) => {
                if rest.len() < cur.len() {
                    let ghost before = out@;
                    let ghost pv = pair_of(p);
                    out.push(p);
                    proof {
                        assert(pairs_of(out@) =~= pairs_of(before) + seq![pv]);
                        let ps = spec_more_ids(rest@).1;
                        assert(pairs_of(before) + (seq![pv] + ps) =~= pairs_of(out@) + ps);
                    }
                    cur = rest;
                } else {
                    return Ok((cur, out));
                }
            },
            Err(_) => {
                return Ok((cur, out));
            },
        }
    }
}

/// `In-Reply-To:` field: one or more message identifiers.
pub open spec fn spec_in_reply_to(s: Seq<u8>) -> Option<(Seq<u8>, Seq<PairModel>)> {
    match spec_tag_ci(s, NAME_IN_REPLY_TO@) {
        Some(r) => then_crlf(spec_ids(r)),
        None => None,
    }
}

pub fn in_reply_to<'a>(input: &'a [u8]) -> (r: Res<'a, Vec<AddrSpec<'a>>>)
    ensures
        res_view(r, |v: Vec<AddrSpec<'a>>| pairs_of(v@)) == spec_in_reply_to(input@),
{
    let input = tag_no_case(input, &NAME_IN_REPLY_TO)?;
    let (input, v) = ids(input)?;
    let input = crlf(input)?;
    Ok((input, v))
}

/// `References:` field: one or more message identifiers.
pub open spec fn spec_references(s: Seq<u8>) -> Option<(Seq<u8>, Seq<PairModel>)> {
    match spec_tag_ci(s, NAME_REFERENCES@) {
        Some(r) => then_crlf(spec_ids(r)),
        None => None,
    }
}

pub fn references<'a>(input: &'a [u8]) -> (r: Res<'a, Vec<AddrSpec<'a>>>)
    ensures
        res_view(r, |v: Vec<AddrSpec<'a>>| pairs_of(v@)) == spec_references(input@),
{
    let input = tag_no_case(input, &NAME_REFERENCES)?;
    let (input, v) = ids(input)?;
    let input = crlf(input)?;
    Ok((input, v))
}

/// `Subject:` field: unstructured text.
pub open spec fn spec_subject(s: Seq<u8>) -> Option<(Seq<u8>, Seq<u8>)> {
    match spec_tag_ci(s, NAME_SUBJECT@) {
        Some(r) => then_crlf(Some(spec_unstructured(r))),
        None => None,
    }
}

pub fn subject<'a>(input: &'a [u8]) -> (r: Res<'a, Text<'a>>)
    ensures
        res_view(r, |v: Text<'a>| v@) == spec_subject(input@),
{
    let input = tag_no_case(input, &NAME_SUBJECT)?;
    let (input, v) = unstructured(input);
    let input = crlf(input)?;
    Ok((input, v))
}

/// `Comments:` field: unstructured text.
pub open spec fn spec_comments(s: Seq<u8>) -> Option<(Seq<u8>, Seq<u8>)> {
    match spec_tag_ci(s, NAME_COMMENTS@) {
        Some(r) => then_crlf(Some(spec_unstructured(r))),
        None => None,
    }
}

pub fn comments<'a>(input: &'a [u8]) -> (r: Res<'a, Text<'a>>)
    ensures
        res_view(r, |v: Text<'a>| v@) == spec_comments(input@),
{
    let input = tag_no_case(input, &NAME_COMMENTS)?;
    let (input, v) = unstructured(input);
    let input = crlf(input)?;
    Ok((input, v))
}

/// Further phrases, each after a comma, as many as follow.
pub open spec fn spec_more_phrases(s: Seq<u8>) -> (Seq<u8>, Seq<Seq<Seq<u8>>>)
    decreases s.len(),
{
    match spec_byte(s, 44) {
        Some(r1) => match spec_phrase(r1) {
            Some((r2, p)) => if r2.len() < s.len() {
                let (r3, ps) = spec_more_phrases(r2);
                (r3, seq![p] + ps)
            } else {
                (s, Seq::empty())
            },
            None => (s, Seq::empty()),
        },
        None => (s, Seq::empty()),
    }
}

/// `Keywords:` field: one or more phrases separated by commas.
pub open spec fn spec_keywords(s: Seq<u8>) -> Option<(Seq<u8>, Seq<Seq<Seq<u8>>>)> {
    match spec_tag_ci(s, NAME_KEYWORDS@) {
        Some(r) => match spec_phrase(r) {
            Some((r1, p)) => {
                let (r2, ps) = spec_more_phrases(r1);
                then_crlf(Some((r2, seq![p] + ps)))
            },
            None => None,
        },
        None => None,
    }
}

pub fn keywords<'a>(input: &'a [u8]) -> (r: Res<'a, Vec<Vec<Text<'a>>>>)
    ensures
        res_view(r, |v: Vec<Vec<Text<'a>>>| phrases_of(v@)) == spec_keywords(input@),
        r is Ok ==> r->Ok_0.1@.len() > 0,
{
    let body = tag_no_case(input, &NAME_KEYWORDS)?;
    let (mut cur, first) = phrase(body)?;
    let ghost r1 = cur@;
    let mut out: Vec<Vec<Text<'a>>> = Vec::new();
    let ghost fv = texts(first@);
    out.push(first);
    proof {
        assert(phrases_of(out@) =~= seq![fv]);
    }
    loop
        invariant
            out@.len() > 0,
            spec_more_phrases(r1) == (spec_more_phrases(cur@).0, phrases_of(out@).skip(1)
                + spec_more_phrases(cur@).1),
            phrases_of(out@)[0] == fv,
            spec_keywords(input@) == then_crlf(
                Some((spec_more_phrases(r1).0, seq![fv] + spec_more_phrases(r1).1)),
            ),
        decreases cur@.len(),
    {
        let ghost before = out@;
        proof {
            assert(phrases_of(out@).skip(1) + Seq::<Seq<Seq<u8>>>::empty() =~= phrases_of(out@).skip(1));
        }
        let mut stop = true;
        if let Ok(r1x) = byte(cur, 44) {
            if let Ok((rest, p)) = phrase(r1x) {
                if rest.len() < cur.len() {
                    let ghost pv = texts(p@);
                    out.push(p);
                    proof {
                        assert(phrases_of(out@) =~= phrases_of(before) + seq![pv]);
                        assert(phrases_of(out@).skip(1) =~= phrases_of(before).skip(1) + seq![pv]);
                        let ps = spec_more_phrases(rest@).1;
                        assert(phrases_of(before).skip(1) + (seq![pv] + ps) =~= phrases_of(out@).skip(1) + ps);
                    }
                    cur = rest;
                    stop = false;
                }
            }
        }
        if stop {
            proof {
                assert(seq![fv] + phrases_of(out@).skip(1) =~= phrases_of(out@));
            }
            let rest = crlf(cur)?;
            return Ok((rest, out));
        }
    }
}

/// `Return-Path:` field: an angle address, or an empty path `<>` (with
/// optional CFWS around and inside), which reads as `None`.
pub open spec fn spec_return_path(s: Seq<u8>) -> Option<(Seq<u8>, Option<PairModel>)> {
    match spec_tag_ci(s, NAME_RETURN_PATH@) {
        Some(r) => match spec_angle_addr(r) {
            Some((r1, a)) => then_crlf(Some((r1, Some(a)))),
            None => match spec_byte(spec_opt_cfws(r), 60) {
                Some(r1) => match spec_byte(spec_opt_cfws(r1), 62) {
                    Some(r2) => then_crlf(Some((spec_opt_cfws(r2), None))),
                    None => None,
                },
                None => None,
            },
        },
        None => None,
    }
}

pub fn return_path<'a>(input: &'a [u8]) -> (r: Res<'a, Option<AddrSpec<'a>>>)
    ensures
        res_view(
            r,
            |v: Option<AddrSpec<'a>>|
                match v {
                    Some(a) => Some(pair_of(a)),
                    None => None,
                },
        ) == spec_return_path(input@),
{
    let input = tag_no_case(input, &NAME_RETURN_PATH)?;
    let (input, addr) = match angle_addr(input) {
        Ok((rest, a)) => (rest, Some(a)),
        Err(_) => {
            let r1 = byte(opt_cfws(input), 60)?;
            let r2 = byte(opt_cfws(r1), 62)?;
            (opt_cfws(r2), None)
        },
    };
    let input = crlf(input)?;
    Ok((input, addr))
}

/// One token of a `Received:` field. A word is read as a domain only when
/// the domain read at the same place is strictly longer; with no word there,
/// an angle address, a bare address specification, then a domain are tried.
pub open spec fn spec_received_token(s: Seq<u8>) -> Option<(Seq<u8>, TokenModel)> {
    match spec_word(s) {
        Some((rw, w)) => match spec_domain(s) {
            Some((rd, d)) => if d.len() > w.len() {
                Some((rd, TokenModel::Domain(d)))
            } else {
                Some((rw, TokenModel::Word(w)))
            },
            None => Some((rw, TokenModel::Word(w))),
        },
        None => match spec_angle_addr(s) {
            Some((r, a)) => Some((r, TokenModel::Addr(a))),
            None => match spec_addr_spec(s) {
                Some((r, a)) => Some((r, TokenModel::Addr(a))),
                None => match spec_domain(s) {
                    Some((r, d)) => Some((r, TokenModel::Domain(d))),
                    None => None,
                },
            },
        },
    }
}

pub fn received_token<'a>(input: &'a [u8]) -> (r: Res<'a, ReceivedToken<'a>>)
    ensures
        res_view(r, |t: ReceivedToken<'a>| token_of(t)) == spec_received_token(input@),
{
    if let Ok((rw, w)) = word(input) {
        if let Ok((rd, d)) = domain(input) {
            if d.len() > w.len() {
                return Ok((rd, ReceivedToken::Domain(d)));
            }
        }
        Ok((rw, ReceivedToken::Word(w)))
    } else if let Ok((r, a)) = angle_addr(input) {
        Ok((r, ReceivedToken::Addr(a)))
    } else if let Ok((r, a)) = addr_spec(input) {
        Ok((r, ReceivedToken::Addr(a)))
    } else if let Ok((r, d)) = domain(input) {
        Ok((r, ReceivedToken::Domain(d)))
    } else {
        Err(Error::Field)
    }
}

/// `Received:` tokens, as many as follow.
pub open spec fn spec_received_tokens(s: Seq<u8>) -> (Seq<u8>, Seq<TokenModel>)
    decreases s.len(),
{
    match spec_received_token(s) {
        Some((r, t)) => if r.len() < s.len() {
            let (r2, ts) = spec_received_tokens(r);
            (r2, seq![t] + ts)
        } else {
            (s, Seq::empty())
        },
        None => (s, Seq::empty()),
    }
}

/// `Received:` field: tokens, `;`, a date and time.
pub open spec fn spec_received(s: Seq<u8>) -> Option<(Seq<u8>, ReceivedModel)> {
    match spec_tag_ci(s, NAME_RECEIVED@) {
        Some(r) => {
            let (r1, ts) = spec_received_tokens(r);
            match spec_byte(r1, 59) {
                Some(r2) => match spec_date_time(r2) {
                    Some((r3, d)) => then_crlf(Some((r3, (ts, d)))),
                    None => None,
                },
                None => None,
            }
        },
        None => None,
    }
}

pub fn received<'a>(input: &'a [u8]) -> (r: Res<'a, (Vec<ReceivedToken<'a>>, DateTime)>)
    ensures
        res_view(r, |v: (Vec<ReceivedToken<'a>>, DateTime)| received_of(v)) == spec_received(input@),
{
    let start = tag_no_case(input, &NAME_RECEIVED)?;
    let mut cur = start;
    let mut out: Vec<ReceivedToken<'a>> = Vec::new();
    loop
        invariant
            spec_tag_ci(input@, NAME_RECEIVED@) == Some(start@),
            spec_received_tokens(start@) == (spec_received_tokens(cur@).0, tokens_of(out@)
                + spec_received_tokens(cur@).1),
        ensures
            spec_tag_ci(input@, NAME_RECEIVED@) == Some(start@),
            spec_received_tokens(start@) == (cur@, tokens_of(out@)),
        decreases cur@.len(),
    {
        proof {
            assert(tokens_of(out@) + Seq::<TokenModel>::empty() =~= tokens_of(out@));
        }
        match received_token(cur) {
            Ok((rest, t)) => {
                if rest.len() < cur.len() {
                    let ghost before = out@;
                    let ghost tv = token_of(t);
                    out.push(t);
                    proof {
                        assert(tokens_of(out@) =~= tokens_of(before) + seq![tv]);
                        let ts = spec_received_tokens(rest@).1;
                        assert(tokens_of(before) + (seq![tv] + ts) =~= tokens_of(out@) + ts);
                    }
                    cur = rest;
                } else {
                    break;
                }
            },
            Err(_) => {
                break;
            },
        }
    }
    let r2 = byte(cur, 59)?;
    let (r3, d) = date_time(r2)?;
    let r4 = crlf(r3)?;
    Ok((r4, (out, d)))
}

/// Further `Received:` fields, as many as follow.
pub open spec fn spec_more_received(s: Seq<u8>) -> (Seq<u8>, Seq<ReceivedModel>)
    decreases s.len(),
{
    match spec_received(s) {
        Some((r, x)) => if r.len() < s.len() {
            let (r2, xs) = spec_more_received(r);
            (r2, seq![x] + xs)
        } else {
            (s, Seq::empty())
        },
        None => (s, Seq::empty()),
    }
}

/// Start of a trace group: an optional `Return-Path:` field, then one or
/// more `Received:` fields.
pub open spec fn spec_trace(s: Seq<u8>) -> Option<(Seq<u8>, (Option<Option<PairModel>>, Seq<ReceivedModel>))> {
    let (r0, rp) = match spec_return_path(s) {
        Some((r, p)) => (r, Some(p)),
        None => (s, None),
    };
    match spec_received(r0) {
        Some((r1, x)) => {
            let (r2, xs) = spec_more_received(r1);
            Some((r2, (rp, seq![x] + xs)))
        },
        None => None,
    }
}

pub fn trace<'a>(input: &'a [u8]) -> (r: Res<'a, (Option<Option<AddrSpec<'a>>>, Vec<(Vec<ReceivedToken<'a>>, DateTime)>)>)
    ensures
        res_view(
            r,
            |v: (Option<Option<AddrSpec<'a>>>, Vec<(Vec<ReceivedToken<'a>>, DateTime)>)|
                (return_path_of(v.0), receiveds_of(v.1@)),
        ) == spec_trace(input@),
        r is Ok ==> r->Ok_0.1.1@.len() > 0,
{
    let (r0, rp) = match return_path(input) {
        Ok((r, p)) => (r, Some(p)),
        Err(_) => (input, None),
    };
    let (r1, first) = received(r0)?;
    let ghost fv = received_of(first);
    let (rest, mut out) = more_received(r1);
    let ghost more = out@;
    out.insert(0, first);
    proof {
        assert(receiveds_of(out@) =~= seq![fv] + receiveds_of(more));
    }
    Ok((rest, (rp, out)))
}

fn more_received<'a>(input: &'a [u8]) -> (r: (&'a [u8], Vec<(Vec<ReceivedToken<'a>>, DateTime)>))
    ensures
        (r.0@, receiveds_of(r.1@)) == spec_more_received(input@),
{
    let mut cur = input;
    let mut out: Vec<(Vec<ReceivedToken<'a>>, DateTime)> = Vec::new();
    loop
        invariant
            spec_more_received(input@) == (spec_more_received(cur@).0, receiveds_of(out@)
                + spec_more_received(cur@).1),
        decreases cur@.len(),
    {
        proof {
            assert(receiveds_of(out@) + Seq::<ReceivedModel>::empty() =~= receiveds_of(out@));
        }
        match received(cur) {
            Ok((rest, x)) => {
                if rest.len() < cur.len() {
                    let ghost before = out@;
                    let ghost xv = received_of(x);
                    out.push(x);
                    proof {
                        assert(receiveds_of(out@) =~= receiveds_of(before) + seq![xv]);
                        let xs = spec_more_received(rest@).1;
                        assert(receiveds_of(before) + (seq![xv] + xs) =~= receiveds_of(out@) + xs);
                    }
                    cur = rest;
                } else {
                    return (cur, out);
                }
            },
            Err(_) => {
                return (cur, out);
            },
        }
    }
}

/// Unknown field: a field name, `:`, unstructured text; yields name and text.
pub open spec fn spec_unknown(s: Seq<u8>) -> Option<(Seq<u8>, (Seq<u8>, Seq<u8>))> {
    match spec_take_while1(s, Class::Ftext) {
        Some((r, name)) => match spec_byte(r, 58) {
            Some(r1) => {
                let (r2, value) = spec_unstructured(r1);
                then_crlf(Some((r2, (name, value))))
            },
            None => None,
        },
        None => None,
    }
}

pub fn unknown<'a>(input: &'a [u8]) -> (r: Res<'a, (Text<'a>, Text<'a>)>)
    ensures
        res_view(r, |v: (Text<'a>, Text<'a>)| (v.0@, v.1@)) == spec_unknown(input@),
{
    let (input, name) = take_while1(input, Class::Ftext)?;
    let input = byte(input, 58)?;
    let (input, value) = unstructured(input);
    let input = crlf(input)?;
    Ok((input, (name, value)))
}

/// One `Resent-` field of a trace group, tried in a fixed order.
pub open spec fn spec_trace_field(s: Seq<u8>) -> Option<(Seq<u8>, TraceFieldModel)> {
    if let Some((r, v)) = spec_resent_date(s) {
        Some((r, TraceFieldModel::Date(v)))
    } else if let Some((r, v)) = spec_resent_from(s) {
        Some((r, TraceFieldModel::From(v)))
    } else if let Some((r, v)) = spec_resent_sender(s) {
        Some((r, TraceFieldModel::Sender(v)))
    } else if let Some((r, v)) = spec_resent_to(s) {
        Some((r, TraceFieldModel::To(v)))
    } else if let Some((r, v)) = spec_resent_cc(s) {
        Some((r, TraceFieldModel::Cc(v)))
    } else if let Some((r, v)) = spec_resent_bcc(s) {
        Some((r, TraceFieldModel::Bcc(v)))
    } else if let Some((r, v)) = spec_resent_message_id(s) {
        Some((r, TraceFieldModel::MessageId(v)))
    } else {
        None
    }
}

fn trace_field<'a>(input: &'a [u8]) -> (r: Res<'a, TraceField<'a>>)
    ensures
        res_view(r, |f: TraceField<'a>| trace_field_of(f)) == spec_trace_field(input@),
{
    if let Ok((r, v)) = resent_date(input) {
        Ok((r, TraceField::Date(v)))
    } else if let Ok((r, v)) = resent_from(input) {
        Ok((r, TraceField::From(v)))
    } else if let Ok((r, v)) = resent_sender(input) {
        Ok((r, TraceField::Sender(v)))
    } else if let Ok((r, v)) = resent_to(input) {
        Ok((r, TraceField::To(v)))
    } else if let Ok((r, v)) = resent_cc(input) {
        Ok((r, TraceField::Cc(v)))
    } else if let Ok((r, v)) = resent_bcc(input) {
        Ok((r, TraceField::Bcc(v)))
    } else if let Ok((r, v)) = resent_message_id(input) {
        Ok((r, TraceField::MessageId(v)))
    } else {
        Err(Error::Field)
    }
}

/// One field outside trace groups, tried in a fixed order; the unknown field
/// comes last.
pub open spec fn spec_field(s: Seq<u8>) -> Option<(Seq<u8>, FieldModel)> {
    if spec_known_field(s) is Some {
        spec_known_field(s)
    } else if let Some((r, (n, v))) = spec_unknown(s) {
        Some((r, FieldModel::Unknown { name: n, value: v }))
    } else {
        None
    }
}

/// One field of a known name outside trace groups, tried in a fixed order.
pub open spec fn spec_known_field(s: Seq<u8>) -> Option<(Seq<u8>, FieldModel)> {
    if let Some((r, v)) = spec_date(s) {
        Some((r, FieldModel::Date(v)))
    } else if let Some((r, v)) = spec_from(s) {
        Some((r, FieldModel::From(v)))
    } else if let Some((r, v)) = spec_sender(s) {
        Some((r, FieldModel::Sender(v)))
    } else if let Some((r, v)) = spec_reply_to(s) {
        Some((r, FieldModel::ReplyTo(v)))
    } else if let Some((r, v)) = spec_to(s) {
        Some((r, FieldModel::To(v)))
    } else if let Some((r, v)) = spec_cc(s) {
        Some((r, FieldModel::Cc(v)))
    } else if let Some((r, v)) = spec_bcc(s) {
        Some((r, FieldModel::Bcc(v)))
    } else if let Some((r, v)) = spec_message_id(s) {
        Some((r, FieldModel::MessageId(v)))
    } else if let Some((r, v)) = spec_in_reply_to(s) {
        Some((r, FieldModel::InReplyTo(v)))
    } else if let Some((r, v)) = spec_references(s) {
        Some((r, FieldModel::References(v)))
    } else if let Some((r, v)) = spec_subject(s) {
        Some((r, FieldModel::Subject(v)))
    } else if let Some((r, v)) = spec_comments(s) {
        Some((r, FieldModel::Comments(v)))
    } else if let Some((r, v)) = spec_keywords(s) {
        Some((r, FieldModel::Keywords(v)))
    } else {
        None
    }
}

fn field<'a>(input: &'a [u8]) -> (r: Res<'a, Field<'a>>)
    ensures
        res_view(r, |f: Field<'a>| field_of(f)) == spec_field(input@),
{
    if let Ok(x) = known_field(input) {
        Ok(x)
    } else if let Ok((r, (n, v))) = unknown(input) {
        Ok((r, Field::Unknown { name: n, value: v }))
    } else {
        Err(Error::Field)
    }
}

#[verifier::rlimit(50)]
fn known_field<'a>(input: &'a [u8]) -> (r: Res<'a, Field<'a>>)
    ensures
        res_view(r, |f: Field<'a>| field_of(f)) == spec_known_field(input@),
{
    if let Ok((r, v)) = date(input) {
        Ok((r, Field::Date(v)))
    } else if let Ok((r, v)) = from(input) {
        Ok((r, Field::From(v)))
    } else if let Ok((r, v)) = sender(input) {
        Ok((r, Field::Sender(v)))
    } else if let Ok((r, v)) = reply_to(input) {
        Ok((r, Field::ReplyTo(v)))
    } else if let Ok((r, v)) = to(input) {
        Ok((r, Field::To(v)))
    } else if let Ok((r, v)) = cc(input) {
        Ok((r, Field::Cc(v)))
    } else if let Ok((r, v)) = bcc(input) {
        Ok((r, Field::Bcc(v)))
    } else if let Ok((r, v)) = message_id(input) {
        Ok((r, Field::MessageId(v)))
    } else if let Ok((r, v)) = in_reply_to(input) {
        Ok((r, Field::InReplyTo(v)))
    } else if let Ok((r, v)) = references(input) {
        Ok((r, Field::References(v)))
    } else if let Ok((r, v)) = subject(input) {
        Ok((r, Field::Subject(v)))
    } else if let Ok((r, v)) = comments(input) {
        Ok((r, Field::Comments(v)))
    } else if let Ok((r, v)) = keywords(input) {
        Ok((r, Field::Keywords(v)))
    } else {
        Err(Error::Field)
    }
}
/// The `Resent-` fields that follow, as many as there are.
pub open spec fn spec_trace_fields(s: Seq<u8>) -> (Seq<u8>, Seq<TraceFieldModel>)
    decreases s.len(),
{
    match spec_trace_field(s) {
        Some((r, f)) => if r.len() < s.len() {
            let (r2, fs) = spec_trace_fields(r);
            (r2, seq![f] + fs)
        } else {
            (s, Seq::empty())
        },
        None => (s, Seq::empty()),
    }
}

/// Trace groups, as many as follow: each is the start of a group and the
/// `Resent-` fields after it, collapsed into one field.
pub open spec fn spec_traces(s: Seq<u8>) -> (Seq<u8>, Seq<FieldModel>)
    decreases s.len(),
{
    match spec_trace(s) {
        Some((r, (rp, rc))) => {
            let (r2, tfs) = spec_trace_fields(r);
            if r2.len() < s.len() {
                let (r3, gs) = spec_traces(r2);
                (r3, seq![FieldModel::Trace { return_path: rp, received: rc, fields: tfs }] + gs)
            } else {
                (s, Seq::empty())
            }
        },
        None => (s, Seq::empty()),
    }
}

/// Fields outside trace groups, as many as follow.
pub open spec fn spec_plain_fields(s: Seq<u8>) -> (Seq<u8>, Seq<FieldModel>)
    decreases s.len(),
{
    match spec_field(s) {
        Some((r, f)) => if r.len() < s.len() {
            let (r2, fs) = spec_plain_fields(r);
            (r2, seq![f] + fs)
        } else {
            (s, Seq::empty())
        },
        None => (s, Seq::empty()),
    }
}

/// A header: the leading trace groups, then the other fields; yields the
/// bytes left over and the fields in order.
pub open spec fn spec_fields(s: Seq<u8>) -> (Seq<u8>, Seq<FieldModel>) {
    let (r, gs) = spec_traces(s);
    let (r2, fs) = spec_plain_fields(r);
    (r2, gs + fs)
}

fn trace_fields<'a>(input: &'a [u8]) -> (r: (&'a [u8], Vec<TraceField<'a>>))
    ensures
        (r.0@, trace_fields_of(r.1@)) == spec_trace_fields(input@),
{
    let mut cur = input;
    let mut out: Vec<TraceField<'a>> = Vec::new();
    loop
        invariant
            spec_trace_fields(input@) == (spec_trace_fields(cur@).0, trace_fields_of(out@)
                + spec_trace_fields(cur@).1),
        decreases cur@.len(),
    {
        proof {
            assert(trace_fields_of(out@) + Seq::<TraceFieldModel>::empty() =~= trace_fields_of(out@));
        }
        match trace_field(cur) {
            Ok((rest, f)) => {
                if rest.len() < cur.len() {
                    let ghost before = out@;
                    let ghost fv = trace_field_of(f);
                    out.push(f);
                    proof {
                        assert(trace_fields_of(out@) =~= trace_fields_of(before) + seq![fv]);
                        let fs = spec_trace_fields(rest@).1;
                        assert(trace_fields_of(before) + (seq![fv] + fs) =~= trace_fields_of(out@) + fs);
                    }
                    cur = rest;
                } else {
                    return (cur, out);
                }
            },
            Err(_) => {
                return (cur, out);
            },
        }
    }
}

/// Parses a header block: trace groups first, then every other field, each
/// ended by a line break. Never fails; the bytes that no field production
/// accepts are handed back.
#[verifier::rlimit(50)]
pub fn fields<'a>(input: &'a [u8]) -> (r: Res<'a, Vec<Field<'a>>>)
    ensures
        r is Ok,
        res_view(r, |v: Vec<Field<'a>>| fields_of(v@)) == Some(spec_fields(input@)),
{
    let mut cur = input;
    let mut out: Vec<Field<'a>> = Vec::new();
    loop
        invariant
            spec_traces(input@) == (spec_traces(cur@).0, fields_of(out@) + spec_traces(cur@).1),
        ensures
            spec_traces(input@) == (cur@, fields_of(out@)),
        decreases cur@.len(),
    {
        proof {
            assert(fields_of(out@) + Seq::<FieldModel>::empty() =~= fields_of(out@));
        }
        match trace(cur) {
            Ok((r, (return_path, received))) => {
                let (r2, tfs) = trace_fields(r);
                if r2.len() < cur.len() {
                    let ghost before = out@;
                    let f = Field::Trace { return_path, received, fields: tfs };
                    let ghost fv = field_of(f);
                    out.push(f);
                    proof {
                        assert(fields_of(out@) =~= fields_of(before) + seq![fv]);
                        let gs = spec_traces(r2@).1;
                        assert(fields_of(before) + (seq![fv] + gs) =~= fields_of(out@) + gs);
                    }
                    cur = r2;
                } else {
                    break;
                }
            },
            Err(_) => {
                break;
            },
        }
    }
    let ghost mid = cur@;
    let ghost groups = fields_of(out@);
    loop
        invariant
            spec_fields(input@) == (spec_plain_fields(mid).0, groups + spec_plain_fields(mid).1),
            spec_plain_fields(mid) == (spec_plain_fields(cur@).0, fields_of(out@).skip(groups.len() as int)
                + spec_plain_fields(cur@).1),
            fields_of(out@).take(groups.len() as int) == groups,
            groups.len() <= out@.len(),
        decreases cur@.len(),
    {
        let ghost before = out@;
        proof {
            let tail = fields_of(out@).skip(groups.len() as int);
            assert(tail + Seq::<FieldModel>::empty() =~= tail);
            assert(groups + tail =~= fields_of(out@));
        }
        match field(cur) {
            Ok((rest, f)) => {
                if rest.len() < cur.len() {
                    let ghost fv = field_of(f);
                    out.push(f);
                    proof {
                        let n = groups.len() as int;
                        assert(fields_of(out@) =~= fields_of(before) + seq![fv]);
                        assert(fields_of(out@).take(n) =~= fields_of(before).take(n));
                        assert(fields_of(out@).skip(n) =~= fields_of(before).skip(n) + seq![fv]);
                        let fs = spec_plain_fields(rest@).1;
                        assert(fields_of(before).skip(n) + (seq![fv] + fs) =~= fields_of(out@).skip(n) + fs);
                    }
                    cur = rest;
                } else {
                    return Ok((cur, out));
                }
            },
            Err(_) => {
                return Ok((cur, out));
            },
        }
    }
}

} // verus!
