use vstd::prelude::*;
use vstd::slice::slice_subrange;
use crate::chars::{run_end, scan, Class};
use crate::text::{byte, res_view, spec_byte, Error, Res, Text};
use crate::whitespace::{cfws, opt_cfws, spec_cfws, spec_opt_cfws};
use crate::words::{
    dot_atom, dot_atom_text, phrase, quoted_string, spec_dot_atom, spec_dot_atom_text, spec_phrase,
    spec_quoted_string, texts,
};

verus! {

/// An address specification: local part and domain.
pub type AddrSpec<'a> = (Text<'a>, Text<'a>);

/// A mailbox: optional display name (its words) and address specification.
pub type Mailbox<'a> = (Option<Vec<Text<'a>>>, AddrSpec<'a>);

/// An address: a single mailbox, or a named group of mailboxes.
#[derive(Debug)]
pub enum Address<'a> {
    Mailbox(Mailbox<'a>),
    Group((Vec<Text<'a>>, Vec<Mailbox<'a>>)),
}

pub type PairModel = (Seq<u8>, Seq<u8>);

pub type MailboxModel = (Option<Seq<Seq<u8>>>, PairModel);

/// The model of an address.
pub enum AddressModel {
    Mailbox(MailboxModel),
    Group(Seq<Seq<u8>>, Seq<MailboxModel>),
}

pub open spec fn pair_of<'a>(p: AddrSpec<'a>) -> PairModel {
    (p.0@, p.1@)
}

pub open spec fn pairs_of<'a>(v: Seq<AddrSpec<'a>>) -> Seq<PairModel> {
    v.map_values(|p: AddrSpec<'a>| pair_of(p))
}

pub open spec fn mailbox_of<'a>(m: Mailbox<'a>) -> MailboxModel {
    (
        match m.0 {
            Some(p) => Some(texts(p@)),
            None => None,
        },
        pair_of(m.1),
    )
}

pub open spec fn mailboxes_of<'a>(v: Seq<Mailbox<'a>>) -> Seq<MailboxModel> {
    v.map_values(|m: Mailbox<'a>| mailbox_of(m))
}

pub open spec fn address_of<'a>(a: Address<'a>) -> AddressModel {
    match a {
        Address::Mailbox(m) => AddressModel::Mailbox(mailbox_of(m)),
        Address::Group((name, list)) => AddressModel::Group(texts(name@), mailboxes_of(list@)),
    }
}

pub open spec fn addresses_of<'a>(v: Seq<Address<'a>>) -> Seq<AddressModel> {
    v.map_values(|a: Address<'a>| address_of(a))
}

/// Domain literal: optional CFWS, `[`, domain-literal characters, `]`,
/// optional CFWS; yields the bracketed spelling.
pub open spec fn spec_domain_literal(s: Seq<u8>) -> Option<(Seq<u8>, Seq<u8>)> {
    let t = spec_opt_cfws(s);
    let e = run_end(t, Class::Dtext, 1);
    if t.len() > 0 && t[0] == 91 && e < t.len() && t[e] == 93 {
        Some((spec_opt_cfws(t.skip(e + 1)), t.take(e + 1)))
    } else {
        None
    }
}

pub fn domain_literal<'a>(input: &'a [u8]) -> (r: Res<'a, Text<'a>>)
    ensures
        res_view(r, |t: Text<'a>| t@) == spec_domain_literal(input@),
{
    let t = opt_cfws(input);
    if t.len() == 0 || t[0] != 91 {
        return Err(Error::Address);
    }
    let e = scan(t, Class::Dtext, 1);
    if e < t.len() && t[e] == 93 {
        Ok((opt_cfws(slice_subrange(t, e + 1, t.len())), Text::Borrowed(slice_subrange(t, 0, e + 1))))
    } else {
        Err(Error::Address)
    }
}

/// Domain: a dot-atom, else a domain literal.
pub open spec fn spec_domain(s: Seq<u8>) -> Option<(Seq<u8>, Seq<u8>)> {
    if spec_dot_atom(s) is Some {
        spec_dot_atom(s)
    } else {
        spec_domain_literal(s)
    }
}

pub fn domain<'a>(input: &'a [u8]) -> (r: Res<'a, Text<'a>>)
    ensures
        res_view(r, |t: Text<'a>| t@) == spec_domain(input@),
{
    if let Ok(x) = dot_atom(input) {
        Ok(x)
    } else {
        domain_literal(input)
    }
}

/// Local part: a dot-atom, else a quoted string.
pub open spec fn spec_local_part(s: Seq<u8>) -> Option<(Seq<u8>, Seq<u8>)> {
    if spec_dot_atom(s) is Some {
        spec_dot_atom(s)
    } else {
        spec_quoted_string(s)
    }
}

/// Address specification: local part, `@`, domain.
pub open spec fn spec_addr_spec(s: Seq<u8>) -> Option<(Seq<u8>, PairModel)> {
    match spec_local_part(s) {
        Some((r1, l)) => match spec_byte(r1, 64) {
            Some(r2) => match spec_domain(r2) {
                Some((r3, d)) => Some((r3, (l, d))),
                None => None,
            },
            None => None,
        },
        None => None,
    }
}

pub fn addr_spec<'a>(input: &'a [u8]) -> (r: Res<'a, AddrSpec<'a>>)
    ensures
        res_view(r, |p: AddrSpec<'a>| pair_of(p)) == spec_addr_spec(input@),
{
    let (input, local) = if let Ok(x) = dot_atom(input) {
        x
    } else {
        quoted_string(input)?
    };
    let input = byte(input, 64)?;
    let (input, dom) = domain(input)?;
    Ok((input, (local, dom)))
}

/// Angle address: optional CFWS, `<`, address specification, `>`, optional CFWS.
pub open spec fn spec_angle_addr(s: Seq<u8>) -> Option<(Seq<u8>, PairModel)> {
    match spec_byte(spec_opt_cfws(s), 60) {
        Some(r1) => match spec_addr_spec(r1) {
            Some((r2, a)) => match spec_byte(r2, 62) {
                Some(r3) => Some((spec_opt_cfws(r3), a)),
                None => None,
            },
            None => None,
        },
        None => None,
    }
}

pub fn angle_addr<'a>(input: &'a [u8]) -> (r: Res<'a, AddrSpec<'a>>)
    ensures
        res_view(r, |p: AddrSpec<'a>| pair_of(p)) == spec_angle_addr(input@),
{
    let input = byte(opt_cfws(input), 60)?;
    let (input, a) = addr_spec(input)?;
    let input = byte(input, 62)?;
    Ok((opt_cfws(input), a))
}

/// Name address: an optional display name, then an angle address.
pub open spec fn spec_name_addr(s: Seq<u8>) -> Option<(Seq<u8>, MailboxModel)> {
    let (r1, name) = match spec_phrase(s) {
        Some((r, p)) => (r, Some(p)),
        None => (s, None),
    };
    match spec_angle_addr(r1) {
        Some((r2, a)) => Some((r2, (name, a))),
        None => None,
    }
}

/// Mailbox: a name address, else a bare address specification.
pub open spec fn spec_mailbox(s: Seq<u8>) -> Option<(Seq<u8>, MailboxModel)> {
    if spec_name_addr(s) is Some {
        spec_name_addr(s)
    } else {
        match spec_addr_spec(s) {
            Some((r, a)) => Some((r, (None, a))),
            None => None,
        }
    }
}

fn name_addr<'a>(input: &'a [u8]) -> (r: Res<'a, Mailbox<'a>>)
    ensures
        res_view(r, |m: Mailbox<'a>| mailbox_of(m)) == spec_name_addr(input@),
{
    let (rest, name) = match phrase(input) {
        Ok((r, p)) => (r, Some(p)),
        Err(_) => (input, None),
    };
    let (rest, a) = angle_addr(rest)?;
    Ok((rest, (name, a)))
}

pub fn mailbox<'a>(input: &'a [u8]) -> (r: Res<'a, Mailbox<'a>>)
    ensures
        res_view(r, |m: Mailbox<'a>| mailbox_of(m)) == spec_mailbox(input@),
{
    if let Ok(x) = name_addr(input) {
        Ok(x)
    } else {
        let (rest, a) = addr_spec(input)?;
        Ok((rest, (None, a)))
    }
}

/// Further mailboxes, each after a comma, as many as follow.
pub open spec fn spec_more_mailboxes(s: Seq<u8>) -> (Seq<u8>, Seq<MailboxModel>)
    decreases s.len(),
{
    match spec_byte(s, 44) {
        Some(r1) => match spec_mailbox(r1) {
            Some((r2, m)) => if r2.len() < s.len() {
                let (r3, ms) = spec_more_mailboxes(r2);
                (r3, seq![m] + ms)
            } else {
                (s, Seq::empty())
            },
            None => (s, Seq::empty()),
        },
        None => (s, Seq::empty()),
    }
}

/// Mailbox list: one or more mailboxes separated by commas.
pub open spec fn spec_mailbox_list(s: Seq<u8>) -> Option<(Seq<u8>, Seq<MailboxModel>)> {
    match spec_mailbox(s) {
        Some((r, m)) => {
            let (r2, ms) = spec_more_mailboxes(r);
            Some((r2, seq![m] + ms))
        },
        None => None,
    }
}

pub fn mailbox_list<'a>(input: &'a [u8]) -> (r: Res<'a, Vec<Mailbox<'a>>>)
    ensures
        res_view(r, |v: Vec<Mailbox<'a>>| mailboxes_of(v@)) == spec_mailbox_list(input@),
        r is Ok ==> r->Ok_0.1@.len() > 0,
{
    let (mut cur, first) = mailbox(input)?;
    let mut out: Vec<Mailbox<'a>> = Vec::new();
    out.push(first);
    proof {
        assert(mailboxes_of(out@) =~= seq![mailbox_of(first)]);
    }
    loop
        invariant
            out@.len() > 0,
            spec_mailbox_list(input@) == Some(
                (spec_more_mailboxes(cur@).0, mailboxes_of(out@) + spec_more_mailboxes(cur@).1),
            ),
        decreases cur@.len(),
    {
        proof {
            assert(mailboxes_of(out@) + Seq::<MailboxModel>::empty() =~= mailboxes_of(out@));
        }
        let r1 = match byte(cur, 44) {
            Ok(r1) => r1,
            Err(_) => {
                return Ok((cur, out));
            },
        };
        match mailbox(r1) {
            Ok((rest, m)) => {
                if rest.len() < cur.len() {
                    let ghost before = out@;
                    let ghost mv = mailbox_of(m);
                    out.push(m);
                    proof {
                        assert(mailboxes_of(out@) =~= mailboxes_of(before) + seq![mv]);
                        let ms = spec_more_mailboxes(rest@).1;
                        assert(mailboxes_of(before) + (seq![mv] + ms) =~= mailboxes_of(out@) + ms);
                    }
                    cur = rest;
                } else {
                    return Ok((cur, out));
                }
            },
            Err(_) => {
                return Ok((cur, out));
            },
        }
    }
}

/// Group: display name, `:`, an optional mailbox list (or bare CFWS), `;`,
/// optional CFWS.
pub open spec fn spec_group(s: Seq<u8>) -> Option<(Seq<u8>, (Seq<Seq<u8>>, Seq<MailboxModel>))> {
    match spec_phrase(s) {
        Some((r1, name)) => match spec_byte(r1, 58) {
            Some(r2) => {
                let (r3, list) = match spec_mailbox_list(r2) {
                    Some((r, l)) => (r, l),
                    None => match spec_cfws(r2) {
                        Some(r) => (r, Seq::empty()),
                        None => (r2, Seq::empty()),
                    },
                };
                match spec_byte(r3, 59) {
                    Some(r4) => Some((spec_opt_cfws(r4), (name, list))),
                    None => None,
                }
            },
            None => None,
        },
        None => None,
    }
}

pub fn group<'a>(input: &'a [u8]) -> (r: Res<'a, (Vec<Text<'a>>, Vec<Mailbox<'a>>)>)
    ensures
        res_view(r, |g: (Vec<Text<'a>>, Vec<Mailbox<'a>>)| (texts(g.0@), mailboxes_of(g.1@)))
            == spec_group(input@),
{
    let (input, name) = phrase(input)?;
    let input = byte(input, 58)?;
    let (input, list) = match mailbox_list(input) {
        Ok(x) => x,
        Err(_) => match cfws(input) {
            Ok((r, _)) => (r, Vec::new()),
            Err(_) => (input, Vec::new()),
        },
    };
    proof {
        assert(mailboxes_of(Seq::<Mailbox<'a>>::empty()) =~= Seq::<MailboxModel>::empty());
    }
    let input = byte(input, 59)?;
    Ok((opt_cfws(input), (name, list)))
}

/// Address: a mailbox, else a group.
pub open spec fn spec_address(s: Seq<u8>) -> Option<(Seq<u8>, AddressModel)> {
    match spec_mailbox(s) {
        Some((r, m)) => Some((r, AddressModel::Mailbox(m))),
        None => match spec_group(s) {
            Some((r, (n, l))) => Some((r, AddressModel::Group(n, l))),
            None => None,
        },
    }
}

pub fn address<'a>(input: &'a [u8]) -> (r: Res<'a, Address<'a>>)
    ensures
        res_view(r, |a: Address<'a>| address_of(a)) == spec_address(input@),
{
    if let Ok((rest, m)) = mailbox(input) {
        Ok((rest, Address::Mailbox(m)))
    } else {
        let (rest, g) = group(input)?;
        Ok((rest, Address::Group(g)))
    }
}

/// Further addresses, each after a comma, as many as follow.
pub open spec fn spec_more_addresses(s: Seq<u8>) -> (Seq<u8>, Seq<AddressModel>)
    decreases s.len(),
{
    match spec_byte(s, 44) {
        Some(r1) => match spec_address(r1) {
            Some((r2, a)) => if r2.len() < s.len() {
                let (r3, az) = spec_more_addresses(r2);
                (r3, seq![a] + az)
            } else {
                (s, Seq::empty())
            },
            None => (s, Seq::empty()),
        },
        None => (s, Seq::empty()),
    }
}

/// Address list: one or more addresses separated by commas.
pub open spec fn spec_address_list(s: Seq<u8>) -> Option<(Seq<u8>, Seq<AddressModel>)> {
    match spec_address(s) {
        Some((r, a)) => {
            let (r2, az) = spec_more_addresses(r);
            Some((r2, seq![a] + az))
        },
        None => None,
    }
}

pub fn address_list<'a>(input: &'a [u8]) -> (r: Res<'a, Vec<Address<'a>>>)
    ensures
        res_view(r, |v: Vec<Address<'a>>| addresses_of(v@)) == spec_address_list(input@),
        r is Ok ==> r->Ok_0.1@.len() > 0,
{
    let (mut cur, first) = address(input)?;
    let mut out: Vec<Address<'a>> = Vec::new();
    let ghost fv = address_of(first);
    out.push(first);
    proof {
        assert(addresses_of(out@) =~= seq![fv]);
    }
    loop
        invariant
            out@.len() > 0,
            spec_address_list(input@) == Some(
                (spec_more_addresses(cur@).0, addresses_of(out@) + spec_more_addresses(cur@).1),
            ),
        decreases cur@.len(),
    {
        proof {
            assert(addresses_of(out@) + Seq::<AddressModel>::empty() =~= addresses_of(out@));
        }
        let r1 = match byte(cur, 44) {
            Ok(r1) => r1,
            Err(_) => {
                return Ok((cur, out));
            },
        };
        match address(r1) {
            Ok((rest, a)) => {
                if rest.len() < cur.len() {
                    let ghost before = out@;
                    let ghost av = address_of(a);
                    out.push(a);
                    proof {
                        assert(addresses_of(out@) =~= addresses_of(before) + seq![av]);
                        let az = spec_more_addresses(rest@).1;
                        assert(addresses_of(before) + (seq![av] + az) =~= addresses_of(out@) + az);
                    }
                    cur = rest;
                } else {
                    return Ok((cur, out));
                }
            },
            Err(_) => {
                return Ok((cur, out));
            },
        }
    }
}

/// Right side of a message identifier: dot-atom text, else a domain literal
/// without folding.
pub open spec fn spec_id_right(s: Seq<u8>) -> Option<(Seq<u8>, Seq<u8>)> {
    if spec_dot_atom_text(s) is Some {
        spec_dot_atom_text(s)
    } else {
        let e = run_end(s, Class::Dtext, 1);
        if s.len() > 0 && s[0] == 91 && e < s.len() && s[e] == 93 {
            Some((s.skip(e + 1), s.take(e + 1)))
        } else {
            None
        }
    }
}

fn id_right<'a>(input: &'a [u8]) -> (r: Res<'a, Text<'a>>)
    ensures
        res_view(r, |t: Text<'a>| t@) == spec_id_right(input@),
        r is Ok ==> r->Ok_0.1@.len() > 0,
{
    if let Ok(x) = dot_atom_text(input) {
        return Ok(x);
    }
    if input.len() == 0 || input[0] != 91 {
        return Err(Error::MessageId);
    }
    let e = scan(input, Class::Dtext, 1);
    if e < input.len() && input[e] == 93 {
        Ok((slice_subrange(input, e + 1, input.len()), Text::Borrowed(slice_subrange(input, 0, e + 1))))
    } else {
        Err(Error::MessageId)
    }
}

/// Message identifier: optional CFWS, `<`, left part, `@`, right part, `>`,
/// optional CFWS; yields both parts.
pub open spec fn spec_msg_id(s: Seq<u8>) -> Option<(Seq<u8>, PairModel)> {
    match spec_byte(spec_opt_cfws(s), 60) {
        Some(r1) => match spec_dot_atom_text(r1) {
            Some((r2, l)) => match spec_byte(r2, 64) {
                Some(r3) => match spec_id_right(r3) {
                    Some((r4, d)) => match spec_byte(r4, 62) {
                        Some(r5) => Some((spec_opt_cfws(r5), (l, d))),
                        None => None,
                    },
                    None => None,
                },
                None => None,
            },
            None => None,
        },
        None => None,
    }
}

pub fn msg_id<'a>(input: &'a [u8]) -> (r: Res<'a, AddrSpec<'a>>)
    ensures
        res_view(r, |p: AddrSpec<'a>| pair_of(p)) == spec_msg_id(input@),
        r is Ok ==> r->Ok_0.1.0@.len() > 0 && r->Ok_0.1.1@.len() > 0,
{
    let input = byte(opt_cfws(input), 60)?;
    let (input, left) = dot_atom_text(input)?;
    let input = byte(input, 64)?;
    let (input, right) = id_right(input)?;
    let input = byte(input, 62)?;
    Ok((opt_cfws(input), (left, right)))
}

} // verus!
