//! Where the deny list comes from.
use vstd::prelude::*;
use vstd::string::StringExecFns;

use crate::network::{CidrError, Ipv4Cidr};
use crate::text::append_decimal;

verus! {

/// Why no deny list could be had.
#[derive(Debug)]
pub enum DenyListError {
    /// The source did not answer; the text says how.
    Unavailable(String),
    /// The service answered with an HTTP status, displayed as this text, that
    /// carries no list.
    Status(String),
    /// The entry at this position is not a network.
    Entry(usize, CidrError),
}

impl DenyListError {
    /// The text that describes the error: what the source said, the status
    /// that the service answered with, or which entry of the reply is not a
    /// network and why.
    pub open spec fn describes(self) -> Seq<char> {
        match self {
            DenyListError::Unavailable(text) => text@,
            DenyListError::Status(shown) => "deny-list service returned non-success status: "@
                + shown@,
            DenyListError::Entry(index, error) => "failed to decode deny-list JSON: entry "@
                + crate::text::decimal(index as nat) + ": "@ + error.describes(),
        }
    }

    /// The text that describes the error.
    pub fn message(&self) -> (r: String)
        ensures
            r@ == self.describes(),
    {
        match self {
            DenyListError::Unavailable(text) => text.clone(),
            DenyListError::Status(shown) => {
                let mut text: String = "deny-list service returned non-success status: ".to_owned();
                text.append(shown.as_str());
                text
            },
            DenyListError::Entry(index, error) => {
                let mut text: String = "failed to decode deny-list JSON: entry ".to_owned();
                append_decimal(&mut text, *index as u64);
                text.append(": ");
                text.append(error.message());
                text
            },
        }
    }
}

/// A source of deny lists.
pub trait DenyListClient {
    /// Asks the source for its current deny list.
    fn get_deny_list(&self) -> Result<Vec<Ipv4Cidr>, DenyListError>;
}

/// A source that denies nobody.
pub struct NoOpDenyListClient;

impl DenyListClient for NoOpDenyListClient {
    fn get_deny_list(&self) -> (r: Result<Vec<Ipv4Cidr>, DenyListError>)
        ensures
            r matches Ok(list) && list@ == Seq::<Ipv4Cidr>::empty(),
    {
        Ok(Vec::new())
    }
}

/// Deny lists from one client.
pub struct DenyListService<T: DenyListClient> {
    deny_list_client: T,
}

impl<T: DenyListClient> DenyListService<T> {
    /// The client that the service asks.
    pub closed spec fn client(self) -> T {
        self.deny_list_client
    }

    /// A service that asks this client.
    pub fn new(client: T) -> (r: Self)
        ensures
            r.client() == client,
    {
        DenyListService { deny_list_client: client }
    }

    /// What the client answers.
    pub fn get_deny_list(&self) -> (r: Result<Vec<Ipv4Cidr>, DenyListError>)
        ensures
            call_ensures(T::get_deny_list, (&self.client(),), r),
    {
        self.deny_list_client.get_deny_list()
    }
}

/// Accepts a reply of the deny-list service by its HTTP status: only those
/// from 200 to 299 carry a list. `shown` is the status as it is displayed, code
/// and reason.
pub fn check_status(status: u16, shown: &str) -> (r: Result<(), DenyListError>)
    ensures
        200 <= status < 300 ==> r == Ok::<(), DenyListError>(()),
        !(200 <= status < 300) ==> (r matches Err(DenyListError::Status(text)) && text@ == shown@),
{
    if 200 <= status && status < 300 {
        Ok(())
    } else {
        Err(DenyListError::Status(shown.to_owned()))
    }
}

/// The networks of a reply, given what was read from each of its texts, in
/// order. The first text that is not a network spoils the whole reply.
pub fn collect_networks(read: &Vec<Result<Ipv4Cidr, CidrError>>) -> (r: Result<
    Vec<Ipv4Cidr>,
    DenyListError,
>)
    ensures
        r is Ok <==> forall|i: int| 0 <= i < read.len() ==> (#[trigger] read[i]) is Ok,
        r matches Ok(list) ==> list.len() == read.len() && forall|i: int|
            0 <= i < read.len() ==> #[trigger] read[i] == Ok::<Ipv4Cidr, CidrError>(list[i]),
        r matches Err(e) ==> (e matches DenyListError::Entry(index, error) && index < read.len()
            && read[index as int] == Err::<Ipv4Cidr, CidrError>(error) && forall|i: int|
            0 <= i < index ==> (#[trigger] read[i]) is Ok),
{
    let mut list: Vec<Ipv4Cidr> = Vec::new();
    for i in 0..read.len()
        invariant
            list.len() == i,
            forall|k: int|
                0 <= k < i ==> #[trigger] read[k] == Ok::<Ipv4Cidr, CidrError>(list[k]),
    {
        match read[i] {
            Ok(network) => {
                list.push(network);
            },
            Err(e) => {
                assert(read[i as int] is Err);
                return Err(DenyListError::Entry(i, e));
            },
        }
    }
    Ok(list)
}

/// The networks that the texts of a reply stand for, in order. The first text
/// that is not a network spoils the whole reply.
pub fn decode_deny_list(texts: &Vec<String>) -> (r: Result<Vec<Ipv4Cidr>, DenyListError>)
    ensures
        r is Ok <==> forall|i: int|
            0 <= i < texts.len() ==> (#[trigger] crate::network::parsed_network(texts[i]@)) is Ok,
        r matches Ok(list) ==> list.len() == texts.len() && forall|i: int|
            0 <= i < texts.len() ==> crate::network::parsed_network((#[trigger] texts[i])@) == Ok::<
                (u32, u8),
                CidrError,
            >((list[i].first(), list[i].length())),
        r matches Err(e) ==> (e matches DenyListError::Entry(index, error) && index < texts.len()
            && crate::network::parsed_network(texts[index as int]@) == Err::<(u32, u8), CidrError>(
            error,
        ) && forall|i: int|
            0 <= i < index ==> (#[trigger] crate::network::parsed_network(texts[i]@)) is Ok),
{
    let mut read: Vec<Result<Ipv4Cidr, CidrError>> = Vec::new();
    for i in 0..texts.len()
        invariant
            read.len() == i,
            forall|k: int|
                0 <= k < i ==> crate::network::parsed_network((#[trigger] texts[k])@) == (
                match read[k] {
                    Ok(network) => Ok::<(u32, u8), CidrError>((network.first(), network.length())),
                    Err(e) => Err(e),
                }),
    {
        read.push(Ipv4Cidr::from_str(texts[i].as_str()));
    }
    let r = collect_networks(&read);
    proof {
        assert forall|i: int| 0 <= i < texts.len() implies (read[i] is Ok
            <==> #[trigger] crate::network::parsed_network(texts[i]@) is Ok) by {
            assert(crate::network::parsed_network(texts[i]@) is Ok <==> read[i] is Ok);
        }
    }
    r
}

/// The single-host networks of the addresses that a query returned, in order.
pub fn host_networks(rows: &Vec<u32>) -> (r: Vec<Ipv4Cidr>)
    ensures
        r.len() == rows.len(),
        forall|i: int|
            0 <= i < rows.len() ==> (#[trigger] r[i]).first() == rows[i] && r[i].length() == 32,
{
    let mut list: Vec<Ipv4Cidr> = Vec::new();
    for i in 0..rows.len()
        invariant
            list.len() == i,
            forall|k: int|
                0 <= k < i ==> (#[trigger] list[k]).first() == rows[k] && list[k].length() == 32,
    {
        proof {
            vstd::arithmetic::power2::lemma2_to64();
            assert(crate::network::valid_network(rows[i as int], 32));
        }
        match Ipv4Cidr::new(rows[i], 32) {
            Ok(network) => {
                list.push(network);
            },
            Err(_) => {
                assert(false);
            },
        }
    }
    list
}

} // verus!
