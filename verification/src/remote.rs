//! The remote side of a synchronization: the cards that the server lists.

use crate::card::{Card, CardView, Cards, CardsMap, Date};
use crate::card_parsers::{date_at, parse_date, rfc2822_instant};
use crate::carddav::{AddressDataProp, CardDavClient, Multistatus, Response};
use crate::error::CardamomError;
use crate::paths::{file_stem, file_stem_of, join, joined};
use crate::search::{first_where, lemma_first_where_is, lemma_first_where_none};
use vstd::prelude::*;

verus! {

/// Why a listed resource gives no card.
pub enum ListingFault {
    /// Its `href` names no file.
    Href(Seq<char>),
    /// Its first `propstat` is missing, or holds no date of the last
    /// modification that can be read.
    LastModified,
}

/// The card that one `response` of a listing stands for: the stem of its
/// `href` is the id, and the etag and the date come from its first
/// `propstat`. The content stays empty.
pub open spec fn listed_card(response: Response<AddressDataProp>) -> Result<
    CardView,
    ListingFault,
> {
    match file_stem_of(response.href@) {
        None => Err(ListingFault::Href(response.href@)),
        Some(id) => if response.propstat@.len() == 0 {
            Err(ListingFault::LastModified)
        } else {
            let prop = response.propstat@[0].prop;
            match prop.getlastmodified {
                None => Err(ListingFault::LastModified),
                Some(text) => match date_at(rfc2822_instant(text@)) {
                    None => Err(ListingFault::LastModified),
                    Some(date) => Ok(
                        CardView {
                            id,
                            etag: match prop.getetag {
                                Some(etag) => etag@,
                                None => Seq::empty(),
                            },
                            date,
                            content: Seq::empty(),
                        },
                    ),
                },
            }
        },
    }
}

/// The error that reports a fault.
pub open spec fn reports(error: CardamomError, fault: ListingFault) -> bool {
    match fault {
        ListingFault::Href(href) => error matches CardamomError::ParseAddressDataHrefError(text)
            && text@ == href,
        ListingFault::LastModified => error == CardamomError::ParseAddressDataLastModifiedError,
    }
}

/// The condition that a `response` gives no card.
pub open spec fn is_faulty() -> spec_fn(Response<AddressDataProp>) -> bool {
    |response: Response<AddressDataProp>| listed_card(response) is Err
}

/// The cards of a listing, by id. Where two resources give the same id, the
/// later one stays.
pub open spec fn listed(responses: Seq<Response<AddressDataProp>>) -> Map<Seq<char>, CardView>
    decreases responses.len(),
{
    if responses.len() == 0 {
        Map::empty()
    } else {
        match listed_card(responses.last()) {
            Ok(card) => listed(responses.drop_last()).insert(card.id, card),
            Err(_) => listed(responses.drop_last()),
        }
    }
}

/// The card that one `response` of a listing stands for.
pub fn card_from_response(response: &Response<AddressDataProp>) -> (card: Result<
    Card,
    CardamomError,
>)
    ensures
        match listed_card(*response) {
            Ok(listed) => card is Ok && card.unwrap()@ == listed,
            Err(fault) => card is Err && reports(card.unwrap_err(), fault),
        },
{
    let id = match file_stem(response.href.as_str()) {
        Some(id) => id,
        None => {
            return Err(CardamomError::ParseAddressDataHrefError(response.href.clone()));
        },
    };
    if response.propstat.len() == 0 {
        return Err(CardamomError::ParseAddressDataLastModifiedError);
    }
    let prop = &response.propstat[0].prop;
    let date: Date = match &prop.getlastmodified {
        Some(text) => match parse_date(text.as_str()) {
            Some(date) => date,
            None => {
                return Err(CardamomError::ParseAddressDataLastModifiedError);
            },
        },
        None => {
            return Err(CardamomError::ParseAddressDataLastModifiedError);
        },
    };
    let etag = match &prop.getetag {
        Some(etag) => etag.clone(),
        None => String::new(),
    };
    Ok(Card { id, etag, date, content: String::new() })
}

/// The cards of a listing, by id; the error of the first resource that
/// gives no card, if there is one.
pub fn cards_from_listing(address_data: &Multistatus<AddressDataProp>) -> (cards: Result<
    CardsMap,
    CardamomError,
>)
    ensures
        match first_where(address_data.responses@, is_faulty()) {
            Some(i) => cards is Err && reports(
                cards.unwrap_err(),
                listed_card(address_data.responses@[i])->Err_0,
            ),
            None => cards is Ok && cards.unwrap().wf() && cards.unwrap()@ == listed(
                address_data.responses@,
            ),
        },
{
    let mut cards = CardsMap::new();
    let mut i: usize = 0;
    while i < address_data.responses.len()
        invariant
            i <= address_data.responses@.len(),
            cards.wf(),
            cards@ == listed(address_data.responses@.take(i as int)),
            forall|k: int| 0 <= k < i ==> !is_faulty()(#[trigger] address_data.responses@[k]),
        decreases address_data.responses@.len() - i,
    {
        proof {
            assert(address_data.responses@.take(i + 1).drop_last()
                =~= address_data.responses@.take(i as int));
        }
        match card_from_response(&address_data.responses[i]) {
            Ok(card) => cards.insert(card),
            Err(error) => {
                proof {
                    lemma_first_where_is(address_data.responses@, is_faulty(), i as int);
                }
                return Err(error);
            },
        }
        i = i + 1;
    }
    proof {
        lemma_first_where_none(address_data.responses@, is_faulty());
        assert(address_data.responses@.take(i as int) =~= address_data.responses@);
    }
    Ok(cards)
}

/// The remote side: the client that reached the server, the cards that the
/// server held when the last run ended, and the cards that it lists now.
#[derive(Debug)]
pub struct RemoteCards {
    sync_dir: String,
    client: CardDavClient,
    prev: CardsMap,
    next: CardsMap,
}

impl Cards for RemoteCards {
    closed spec fn prev_cards(&self) -> Map<Seq<char>, CardView> {
        self.prev@
    }

    closed spec fn next_cards(&self) -> Map<Seq<char>, CardView> {
        self.next@
    }

    fn prev(&self) -> (cards: &CardsMap) {
        proof {
            use_type_invariant(self);
        }
        &self.prev
    }

    fn next(&self) -> (cards: &CardsMap) {
        proof {
            use_type_invariant(self);
        }
        &self.next
    }
}

impl RemoteCards {
    #[verifier::type_invariant]
    spec fn well_formed(&self) -> bool {
        self.prev.wf() && self.next.wf()
    }

    /// The path of the remote side's snapshot: `.remote` in the sync
    /// directory.
    pub fn snapshot_path(sync_dir: &str) -> (path: String)
        ensures
            path@ == joined(sync_dir@, ".remote"@),
    {
        join(sync_dir, ".remote")
    }

    /// The remote side, from the snapshot of the last run and the listing of
    /// the addressbook. A resource whose `href` names no file, or that has
    /// no date of its last modification, fails the whole.
    pub fn new(
        sync_dir: String,
        client: CardDavClient,
        prev: CardsMap,
        address_data: &Multistatus<AddressDataProp>,
    ) -> (remote: Result<RemoteCards, CardamomError>)
        requires
            prev.wf(),
        ensures
            match first_where(address_data.responses@, is_faulty()) {
                Some(i) => remote is Err && reports(
                    remote.unwrap_err(),
                    listed_card(address_data.responses@[i])->Err_0,
                ),
                None => {
                    &&& remote is Ok
                    &&& remote.unwrap().prev_cards() == prev@
                    &&& remote.unwrap().next_cards() == listed(address_data.responses@)
                    &&& remote.unwrap().sync_dir_of() == sync_dir@
                    &&& remote.unwrap().client_of() == client
                },
            },
    {
        match cards_from_listing(address_data) {
            Ok(next) => Ok(RemoteCards { sync_dir, client, prev, next }),
            Err(error) => Err(error),
        }
    }

    /// The directory that the snapshot lies in.
    pub closed spec fn sync_dir_of(&self) -> Seq<char> {
        self.sync_dir@
    }

    /// The client that reached the server.
    pub closed spec fn client_of(&self) -> CardDavClient {
        self.client
    }

    /// The directory that the snapshot lies in.
    pub fn sync_dir(&self) -> (sync_dir: &String)
        ensures
            sync_dir@ == self.sync_dir_of(),
    {
        &self.sync_dir
    }

    /// The client that reached the server.
    pub fn client(&self) -> (client: &CardDavClient)
        ensures
            *client == self.client_of(),
    {
        &self.client
    }
}

} // verus!
