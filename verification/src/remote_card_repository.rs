//! The cards of an addressbook on a CardDAV server: the request for each
//! operation, and what the answer to it means.

use crate::card::{Card, CardView, CardsMap, Date};
use crate::remote::{cards_from_listing, is_faulty, listed, listed_card, reports};
use crate::search::first_where;
use crate::card_parsers::{date_at, parse_date, rfc2822_instant};
use crate::carddav::{
    AddressDataProp, Exchange, Multistatus, Request, Verb, ADDRESSBOOK_QUERY_BODY,
    VCARD_CONTENT_TYPE, XML_CONTENT_TYPE,
};
use crate::error::CardamomError;
use crate::text::concatenate;
use vstd::prelude::*;

verus! {

/// An answer of the server, as far as the library reads it.
#[derive(Debug, PartialEq, Eq)]
pub struct HttpResponse {
    /// The status code.
    pub status: u16,
    /// The status as text, such as `404 Not Found`.
    pub status_text: String,
    /// The `ETag` header, if the answer has one that is text.
    pub etag: Option<String>,
    /// The `Last-Modified` header, if the answer has one that is text.
    pub last_modified: Option<String>,
    /// The body, or the reason why it could not be read.
    pub body: Result<String, String>,
}

/// A status code that stands for success.
pub open spec fn is_success(status: u16) -> bool {
    200 <= status < 300
}

impl HttpResponse {
    /// Whether the status code stands for success.
    pub fn succeeded(&self) -> (success: bool)
        ensures
            success == is_success(self.status),
    {
        200 <= self.status && self.status < 300
    }

    /// Why a request was refused: the body of the answer, or the status
    /// where the body could not be read.
    pub open spec fn reason_of(&self) -> Seq<char> {
        match self.body {
            Ok(body) => body@,
            Err(_) => self.status_text@,
        }
    }

    /// Why a request was refused.
    pub fn reason(&self) -> (reason: String)
        ensures
            reason@ == self.reason_of(),
    {
        match &self.body {
            Ok(body) => body.clone(),
            Err(_) => self.status_text.clone(),
        }
    }
}

/// The etag of a card after the server has taken it: the `ETag` header of
/// the answer, or the etag that the card had where the answer has none.
pub open spec fn refreshed_etag(card: CardView, response: HttpResponse) -> Seq<char> {
    match response.etag {
        Some(etag) => etag@,
        None => card.etag,
    }
}

/// What a server answers to `GET` for a card that it holds with this etag
/// and this content: success, the content as the body, the etag as the
/// `ETag` header, and a date of the last modification that can be read.
pub open spec fn answers_with(response: HttpResponse, etag: Seq<char>, content: Seq<char>) -> bool {
    &&& is_success(response.status)
    &&& response.body matches Ok(body) && body@ == content
    &&& response.etag matches Some(tag) && tag@ == etag
    &&& response.last_modified matches Some(text) && date_at(rfc2822_instant(text@)) is Some
}

/// The round trip of a card. Where the server took a card, whether it was
/// created or replaced, and then answers `GET` with what it holds, the card
/// that is read has the id that was asked for, the content that was sent and
/// the etag that the card was left with.
pub proof fn lemma_select_reads_what_was_put(
    id: Seq<char>,
    sent: CardView,
    put: HttpResponse,
    got: HttpResponse,
)
    requires
        is_success(put.status),
        answers_with(got, refreshed_etag(sent, put), sent.content),
    ensures
        RemoteCardRepository::selected_card(id, got) is Some,
        RemoteCardRepository::selected_card(id, got).unwrap().id == id,
        RemoteCardRepository::selected_card(id, got).unwrap().content == sent.content,
        RemoteCardRepository::selected_card(id, got).unwrap().etag == refreshed_etag(sent, put),
{
}

/// The addressbook of one account on a server.
#[derive(Debug, PartialEq, Eq)]
pub struct RemoteCardRepository {
    /// The URL of the addressbook, up to where the name of a card begins.
    pub addressbook_path: String,
    pub login: String,
    pub passwd: String,
}

impl RemoteCardRepository {
    /// The addressbook at `path` on `host`.
    pub fn new(host: &str, path: &str, login: String, passwd: String) -> (repository:
        RemoteCardRepository)
        ensures
            repository.addressbook_path@ == host@ + path@,
            repository.login@ == login@,
            repository.passwd@ == passwd@,
    {
        RemoteCardRepository { addressbook_path: concatenate(host, path), login, passwd }
    }

    /// The URL of a card: the addressbook, the id and `.vcf`.
    pub open spec fn card_url_of(&self, id: Seq<char>) -> Seq<char> {
        self.addressbook_path@ + id + ".vcf"@
    }

    /// The URL of a card.
    pub fn card_url(&self, id: &str) -> (url: String)
        ensures
            url@ == self.card_url_of(id@),
    {
        let with_id = concatenate(self.addressbook_path.as_str(), id);
        concatenate(with_id.as_str(), ".vcf")
    }

    /// The `If-Match` header for a card: its etag, unless that is empty.
    pub open spec fn if_match_of(card: CardView) -> Option<Seq<char>> {
        if card.etag.len() == 0 {
            None
        } else {
            Some(card.etag)
        }
    }

    fn if_match(card: &Card) -> (header: Option<String>)
        ensures
            header is Some <==> Self::if_match_of(card@) is Some,
            header is Some ==> header.unwrap()@ == card@.etag,
    {
        if card.etag.as_str().unicode_len() == 0 {
            None
        } else {
            Some(card.etag.clone())
        }
    }

    /// The request that creates a card: `PUT` with the content of the card.
    pub fn insert_request(&self, card: &Card) -> (request: Request)
        ensures
            request.method == Verb::Put,
            request.url@ == self.card_url_of(card@.id),
            request.login@ == self.login@,
            request.passwd@ == self.passwd@,
            request.content_type is Some && request.content_type.unwrap()@ == VCARD_CONTENT_TYPE@,
            request.depth is None,
            request.if_match is None,
            request.body@ == card@.content,
    {
        Request {
            method: Verb::Put,
            url: self.card_url(card.id.as_str()),
            login: self.login.clone(),
            passwd: self.passwd.clone(),
            content_type: Some(VCARD_CONTENT_TYPE.to_owned()),
            depth: None,
            if_match: None,
            body: card.content.clone(),
        }
    }

    /// What came of creating a card. After success the card has the etag
    /// that the server gave it.
    pub fn insert(&self, card: &mut Card, exchange: Exchange<HttpResponse>) -> (done:
        Result<(), CardamomError>)
        ensures
            final(card).id == old(card).id,
            final(card).date == old(card).date,
            final(card).content == old(card).content,
            match exchange {
                Exchange::Answer(response) => if is_success(response.status) {
                    done is Ok && final(card)@.etag == refreshed_etag(old(card)@, response)
                } else {
                    &&& final(card)@ == old(card)@
                    &&& done is Err
                    &&& done.unwrap_err() matches CardamomError::CreateCardError(id, reason)
                    &&& id@ == old(card)@.id
                    &&& reason@ == response.reason_of()
                },
                Exchange::SendFailed(reason) => final(card)@ == old(card)@ && done
                    == Err::<(), CardamomError>(CardamomError::SendInsertCardError(reason)),
                Exchange::ParseFailed(reason) => final(card)@ == old(card)@ && done
                    == Err::<(), CardamomError>(CardamomError::SendInsertCardError(reason)),
            },
    {
        match exchange {
            Exchange::Answer(response) => {
                if !response.succeeded() {
                    return Err(
                        CardamomError::CreateCardError(card.id.clone(), response.reason()),
                    );
                }
                if let Some(etag) = response.etag {
                    card.etag = etag;
                }
                Ok(())
            },
            Exchange::SendFailed(reason) => Err(CardamomError::SendInsertCardError(reason)),
            Exchange::ParseFailed(reason) => Err(CardamomError::SendInsertCardError(reason)),
        }
    }

    /// The request that reads a card: `GET`.
    pub fn select_request(&self, id: &str) -> (request: Request)
        ensures
            request.method == Verb::Get,
            request.url@ == self.card_url_of(id@),
            request.login@ == self.login@,
            request.passwd@ == self.passwd@,
            request.content_type is None,
            request.depth == Some(1u8),
            request.if_match is None,
            request.body@.len() == 0,
    {
        Request {
            method: Verb::Get,
            url: self.card_url(id),
            login: self.login.clone(),
            passwd: self.passwd.clone(),
            content_type: None,
            depth: Some(1),
            if_match: None,
            body: String::new(),
        }
    }

    /// The card that an answer to `GET` holds: the date from the
    /// `Last-Modified` header, the etag from the `ETag` header, the content
    /// from the body.
    pub open spec fn selected_card(id: Seq<char>, response: HttpResponse) -> Option<CardView> {
        if response.last_modified is Some && response.body is Ok {
            match date_at(rfc2822_instant(response.last_modified.unwrap()@)) {
                Some(date) => Some(
                    CardView {
                        id,
                        etag: match response.etag {
                            Some(etag) => etag@,
                            None => Seq::empty(),
                        },
                        date,
                        content: response.body.unwrap()@,
                    },
                ),
                None => None,
            }
        } else {
            None
        }
    }

    /// What came of reading a card.
    pub fn select(&self, id: &str, exchange: Exchange<HttpResponse>) -> (card: Result<
        Card,
        CardamomError,
    >)
        ensures
            match exchange {
                Exchange::Answer(response) => if !is_success(response.status) {
                    &&& card is Err
                    &&& card.unwrap_err() matches CardamomError::ReadCardError(card_id, reason)
                    &&& card_id@ == id@
                    &&& reason@ == response.reason_of()
                } else if response.last_modified is None || date_at(
                    rfc2822_instant(response.last_modified.unwrap()@),
                ) is None {
                    card == Err::<Card, CardamomError>(
                        CardamomError::ParseAddressDataLastModifiedError,
                    )
                } else if response.body is Err {
                    &&& card is Err
                    &&& card.unwrap_err() matches CardamomError::SendSelectCardError(reason)
                    &&& reason@ == response.body.unwrap_err()@
                } else {
                    card is Ok && Some(card.unwrap()@) == Self::selected_card(id@, response)
                },
                Exchange::SendFailed(reason) => card
                    == Err::<Card, CardamomError>(CardamomError::SendSelectCardError(reason)),
                Exchange::ParseFailed(reason) => card
                    == Err::<Card, CardamomError>(CardamomError::SendSelectCardError(reason)),
            },
    {
        match exchange {
            Exchange::Answer(response) => {
                if !response.succeeded() {
                    return Err(CardamomError::ReadCardError(id.to_owned(), response.reason()));
                }
                let date: Date = match &response.last_modified {
                    Some(text) => match parse_date(text.as_str()) {
                        Some(date) => date,
                        None => {
                            return Err(CardamomError::ParseAddressDataLastModifiedError);
                        },
                    },
                    None => {
                        return Err(CardamomError::ParseAddressDataLastModifiedError);
                    },
                };
                let etag = match response.etag {
                    Some(etag) => etag,
                    None => String::new(),
                };
                match response.body {
                    Ok(content) => Ok(Card { id: id.to_owned(), etag, date, content }),
                    Err(reason) => Err(CardamomError::SendSelectCardError(reason)),
                }
            },
            Exchange::SendFailed(reason) => Err(CardamomError::SendSelectCardError(reason)),
            Exchange::ParseFailed(reason) => Err(CardamomError::SendSelectCardError(reason)),
        }
    }

    /// The request that lists the cards of the addressbook: `REPORT` for
    /// the etag, the date of the last modification and the content of each.
    pub fn select_all_request(&self) -> (request: Request)
        ensures
            request.method == Verb::Report,
            request.url@ == self.addressbook_path@,
            request.login@ == self.login@,
            request.passwd@ == self.passwd@,
            request.content_type is Some && request.content_type.unwrap()@ == XML_CONTENT_TYPE@,
            request.depth == Some(1u8),
            request.if_match is None,
            request.body@ == ADDRESSBOOK_QUERY_BODY@,
    {
        Request {
            method: Verb::Report,
            url: self.addressbook_path.clone(),
            login: self.login.clone(),
            passwd: self.passwd.clone(),
            content_type: Some(XML_CONTENT_TYPE.to_owned()),
            depth: Some(1),
            if_match: None,
            body: ADDRESSBOOK_QUERY_BODY.to_owned(),
        }
    }

    /// What came of listing the cards: the cards of the listing by id, or
    /// the error of the first resource that gives no card.
    pub fn select_all(&self, exchange: Exchange<Multistatus<AddressDataProp>>) -> (cards: Result<
        CardsMap,
        CardamomError,
    >)
        ensures
            match exchange {
                Exchange::Answer(listing) => match first_where(listing.responses@, is_faulty()) {
                    Some(i) => cards is Err && reports(
                        cards.unwrap_err(),
                        listed_card(listing.responses@[i])->Err_0,
                    ),
                    None => cards is Ok && cards.unwrap().wf() && cards.unwrap()@ == listed(
                        listing.responses@,
                    ),
                },
                Exchange::SendFailed(reason) => cards
                    == Err::<CardsMap, CardamomError>(CardamomError::FetchAddressDataError(reason)),
                Exchange::ParseFailed(reason) => cards
                    == Err::<CardsMap, CardamomError>(CardamomError::ParseAddressDataError(reason)),
            },
    {
        match exchange {
            Exchange::Answer(listing) => cards_from_listing(&listing),
            Exchange::SendFailed(reason) => Err(CardamomError::FetchAddressDataError(reason)),
            Exchange::ParseFailed(reason) => Err(CardamomError::ParseAddressDataError(reason)),
        }
    }

    /// The request that replaces a card: `PUT` with the content of the card,
    /// and with `If-Match` where the card has an etag.
    pub fn update_request(&self, card: &Card) -> (request: Request)
        ensures
            request.method == Verb::Put,
            request.url@ == self.card_url_of(card@.id),
            request.login@ == self.login@,
            request.passwd@ == self.passwd@,
            request.content_type is Some && request.content_type.unwrap()@ == VCARD_CONTENT_TYPE@,
            request.depth is None,
            request.if_match is Some <==> Self::if_match_of(card@) is Some,
            request.if_match is Some ==> request.if_match.unwrap()@ == card@.etag,
            request.body@ == card@.content,
    {
        Request {
            method: Verb::Put,
            url: self.card_url(card.id.as_str()),
            login: self.login.clone(),
            passwd: self.passwd.clone(),
            content_type: Some(VCARD_CONTENT_TYPE.to_owned()),
            depth: None,
            if_match: Self::if_match(card),
            body: card.content.clone(),
        }
    }

    /// What came of replacing a card. After success the card has the etag
    /// that the server gave it.
    pub fn update(&self, card: &mut Card, exchange: Exchange<HttpResponse>) -> (done:
        Result<(), CardamomError>)
        ensures
            final(card).id == old(card).id,
            final(card).date == old(card).date,
            final(card).content == old(card).content,
            match exchange {
                Exchange::Answer(response) => if is_success(response.status) {
                    done is Ok && final(card)@.etag == refreshed_etag(old(card)@, response)
                } else {
                    &&& final(card)@ == old(card)@
                    &&& done is Err
                    &&& done.unwrap_err() matches CardamomError::UpdateCardError(id, reason)
                    &&& id@ == old(card)@.id
                    &&& reason@ == response.reason_of()
                },
                Exchange::SendFailed(reason) => final(card)@ == old(card)@ && done
                    == Err::<(), CardamomError>(CardamomError::SendUpdateCardError(reason)),
                Exchange::ParseFailed(reason) => final(card)@ == old(card)@ && done
                    == Err::<(), CardamomError>(CardamomError::SendUpdateCardError(reason)),
            },
    {
        match exchange {
            Exchange::Answer(response) => {
                if !response.succeeded() {
                    return Err(
                        CardamomError::UpdateCardError(card.id.clone(), response.reason()),
                    );
                }
                if let Some(etag) = response.etag {
                    card.etag = etag;
                }
                Ok(())
            },
            Exchange::SendFailed(reason) => Err(CardamomError::SendUpdateCardError(reason)),
            Exchange::ParseFailed(reason) => Err(CardamomError::SendUpdateCardError(reason)),
        }
    }

    /// The request that deletes a card: `DELETE`, with `If-Match` where the
    /// card has an etag.
    pub fn delete_request(&self, card: &Card) -> (request: Request)
        ensures
            request.method == Verb::Delete,
            request.url@ == self.card_url_of(card@.id),
            request.login@ == self.login@,
            request.passwd@ == self.passwd@,
            request.content_type is None,
            request.depth is None,
            request.if_match is Some <==> Self::if_match_of(card@) is Some,
            request.if_match is Some ==> request.if_match.unwrap()@ == card@.etag,
            request.body@.len() == 0,
    {
        Request {
            method: Verb::Delete,
            url: self.card_url(card.id.as_str()),
            login: self.login.clone(),
            passwd: self.passwd.clone(),
            content_type: None,
            depth: None,
            if_match: Self::if_match(card),
            body: String::new(),
        }
    }

    /// What came of deleting a card.
    pub fn delete(&self, card: &Card, exchange: Exchange<HttpResponse>) -> (done: Result<
        (),
        CardamomError,
    >)
        ensures
            match exchange {
                Exchange::Answer(response) => if is_success(response.status) {
                    done is Ok
                } else {
                    &&& done is Err
                    &&& done.unwrap_err() matches CardamomError::DeleteCardError(id, reason)
                    &&& id@ == card@.id
                    &&& reason@ == response.reason_of()
                },
                Exchange::SendFailed(reason) => done
                    == Err::<(), CardamomError>(CardamomError::SendDeleteCardError(reason)),
                Exchange::ParseFailed(reason) => done
                    == Err::<(), CardamomError>(CardamomError::SendDeleteCardError(reason)),
            },
    {
        match exchange {
            Exchange::Answer(response) => {
                if !response.succeeded() {
                    return Err(
                        CardamomError::DeleteCardError(card.id.clone(), response.reason()),
                    );
                }
                Ok(())
            },
            Exchange::SendFailed(reason) => Err(CardamomError::SendDeleteCardError(reason)),
            Exchange::ParseFailed(reason) => Err(CardamomError::SendDeleteCardError(reason)),
        }
    }
}

} // verus!
