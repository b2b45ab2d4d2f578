//! The errors of a synchronization.

use vstd::prelude::*;

verus! {

/// The error that the `url` crate gives for a text that is no absolute URL.
#[verifier::external_type_specification]
#[verifier::external_body]
pub struct ExParseError(url::ParseError);

/// What can go wrong. A text beside a path or an id is the reason that the
/// file system, the server or a decoder gave.
#[derive(Debug, PartialEq, Eq)]
pub enum CardamomError {
    /// Reserved for what cannot happen.
    UnknownError,
    /// The server did not hand out the card: its id, and the reason.
    ReadCardError(String, String),
    /// The server did not delete the card: its id, and the reason.
    DeleteCardError(String, String),
    /// The server did not create the card: its id, and the reason.
    CreateCardError(String, String),
    /// The server did not replace the card: its id, and the reason.
    UpdateCardError(String, String),
    /// This text gives no URL.
    ParseCardDavUrlError(String, url::ParseError),
    /// This URL, or the path that it was to get, is too long.
    CardDavUrlTooLongError(String),
    /// The snapshot at this path could not be read or written.
    ReadCachedCardsError(String, String),
    /// The snapshot at this path could not be decoded or encoded.
    ParseCachedCardsError(String, String),
    /// The sync directory could not be listed.
    ReadLocalCardsDirError(String, String),
    /// The metadata of this card file could not be read.
    GetVcfMetadataError(String, String),
    /// The time at which this card file was modified could not be read.
    GetVcfModifiedError(String, String),
    /// This card file could not be read.
    ReadVcfError(String, String),
    /// This card file could not be written.
    WriteVcfError(String, String),
    /// This card file could not be deleted.
    DeleteVcfError(String, String),
    /// A listed card has no date of its last modification, or one that
    /// cannot be read.
    ParseAddressDataLastModifiedError,
    /// The `href` of a listed card names no file.
    ParseAddressDataHrefError(String),
    /// The request for the current user's principal did not go through.
    FetchCurrentUserPrincipalUrlError(String),
    /// The answer to it could not be decoded.
    ParseCurrentUserPrincipalUrlError(String),
    /// The request for the home of the addressbooks did not go through.
    FetchAddressbookHomeSetUrlError(String),
    /// The answer to it could not be decoded.
    ParseAddressbookHomeSetUrlError(String),
    /// The request for the addressbook did not go through.
    FetchAddressbookUrlError(String),
    /// The answer to it could not be decoded.
    ParseAddressbookUrlError(String),
    /// The request for the cards of the addressbook did not go through.
    FetchAddressDataError(String),
    /// The answer to it could not be decoded.
    ParseAddressDataError(String),
    /// The request that creates a card did not go through.
    SendInsertCardError(String),
    /// The request that reads a card did not go through.
    SendSelectCardError(String),
    /// The request that replaces a card did not go through.
    SendUpdateCardError(String),
    /// The request that deletes a card did not go through.
    SendDeleteCardError(String),
}

} // verus!
