use cardamom::card_parsers::{date_from_instant, parse_date};
use cardamom::card::Date;
use cardamom::carddav::{
    find_addressbook_href, find_home_set_href, find_principal_href, move_url, propfind, report,
    Addressbook, AddressbookHomeSet, AddressbookHomeSetProp, AddressbookProp,
    AddressbookResourceType, AddressDataProp, CardDavClient, CtagProp, CurrentUserPrincipal,
    CurrentUserPrincipalProp, Discovery, Exchange, Multistatus, Propstat, Response, Verb,
    ADDRESSBOOK_HOME_SET_BODY, ADDRESSBOOK_QUERY_BODY, CURRENT_USER_PRINCIPAL_BODY,
    RESOURCETYPE_BODY,
};
use cardamom::error::CardamomError;

fn client() -> CardDavClient {
    CardDavClient::new(
        "dav.example".to_string(),
        8843,
        "login".to_string(),
        "secret".to_string(),
    )
    .unwrap()
}

fn principal(href: &str) -> Multistatus<CurrentUserPrincipalProp> {
    Multistatus {
        responses: vec![Response {
            href: "/".to_string(),
            propstat: vec![Propstat {
                prop: CurrentUserPrincipalProp {
                    current_user_principal: CurrentUserPrincipal { href: href.to_string() },
                },
                status: Some("HTTP/1.1 200 OK".to_string()),
            }],
        }],
    }
}

fn home_set(href: &str) -> Multistatus<AddressbookHomeSetProp> {
    Multistatus {
        responses: vec![Response {
            href: "/principals/me/".to_string(),
            propstat: vec![Propstat {
                prop: AddressbookHomeSetProp {
                    addressbook_home_set: AddressbookHomeSet { href: href.to_string() },
                },
                status: None,
            }],
        }],
    }
}

fn resource(href: &str, status: Option<&str>, addressbook: bool) -> Response<AddressbookProp> {
    Response {
        href: href.to_string(),
        propstat: vec![Propstat {
            prop: AddressbookProp {
                resourcetype: AddressbookResourceType {
                    addressbook: if addressbook { Some(Addressbook {}) } else { None },
                },
            },
            status: status.map(|status| status.to_string()),
        }],
    }
}

#[test]
fn methods_are_built_from_their_names() {
    assert_eq!("REPORT", report().unwrap().as_str());
    assert_eq!("PROPFIND", propfind().unwrap().as_str());
    assert_eq!(reqwest::Method::GET, Verb::Get.method().unwrap());
    assert_eq!(reqwest::Method::PUT, Verb::Put.method().unwrap());
    assert_eq!(reqwest::Method::DELETE, Verb::Delete.method().unwrap());
    assert_eq!(b"PROPFIND".to_vec(), Verb::Propfind.name());
    assert_eq!(b"REPORT".to_vec(), Verb::Report.name());
    assert_eq!(b"GET".to_vec(), Verb::Get.name());
    assert_eq!(b"PUT".to_vec(), Verb::Put.name());
    assert_eq!(b"DELETE".to_vec(), Verb::Delete.name());
}

#[test]
fn a_client_starts_at_the_root() {
    let client = client();
    assert_eq!("https://dav.example:8843/", client.root_url);
    assert_eq!("https://dav.example:8843/", client.current_user_principal_url);
    assert_eq!("https://dav.example:8843/", client.addressbook_home_set_url);
    assert_eq!("https://dav.example:8843/", client.addressbook_url);
    assert_eq!("login", client.login);
    assert_eq!("secret", client.passwd);
    assert_eq!(Discovery::Root, client.state);
}

#[test]
fn a_host_that_gives_no_url() {
    let client = CardDavClient::new("bad host".to_string(), 1, String::new(), String::new());
    match client {
        Err(CardamomError::ParseCardDavUrlError(text, _)) => {
            assert_eq!("https://bad host:1", text)
        }
        other => panic!("{:?}", other),
    }
}

#[test]
fn the_walk_finds_the_addressbook() {
    let mut client = client();

    let request = client.discovery_request().unwrap();
    assert_eq!(Verb::Propfind, request.method);
    assert_eq!("https://dav.example:8843/", request.url);
    assert_eq!("login", request.login);
    assert_eq!("secret", request.passwd);
    assert_eq!(Some("application/xml; charset=utf-8".to_string()), request.content_type);
    assert_eq!(Some(0), request.depth);
    assert_eq!(None, request.if_match);
    assert_eq!(CURRENT_USER_PRINCIPAL_BODY, request.body);
    assert!(request.body.contains("<current-user-principal />"));
    assert!(request.body.contains("<propfind xmlns=\"DAV:\">"));

    assert_eq!(
        Ok(()),
        client.update_current_user_principal_url(Exchange::Answer(principal("/principals/me/")))
    );
    assert_eq!(Discovery::PrincipalResolved, client.state);
    assert_eq!("https://dav.example:8843/", client.root_url);
    assert_eq!("https://dav.example:8843/principals/me/", client.current_user_principal_url);
    assert_eq!("https://dav.example:8843/principals/me/", client.addressbook_home_set_url);
    assert_eq!("https://dav.example:8843/principals/me/", client.addressbook_url);

    let request = client.discovery_request().unwrap();
    assert_eq!("https://dav.example:8843/principals/me/", request.url);
    assert_eq!(Some(0), request.depth);
    assert_eq!(ADDRESSBOOK_HOME_SET_BODY, request.body);
    assert!(request.body.contains("<c:addressbook-home-set />"));
    assert!(request.body.contains("xmlns:c=\"urn:ietf:params:xml:ns:carddav\""));

    assert_eq!(
        Ok(()),
        client.update_addressbook_home_set_url(Exchange::Answer(home_set("/books/me/")))
    );
    assert_eq!(Discovery::HomeSetResolved, client.state);
    assert_eq!("https://dav.example:8843/principals/me/", client.current_user_principal_url);
    assert_eq!("https://dav.example:8843/books/me/", client.addressbook_home_set_url);
    assert_eq!("https://dav.example:8843/books/me/", client.addressbook_url);

    let request = client.discovery_request().unwrap();
    assert_eq!("https://dav.example:8843/books/me/", request.url);
    assert_eq!(Some(1), request.depth);
    assert_eq!(RESOURCETYPE_BODY, request.body);
    assert!(request.body.contains("<resourcetype />"));

    let listing = Multistatus {
        responses: vec![
            resource("/books/me/", Some("HTTP/1.1 200 OK"), false),
            resource("/books/me/broken/", Some("HTTP/1.1 404 Not Found"), true),
            resource("/books/me/silent/", None, true),
            resource("/books/me/contacts/", Some("HTTP/1.1 200 OK"), true),
            resource("/books/me/more/", Some("HTTP/1.1 200 OK"), true),
        ],
    };
    assert_eq!(Ok(()), client.update_addressbook_url(Exchange::Answer(listing)));
    assert_eq!(Discovery::AddressbookResolved, client.state);
    assert_eq!("https://dav.example:8843/books/me/", client.addressbook_home_set_url);
    assert_eq!("https://dav.example:8843/books/me/contacts/", client.addressbook_url);
    assert_eq!(None, client.discovery_request());

    let request = client.address_data_request();
    assert_eq!(Verb::Report, request.method);
    assert_eq!("https://dav.example:8843/books/me/contacts/", request.url);
    assert_eq!(Some(1), request.depth);
    assert_eq!(Some("application/xml; charset=utf-8".to_string()), request.content_type);
    assert_eq!(ADDRESSBOOK_QUERY_BODY, request.body);
    assert!(request.body.contains("<getetag />"));
    assert!(request.body.contains("<getlastmodified />"));
    assert!(request.body.contains("<c:address-data />"));
}

#[test]
fn an_answer_without_a_result_keeps_the_path() {
    let mut client = client();
    assert_eq!(
        Ok(()),
        client.update_current_user_principal_url(Exchange::Answer(Multistatus::empty()))
    );
    assert_eq!(Discovery::PrincipalResolved, client.state);
    assert_eq!("https://dav.example:8843/", client.current_user_principal_url);
    assert_eq!("https://dav.example:8843/", client.addressbook_url);

    assert_eq!(
        Ok(()),
        client.update_current_user_principal_url(Exchange::Answer(principal("/me/")))
    );
    let without_propstat = Multistatus {
        responses: vec![Response { href: "/me/".to_string(), propstat: vec![] }],
    };
    assert_eq!(
        Ok(()),
        client.update_addressbook_home_set_url(Exchange::Answer(without_propstat))
    );
    assert_eq!(Discovery::HomeSetResolved, client.state);
    assert_eq!("https://dav.example:8843/me/", client.addressbook_home_set_url);
    assert_eq!("https://dav.example:8843/me/", client.addressbook_url);

    assert_eq!(
        Ok(()),
        client.update_addressbook_home_set_url(Exchange::Answer(home_set("/books/")))
    );
    let none = Multistatus {
        responses: vec![resource("/books/", Some("HTTP/1.1 200 OK"), false)],
    };
    assert_eq!(Ok(()), client.update_addressbook_url(Exchange::Answer(none)));
    assert_eq!(Discovery::AddressbookResolved, client.state);
    assert_eq!("https://dav.example:8843/books/", client.addressbook_url);
}

#[test]
fn each_step_has_its_errors() {
    let mut client = client();
    let before = client.addressbook_url.clone();
    assert_eq!(
        Err(CardamomError::FetchCurrentUserPrincipalUrlError("refused".to_string())),
        client.update_current_user_principal_url(Exchange::SendFailed("refused".to_string()))
    );
    assert_eq!(
        Err(CardamomError::ParseCurrentUserPrincipalUrlError("no xml".to_string())),
        client.update_current_user_principal_url(Exchange::ParseFailed("no xml".to_string()))
    );
    assert_eq!(
        Err(CardamomError::FetchAddressbookHomeSetUrlError("refused".to_string())),
        client.update_addressbook_home_set_url(Exchange::SendFailed("refused".to_string()))
    );
    assert_eq!(
        Err(CardamomError::ParseAddressbookHomeSetUrlError("no xml".to_string())),
        client.update_addressbook_home_set_url(Exchange::ParseFailed("no xml".to_string()))
    );
    assert_eq!(
        Err(CardamomError::FetchAddressbookUrlError("refused".to_string())),
        client.update_addressbook_url(Exchange::SendFailed("refused".to_string()))
    );
    assert_eq!(
        Err(CardamomError::ParseAddressbookUrlError("no xml".to_string())),
        client.update_addressbook_url(Exchange::ParseFailed("no xml".to_string()))
    );
    assert_eq!(Discovery::Root, client.state);
    assert_eq!(before, client.addressbook_url);

    let listing: Multistatus<AddressDataProp> = Multistatus::empty();
    assert_eq!(
        Ok(Multistatus::empty()),
        client.fetch_address_data(Exchange::Answer(listing))
    );
    assert_eq!(
        Err(CardamomError::FetchAddressDataError("refused".to_string())),
        client.fetch_address_data(Exchange::SendFailed("refused".to_string()))
    );
    assert_eq!(
        Err(CardamomError::ParseAddressDataError("no xml".to_string())),
        client.fetch_address_data(Exchange::ParseFailed("no xml".to_string()))
    );
}

#[test]
fn hrefs_are_found_in_the_answers() {
    assert_eq!(Some(&"/me/".to_string()), find_principal_href(&principal("/me/")));
    assert_eq!(None, find_principal_href(&Multistatus::empty()));
    assert_eq!(Some(&"/books/".to_string()), find_home_set_href(&home_set("/books/")));
    assert_eq!(None, find_home_set_href(&Multistatus::empty()));

    let listing = Multistatus {
        responses: vec![
            resource("/a/", Some("HTTP/1.1 200 OK"), false),
            resource("/b/", Some("HTTP/1.1 200 OK "), true),
            resource("/c/", Some("200 OK"), true),
        ],
    };
    assert_eq!(Some(&"/c/".to_string()), find_addressbook_href(&listing));
    assert_eq!(None, find_addressbook_href(&Multistatus::empty()));

    let second_propstat = Multistatus {
        responses: vec![Response {
            href: "/d/".to_string(),
            propstat: vec![
                Propstat {
                    prop: AddressbookProp {
                        resourcetype: AddressbookResourceType { addressbook: None },
                    },
                    status: Some("HTTP/1.1 200 OK".to_string()),
                },
                Propstat {
                    prop: AddressbookProp {
                        resourcetype: AddressbookResourceType {
                            addressbook: Some(Addressbook {}),
                        },
                    },
                    status: Some("HTTP/1.1 200 OK".to_string()),
                },
            ],
        }],
    };
    assert_eq!(Some(&"/d/".to_string()), find_addressbook_href(&second_propstat));
}

#[test]
fn a_url_gets_another_path() {
    assert_eq!(
        "https://dav.example/api/some%20comments",
        move_url("https://dav.example/old?x=1", "api/some comments")
            .unwrap()
            .replace("?x=1", "")
    );
    assert_eq!(
        "https://dav.example:8843/a/b",
        move_url("https://dav.example:8843/", "/a/b").unwrap()
    );
    match move_url("not a url", "/a") {
        Err(CardamomError::ParseCardDavUrlError(text, _)) => assert_eq!("not a url", text),
        other => panic!("{:?}", other),
    }
}

#[test]
fn dates_are_read_as_instants() {
    assert_eq!(
        Some(Date::new(1424301369, 0)),
        parse_date("Wed, 18 Feb 2015 23:16:09 GMT")
    );
    assert_eq!(
        Some(Date::new(1424301369, 0)),
        parse_date("Thu, 19 Feb 2015 01:16:09 +0200")
    );
    assert_eq!(None, parse_date("2015-02-18T23:16:09Z"));
    assert_eq!(None, parse_date(""));
    assert_eq!(Some(Date::new(-5, 7)), date_from_instant(Some((-5, 7))));
    assert_eq!(None, date_from_instant(None));
}

#[test]
fn a_ctag() {
    let prop = CtagProp { getctag: "tag".to_string() };
    assert_eq!("tag", prop.getctag);
}

#[test]
fn a_path_that_is_too_long_is_refused() {
    let long = "a".repeat(0x0400_0001);
    assert_eq!(
        Err(CardamomError::CardDavUrlTooLongError("https://dav.example/".to_string())),
        move_url("https://dav.example/", &long)
    );
    let fitting = "a".repeat(1000);
    assert_eq!(
        Ok(format!("https://dav.example/{}", fitting)),
        move_url("https://dav.example/", &fitting)
    );

    let mut client = client();
    let before = client.addressbook_url.clone();
    assert_eq!(
        Err(CardamomError::CardDavUrlTooLongError("https://dav.example:8843/".to_string())),
        client.update_current_user_principal_url(Exchange::Answer(principal(&long)))
    );
    assert_eq!(Discovery::Root, client.state);
    assert_eq!(before, client.addressbook_url);
}

#[test]
fn an_empty_multistatus_has_no_response() {
    let listing: Multistatus<AddressDataProp> = Multistatus::empty();
    assert_eq!(0, listing.responses.len());
    let bare: Response<AddressDataProp> = Response { href: "/c/a.vcf".to_string(), propstat: vec![] };
    assert_eq!(0, bare.propstat.len());
    assert_eq!(None, find_principal_href(&Multistatus { responses: vec![] }));
}

#[test]
fn a_method_is_the_one_that_its_name_stands_for() {
    assert_eq!(
        Ok(reqwest::Method::PATCH),
        cardamom::carddav::method_or_unknown(Some(reqwest::Method::PATCH))
    );
    assert_eq!(
        Err(CardamomError::UnknownError),
        cardamom::carddav::method_or_unknown(None)
    );
    assert_ne!(report().unwrap(), propfind().unwrap());
    assert_eq!(report().unwrap(), Verb::Report.method().unwrap());
    assert_eq!(
        reqwest::Method::from_bytes(b"PROPFIND").unwrap(),
        Verb::Propfind.method().unwrap()
    );
}
