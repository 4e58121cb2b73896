use base64::Engine;
use softerworld::comic::assemble_comic;
use softerworld::dom::{extract_comic_page, resolve_max_id};
use softerworld::errors::{Attr, Elem, ServiceError};
use softerworld::extract::{classify_comic_query, classify_prev_query, ImgQuery, LinkQuery};
use softerworld::maxid::max_id_from_href;

#[test]
fn classify_found_image() {
    let q = ImgQuery::Image {
        title: Some("T".to_string()),
        src: Some("http://x/img.png".to_string()),
    };
    assert_eq!(
        classify_comic_query(q),
        Ok(("T".to_string(), "http://x/img.png".to_string()))
    );
}

#[test]
fn classify_empty_attributes_succeed() {
    let q = ImgQuery::Image {
        title: Some(String::new()),
        src: Some(String::new()),
    };
    assert_eq!(classify_comic_query(q), Ok((String::new(), String::new())));
}

#[test]
fn classify_missing_elements_and_attributes() {
    assert_eq!(
        classify_comic_query(ImgQuery::NoContainer),
        Err(ServiceError::NotFound(Elem::Container))
    );
    assert_eq!(
        classify_comic_query(ImgQuery::NoImage),
        Err(ServiceError::NotFound(Elem::Image))
    );
    let no_title = ImgQuery::Image {
        title: None,
        src: Some("u".to_string()),
    };
    assert_eq!(
        classify_comic_query(no_title),
        Err(ServiceError::MissingAttribute(Attr::Title))
    );
    let no_src = ImgQuery::Image {
        title: Some("t".to_string()),
        src: None,
    };
    assert_eq!(
        classify_comic_query(no_src),
        Err(ServiceError::MissingAttribute(Attr::Src))
    );
}

#[test]
fn classify_prev_link_cases() {
    assert_eq!(
        classify_prev_query(LinkQuery::NoContainer),
        Err(ServiceError::NotFound(Elem::PreviousContainer))
    );
    assert_eq!(
        classify_prev_query(LinkQuery::NoLink),
        Err(ServiceError::NotFound(Elem::PreviousLink))
    );
    assert_eq!(
        classify_prev_query(LinkQuery::Link { href: None }),
        Err(ServiceError::MissingAttribute(Attr::Href))
    );
    assert_eq!(
        classify_prev_query(LinkQuery::Link {
            href: Some("h".to_string())
        }),
        Ok("h".to_string())
    );
}

#[test]
fn max_id_from_previous_link() {
    // A previous-link URL ending in id=41 resolves the maximum to 42.
    let href = "https://www.asofterworld.com/index.php?id=41";
    assert_eq!(max_id_from_href(href), Ok(42));
}

#[test]
fn max_id_takes_leftmost_occurrence() {
    let href = "http://asofterworld.com/index.php?id=7&x=asofterworld.com/index.php?id=9";
    assert_eq!(max_id_from_href(href), Ok(8));
}

#[test]
fn max_id_rejects_links_without_id() {
    assert_eq!(
        max_id_from_href("https://example.com/other"),
        Err(ServiceError::NotFound(Elem::IdInLink))
    );
    assert_eq!(
        max_id_from_href("https://www.asofterworld.com/index.php?id="),
        Err(ServiceError::NotFound(Elem::IdInLink))
    );
    // An id too large for the id type is a deviation, not a panic.
    assert_eq!(
        max_id_from_href("asofterworld.com/index.php?id=99999999999999999999"),
        Err(ServiceError::NotFound(Elem::IdInLink))
    );
    assert_eq!(
        max_id_from_href("asofterworld.com/index.php?id=4294967295"),
        Err(ServiceError::NotFound(Elem::IdInLink))
    );
}

#[test]
fn extract_comic_from_real_markup() {
    let html = r#"<html><body><div id="comicimg"><img title="T" src="http://x/img.png"></div></body></html>"#;
    assert_eq!(
        extract_comic_page(html),
        Ok(("T".to_string(), "http://x/img.png".to_string()))
    );
}

#[test]
fn extract_comic_missing_pieces() {
    assert_eq!(
        extract_comic_page("<html><body><p>error page</p></body></html>"),
        Err(ServiceError::NotFound(Elem::Container))
    );
    assert_eq!(
        extract_comic_page(r#"<div id="comicimg"><span>no image</span></div>"#),
        Err(ServiceError::NotFound(Elem::Image))
    );
    assert_eq!(
        extract_comic_page(r#"<div id="comicimg"><img src="u"></div>"#),
        Err(ServiceError::MissingAttribute(Attr::Title))
    );
    assert_eq!(
        extract_comic_page(r#"<div id="comicimg"><img title="t"></div>"#),
        Err(ServiceError::MissingAttribute(Attr::Src))
    );
}

#[test]
fn end_to_end_comic_seven() {
    // The whole compute path behind getComic(7), with the two upstream
    // fetches replaced by their payloads.
    let page = r#"<div id="comicimg"><img title="T" src="http://x/img.png"></div>"#;
    let (title, image_url) = extract_comic_page(page).unwrap();
    let image_bytes: Vec<u8> = vec![1, 2, 3, 4];
    let record = assemble_comic(Some(7), title, image_url, &image_bytes);
    assert_eq!(record.id, Some(7));
    assert_eq!(record.title, "T");
    assert_eq!(record.image_url, "http://x/img.png");
    assert_eq!(
        record.image_base64,
        base64::engine::general_purpose::STANDARD.encode(&[1u8, 2, 3, 4])
    );
}

#[test]
fn resolve_max_id_from_landing_page() {
    let html = r#"<html><body>
        <div id="previous"><a href="http://www.asofterworld.com/index.php?id=41">previous</a></div>
        </body></html>"#;
    assert_eq!(resolve_max_id(html), Ok(42));
}

#[test]
fn resolve_max_id_missing_pieces() {
    assert_eq!(
        resolve_max_id("<html></html>"),
        Err(ServiceError::NotFound(Elem::PreviousContainer))
    );
    assert_eq!(
        resolve_max_id(r#"<div id="previous">nothing</div>"#),
        Err(ServiceError::NotFound(Elem::PreviousLink))
    );
    assert_eq!(
        resolve_max_id(r#"<div id="previous"><a>no target</a></div>"#),
        Err(ServiceError::MissingAttribute(Attr::Href))
    );
    assert_eq!(
        resolve_max_id(r#"<div id="previous"><a href="http://elsewhere/">x</a></div>"#),
        Err(ServiceError::NotFound(Elem::IdInLink))
    );
}
