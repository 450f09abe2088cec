use vstd::prelude::*;

use crate::text::{chars_of, decimal, push_decimal, trim_chars, trimmed};

verus! {

/// A visual novel found on VNDB.
#[derive(Debug, PartialEq)]
pub struct VndbSearchResult {
    pub id: String,
    pub title: String,
    pub image: Option<VndbImage>,
    pub description: Option<String>,
    pub released: Option<String>,
}

/// A VNDB cover.
#[derive(Debug, PartialEq)]
pub struct VndbImage {
    pub url: Option<String>,
}

/// The VNDB endpoint that searches visual novels.
pub const VNDB_SEARCH_URL: &'static str = "https://api.vndb.org/kana/vn";

/// How long a search waits before it asks VNDB, so that typing does not send a request
/// per key.
pub const VNDB_SEARCH_DELAY_MILLIS: u64 = 300;

/// The search that is sent to VNDB: results whose search rank matches `query`, best
/// first, at most `results` of them, with the fields listed in `fields`.
#[derive(Debug, PartialEq)]
pub struct VndbSearchRequest {
    pub query: String,
    pub fields: String,
    pub sort: String,
    pub results: u32,
}

/// The search for visual novels matching `query`.
pub fn vndb_search_request(query: String) -> (r: VndbSearchRequest)
    ensures
        r.query == query,
        r.fields@ == "id, title, image.url, description, released"@,
        r.sort@ == "searchrank"@,
        r.results == 20,
{
    VndbSearchRequest {
        query,
        fields: "id, title, image.url, description, released".to_owned(),
        sort: "searchrank".to_owned(),
        results: 20,
    }
}

/// The text the add form searches for: the title as typed, unless it is blank.
pub fn search_query(title: &str) -> (r: Result<String, String>)
    ensures
        trimmed(title@).len() == 0 ==> (r matches Err(m) && m@ == "Type a title before searching VNDB"@),
        trimmed(title@).len() > 0 ==> (r matches Ok(q) && q@ == title@),
{
    if trim_chars(&chars_of(title)).len() == 0 {
        Err("Type a title before searching VNDB".to_owned())
    } else {
        Ok(title.to_owned())
    }
}

/// The message shown once a search ends: how many results came, or why it failed.
pub fn search_outcome_message(outcome: &Result<usize, String>) -> (r: String)
    ensures
        match *outcome {
            Ok(n) => r@ == "Found "@ + decimal(n as nat) + " result(s)"@,
            Err(e) => r@ == "VNDB search failed: "@ + e@,
        },
{
    match outcome {
        Ok(n) => {
            let mut m = "Found ".to_owned();
            push_decimal(&mut m, *n as u64);
            m.append(" result(s)");
            m
        },
        Err(e) => {
            let mut m = "VNDB search failed: ".to_owned();
            m.append(e.as_str());
            m
        },
    }
}

/// The add form after a search result was chosen: its title, description (empty when it
/// has none) and cover URL, no local cover, and the message that says so.
#[derive(Debug, PartialEq)]
pub struct FormFill {
    pub title: String,
    pub description: String,
    pub cover_url: Option<String>,
    pub cover_path: Option<String>,
    pub message: String,
}

/// The cover URL of a search result, if it has a cover with one.
pub open spec fn result_cover_url(result: VndbSearchResult) -> Option<String> {
    match result.image {
        Some(image) => image.url,
        None => None,
    }
}

/// Fills the add form from a chosen search result.
pub fn fill_from_result(result: &VndbSearchResult) -> (r: FormFill)
    ensures
        r.title@ == result.title@,
        r.description@ == match result.description {
            Some(d) => d@,
            None => Seq::<char>::empty(),
        },
        match (r.cover_url, result_cover_url(*result)) {
            (Some(a), Some(b)) => a@ == b@,
            (None, None) => true,
            _ => false,
        },
        r.cover_path is None,
        r.message@ == "Loaded "@ + result.title@ + "."@,
{
    let description = match &result.description {
        Some(d) => d.clone(),
        None => String::new(),
    };
    let cover_url = match &result.image {
        Some(image) => match &image.url {
            Some(u) => Some(u.clone()),
            None => None,
        },
        None => None,
    };
    let mut message = "Loaded ".to_owned();
    message.append(result.title.as_str());
    message.append(".");
    FormFill { title: result.title.clone(), description, cover_url, cover_path: None, message }
}

} // verus!
