//! The artwork embed resolver: reads an artwork identifier and page from a
//! path, and decides between an image, a preview card for link-preview bots
//! and a redirect to the upstream page.
use vstd::prelude::*;
use vstd::string::*;

use crate::post::{option_view, string_views};
use crate::text::{
    after_last, decimal_of_nat, find, find_str, matches_at, occurs_at, parse_bounded,
    parse_unsigned, push_decimal, same_text, suffix_after_last, trim_end_all, trim_end_matches,
};

verus! {

/// An artwork identifier with an optional 0-based page index.
#[derive(Clone, Copy, Debug, PartialEq, Eq, Structural)]
pub struct PixivId {
    pub post_id: u32,
    pub pic_num: Option<u8>,
}

/// Why an embed request could not be served.
#[derive(Clone, Copy, Debug, PartialEq, Eq, Structural)]
pub enum EmbedError {
    /// The path holds no numeric artwork identifier.
    BadIdentifier,
    /// The upstream metadata lacks the image that was asked for.
    UpstreamShapeMismatch,
}

/// The pieces that `s` falls into when cut at every `_p` and every `/`,
/// with an empty piece beside each separator at an end or next to another.
pub open spec fn marker_pieces(s: Seq<char>) -> Seq<Seq<char>>
    decreases s.len(),
{
    if s.len() == 0 {
        seq![Seq::<char>::empty()]
    } else if s.len() >= 2 && s[0] == '_' && s[1] == 'p' {
        seq![Seq::<char>::empty()] + marker_pieces(s.subrange(2, s.len() as int))
    } else if s[0] == '/' {
        seq![Seq::<char>::empty()] + marker_pieces(s.subrange(1, s.len() as int))
    } else {
        let rest = marker_pieces(s.subrange(1, s.len() as int));
        rest.update(0, seq![s[0]] + rest[0])
    }
}

proof fn lemma_marker_pieces_nonempty(s: Seq<char>)
    ensures
        marker_pieces(s).len() >= 1,
    decreases s.len(),
{
    if s.len() == 0 {
    } else if s.len() >= 2 && s[0] == '_' && s[1] == 'p' {
        lemma_marker_pieces_nonempty(s.subrange(2, s.len() as int));
    } else if s[0] == '/' {
        lemma_marker_pieces_nonempty(s.subrange(1, s.len() as int));
    } else {
        lemma_marker_pieces_nonempty(s.subrange(1, s.len() as int));
    }
}

/// The pattern whose matches separate an identifier from its page.
pub open spec fn page_marker_pattern() -> Seq<char> {
    "_p|/"@
}

/// Relies on regex's `Regex::new` and `Regex::split`: `_p|/` is a valid
/// pattern, and the split cuts at each `_p` and each `/`, keeping an empty
/// piece beside a separator at an end or next to another.
#[verifier::external_body]
fn split_at_markers(pattern: &str, s: &str) -> (r: Vec<String>)
    requires
        pattern@ == page_marker_pattern(),
    ensures
        string_views(r@) == marker_pieces(s@),
{
    regex::Regex::new(pattern).unwrap().split(s).map(|p| p.to_string()).collect()
}

/// The part of a path that names the artwork: what follows the last
/// `en/artworks/`, without trailing `.jpg`s.
pub open spec fn artwork_query(path: Seq<char>) -> Seq<char> {
    trim_end_all(
        match after_last(path, "en/artworks/"@) {
            Some(t) => t,
            None => path,
        },
        ".jpg"@,
    )
}

/// The 0-based page that the pieces of `query` name: after `_p` it is
/// given 0-based, after `/` 1-based. A page that is not a number up to 255,
/// or a 1-based page of 0, names none.
pub open spec fn page_of(query: Seq<char>, pieces: Seq<Seq<char>>) -> Option<u8> {
    if pieces.len() < 2 {
        None
    } else {
        match parse_unsigned(pieces[1], 255) {
            None => None,
            Some(v) => if find(query, "/"@) is Some {
                if v == 0 {
                    None
                } else {
                    Some((v - 1) as u8)
                }
            } else {
                Some(v as u8)
            },
        }
    }
}

/// The identifier and page that `path` names.
pub open spec fn pixiv_id_of(path: Seq<char>) -> Result<PixivId, EmbedError> {
    let q = artwork_query(path);
    let pieces = marker_pieces(q);
    match parse_unsigned(pieces[0], u32::MAX as nat) {
        None => Err(EmbedError::BadIdentifier),
        Some(id) => Ok(PixivId { post_id: id as u32, pic_num: page_of(q, pieces) }),
    }
}

/// The artwork's name in image addresses: `<id>` or `<id>_p<page>`.
pub open spec fn full_name(id: PixivId) -> Seq<char> {
    match id.pic_num {
        Some(n) => decimal_of_nat(id.post_id as nat) + "_p"@ + decimal_of_nat(n as nat),
        None => decimal_of_nat(id.post_id as nat),
    }
}

impl PixivId {
    /// The identifier and page that `path` names; a path without a numeric
    /// identifier is rejected.
    pub fn from_path(path: &str) -> (r: Result<PixivId, EmbedError>)
        ensures
            r == pixiv_id_of(path@),
    {
        let tail = match suffix_after_last(path, "en/artworks/") {
            Some(t) => t,
            None => path,
        };
        let url_query = trim_end_matches(tail, ".jpg");
        let pieces = split_at_markers("_p|/", url_query);
        proof {
            lemma_marker_pieces_nonempty(url_query@);
            assert(string_views(pieces@)[0] == pieces@[0]@);
        }
        let post_id = match parse_bounded(pieces[0].as_str(), 4294967295) {
            Some(v) => v,
            None => {
                return Err(EmbedError::BadIdentifier);
            },
        };
        let mut pic_num: Option<u8> = None;
        if pieces.len() > 1 {
            assert(string_views(pieces@)[1] == pieces@[1]@);
            match parse_bounded(pieces[1].as_str(), 255) {
                Some(v) => {
                    pic_num = Some(v as u8);
                },
                None => {},
            }
        }
        if find_str(url_query, "/").is_some() {
            pic_num = match pic_num {
                Some(v) => if v == 0 {
                    None
                } else {
                    Some(v - 1)
                },
                None => None,
            };
        }
        Ok(PixivId { post_id, pic_num })
    }

    /// The artwork's name in image addresses: `<id>` or `<id>_p<page>`.
    pub fn full(&self) -> (r: String)
        ensures
            r@ == full_name(*self),
    {
        let mut out = String::new();
        push_decimal(&mut out, self.post_id as u64);
        match self.pic_num {
            Some(num) => {
                out.append("_p");
                push_decimal(&mut out, num as u64);
            },
            None => {},
        }
        assert(out@ =~= full_name(*self));
        out
    }
}

/// The user agents of link-preview bots that get a preview card.
pub open spec fn known_bot(user_agent: Seq<char>) -> bool {
    user_agent == "Mozilla/5.0 (Macintosh; Intel Mac OS X 11.6; rv:92.0) Gecko/20100101 Firefox/92.0"@
        || user_agent == "Mozilla/5.0 (compatible; Discordbot/2.0; +https://discordapp.com)"@
}

/// Whether `user_agent` is that of a known link-preview bot.
pub fn is_known_bot(user_agent: &str) -> (r: bool)
    ensures
        r == known_bot(user_agent@),
{
    same_text(
        user_agent,
        "Mozilla/5.0 (Macintosh; Intel Mac OS X 11.6; rv:92.0) Gecko/20100101 Firefox/92.0",
    ) || same_text(user_agent, "Mozilla/5.0 (compatible; Discordbot/2.0; +https://discordapp.com)")
}

/// The preview card: social-preview metadata pointing at this service's own
/// JPEG address for the artwork.
pub open spec fn card_html(id: PixivId) -> Seq<char> {
    "<meta name=\"twitter:card\" content=\"summary_large_image\"><meta name=\"twitter:image\" content=\"https://pixiv.sbs/en/artworks/"@
        + full_name(id) + ".jpg\">"@
}

/// The artwork's canonical upstream page.
pub open spec fn upstream_page(id: PixivId) -> Seq<char> {
    "https://www.pixiv.net/en/artworks/"@ + decimal_of_nat(id.post_id as nat)
}

/// What an embed request is answered with.
pub enum EmbedAction {
    /// Stream the artwork's image.
    Image(PixivId),
    /// Send this HTML preview card.
    Card(String),
    /// Redirect to this address.
    Redirect(String),
}

/// The preview card for `id`.
pub fn html_card(id: &PixivId) -> (r: String)
    ensures
        r@ == card_html(*id),
{
    let mut out = String::from_str(
        "<meta name=\"twitter:card\" content=\"summary_large_image\"><meta name=\"twitter:image\" content=\"https://pixiv.sbs/en/artworks/",
    );
    let full = id.full();
    out.append(full.as_str());
    out.append(".jpg\">");
    out
}

/// The canonical upstream page of `id`.
pub fn upstream_url(id: &PixivId) -> (r: String)
    ensures
        r@ == upstream_page(*id),
{
    let mut out = String::from_str("https://www.pixiv.net/en/artworks/");
    push_decimal(&mut out, id.post_id as u64);
    out
}

/// How to answer a request for `path` from `user_agent`: a path ending in
/// `.jpg` asks for the image; otherwise a known bot gets the preview card
/// and anyone else a redirect to the upstream page.
pub fn resolve_embed(path: &str, user_agent: &str) -> (r: Result<EmbedAction, EmbedError>)
    ensures
        pixiv_id_of(path@) is Err ==> r matches Err(EmbedError::BadIdentifier),
        pixiv_id_of(path@) matches Ok(id) ==> if occurs_at(path@, ".jpg"@, path@.len() - 4) {
            r matches Ok(EmbedAction::Image(i)) && i == id
        } else if known_bot(user_agent@) {
            r matches Ok(EmbedAction::Card(h)) && h@ == card_html(id)
        } else {
            r matches Ok(EmbedAction::Redirect(u)) && u@ == upstream_page(id)
        },
{
    let id = match PixivId::from_path(path) {
        Ok(id) => id,
        Err(e) => {
            return Err(e);
        },
    };
    let n = path.unicode_len();
    if n >= 4 && matches_at(path, ".jpg", n - 4) {
        Ok(EmbedAction::Image(id))
    } else if is_known_bot(user_agent) {
        Ok(EmbedAction::Card(html_card(&id)))
    } else {
        Ok(EmbedAction::Redirect(upstream_url(&id)))
    }
}

/// The address of the artwork's metadata under `base`.
pub fn details_url(base: &str, post_id: u32) -> (r: String)
    ensures
        r@ == base@ + decimal_of_nat(post_id as nat),
{
    let mut out = String::from_str(base);
    push_decimal(&mut out, post_id as u64);
    out
}

/// One page of a multi-page artwork in the upstream metadata.
pub struct MangaPage {
    pub url: Option<String>,
}

/// The part of the upstream metadata that locates an artwork's images.
pub struct IllustDetails {
    pub url: Option<String>,
    pub manga_a: Option<Vec<MangaPage>>,
}

/// The upstream address of page `pic_num`: the primary address for page 0,
/// the page's entry otherwise.
pub open spec fn image_source(d: IllustDetails, pic_num: u8) -> Option<Seq<char>> {
    if pic_num == 0 {
        option_view(d.url)
    } else {
        match d.manga_a {
            None => None,
            Some(pages) => if (pic_num as int) < pages@.len() {
                option_view(pages@[pic_num as int].url)
            } else {
                None
            },
        }
    }
}

/// The pattern that covers an image address up to its CDN path.
pub open spec fn cdn_pattern() -> Seq<char> {
    ".*/img-master"@
}

/// `url` with everything up to its last `/img-master` replaced by `host`.
pub open spec fn cdn_rewritten(url: Seq<char>, host: Seq<char>) -> Seq<char> {
    match after_last(url, "/img-master"@) {
        Some(rest) => host + rest,
        None => url,
    }
}

/// Relies on regex's `Regex::new` and `Regex::replace`: `.*/img-master` is a
/// valid pattern; in text without a line break its leftmost-first match runs
/// from the start through the last `/img-master`, and a replacement without
/// `$` is put in as it is; without a match the text is returned unchanged.
#[verifier::external_body]
fn replace_leftmost(pattern: &str, s: &str, rep: &str) -> (r: String)
    requires
        pattern@ == cdn_pattern(),
    ensures
        !s@.contains('\n') && !rep@.contains('$') ==> r@ == cdn_rewritten(s@, rep@),
{
    regex::Regex::new(pattern).unwrap().replace(s, rep).to_string()
}

/// The address of page `pic_num` of the artwork, moved from the upstream
/// CDN to `replace_str`; `None` when the metadata lacks that page.
pub fn get_img_url(json: &IllustDetails, pic_num: u8, replace_str: &str) -> (r: Option<String>)
    ensures
        r is Some <==> image_source(*json, pic_num) is Some,
        r matches Some(u) ==> (image_source(*json, pic_num) matches Some(src) && (
        !src.contains('\n') && !replace_str@.contains('$') ==> u@ == cdn_rewritten(
            src,
            replace_str@,
        ))),
{
    let img_url: &String = if pic_num == 0 {
        match &json.url {
            Some(u) => u,
            None => {
                return None;
            },
        }
    } else {
        match &json.manga_a {
            Some(pages) => {
                if (pic_num as usize) < pages.len() {
                    match &pages[pic_num as usize].url {
                        Some(u) => u,
                        None => {
                            return None;
                        },
                    }
                } else {
                    return None;
                }
            },
            None => {
                return None;
            },
        }
    };
    Some(replace_leftmost(".*/img-master", img_url.as_str(), replace_str))
}

/// The address to stream for `id`, moved to `image_host`.
pub fn image_url(details: &IllustDetails, id: &PixivId, image_host: &str) -> (r: Result<
    String,
    EmbedError,
>)
    ensures
        r is Err <==> image_source(*details, id.pic_num.unwrap_or(0)) is None,
        r is Err ==> r matches Err(EmbedError::UpstreamShapeMismatch),
        r matches Ok(u) ==> (image_source(*details, id.pic_num.unwrap_or(0)) matches Some(src)
            && (!src.contains('\n') && !image_host@.contains('$') ==> u@ == cdn_rewritten(
            src,
            image_host@,
        ))),
{
    let page = match id.pic_num {
        Some(n) => n,
        None => 0,
    };
    match get_img_url(details, page, image_host) {
        Some(u) => Ok(u),
        None => Err(EmbedError::UpstreamShapeMismatch),
    }
}

/// The query of the image proxy: the address to stream.
pub struct UrlWrapper {
    pub url: String,
}

/// Whether the upstream of `url` needs the request to carry an empty
/// `Referer`: it does for addresses that hold `imageView`.
pub fn needs_empty_referer(url: &str) -> (r: bool)
    ensures
        r == (find(url@, "imageView"@) is Some),
{
    find_str(url, "imageView").is_some()
}

impl UrlWrapper {
    /// Whether the request for this address carries an empty `Referer`.
    pub fn needs_empty_referer(&self) -> (r: bool)
        ensures
            r == (find(self.url@, "imageView"@) is Some),
    {
        needs_empty_referer(self.url.as_str())
    }
}

} // verus!
