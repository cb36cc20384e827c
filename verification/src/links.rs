//! Pagination link headers: from the raw header value to a mapping from
//! relation name to URL.
//!
//! A header is made of segments `<URL>; rel="NAME"`; the relation name may
//! also stand without quotes, `<URL>; rel=NAME`. The grammar is a regular
//! expression, [`LINK_PATTERN`], matched by the `regex` crate. What that
//! crate finds in a header is taken on trust and given a name,
//! [`regex_captures`]; everything built on its matches is verified.

use crate::strings::opt_text;
use vstd::hash_map::StringHashMap;
use vstd::prelude::*;

verus! {

/// The pattern of one or more segments `<URL>; rel="NAME` or
/// `<URL>; rel=NAME`: the quote before the relation name may be left out.
/// The URL begins with `http://` or `https://` and holds neither `>` nor
/// white space; the name is one or more word characters, and what follows it
/// is not looked at. The group `url` holds the address between the angle
/// brackets, the group `rel` the relation name.
pub const LINK_PATTERN: &'static str =
    "(<(?P<url>http(s)?://[^>\\s]+)>; rel=\"?(?P<rel>[[:word:]]+))+";

/// The name of the pattern's group that captures the URL.
pub const URL_GROUP: &'static str = "url";

/// The name of the pattern's group that captures the relation name.
pub const REL_GROUP: &'static str = "rel";

/// `regex::Error`, the error of a pattern that the `regex` crate does not
/// accept. Nothing is read from it.
#[verifier::external_type_specification]
#[verifier::external_body]
pub struct ExRegexError(regex::Error);

/// What one match of a pattern captured in two of its named groups. A group
/// that took no part in the match is `None`.
#[derive(Debug, Clone)]
pub struct LinkCapture {
    pub url: Option<String>,
    pub rel: Option<String>,
}

impl View for LinkCapture {
    type V = (Option<Seq<char>>, Option<Seq<char>>);

    open spec fn view(&self) -> Self::V {
        (opt_text(self.url), opt_text(self.rel))
    }
}

/// The views of a sequence of captures, in order.
pub open spec fn capture_views(caps: Seq<LinkCapture>) -> Seq<
    (Option<Seq<char>>, Option<Seq<char>>),
> {
    Seq::new(caps.len(), |i: int| caps[i]@)
}

/// The successive non-overlapping matches that the `regex` crate finds for
/// `pattern` in `haystack`, each as the pair of texts captured by the groups
/// named `first` and `second`; `None` where the crate does not accept the
/// pattern. For [`LINK_PATTERN`] a match is a segment with its relation name
/// quoted or unquoted; which segments a given header has is the crate's
/// answer and is not stated here.
pub uninterp spec fn regex_captures(
    pattern: Seq<char>,
    first: Seq<char>,
    second: Seq<char>,
    haystack: Seq<char>,
) -> Option<Seq<(Option<Seq<char>>, Option<Seq<char>>)>>;

/// Compiles `pattern` with `regex::Regex::new` and walks
/// `Regex::captures_iter` over `haystack`, reading the groups `first` and
/// `second` of every match with `Captures::name` and `Match::as_str`.
///
/// Trusted: the result is the one that [`regex_captures`] names for these four
/// texts, and the call fails exactly where that name is `None`. Nothing is
/// claimed about which matches the pattern has.
#[verifier::external_body]
fn captures_of(pattern: &str, first: &str, second: &str, haystack: &str) -> (r: Result<
    Vec<LinkCapture>,
    regex::Error,
>)
    ensures
        match r {
            Ok(caps) => regex_captures(pattern@, first@, second@, haystack@) == Some(
                capture_views(caps@),
            ),
            Err(_) => regex_captures(pattern@, first@, second@, haystack@) is None,
        },
{
    let re = regex::Regex::new(pattern)?;
    Ok(
        re.captures_iter(haystack).map(
            |c| LinkCapture {
                url: c.name(first).map(|m| m.as_str().to_owned()),
                rel: c.name(second).map(|m| m.as_str().to_owned()),
            },
        ).collect(),
    )
}

/// Whether a capture is complete and names the relation `rel`.
pub open spec fn names(cap: (Option<Seq<char>>, Option<Seq<char>>), rel: Seq<char>) -> bool {
    cap.0 is Some && cap.1 == Some(rel)
}

/// The mapping that a sequence of captures describes: every capture with both
/// a URL and a relation name binds that name to that URL, a later capture
/// replacing an earlier one of the same name. Incomplete captures bind nothing.
pub open spec fn links_of(caps: Seq<(Option<Seq<char>>, Option<Seq<char>>)>) -> Map<
    Seq<char>,
    Seq<char>,
>
    decreases caps.len(),
{
    if caps.len() == 0 {
        Map::empty()
    } else {
        let earlier = links_of(caps.drop_last());
        match caps.last() {
            (Some(url), Some(rel)) => earlier.insert(rel, url),
            _ => earlier,
        }
    }
}

/// The mapping from relation name to URL that a raw header value stands for:
/// what [`links_of`] makes of the matches of [`LINK_PATTERN`], which takes a
/// relation name with and without quotes. An empty header stands for the
/// empty mapping, and so does every header should the pattern itself be
/// refused.
pub open spec fn header_links(raw: Seq<char>) -> Map<Seq<char>, Seq<char>> {
    if raw.len() == 0 {
        Map::empty()
    } else {
        match regex_captures(LINK_PATTERN@, URL_GROUP@, REL_GROUP@, raw) {
            Some(caps) => links_of(caps),
            None => Map::empty(),
        }
    }
}

/// A mapping from relation name to URL.
pub struct Links {
    map: StringHashMap<String>,
}

impl View for Links {
    type V = Map<Seq<char>, Seq<char>>;

    closed spec fn view(&self) -> Self::V {
        self.map@.map_values(|url: String| url@)
    }
}

impl Links {
    /// The mapping without any relation.
    pub fn new() -> (links: Links)
        ensures
            links@ == Map::<Seq<char>, Seq<char>>::empty(),
    {
        let links = Links { map: StringHashMap::new() };
        assert(links@ =~= Map::<Seq<char>, Seq<char>>::empty());
        links
    }

    /// Binds `rel` to `url`, replacing what `rel` was bound to.
    pub fn insert(&mut self, rel: String, url: String)
        ensures
            final(self)@ == old(self)@.insert(rel@, url@),
    {
        self.map.insert(rel, url);
        assert(self@ =~= old(self)@.insert(rel@, url@));
    }

    /// The URL bound to `rel`, if there is one.
    pub fn get(&self, rel: &str) -> (url: Option<&String>)
        ensures
            match url {
                Some(u) => self@.contains_key(rel@) && u@ == self@[rel@],
                None => !self@.contains_key(rel@),
            },
    {
        self.map.get(rel)
    }

    /// Whether `rel` is bound.
    pub fn contains_key(&self, rel: &str) -> (found: bool)
        ensures
            found == self@.contains_key(rel@),
    {
        self.map.contains_key(rel)
    }

    /// The number of relations bound.
    pub fn len(&self) -> (n: usize)
        ensures
            n == self@.len(),
    {
        broadcast use vstd::hash_map::group_hash_map_axioms;

        assert(self@.dom() =~= self.map@.dom());
        self.map.len()
    }
}

/// Folds captures into a mapping, the last complete capture of a relation
/// name deciding its URL.
pub fn links_from_captures(caps: &Vec<LinkCapture>) -> (links: Links)
    ensures
        links@ == links_of(capture_views(caps@)),
{
    let mut links = Links::new();
    let mut i: usize = 0;
    while i < caps.len()
        invariant
            i <= caps.len(),
            links@ == links_of(capture_views(caps@).take(i as int)),
        decreases caps.len() - i,
    {
        let cap = &caps[i];
        proof {
            let views = capture_views(caps@);
            assert(views.take(i + 1).drop_last() =~= views.take(i as int));
            assert(views.take(i + 1).last() == cap@);
        }
        match (&cap.url, &cap.rel) {
            (Some(url), Some(rel)) => {
                links.insert(rel.clone(), url.clone());
            },
            _ => {},
        }
        i += 1;
    }
    assert(capture_views(caps@).take(caps.len() as int) =~= capture_views(caps@));
    links
}

/// Reads a raw pagination header value. A relation name is taken with and
/// without quotes. Never fails: what the pattern does not match is skipped,
/// and an empty header gives the empty mapping.
pub fn extract_links(raw_links: &str) -> (links: Links)
    ensures
        links@ == header_links(raw_links@),
        raw_links@.len() == 0 ==> links@ == Map::<Seq<char>, Seq<char>>::empty(),
{
    if raw_links.is_empty() {
        return Links::new();
    }
    match captures_of(LINK_PATTERN, URL_GROUP, REL_GROUP, raw_links) {
        Ok(caps) => links_from_captures(&caps),
        Err(_) => Links::new(),
    }
}

/// Whether the capture at position `i` is the last complete capture of `caps`
/// that names the relation `rel`.
pub open spec fn is_last_naming(
    caps: Seq<(Option<Seq<char>>, Option<Seq<char>>)>,
    i: int,
    rel: Seq<char>,
) -> bool {
    &&& 0 <= i < caps.len()
    &&& names(caps[i], rel)
    &&& forall|j: int| i < j < caps.len() ==> !names(#[trigger] caps[j], rel)
}

/// Every relation name bound by a sequence of captures is named by a complete
/// capture, every name so named is bound, and it is bound to the URL of the
/// last complete capture that names it.
pub proof fn lemma_links_last_capture_wins(
    caps: Seq<(Option<Seq<char>>, Option<Seq<char>>)>,
    rel: Seq<char>,
)
    ensures
        links_of(caps).contains_key(rel) <==> exists|i: int|
            0 <= i < caps.len() && names(#[trigger] caps[i], rel),
        forall|i: int| #[trigger]
            is_last_naming(caps, i, rel) ==> links_of(caps)[rel] == caps[i].0->0,
    decreases caps.len(),
{
    if caps.len() > 0 {
        let earlier = caps.drop_last();
        let n = caps.len() - 1;
        lemma_links_last_capture_wins(earlier, rel);
        assert(forall|i: int| 0 <= i < n ==> earlier[i] == caps[i]);
        if names(caps[n], rel) {
            assert(links_of(caps).contains_key(rel));
            assert(links_of(caps)[rel] == caps[n].0->0);
            assert forall|i: int| #[trigger] is_last_naming(caps, i, rel) implies i == n by {
                if i < n {
                    assert(!names(caps[n], rel));
                }
            }
        } else {
            assert(links_of(caps).contains_key(rel) == links_of(earlier).contains_key(rel));
            if links_of(earlier).contains_key(rel) {
                let i = choose|i: int| 0 <= i < earlier.len() && names(#[trigger] earlier[i], rel);
                assert(names(caps[i], rel));
                assert(links_of(caps)[rel] == links_of(earlier)[rel]);
            }
            assert forall|i: int| #[trigger] is_last_naming(caps, i, rel) implies links_of(
                caps,
            )[rel] == caps[i].0->0 by {
                assert(i < n);
                assert(names(earlier[i], rel));
                assert forall|j: int| i < j < earlier.len() implies !names(
                    #[trigger] earlier[j],
                    rel,
                ) by {
                    assert(earlier[j] == caps[j]);
                }
                assert(is_last_naming(earlier, i, rel));
                assert(links_of(earlier).contains_key(rel));
            }
        }
    }
}

} // verus!
