//! A plain model of a parsed JSON document, and the look-ups the assistant
//! makes in the documents that the services send back.
//!
//! Look-ups follow `serde_json::Value` indexing: `value["key"]` is the member
//! of an object with that key and `Null` for anything else, `value[i]` is the
//! element of an array and `Null` for anything else, and `as_str` gives the
//! text of a string only. An object made from a `serde_json` map has each key
//! once; should a model hold a key twice, the look-up takes the first.
use vstd::prelude::*;

use crate::text::{chars_of, string_views};

verus! {

/// A parsed JSON value. Numbers are kept as the text they were written with.
pub enum Json {
    Null,
    Bool(bool),
    Number(String),
    Str(String),
    Array(Vec<Json>),
    Object(Vec<JsonField>),
}

/// One member of a JSON object.
pub struct JsonField {
    pub key: String,
    pub value: Json,
}

/// The value of the first member of `fields` whose key is `key`.
pub open spec fn lookup(fields: Seq<JsonField>, key: Seq<char>) -> Option<Json>
    decreases fields.len(),
{
    if fields.len() == 0 {
        None
    } else if fields[0].key@ == key {
        Some(fields[0].value)
    } else {
        lookup(fields.drop_first(), key)
    }
}

/// `j[key]` where it is not `Null`: the member `key` of an object.
pub open spec fn member(j: Option<Json>, key: Seq<char>) -> Option<Json> {
    match j {
        Some(Json::Object(fields)) => lookup(fields@, key),
        _ => None,
    }
}

/// `j[i]` where it is not `Null`: element `i` of an array.
pub open spec fn element(j: Option<Json>, i: int) -> Option<Json> {
    match j {
        Some(Json::Array(items)) => if 0 <= i < items@.len() {
            Some(items@[i])
        } else {
            None
        },
        _ => None,
    }
}

/// `j.as_str()`: the text of a JSON string.
pub open spec fn text_of(j: Option<Json>) -> Option<Seq<char>> {
    match j {
        Some(Json::Str(s)) => Some(s@),
        _ => None,
    }
}

/// `j.as_array()`: the elements of a JSON array.
pub open spec fn items_of(j: Option<Json>) -> Option<Seq<Json>> {
    match j {
        Some(Json::Array(items)) => Some(items@),
        _ => None,
    }
}

/// The value that an optional reference points to.
pub open spec fn deref_opt(j: Option<&Json>) -> Option<Json> {
    match j {
        Some(v) => Some(*v),
        None => None,
    }
}

/// Whether two strings hold the same characters.
pub fn str_eq(a: &str, b: &str) -> (r: bool)
    ensures
        r == (a@ == b@),
{
    let x = chars_of(a);
    let y = chars_of(b);
    if x.len() != y.len() {
        return false;
    }
    let mut i: usize = 0;
    while i < x.len()
        invariant
            x@ == a@,
            y@ == b@,
            x@.len() == y@.len(),
            i <= x@.len(),
            forall|k: int| 0 <= k < i ==> x@[k] == y@[k],
        decreases x@.len() - i,
    {
        if x[i] != y[i] {
            return false;
        }
        i = i + 1;
    }
    assert(x@ =~= y@);
    true
}

/// The member `key` of `j`, when `j` is an object that has one.
pub fn get_member<'a>(j: &'a Json, key: &str) -> (r: Option<&'a Json>)
    ensures
        match r {
            Some(v) => member(Some(*j), key@) == Some(*v),
            None => member(Some(*j), key@) is None,
        },
{
    match j {
        Json::Object(fields) => {
            let mut i: usize = 0;
            assert(fields@.skip(0) =~= fields@);
            while i < fields.len()
                invariant
                    i <= fields@.len(),
                    member(Some(*j), key@) == lookup(fields@, key@),
                    lookup(fields@, key@) == lookup(fields@.skip(i as int), key@),
                decreases fields@.len() - i,
            {
                assert(fields@.skip(i as int)[0] == fields@[i as int]);
                if str_eq(fields[i].key.as_str(), key) {
                    return Some(&fields[i].value);
                }
                assert(fields@.skip(i as int).drop_first() =~= fields@.skip(i + 1));
                i = i + 1;
            }
            None
        },
        _ => None,
    }
}

/// Element `i` of `j`, when `j` is an array that long.
pub fn get_element<'a>(j: &'a Json, i: usize) -> (r: Option<&'a Json>)
    ensures
        match r {
            Some(v) => element(Some(*j), i as int) == Some(*v),
            None => element(Some(*j), i as int) is None,
        },
{
    match j {
        Json::Array(items) => if i < items.len() {
            Some(&items[i])
        } else {
            None
        },
        _ => None,
    }
}

/// The text of `j`, when `j` is a JSON string.
pub fn get_text(j: Option<&Json>) -> (r: Option<String>)
    ensures
        match r {
            Some(s) => text_of(deref_opt(j)) == Some(s@),
            None => text_of(deref_opt(j)) is None,
        },
{
    match j {
        Some(Json::Str(s)) => Some(s.clone()),
        _ => None,
    }
}

fn member_of<'a>(j: Option<&'a Json>, key: &str) -> (r: Option<&'a Json>)
    ensures
        deref_opt(r) == member(deref_opt(j), key@),
{
    match j {
        Some(v) => get_member(v, key),
        None => None,
    }
}

fn element_of<'a>(j: Option<&'a Json>, i: usize) -> (r: Option<&'a Json>)
    ensures
        deref_opt(r) == element(deref_opt(j), i as int),
{
    match j {
        Some(v) => get_element(v, i),
        None => None,
    }
}

// ---------------------------------------------------------------------------
// Chat completions
// ---------------------------------------------------------------------------

/// `resp["choices"][0]["message"]["content"].as_str()`, or the empty text.
pub open spec fn chat_reply_of(resp: Json) -> Seq<char> {
    match text_of(member(member(element(member(Some(resp), "choices"@), 0), "message"@), "content"@)) {
        Some(s) => s,
        None => Seq::<char>::empty(),
    }
}

/// The reply text of a chat-completions response: the content of the first
/// choice's message, or the empty string when there is none.
pub fn chat_reply_text(resp: &Json) -> (r: String)
    ensures
        r@ == chat_reply_of(*resp),
{
    let choices = get_member(resp, "choices");
    let first = element_of(choices, 0);
    let message = member_of(first, "message");
    let content = member_of(message, "content");
    match get_text(content) {
        Some(s) => s,
        None => String::new(),
    }
}

// ---------------------------------------------------------------------------
// Image generations
// ---------------------------------------------------------------------------

/// `resp["data"][0]["b64_json"].as_str()`.
pub open spec fn image_payload_of(resp: Json) -> Option<Seq<char>> {
    text_of(member(element(member(Some(resp), "data"@), 0), "b64_json"@))
}

/// The base64 payload of the first generated image, when the response has one.
pub fn image_payload(resp: &Json) -> (r: Option<String>)
    ensures
        match r {
            Some(s) => image_payload_of(*resp) == Some(s@),
            None => image_payload_of(*resp) is None,
        },
{
    let data = get_member(resp, "data");
    let first = element_of(data, 0);
    let payload = member_of(first, "b64_json");
    get_text(payload)
}

// ---------------------------------------------------------------------------
// Instant-answer search
// ---------------------------------------------------------------------------

/// A related topic of a search answer: its text and its link.
pub struct Topic {
    pub text: String,
    pub url: String,
}

/// What a search answer shows: its summary, when it has a non-empty one, and
/// the related topics that have both a text and a link among the first five.
pub struct SearchDigest {
    pub summary: Option<String>,
    pub topics: Vec<Topic>,
}

/// The most related topics that a search answer shows.
pub open spec fn topic_limit() -> nat {
    5
}

/// `resp["AbstractText"].as_str()` when it is not empty.
pub open spec fn summary_of(resp: Json) -> Option<Seq<char>> {
    match text_of(member(Some(resp), "AbstractText"@)) {
        Some(s) => if s.len() > 0 {
            Some(s)
        } else {
            None
        },
        None => None,
    }
}

/// The topic that entry `r` shows: `(r["Text"], r["FirstURL"])` when both are strings.
pub open spec fn topic_of(r: Json) -> Option<(Seq<char>, Seq<char>)> {
    match (text_of(member(Some(r), "Text"@)), text_of(member(Some(r), "FirstURL"@))) {
        (Some(t), Some(u)) => Some((t, u)),
        _ => None,
    }
}

/// The topics that the entries `rs` show, in order.
pub open spec fn topics_of(rs: Seq<Json>) -> Seq<(Seq<char>, Seq<char>)>
    decreases rs.len(),
{
    if rs.len() == 0 {
        seq![]
    } else {
        match topic_of(rs.last()) {
            Some(t) => topics_of(rs.drop_last()).push(t),
            None => topics_of(rs.drop_last()),
        }
    }
}

/// The entries of `resp["RelatedTopics"]` that a search answer looks at: the first five.
pub open spec fn shown_entries(resp: Json) -> Seq<Json> {
    match items_of(member(Some(resp), "RelatedTopics"@)) {
        Some(rs) => if rs.len() <= topic_limit() {
            rs
        } else {
            rs.take(topic_limit() as int)
        },
        None => seq![],
    }
}

/// The views of a list of topics.
pub open spec fn topic_views(ts: Seq<Topic>) -> Seq<(Seq<char>, Seq<char>)> {
    ts.map_values(|t: Topic| (t.text@, t.url@))
}

/// The summary and the related topics of an instant-answer response.
pub fn search_digest(resp: &Json) -> (d: SearchDigest)
    ensures
        match d.summary {
            Some(s) => summary_of(*resp) == Some(s@),
            None => summary_of(*resp) is None,
        },
        topic_views(d.topics@) == topics_of(shown_entries(*resp)),
{
    let summary = match get_text(get_member(resp, "AbstractText")) {
        Some(s) => if !s.as_str().is_empty() {
            Some(s)
        } else {
            None
        },
        None => None,
    };
    let mut topics: Vec<Topic> = Vec::new();
    match get_member(resp, "RelatedTopics") {
        Some(Json::Array(rs)) => {
            let n = if rs.len() < 5 {
                rs.len()
            } else {
                5
            };
            let ghost shown = shown_entries(*resp);
            assert(shown =~= rs@.take(n as int));
            let mut i: usize = 0;
            while i < n
                invariant
                    n <= rs@.len(),
                    i <= n,
                    shown == rs@.take(n as int),
                    topic_views(topics@) == topics_of(rs@.take(i as int)),
                decreases n - i,
            {
                let r = &rs[i];
                let text = get_text(get_member(r, "Text"));
                let url = get_text(get_member(r, "FirstURL"));
                assert(rs@.take(i + 1).drop_last() =~= rs@.take(i as int));
                assert(rs@.take(i + 1).last() == rs@[i as int]);
                match (text, url) {
                    (Some(t), Some(u)) => {
                        let ghost before = topics@;
                        topics.push(Topic { text: t, url: u });
                        assert(topic_views(topics@) =~= topic_views(before).push((t@, u@)));
                    },
                    _ => {},
                }
                i = i + 1;
            }
        },
        _ => {
            assert(topics_of(shown_entries(*resp)) =~= seq![]);
            assert(topic_views(topics@) =~= seq![]);
        },
    }
    SearchDigest { summary, topics }
}

/// A search answer looks at the first five related-topic entries, or at all
/// of them when there are fewer: exactly the first `min(n, 5)` of the `n`
/// entries, in their order; none when the answer has no list of them.
pub proof fn law_search_looks_at_first_five(resp: Json)
    ensures
        items_of(member(Some(resp), "RelatedTopics"@)) matches Some(rs) ==> {
            &&& shown_entries(resp).len() == (if rs.len() < 5 {
                rs.len()
            } else {
                5
            })
            &&& forall|k: int| 0 <= k < shown_entries(resp).len() ==> #[trigger] shown_entries(resp)[k]
                == rs[k]
        },
        items_of(member(Some(resp), "RelatedTopics"@)) is None ==> shown_entries(resp).len() == 0,
{
}

/// Every entry that has both a text and a link shows its topic, and every
/// topic shown is that of some entry: the topics are exactly the complete
/// entries', none left out, none made up.
pub proof fn law_topics_are_the_complete_entries(rs: Seq<Json>)
    ensures
        forall|k: int|
            0 <= k < rs.len() && (#[trigger] topic_of(rs[k])) is Some ==> topics_of(rs).contains(
                topic_of(rs[k])->0,
            ),
        forall|j: int|
            0 <= j < topics_of(rs).len() ==> exists|k: int|
                0 <= k < rs.len() && #[trigger] topic_of(rs[k]) == Some(#[trigger] topics_of(rs)[j]),
    decreases rs.len(),
{
    if rs.len() > 0 {
        let init = rs.drop_last();
        law_topics_are_the_complete_entries(init);
        let t = topics_of(init);
        assert forall|k: int|
            0 <= k < rs.len() && (#[trigger] topic_of(rs[k])) is Some implies topics_of(rs).contains(
            topic_of(rs[k])->0,
        ) by {
            if k < rs.len() - 1 {
                assert(init[k] == rs[k]);
                assert(topic_of(init[k]) is Some);
                let j = choose|j: int| 0 <= j < t.len() && t[j] == topic_of(init[k])->0;
                match topic_of(rs.last()) {
                    Some(x) => {
                        assert(topics_of(rs) == t.push(x));
                        assert(topics_of(rs)[j] == t[j]);
                    },
                    None => {},
                }
            } else {
                assert(rs[k] == rs.last());
                assert(topics_of(rs) == t.push(topic_of(rs.last())->0));
                assert(topics_of(rs)[t.len() as int] == topic_of(rs[k])->0);
            }
        }
        assert forall|j: int| 0 <= j < topics_of(rs).len() implies exists|k: int|
            0 <= k < rs.len() && #[trigger] topic_of(rs[k]) == Some(#[trigger] topics_of(rs)[j]) by {
            match topic_of(rs.last()) {
                Some(x) => {
                    assert(topics_of(rs) == t.push(x));
                    if j < t.len() {
                        assert(topics_of(rs)[j] == t[j]);
                        let k = choose|k: int|
                            0 <= k < init.len() && #[trigger] topic_of(init[k]) == Some(t[j]);
                        assert(init[k] == rs[k]);
                    } else {
                        assert(topic_of(rs[rs.len() - 1]) == Some(topics_of(rs)[j]));
                    }
                },
                None => {
                    assert(topics_of(rs) == t);
                    let k = choose|k: int|
                        0 <= k < init.len() && #[trigger] topic_of(init[k]) == Some(t[j]);
                    assert(init[k] == rs[k]);
                },
            }
        }
    }
}

/// The address of the instant-answer service.
pub open spec fn search_url() -> Seq<char> {
    "https://api.duckduckgo.com/"@
}

/// The address of the instant-answer service.
pub fn search_endpoint() -> (r: String)
    ensures
        r@ == search_url(),
{
    String::from_str("https://api.duckduckgo.com/")
}

/// The query parameters of an instant-answer search: the query, a JSON
/// answer, and no HTML in it.
pub open spec fn search_params_of(query: Seq<char>) -> Seq<(Seq<char>, Seq<char>)> {
    seq![("q"@, query), ("format"@, "json"@), ("no_html"@, "1"@)]
}

/// The query parameters of an instant-answer search for `query`.
pub fn search_params(query: &str) -> (r: Vec<(String, String)>)
    ensures
        r@.map_values(|p: (String, String)| (p.0@, p.1@)) == search_params_of(query@),
{
    let mut r: Vec<(String, String)> = Vec::new();
    r.push((String::from_str("q"), String::from_str(query)));
    r.push((String::from_str("format"), String::from_str("json")));
    r.push((String::from_str("no_html"), String::from_str("1")));
    assert(r@.map_values(|p: (String, String)| (p.0@, p.1@)) =~= search_params_of(query@));
    r
}

// ---------------------------------------------------------------------------
// Slide outlines
// ---------------------------------------------------------------------------

/// The plan of one slide: its title and its bullet points.
pub struct SlidePlan {
    pub title: String,
    pub bullets: Vec<String>,
}

/// The title of a slide outline entry: `slide["title"].as_str()`, or `"Slide"`.
pub open spec fn plan_title_of(slide: Json) -> Seq<char> {
    match text_of(member(Some(slide), "title"@)) {
        Some(t) => t,
        None => seq!['S', 'l', 'i', 'd', 'e'],
    }
}

/// The bullets of a slide outline entry: each element of `slide["bullets"]`
/// as text (the empty text where it is not a string), or none when it is not an array.
pub open spec fn plan_bullets_of(slide: Json) -> Seq<Seq<char>> {
    match items_of(member(Some(slide), "bullets"@)) {
        Some(bs) => bs.map_values(
            |b: Json|
                match text_of(Some(b)) {
                    Some(t) => t,
                    None => Seq::<char>::empty(),
                },
        ),
        None => seq![],
    }
}

/// The entries of a slide outline: the elements of the parsed reply when it
/// is an array, and none when the reply was no JSON or no array.
pub open spec fn outline_entries(parsed: Option<Json>) -> Seq<Json> {
    match items_of(parsed) {
        Some(items) => items,
        None => seq![],
    }
}

/// The plan of one outline entry: its title and its bullets.
pub fn slide_plan(slide: &Json) -> (p: SlidePlan)
    ensures
        p.title@ == plan_title_of(*slide),
        string_views(p.bullets@) == plan_bullets_of(*slide),
{
    let title = match get_text(get_member(slide, "title")) {
        Some(t) => t,
        None => {
            let t = String::from_str("Slide");
            proof {
                reveal_strlit("Slide");
            }
            assert(t@ =~= seq!['S', 'l', 'i', 'd', 'e']);
            t
        },
    };
    let mut bullets: Vec<String> = Vec::new();
    match get_member(slide, "bullets") {
        Some(Json::Array(bs)) => {
            let mut k: usize = 0;
            while k < bs.len()
                invariant
                    k <= bs@.len(),
                    string_views(bullets@) =~= plan_bullets_of(*slide).take(k as int),
                    items_of(member(Some(*slide), "bullets"@)) == Some(bs@),
                decreases bs@.len() - k,
            {
                let b = match get_text(Some(&bs[k])) {
                    Some(t) => t,
                    None => String::new(),
                };
                let ghost before = bullets@;
                bullets.push(b);
                assert(string_views(bullets@) =~= string_views(before).push(b@));
                assert(plan_bullets_of(*slide).take(k + 1) =~= plan_bullets_of(*slide).take(
                    k as int,
                ).push(plan_bullets_of(*slide)[k as int]));
                k = k + 1;
            }
            assert(plan_bullets_of(*slide).take(bs@.len() as int) =~= plan_bullets_of(*slide));
        },
        _ => {
            assert(string_views(bullets@) =~= plan_bullets_of(*slide));
        },
    }
    SlidePlan { title, bullets }
}

/// The plans of the slides that a parsed outline reply describes, one per entry.
pub fn slide_plans(parsed: &Option<Json>) -> (plans: Vec<SlidePlan>)
    ensures
        plans@.len() == outline_entries(*parsed).len(),
        forall|i: int|
            0 <= i < plans@.len() ==> {
                &&& #[trigger] plans@[i].title@ == plan_title_of(outline_entries(*parsed)[i])
                &&& string_views(plans@[i].bullets@) == plan_bullets_of(
                    outline_entries(*parsed)[i],
                )
            },
{
    let mut plans: Vec<SlidePlan> = Vec::new();
    match parsed {
        Some(Json::Array(items)) => {
            let mut i: usize = 0;
            while i < items.len()
                invariant
                    outline_entries(*parsed) == items@,
                    i <= items@.len(),
                    plans@.len() == i,
                    forall|k: int|
                        0 <= k < i ==> {
                            &&& #[trigger] plans@[k].title@ == plan_title_of(items@[k])
                            &&& string_views(plans@[k].bullets@) == plan_bullets_of(items@[k])
                        },
                decreases items@.len() - i,
            {
                let p = slide_plan(&items[i]);
                plans.push(p);
                i = i + 1;
            }
        },
        _ => {},
    }
    plans
}

} // verus!
