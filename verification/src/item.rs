//! The item decoder: discriminates a parsed record by its `type` tag
//! into the closed set of upstream item kinds, checks each variant's
//! required fields, and projects stories and comments into the store's
//! entities. Absent `kids` become an empty child list rather than an
//! error; any other missing or ill-typed required field is a decode
//! failure.

use vstd::prelude::*;
use crate::json::{json_parse, parse_json, JsonVal};
use crate::stores::data::{Comment, Post};

verus! {

/// Why a record failed to decode.
#[derive(Clone, Copy, Debug, PartialEq, Eq, Structural)]
pub enum DecodeError {
    /// The bytes are not one well-formed JSON document.
    Syntax,
    /// The document has not the expected shape: no object for an item,
    /// no array for an id list.
    NotObject,
    /// The object has no string `type` field.
    NoTag,
    /// The tag is none of the five known item kinds.
    UnknownTag,
    /// A required field of the tagged variant is missing or ill-typed.
    BadSchema,
}

/// An upstream story; `text` and `url` are optional upstream.
#[derive(Debug)]
pub struct HnStory {
    pub by: String,
    pub descendants: u32,
    pub id: u32,
    pub kids: Vec<u32>,
    pub text: Option<String>,
    pub score: u16,
    pub time: u32,
    pub title: String,
    pub url: Option<String>,
}

/// An upstream job posting.
#[derive(Debug)]
pub struct HnJob {
    pub by: String,
    pub id: u32,
    pub score: u16,
    pub text: String,
    pub time: u32,
    pub title: String,
    pub url: String,
}

/// An upstream comment.
#[derive(Debug)]
pub struct HnComment {
    pub by: String,
    pub id: u32,
    pub kids: Vec<u32>,
    pub parent: u32,
    pub text: String,
    pub time: u32,
}

/// The closed set of item kinds the upstream source serves. Only
/// stories and comments are projected further; polls carry no payload
/// this client reads.
#[derive(Debug)]
pub enum Item {
    Job(HnJob),
    Story(HnStory),
    Comment(HnComment),
    Poll,
    Pollopt,
}

/// The mathematical image of a story.
pub struct SpecStory {
    pub by: Seq<char>,
    pub descendants: u32,
    pub id: u32,
    pub kids: Seq<u32>,
    pub text: Option<Seq<char>>,
    pub score: u16,
    pub time: u32,
    pub title: Seq<char>,
    pub url: Option<Seq<char>>,
}

/// The mathematical image of a job.
pub struct SpecJob {
    pub by: Seq<char>,
    pub id: u32,
    pub score: u16,
    pub text: Seq<char>,
    pub time: u32,
    pub title: Seq<char>,
    pub url: Seq<char>,
}

/// The mathematical image of a comment.
pub struct SpecComment {
    pub by: Seq<char>,
    pub id: u32,
    pub kids: Seq<u32>,
    pub parent: u32,
    pub text: Seq<char>,
    pub time: u32,
}

/// The mathematical image of an item.
pub enum SpecItem {
    Job(SpecJob),
    Story(SpecStory),
    Comment(SpecComment),
    Poll,
    Pollopt,
}

impl View for HnStory {
    type V = SpecStory;

    open spec fn view(&self) -> SpecStory {
        SpecStory {
            by: self.by@,
            descendants: self.descendants,
            id: self.id,
            kids: self.kids@,
            text: match self.text {
                Some(s) => Some(s@),
                None => None,
            },
            score: self.score,
            time: self.time,
            title: self.title@,
            url: match self.url {
                Some(s) => Some(s@),
                None => None,
            },
        }
    }
}

impl View for HnJob {
    type V = SpecJob;

    open spec fn view(&self) -> SpecJob {
        SpecJob {
            by: self.by@,
            id: self.id,
            score: self.score,
            text: self.text@,
            time: self.time,
            title: self.title@,
            url: self.url@,
        }
    }
}

impl View for HnComment {
    type V = SpecComment;

    open spec fn view(&self) -> SpecComment {
        SpecComment {
            by: self.by@,
            id: self.id,
            kids: self.kids@,
            parent: self.parent,
            text: self.text@,
            time: self.time,
        }
    }
}

impl View for Item {
    type V = SpecItem;

    open spec fn view(&self) -> SpecItem {
        match self {
            Item::Job(j) => SpecItem::Job(j@),
            Item::Story(s) => SpecItem::Story(s@),
            Item::Comment(c) => SpecItem::Comment(c@),
            Item::Poll => SpecItem::Poll,
            Item::Pollopt => SpecItem::Pollopt,
        }
    }
}

/// The value under the first matching key of an object's field list;
/// the parser hands objects over with unique keys.
pub open spec fn spec_lookup(fields: Seq<(String, JsonVal)>, key: Seq<char>) -> Option<JsonVal>
    decreases fields.len(),
{
    if fields.len() == 0 {
        None
    } else if fields.first().0@ == key {
        Some(fields.first().1)
    } else {
        spec_lookup(fields.drop_first(), key)
    }
}

/// A whole unsigned number under the key.
pub open spec fn spec_u64_field(fields: Seq<(String, JsonVal)>, key: Seq<char>) -> Option<u64> {
    match spec_lookup(fields, key) {
        Some(JsonVal::UInt(u)) => Some(u),
        _ => None,
    }
}

/// A number under the key that fits in 32 bits.
pub open spec fn spec_u32_field(fields: Seq<(String, JsonVal)>, key: Seq<char>) -> Option<u32> {
    match spec_u64_field(fields, key) {
        Some(u) => if u <= u32::MAX {
            Some(u as u32)
        } else {
            None
        },
        None => None,
    }
}

/// A number under the key that fits in 16 bits.
pub open spec fn spec_u16_field(fields: Seq<(String, JsonVal)>, key: Seq<char>) -> Option<u16> {
    match spec_u64_field(fields, key) {
        Some(u) => if u <= u16::MAX {
            Some(u as u16)
        } else {
            None
        },
        None => None,
    }
}

/// A string under the key.
pub open spec fn spec_str_field(fields: Seq<(String, JsonVal)>, key: Seq<char>) -> Option<
    Seq<char>,
> {
    match spec_lookup(fields, key) {
        Some(JsonVal::Str(s)) => Some(s@),
        _ => None,
    }
}

/// An optional string: absent or null is a present `None`; any value
/// of another type is a failure.
pub open spec fn spec_opt_str_field(fields: Seq<(String, JsonVal)>, key: Seq<char>) -> Option<
    Option<Seq<char>>,
> {
    match spec_lookup(fields, key) {
        None => Some(None),
        Some(JsonVal::Null) => Some(None),
        Some(JsonVal::Str(s)) => Some(Some(s@)),
        Some(_) => None,
    }
}

/// An array of numbers as child ids, each fitting in 32 bits.
pub open spec fn spec_ids_of(arr: Seq<JsonVal>) -> Option<Seq<u32>>
    decreases arr.len(),
{
    if arr.len() == 0 {
        Some(Seq::empty())
    } else {
        match (spec_ids_of(arr.drop_last()), arr.last()) {
            (Some(pre), JsonVal::UInt(u)) => if u <= u32::MAX {
                Some(pre.push(u as u32))
            } else {
                None
            },
            _ => None,
        }
    }
}

/// The child id list: an absent field is an empty list, not an error.
pub open spec fn spec_kids_field(fields: Seq<(String, JsonVal)>, key: Seq<char>) -> Option<
    Seq<u32>,
> {
    match spec_lookup(fields, key) {
        None => Some(Seq::empty()),
        Some(JsonVal::Arr(a)) => spec_ids_of(a@),
        Some(_) => None,
    }
}

/// A story record's required fields, or the schema failure.
pub open spec fn spec_decode_story(fields: Seq<(String, JsonVal)>) -> Result<
    SpecItem,
    DecodeError,
> {
    let by = spec_str_field(fields, "by"@);
    let descendants = spec_u32_field(fields, "descendants"@);
    let id = spec_u32_field(fields, "id"@);
    let kids = spec_kids_field(fields, "kids"@);
    let text = spec_opt_str_field(fields, "text"@);
    let score = spec_u16_field(fields, "score"@);
    let time = spec_u32_field(fields, "time"@);
    let title = spec_str_field(fields, "title"@);
    let url = spec_opt_str_field(fields, "url"@);
    if by is Some && descendants is Some && id is Some && kids is Some && text is Some && score
        is Some && time is Some && title is Some && url is Some {
        Ok(
            SpecItem::Story(
                SpecStory {
                    by: by.unwrap(),
                    descendants: descendants.unwrap(),
                    id: id.unwrap(),
                    kids: kids.unwrap(),
                    text: text.unwrap(),
                    score: score.unwrap(),
                    time: time.unwrap(),
                    title: title.unwrap(),
                    url: url.unwrap(),
                },
            ),
        )
    } else {
        Err(DecodeError::BadSchema)
    }
}

/// A job record's required fields, or the schema failure.
pub open spec fn spec_decode_job(fields: Seq<(String, JsonVal)>) -> Result<SpecItem, DecodeError> {
    let by = spec_str_field(fields, "by"@);
    let id = spec_u32_field(fields, "id"@);
    let score = spec_u16_field(fields, "score"@);
    let text = spec_str_field(fields, "text"@);
    let time = spec_u32_field(fields, "time"@);
    let title = spec_str_field(fields, "title"@);
    let url = spec_str_field(fields, "url"@);
    if by is Some && id is Some && score is Some && text is Some && time is Some && title is Some
        && url is Some {
        Ok(
            SpecItem::Job(
                SpecJob {
                    by: by.unwrap(),
                    id: id.unwrap(),
                    score: score.unwrap(),
                    text: text.unwrap(),
                    time: time.unwrap(),
                    title: title.unwrap(),
                    url: url.unwrap(),
                },
            ),
        )
    } else {
        Err(DecodeError::BadSchema)
    }
}

/// A comment record's required fields, or the schema failure.
pub open spec fn spec_decode_comment(fields: Seq<(String, JsonVal)>) -> Result<
    SpecItem,
    DecodeError,
> {
    let by = spec_str_field(fields, "by"@);
    let id = spec_u32_field(fields, "id"@);
    let kids = spec_kids_field(fields, "kids"@);
    let parent = spec_u32_field(fields, "parent"@);
    let text = spec_str_field(fields, "text"@);
    let time = spec_u32_field(fields, "time"@);
    if by is Some && id is Some && kids is Some && parent is Some && text is Some && time
        is Some {
        Ok(
            SpecItem::Comment(
                SpecComment {
                    by: by.unwrap(),
                    id: id.unwrap(),
                    kids: kids.unwrap(),
                    parent: parent.unwrap(),
                    text: text.unwrap(),
                    time: time.unwrap(),
                },
            ),
        )
    } else {
        Err(DecodeError::BadSchema)
    }
}

/// What one parsed record decodes to: discrimination by the `type`
/// tag, then the tagged variant's schema.
pub open spec fn spec_decode_item(v: JsonVal) -> Result<SpecItem, DecodeError> {
    match v {
        JsonVal::Obj(fields) => match spec_lookup(fields@, "type"@) {
            Some(JsonVal::Str(tag)) => if tag@ == "job"@ {
                spec_decode_job(fields@)
            } else if tag@ == "story"@ {
                spec_decode_story(fields@)
            } else if tag@ == "comment"@ {
                spec_decode_comment(fields@)
            } else if tag@ == "poll"@ {
                Ok(SpecItem::Poll)
            } else if tag@ == "pollopt"@ {
                Ok(SpecItem::Pollopt)
            } else {
                Err(DecodeError::UnknownTag)
            },
            Some(_) => Err(DecodeError::NoTag),
            None => Err(DecodeError::NoTag),
        },
        _ => Err(DecodeError::NotObject),
    }
}

/// What raw bytes decode to: a parse failure, or the record's decoding.
pub open spec fn spec_decode_item_bytes(b: Seq<u8>) -> Result<SpecItem, DecodeError> {
    match json_parse(b) {
        None => Err(DecodeError::Syntax),
        Some(v) => spec_decode_item(v),
    }
}

/// The index of the first field whose key matches, which then carries
/// the looked-up value.
fn lookup(fields: &Vec<(String, JsonVal)>, key: &str) -> (r: Option<usize>)
    ensures
        match r {
            Some(i) => i < fields@.len() && spec_lookup(fields@, key@) == Some(
                fields@[i as int].1,
            ),
            None => spec_lookup(fields@, key@) is None,
        },
{
    let mut i: usize = 0;
    while i < fields.len()
        invariant
            0 <= i <= fields@.len(),
            forall|j: int| 0 <= j < i ==> fields@[j].0@ != key@,
        decreases fields@.len() - i,
    {
        if str_eq(&fields[i].0, key) {
            proof {
                lemma_lookup_at(fields@, key@, i as int);
            }
            return Some(i);
        }
        i = i + 1;
    }
    proof {
        lemma_lookup_none(fields@, key@);
    }
    None
}

/// A matching key at `i`, with none before it, is what the lookup finds.
proof fn lemma_lookup_at(fields: Seq<(String, JsonVal)>, key: Seq<char>, i: int)
    requires
        0 <= i < fields.len(),
        fields[i].0@ == key,
        forall|j: int| 0 <= j < i ==> fields[j].0@ != key,
    ensures
        spec_lookup(fields, key) == Some(fields[i].1),
    decreases i,
{
    if i > 0 {
        lemma_lookup_at(fields.drop_first(), key, i - 1);
    }
}

/// With no matching key at all, the lookup finds nothing.
proof fn lemma_lookup_none(fields: Seq<(String, JsonVal)>, key: Seq<char>)
    requires
        forall|j: int| 0 <= j < fields.len() ==> fields[j].0@ != key,
    ensures
        spec_lookup(fields, key) is None,
    decreases fields.len(),
{
    if fields.len() > 0 {
        lemma_lookup_none(fields.drop_first(), key);
    }
}

/// Whether the owned string reads the same as the borrowed one.
fn str_eq(a: &String, b: &str) -> (r: bool)
    ensures
        r == (a@ == b@),
{
    let owned: String = b.to_owned();
    *a == owned
}

/// The number under the key when it fits in 32 bits.
fn u32_field(fields: &Vec<(String, JsonVal)>, key: &str) -> (r: Option<u32>)
    ensures
        r == spec_u32_field(fields@, key@),
{
    match lookup(fields, key) {
        Some(i) => match &fields[i].1 {
            JsonVal::UInt(u) => if *u <= 0xFFFF_FFFFu64 {
                Some(*u as u32)
            } else {
                None
            },
            _ => None,
        },
        None => None,
    }
}

/// The number under the key when it fits in 16 bits.
fn u16_field(fields: &Vec<(String, JsonVal)>, key: &str) -> (r: Option<u16>)
    ensures
        r == spec_u16_field(fields@, key@),
{
    match lookup(fields, key) {
        Some(i) => match &fields[i].1 {
            JsonVal::UInt(u) => if *u <= 0xFFFFu64 {
                Some(*u as u16)
            } else {
                None
            },
            _ => None,
        },
        None => None,
    }
}

/// The string under the key, copied out.
fn str_field(fields: &Vec<(String, JsonVal)>, key: &str) -> (r: Option<String>)
    ensures
        match r {
            Some(s) => spec_str_field(fields@, key@) == Some(s@),
            None => spec_str_field(fields@, key@) is None,
        },
{
    match lookup(fields, key) {
        Some(i) => match &fields[i].1 {
            JsonVal::Str(s) => Some(s.clone()),
            _ => None,
        },
        None => None,
    }
}

/// The optional string under the key: absent or null is `Some(None)`,
/// another type is `None`.
fn opt_str_field(fields: &Vec<(String, JsonVal)>, key: &str) -> (r: Option<Option<String>>)
    ensures
        match r {
            Some(Some(s)) => spec_opt_str_field(fields@, key@) == Some(Some(s@)),
            Some(None) => spec_opt_str_field(fields@, key@) == Some(
                None::<Seq<char>>,
            ),
            None => spec_opt_str_field(fields@, key@) is None,
        },
{
    match lookup(fields, key) {
        Some(i) => match &fields[i].1 {
            JsonVal::Null => Some(None),
            JsonVal::Str(s) => Some(Some(s.clone())),
            _ => None,
        },
        None => Some(None),
    }
}

/// An element that is no unsigned 32-bit number spoils the id array.
proof fn lemma_ids_of_bad_element(arr: Seq<JsonVal>, i: int)
    requires
        0 <= i < arr.len(),
        match arr[i] {
            JsonVal::UInt(u) => u > u32::MAX,
            _ => true,
        },
    ensures
        spec_ids_of(arr) is None,
    decreases arr.len(),
{
    if i < arr.len() - 1 {
        lemma_ids_of_bad_element(arr.drop_last(), i);
    }
}

/// The child id list under the key: an absent field is an empty list.
fn kids_field(fields: &Vec<(String, JsonVal)>, key: &str) -> (r: Option<Vec<u32>>)
    ensures
        match r {
            Some(v) => spec_kids_field(fields@, key@) == Some(v@),
            None => spec_kids_field(fields@, key@) is None,
        },
{
    match lookup(fields, key) {
        Some(i) => match &fields[i].1 {
            JsonVal::Arr(a) => {
                let mut out: Vec<u32> = Vec::new();
                let mut j: usize = 0;
                while j < a.len()
                    invariant
                        0 <= j <= a@.len(),
                        spec_ids_of(a@.take(j as int)) == Some(out@),
                        spec_lookup(fields@, key@) == Some(JsonVal::Arr(*a)),
                    decreases a@.len() - j,
                {
                    proof {
                        assert(a@.take(j + 1).drop_last() =~= a@.take(j as int));
                        assert(a@.take(j + 1).last() == a@[j as int]);
                    }
                    match &a[j] {
                        JsonVal::UInt(u) => {
                            if *u <= 0xFFFF_FFFFu64 {
                                out.push(*u as u32);
                            } else {
                                proof {
                                    lemma_ids_of_bad_element(a@, j as int);
                                }
                                return None;
                            }
                        },
                        _ => {
                            proof {
                                lemma_ids_of_bad_element(a@, j as int);
                            }
                            return None;
                        },
                    }
                    j = j + 1;
                }
                proof {
                    assert(a@.take(a@.len() as int) =~= a@);
                }
                Some(out)
            },
            _ => None,
        },
        None => Some(Vec::new()),
    }
}

/// Decode a story's fields.
fn decode_story(fields: &Vec<(String, JsonVal)>) -> (r: Result<Item, DecodeError>)
    ensures
        (r is Ok) == (spec_decode_story(fields@) is Ok),
        r is Ok ==> r->Ok_0@ == spec_decode_story(fields@)->Ok_0,
        r is Err ==> r->Err_0 == spec_decode_story(fields@)->Err_0,
{
    let by = match str_field(fields, "by") {
        Some(s) => s,
        None => {
            return Err(DecodeError::BadSchema);
        },
    };
    let descendants = match u32_field(fields, "descendants") {
        Some(u) => u,
        None => {
            return Err(DecodeError::BadSchema);
        },
    };
    let id = match u32_field(fields, "id") {
        Some(u) => u,
        None => {
            return Err(DecodeError::BadSchema);
        },
    };
    let kids = match kids_field(fields, "kids") {
        Some(v) => v,
        None => {
            return Err(DecodeError::BadSchema);
        },
    };
    let text = match opt_str_field(fields, "text") {
        Some(t) => t,
        None => {
            return Err(DecodeError::BadSchema);
        },
    };
    let score = match u16_field(fields, "score") {
        Some(u) => u,
        None => {
            return Err(DecodeError::BadSchema);
        },
    };
    let time = match u32_field(fields, "time") {
        Some(u) => u,
        None => {
            return Err(DecodeError::BadSchema);
        },
    };
    let title = match str_field(fields, "title") {
        Some(s) => s,
        None => {
            return Err(DecodeError::BadSchema);
        },
    };
    let url = match opt_str_field(fields, "url") {
        Some(t) => t,
        None => {
            return Err(DecodeError::BadSchema);
        },
    };
    Ok(Item::Story(HnStory { by, descendants, id, kids, text, score, time, title, url }))
}

/// Decode a job's fields.
fn decode_job(fields: &Vec<(String, JsonVal)>) -> (r: Result<Item, DecodeError>)
    ensures
        (r is Ok) == (spec_decode_job(fields@) is Ok),
        r is Ok ==> r->Ok_0@ == spec_decode_job(fields@)->Ok_0,
        r is Err ==> r->Err_0 == spec_decode_job(fields@)->Err_0,
{
    let by = match str_field(fields, "by") {
        Some(s) => s,
        None => {
            return Err(DecodeError::BadSchema);
        },
    };
    let id = match u32_field(fields, "id") {
        Some(u) => u,
        None => {
            return Err(DecodeError::BadSchema);
        },
    };
    let score = match u16_field(fields, "score") {
        Some(u) => u,
        None => {
            return Err(DecodeError::BadSchema);
        },
    };
    let text = match str_field(fields, "text") {
        Some(s) => s,
        None => {
            return Err(DecodeError::BadSchema);
        },
    };
    let time = match u32_field(fields, "time") {
        Some(u) => u,
        None => {
            return Err(DecodeError::BadSchema);
        },
    };
    let title = match str_field(fields, "title") {
        Some(s) => s,
        None => {
            return Err(DecodeError::BadSchema);
        },
    };
    let url = match str_field(fields, "url") {
        Some(s) => s,
        None => {
            return Err(DecodeError::BadSchema);
        },
    };
    Ok(Item::Job(HnJob { by, id, score, text, time, title, url }))
}

/// Decode a comment's fields.
fn decode_comment(fields: &Vec<(String, JsonVal)>) -> (r: Result<Item, DecodeError>)
    ensures
        (r is Ok) == (spec_decode_comment(fields@) is Ok),
        r is Ok ==> r->Ok_0@ == spec_decode_comment(fields@)->Ok_0,
        r is Err ==> r->Err_0 == spec_decode_comment(fields@)->Err_0,
{
    let by = match str_field(fields, "by") {
        Some(s) => s,
        None => {
            return Err(DecodeError::BadSchema);
        },
    };
    let id = match u32_field(fields, "id") {
        Some(u) => u,
        None => {
            return Err(DecodeError::BadSchema);
        },
    };
    let kids = match kids_field(fields, "kids") {
        Some(v) => v,
        None => {
            return Err(DecodeError::BadSchema);
        },
    };
    let parent = match u32_field(fields, "parent") {
        Some(u) => u,
        None => {
            return Err(DecodeError::BadSchema);
        },
    };
    let text = match str_field(fields, "text") {
        Some(s) => s,
        None => {
            return Err(DecodeError::BadSchema);
        },
    };
    let time = match u32_field(fields, "time") {
        Some(u) => u,
        None => {
            return Err(DecodeError::BadSchema);
        },
    };
    Ok(Item::Comment(HnComment { by, id, kids, parent, text, time }))
}

/// Decode one parsed record into a typed item, or say why not.
pub fn decode_item(v: &JsonVal) -> (r: Result<Item, DecodeError>)
    ensures
        (r is Ok) == (spec_decode_item(*v) is Ok),
        r is Ok ==> r->Ok_0@ == spec_decode_item(*v)->Ok_0,
        r is Err ==> r->Err_0 == spec_decode_item(*v)->Err_0,
{
    let fields = match v {
        JsonVal::Obj(fields) => fields,
        _ => {
            return Err(DecodeError::NotObject);
        },
    };
    let tag_idx = match lookup(fields, "type") {
        Some(i) => i,
        None => {
            return Err(DecodeError::NoTag);
        },
    };
    let tag = match &fields[tag_idx].1 {
        JsonVal::Str(s) => s,
        _ => {
            return Err(DecodeError::NoTag);
        },
    };
    if str_eq(tag, "job") {
        decode_job(fields)
    } else if str_eq(tag, "story") {
        decode_story(fields)
    } else if str_eq(tag, "comment") {
        decode_comment(fields)
    } else if str_eq(tag, "poll") {
        Ok(Item::Poll)
    } else if str_eq(tag, "pollopt") {
        Ok(Item::Pollopt)
    } else {
        Err(DecodeError::UnknownTag)
    }
}

/// Parse raw bytes and decode the record they hold.
pub fn decode_item_bytes(b: &[u8]) -> (r: Result<Item, DecodeError>)
    ensures
        (r is Ok) == (spec_decode_item_bytes(b@) is Ok),
        r is Ok ==> r->Ok_0@ == spec_decode_item_bytes(b@)->Ok_0,
        r is Err ==> r->Err_0 == spec_decode_item_bytes(b@)->Err_0,
{
    match parse_json(b) {
        None => Err(DecodeError::Syntax),
        Some(v) => decode_item(&v),
    }
}

/// What a category-list document decodes to: the array of ids, or the
/// failure (`Syntax` is never produced here; the byte-level variant
/// adds it).
pub open spec fn spec_decode_id_list(v: JsonVal) -> Result<Seq<u32>, DecodeError> {
    match v {
        JsonVal::Arr(a) => match spec_ids_of(a@) {
            Some(ids) => Ok(ids),
            None => Err(DecodeError::BadSchema),
        },
        _ => Err(DecodeError::NotObject),
    }
}

/// Decode a parsed category-list document into its ids.
pub fn decode_id_list(v: &JsonVal) -> (r: Result<Vec<u32>, DecodeError>)
    ensures
        (r is Ok) == (spec_decode_id_list(*v) is Ok),
        r is Ok ==> r->Ok_0@ == spec_decode_id_list(*v)->Ok_0,
        r is Err ==> r->Err_0 == spec_decode_id_list(*v)->Err_0,
{
    let a = match v {
        JsonVal::Arr(a) => a,
        _ => {
            return Err(DecodeError::NotObject);
        },
    };
    let mut out: Vec<u32> = Vec::new();
    let mut j: usize = 0;
    while j < a.len()
        invariant
            0 <= j <= a@.len(),
            spec_ids_of(a@.take(j as int)) == Some(out@),
            *v == JsonVal::Arr(*a),
        decreases a@.len() - j,
    {
        proof {
            assert(a@.take(j + 1).drop_last() =~= a@.take(j as int));
            assert(a@.take(j + 1).last() == a@[j as int]);
        }
        match &a[j] {
            JsonVal::UInt(u) => {
                if *u <= 0xFFFF_FFFFu64 {
                    out.push(*u as u32);
                } else {
                    proof {
                        lemma_ids_of_bad_element(a@, j as int);
                    }
                    return Err(DecodeError::BadSchema);
                }
            },
            _ => {
                proof {
                    lemma_ids_of_bad_element(a@, j as int);
                }
                return Err(DecodeError::BadSchema);
            },
        }
        j = j + 1;
    }
    proof {
        assert(a@.take(a@.len() as int) =~= a@);
    }
    Ok(out)
}

/// What raw bytes of a category list decode to.
pub open spec fn spec_decode_id_list_bytes(b: Seq<u8>) -> Result<Seq<u32>, DecodeError> {
    match json_parse(b) {
        None => Err(DecodeError::Syntax),
        Some(v) => spec_decode_id_list(v),
    }
}

/// Parse raw bytes and decode the category-list array they hold.
pub fn decode_id_list_bytes(b: &[u8]) -> (r: Result<Vec<u32>, DecodeError>)
    ensures
        (r is Ok) == (spec_decode_id_list_bytes(b@) is Ok),
        r is Ok ==> r->Ok_0@ == spec_decode_id_list_bytes(b@)->Ok_0,
        r is Err ==> r->Err_0 == spec_decode_id_list_bytes(b@)->Err_0,
{
    match parse_json(b) {
        None => Err(DecodeError::Syntax),
        Some(v) => decode_id_list(&v),
    }
}

/// A story becomes a post by a direct field copy; `kids` become the
/// post's child comment ids.
pub open spec fn spec_story_post(st: HnStory) -> Post {
    Post {
        id: st.id,
        by: st.by,
        children: st.kids,
        title: st.title,
        time: st.time,
        url: st.url,
        text: st.text,
        descendants: st.descendants,
    }
}

/// A decoded comment becomes a store comment by a direct field copy.
pub open spec fn spec_comment_entity(c: HnComment) -> Comment {
    Comment { id: c.id, by: c.by, children: c.kids, parent: c.parent, text: c.text, time: c.time }
}

/// Project a story into a post.
pub fn story_to_post(st: HnStory) -> (p: Post)
    ensures
        p == spec_story_post(st),
{
    let HnStory { by, descendants, id, kids, text, score: _, time, title, url } = st;
    Post { id, by, children: kids, title, time, url, text, descendants }
}

/// Project a decoded comment into a store comment.
pub fn comment_to_entity(c: HnComment) -> (r: Comment)
    ensures
        r == spec_comment_entity(c),
{
    let HnComment { by, id, kids, parent, text, time } = c;
    Comment { id, by, children: kids, parent, text, time }
}

/// The posts among the items, in item order: stories projected, every
/// other kind dropped.
pub open spec fn spec_posts_of(items: Seq<Item>) -> Seq<Post>
    decreases items.len(),
{
    if items.len() == 0 {
        Seq::empty()
    } else {
        spec_posts_of(items.drop_last()) + match items.last() {
            Item::Story(st) => seq![spec_story_post(st)],
            _ => Seq::empty(),
        }
    }
}

/// The comments among the items, in item order.
pub open spec fn spec_comments_of(items: Seq<Item>) -> Seq<Comment>
    decreases items.len(),
{
    if items.len() == 0 {
        Seq::empty()
    } else {
        spec_comments_of(items.drop_last()) + match items.last() {
            Item::Comment(c) => seq![spec_comment_entity(c)],
            _ => Seq::empty(),
        }
    }
}

/// Keep the stories, projected into posts; drop everything else.
pub fn posts_of_items(items: Vec<Item>) -> (r: Vec<Post>)
    ensures
        r@ == spec_posts_of(items@),
{
    let ghost all = items@;
    let mut items = items;
    let mut out: Vec<Post> = Vec::new();
    let ghost done: int = 0;
    while items.len() > 0
        invariant
            0 <= done <= all.len(),
            items@ == all.skip(done),
            out@ == spec_posts_of(all.take(done)),
        decreases items.len(),
    {
        let item = items.remove(0);
        assert(item == all[done]);
        proof {
            assert(all.take(done + 1).drop_last() =~= all.take(done));
            assert(all.take(done + 1).last() == all[done]);
        }
        match item {
            Item::Story(st) => {
                let p = story_to_post(st);
                out.push(p);
                proof {
                    assert(out@ =~= spec_posts_of(all.take(done)) + seq![spec_story_post(
                        all[done]->Story_0,
                    )]);
                }
            },
            _ => {
                proof {
                    assert(out@ =~= spec_posts_of(all.take(done)) + Seq::<Post>::empty());
                }
            },
        }
        proof {
            done = done + 1;
            assert(items@ =~= all.skip(done));
        }
    }
    proof {
        assert(all.take(done) =~= all);
    }
    out
}

/// Keep the comments, projected into store comments; drop everything else.
pub fn comments_of_items(items: Vec<Item>) -> (r: Vec<Comment>)
    ensures
        r@ == spec_comments_of(items@),
{
    let ghost all = items@;
    let mut items = items;
    let mut out: Vec<Comment> = Vec::new();
    let ghost done: int = 0;
    while items.len() > 0
        invariant
            0 <= done <= all.len(),
            items@ == all.skip(done),
            out@ == spec_comments_of(all.take(done)),
        decreases items.len(),
    {
        let item = items.remove(0);
        assert(item == all[done]);
        proof {
            assert(all.take(done + 1).drop_last() =~= all.take(done));
            assert(all.take(done + 1).last() == all[done]);
        }
        match item {
            Item::Comment(c) => {
                let e = comment_to_entity(c);
                out.push(e);
                proof {
                    assert(out@ =~= spec_comments_of(all.take(done)) + seq![spec_comment_entity(
                        all[done]->Comment_0,
                    )]);
                }
            },
            _ => {
                proof {
                    assert(out@ =~= spec_comments_of(all.take(done)) + Seq::<Comment>::empty());
                }
            },
        }
        proof {
            done = done + 1;
            assert(items@ =~= all.skip(done));
        }
    }
    proof {
        assert(all.take(done) =~= all);
    }
    out
}

} // verus!
