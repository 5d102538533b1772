//! Detection of links that were posted recently.
//!
//! A message marks its links with entities: a kind, an offset and a length,
//! both counted in characters of the message text. A chat transport that
//! counts in UTF-16 code units has its entities made by `Entity::from_utf16`,
//! which counts them over into characters. Each link of a message is
//! looked up in the cache of recent links, in the order of the entities. The
//! first one found there ends the search; every link before it has been
//! recorded by then, and the links after it are not looked at.

use vstd::prelude::*;
use vstd::string::{StrSliceExecFns, StringExecFns};
use vstd::std_specs::iter::IteratorSpec;
use std::str::Chars;
use substring::Substring;
use crate::cache::{after_pushes, lemma_after_no_pushes, lemma_after_pushes_step, RecencyCache};

verus! {

/// What an entity marks.
#[derive(Clone, Copy, Debug, PartialEq, Eq, Structural)]
pub enum EntityKind {
    /// A link written out in the text.
    Url,
    /// Anything else: a mention, a hashtag, bold text and the like.
    Other,
}

/// A marked part of a message text.
#[derive(Clone, Copy, Debug)]
pub struct Entity {
    pub kind: EntityKind,
    /// Where the part starts, in characters.
    pub offset: usize,
    /// How long the part is, in characters.
    pub length: usize,
}

/// The number of UTF-16 code units that write `c`: two for a character
/// outside the Basic Multilingual Plane, one for any other.
pub open spec fn utf16_width(c: char) -> int {
    if (c as u32) < 0x1_0000 {
        1
    } else {
        2
    }
}

/// The number of UTF-16 code units that write `text`.
pub open spec fn utf16_len(text: Seq<char>) -> int
    decreases text.len(),
{
    if text.len() == 0 {
        0
    } else {
        utf16_width(text[0]) + utf16_len(text.drop_first())
    }
}

/// The number of characters of `text` that begin before code unit `units`
/// of its UTF-16 form. It is the index of the character that begins at
/// `units`, or behind `units` where that lies inside a character, and the
/// length of `text` where `units` lies at or behind its end.
pub open spec fn chars_before(text: Seq<char>, units: int) -> int
    decreases text.len(),
{
    if text.len() == 0 || units <= 0 {
        0
    } else {
        1 + chars_before(text.drop_first(), units - utf16_width(text[0]))
    }
}

/// The entity, counted in characters, of the part of `text` that begins at
/// code unit `offset` of its UTF-16 form and is `length` code units long.
pub open spec fn entity_of_utf16(kind: EntityKind, text: Seq<char>, offset: int, length: int) -> Entity {
    Entity {
        kind,
        offset: chars_before(text, offset) as usize,
        length: (chars_before(text, offset + length) - chars_before(text, offset)) as usize,
    }
}

/// Fewer characters begin before a code unit than code units come before it,
/// and none that the text does not hold.
pub proof fn lemma_chars_before_bounds(text: Seq<char>, units: int)
    requires
        0 <= units,
    ensures
        0 <= chars_before(text, units) <= units,
        chars_before(text, units) <= text.len(),
        units >= utf16_len(text) ==> chars_before(text, units) == text.len(),
        utf16_len(text) >= text.len(),
    decreases text.len(),
{
    if text.len() > 0 {
        let rest = text.drop_first();
        if units > 0 {
            let left = units - utf16_width(text[0]);
            if left > 0 {
                lemma_chars_before_bounds(rest, left);
            } else {
                lemma_chars_before_bounds(rest, 0);
            }
        } else {
            lemma_chars_before_bounds(rest, 0);
        }
    }
}

/// Between two code units begin no more characters than there are code
/// units from the one to the other.
pub proof fn lemma_chars_before_step(text: Seq<char>, units: int, more: int)
    requires
        0 <= more,
    ensures
        0 <= chars_before(text, units + more) - chars_before(text, units) <= more,
    decreases text.len(),
{
    if text.len() > 0 {
        if units > 0 {
            lemma_chars_before_step(text.drop_first(), units - utf16_width(text[0]), more);
        } else if units + more > 0 {
            lemma_chars_before_bounds(text, units + more);
        }
    }
}

/// The characters of a text in the Basic Multilingual Plane are its UTF-16
/// code units: counting in either gives the same.
pub proof fn lemma_chars_before_in_plane(text: Seq<char>, units: int)
    requires
        0 <= units,
        forall|i: int| 0 <= i < text.len() ==> utf16_width(text[i]) == 1,
    ensures
        chars_before(text, units) == if units <= text.len() {
            units
        } else {
            text.len() as int
        },
    decreases text.len(),
{
    if text.len() > 0 && units > 0 {
        lemma_chars_before_in_plane(text.drop_first(), units - 1);
    }
}

/// What a message holds, as far as links are concerned.
#[derive(Debug)]
pub enum MessageContent {
    /// A text with its entities.
    Text { text: String, entities: Vec<Entity> },
    /// A message without text entities: media, a service message.
    Other,
}

/// Counts the characters that `chars` yields before `units` code units of
/// them have gone by, and tells by how many code units the last of them
/// reaches beyond.
fn skip_units(chars: &mut Chars<'_>, units: usize) -> (counted: (usize, usize))
    ensures
        counted.0 == chars_before((*old(chars)).remaining(), units as int),
        counted.0 <= units,
        counted.1 <= 1,
        (*final(chars)).remaining() == (*old(chars)).remaining().skip(counted.0 as int),
        counted.0 <= (*old(chars)).remaining().len(),
        forall|total: int|
            units <= total ==> #[trigger] chars_before((*old(chars)).remaining(), total) == counted.0
                + chars_before((*final(chars)).remaining(), total - units - counted.1),
{
    broadcast use vstd::string::group_string_axioms;

    let ghost all = (*chars).remaining();
    let mut count: usize = 0;
    let mut left: usize = units;
    let mut beyond: usize = 0;
    loop
        invariant
            count + left <= units,
            beyond <= 1,
            beyond == 1 ==> left == 0,
            all == (*old(chars)).remaining(),
            count <= all.len(),
            (*chars).remaining() == all.skip(count as int),
            (*chars).obeys_prophetic_iter_laws(),
            forall|total: int|
                units <= total ==> #[trigger] chars_before(all, total) == count + chars_before(
                    (*chars).remaining(),
                    total - units + left - beyond,
                ),
        decreases left,
    {
        if left == 0 {
            return (count, beyond);
        }
        match chars.next() {
            None => {
                return (count, 0);
            },
            Some(c) => {
                let width: usize = if (c as u32) < 0x1_0000 { 1 } else { 2 };
                count = count + 1;
                if width > left {
                    beyond = width - left;
                    left = 0;
                } else {
                    left = left - width;
                }
            },
        }
    }
}

/// The characters of `text` from `start` up to `end`, both cut down to the
/// length of `text`; nothing where `end` does not lie after `start`.
pub open spec fn substring_of(text: Seq<char>, start: int, end: int) -> Seq<char> {
    if end <= start {
        Seq::empty()
    } else if start >= text.len() {
        Seq::empty()
    } else if end >= text.len() {
        text.subrange(start, text.len() as int)
    } else {
        text.subrange(start, end)
    }
}

/// The part of `text` that `entity` marks.
pub open spec fn entity_text(text: Seq<char>, entity: Entity) -> Seq<char> {
    substring_of(text, entity.offset as int, entity.offset + entity.length)
}

/// The links of a text: what its `Url` entities mark, in their order.
pub open spec fn urls_of(text: Seq<char>, entities: Seq<Entity>) -> Seq<Seq<char>>
    decreases entities.len(),
{
    if entities.len() == 0 {
        Seq::empty()
    } else if entities.last().kind == EntityKind::Url {
        urls_of(text, entities.drop_last()).push(entity_text(text, entities.last()))
    } else {
        urls_of(text, entities.drop_last())
    }
}

/// The links of a message.
pub open spec fn urls_in(content: &MessageContent) -> Seq<Seq<char>> {
    match content {
        MessageContent::Text { text, entities } => urls_of(text@, entities@),
        MessageContent::Other => Seq::empty(),
    }
}

/// `urls[k]` is in the cache when its turn comes: `recent` held it already,
/// or an earlier link of `urls` was the same and is still cached.
pub open spec fn is_repost(recent: Seq<Seq<char>>, urls: Seq<Seq<char>>, limit: nat, k: int) -> bool {
    &&& 0 <= k < urls.len()
    &&& after_pushes(recent, urls.take(k), limit).contains(urls[k])
}

/// The search through `urls` ends at `k`: at the first repost, or at
/// `urls.len()` where there is none.
pub open spec fn search_ends_at(
    recent: Seq<Seq<char>>,
    urls: Seq<Seq<char>>,
    limit: nat,
    k: int,
) -> bool {
    &&& 0 <= k <= urls.len()
    &&& forall|j: int| 0 <= j < k ==> !is_repost(recent, urls, limit, j)
    &&& k < urls.len() ==> is_repost(recent, urls, limit, k)
}

/// Where the search through `urls` ends.
pub open spec fn first_repost(recent: Seq<Seq<char>>, urls: Seq<Seq<char>>, limit: nat) -> int {
    choose|k: int| search_ends_at(recent, urls, limit, k)
}

impl Entity {
    /// Makes the entity of the part of `text` that begins at code unit
    /// `offset` of its UTF-16 form and is `length` code units long. Where
    /// one of the two ends lies inside a character, the entity ends, or
    /// begins, behind that character.
    pub fn from_utf16(kind: EntityKind, text: &str, offset: usize, length: usize) -> (entity: Entity)
        ensures
            entity == entity_of_utf16(kind, text@, offset as int, length as int),
            entity.offset <= offset,
            entity.length <= length,
            entity.offset + entity.length <= text@.len(),
    {
        broadcast use vstd::string::group_string_axioms;

        let mut chars = text.chars();
        let skipped = skip_units(&mut chars, offset);
        let ghost rest = chars.remaining();
        let within: usize = if skipped.1 > length {
            0
        } else {
            length - skipped.1
        };
        let taken = skip_units(&mut chars, within);
        proof {
            lemma_chars_before_step(text@, offset as int, length as int);
            lemma_chars_before_bounds(rest, 0);
        }
        Entity { kind, offset: skipped.0, length: taken.0 }
    }
}

/// The search through the first `count` of `urls` ends somewhere.
proof fn lemma_search_ends(
    recent: Seq<Seq<char>>,
    urls: Seq<Seq<char>>,
    limit: nat,
    count: int,
) -> (k: int)
    requires
        0 <= count <= urls.len(),
    ensures
        0 <= k <= count,
        forall|j: int| 0 <= j < k ==> !is_repost(recent, urls, limit, j),
        k < count ==> is_repost(recent, urls, limit, k),
    decreases count,
{
    if count == 0 {
        0
    } else {
        let k = lemma_search_ends(recent, urls, limit, count - 1);
        if k < count - 1 || is_repost(recent, urls, limit, count - 1) {
            k
        } else {
            count
        }
    }
}

/// The search through `urls` ends where `first_repost` says.
pub proof fn lemma_first_repost(recent: Seq<Seq<char>>, urls: Seq<Seq<char>>, limit: nat)
    ensures
        search_ends_at(recent, urls, limit, first_repost(recent, urls, limit)),
{
    let k = lemma_search_ends(recent, urls, limit, urls.len() as int);
    assert(search_ends_at(recent, urls, limit, k));
}

/// The search ends at one place only.
pub proof fn lemma_first_repost_is(
    recent: Seq<Seq<char>>,
    urls: Seq<Seq<char>>,
    limit: nat,
    k: int,
)
    requires
        search_ends_at(recent, urls, limit, k),
    ensures
        first_repost(recent, urls, limit) == k,
{
}

/// `substring::Substring::substring` on `str`: the characters of `text` with
/// an index from `start_index` up to `end_index`. The crate counts Unicode
/// scalar values, returns what is left of the text where an index lies
/// behind its end, and the empty string where `end_index <= start_index`.
/// Nothing is proved of this function: its contract is taken on trust.
#[verifier::external_body]
fn substring<'a>(text: &'a str, start_index: usize, end_index: usize) -> (part: &'a str)
    ensures
        part@ == substring_of(text@, start_index as int, end_index as int),
{
    text.substring(start_index, end_index)
}

/// Cuts the links out of `text`: what its `Url` entities mark, in their order.
pub fn extract_urls(text: &str, entities: &Vec<Entity>) -> (urls: Vec<String>)
    ensures
        urls.deep_view() == urls_of(text@, entities@),
{
    // The count bounds the length of the text: an end that saturates below
    // still lies behind the last character.
    let characters: usize = text.unicode_len();
    let mut urls: Vec<String> = Vec::new();
    let mut i: usize = 0;
    while i < entities.len()
        invariant
            i <= entities.len(),
            characters == text@.len(),
            urls.deep_view() == urls_of(text@, entities@.take(i as int)),
        decreases entities.len() - i,
    {
        let entity = entities[i];
        assert(entities@.take(i + 1).drop_last() =~= entities@.take(i as int));
        if entity.kind == EntityKind::Url {
            let end: usize = entity.offset.saturating_add(entity.length);
            let url = String::from_str(substring(text, entity.offset, end));
            urls.push(url);
        }
        i += 1;
    }
    assert(entities@.take(entities.len() as int) =~= entities@);
    urls
}

/// Looks each of `urls` up among the recent links, in order. The first one
/// found ends the search with `true`; a link not found is recorded.
pub fn check_and_record(urls: &Vec<String>, recents: &mut RecencyCache<String>) -> (found: bool)
    ensures
        final(recents).limit() == old(recents).limit(),
        final(recents)@.len() <= final(recents).limit(),
        found == (first_repost(old(recents).texts(), urls.deep_view(), old(recents).limit())
            < urls.len()),
        final(recents).texts() == after_pushes(
            old(recents).texts(),
            urls.deep_view().take(
                first_repost(old(recents).texts(), urls.deep_view(), old(recents).limit()),
            ),
            old(recents).limit(),
        ),
{
    let ghost recent = recents.texts();
    let ghost limit = recents.limit();
    let ghost all = urls.deep_view();
    let mut i: usize = 0;
    proof {
        use_type_invariant(&*recents);
        lemma_after_no_pushes(recent, limit);
    }
    while i < urls.len()
        invariant
            i <= urls.len(),
            all == urls.deep_view(),
            recent == old(recents).texts(),
            limit == old(recents).limit(),
            recents.limit() == limit,
            recents.texts() == after_pushes(recent, all.take(i as int), limit),
            forall|j: int| 0 <= j < i ==> !is_repost(recent, all, limit, j),
        decreases urls.len() - i,
    {
        if recents.contains_equal(&urls[i]) {
            proof {
                lemma_first_repost_is(recent, all, limit, i as int);
            }
            return true;
        }
        let url = urls[i].clone();
        recents.push_front(url);
        proof {
            assert(all.take(i + 1) =~= all.take(i as int).push(url@));
            lemma_after_pushes_step(recent, all.take(i as int), url@, limit);
        }
        i += 1;
    }
    proof {
        lemma_first_repost_is(recent, all, limit, urls.len() as int);
    }
    false
}

/// Tells whether `message_content` repeats a link that was posted recently.
///
/// The links of a text message are looked up and recorded as
/// `check_and_record` does. Any other message holds no link: the answer is
/// `false` and nothing is recorded.
pub fn get_links_posted_recently(
    message_content: &MessageContent,
    recents: &mut RecencyCache<String>,
) -> (found: bool)
    ensures
        final(recents).limit() == old(recents).limit(),
        final(recents)@.len() <= final(recents).limit(),
        found == (first_repost(
            old(recents).texts(),
            urls_in(message_content),
            old(recents).limit(),
        ) < urls_in(message_content).len()),
        final(recents).texts() == after_pushes(
            old(recents).texts(),
            urls_in(message_content).take(
                first_repost(old(recents).texts(), urls_in(message_content), old(recents).limit()),
            ),
            old(recents).limit(),
        ),
{
    match message_content {
        MessageContent::Text { text, entities } => {
            let urls = extract_urls(text.as_str(), entities);
            check_and_record(&urls, recents)
        },
        MessageContent::Other => {
            proof {
                use_type_invariant(&*recents);
                let recent = recents.texts();
                let none = Seq::<Seq<char>>::empty();
                lemma_first_repost_is(recent, none, recents.limit(), 0);
                lemma_after_no_pushes(recent, recents.limit());
            }
            false
        },
    }
}

} // verus!
