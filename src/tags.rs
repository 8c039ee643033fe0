//! Filename tag parser: turns a filename such as
//! `sunset_coast+location-okinawa_rating-5.png` into normalized tags.
use vstd::prelude::*;
use crate::text::{
    append_chars, chars_of, copy_range, find_char, index_of, is_space, is_whitespace, lower_of,
    string_from_chars, to_lowercase, trim, trim_chars,
};

verus! {

/// Distinguishes between simple tags and key/value attributes.
#[derive(Clone, Copy, Debug, PartialEq, Eq, Structural)]
pub enum TagKind {
    Simple,
    KeyValue,
}

/// Normalized tag representation produced from filenames.
#[derive(Debug)]
pub struct Tag {
    pub raw_token: String,
    pub kind: TagKind,
    pub name: String,
    pub value: Option<String>,
    pub normalized: String,
}

impl Clone for Tag {
    fn clone(&self) -> (r: Self)
        ensures
            r == *self,
    {
        let value = match &self.value {
            Some(v) => Some(v.clone()),
            None => None,
        };
        Tag {
            raw_token: self.raw_token.clone(),
            kind: self.kind,
            name: self.name.clone(),
            value,
            normalized: self.normalized.clone(),
        }
    }
}

/// What a [`Tag`] holds, as character sequences.
pub struct TagView {
    pub raw_token: Seq<char>,
    pub kind: TagKind,
    pub name: Seq<char>,
    pub value: Option<Seq<char>>,
    pub normalized: Seq<char>,
}

pub open spec fn opt_str_view(o: Option<String>) -> Option<Seq<char>> {
    match o {
        Some(s) => Some(s@),
        None => None,
    }
}

impl View for Tag {
    type V = TagView;

    open spec fn view(&self) -> TagView {
        TagView {
            raw_token: self.raw_token@,
            kind: self.kind,
            name: self.name@,
            value: opt_str_view(self.value),
            normalized: self.normalized@,
        }
    }
}

/// Result of parsing a filename into tags.
#[derive(Debug)]
pub struct TagParseResult {
    pub tags: Vec<Tag>,
    pub invalid_tokens: Vec<String>,
}

/// The normalized form of a tag: its name, or `name=value` for a key/value tag.
pub open spec fn normal_form(kind: TagKind, name: Seq<char>, value: Option<Seq<char>>) -> Seq<
    char,
> {
    match kind {
        TagKind::Simple => name,
        TagKind::KeyValue => match value {
            Some(v) => name + seq!['='] + v,
            None => name + seq!['='],
        },
    }
}

/// Trimmed and lowercased.
pub open spec fn normalize_simple_spec(s: Seq<char>) -> Seq<char> {
    lower_of(trim(s))
}

/// The two halves of a classified token.
pub enum TagPartsView {
    Simple(Seq<char>),
    KeyValue(Seq<char>, Seq<char>),
}

/// Splits `t` at its first `d` into trimmed halves, both non-empty.
pub open spec fn split_kv_spec(t: Seq<char>, d: char) -> Option<(Seq<char>, Seq<char>)> {
    let i = index_of(t, d);
    if i >= t.len() {
        None
    } else {
        let key = trim(t.subrange(0, i));
        let value = trim(t.subrange(i + 1, t.len() as int));
        if key.len() == 0 || value.len() == 0 {
            None
        } else {
            Some((key, value))
        }
    }
}

pub open spec fn has_kv_delimiter(t: Seq<char>) -> bool {
    index_of(t, ':') < t.len() || index_of(t, '-') < t.len()
}

/// A token with `:` or `-` is a key/value pair split at the first `:`, or
/// failing that at the first `-`; else it is a simple tag.
pub open spec fn classify_spec(t: Seq<char>) -> Option<TagPartsView> {
    if has_kv_delimiter(t) {
        match split_kv_spec(t, ':') {
            Some(kv) => Some(TagPartsView::KeyValue(kv.0, kv.1)),
            None => match split_kv_spec(t, '-') {
                Some(kv) => Some(TagPartsView::KeyValue(kv.0, kv.1)),
                None => None,
            },
        }
    } else if trim(t).len() == 0 {
        None
    } else {
        Some(TagPartsView::Simple(trim(t)))
    }
}

pub open spec fn tag_from_parts(raw: Seq<char>, parts: TagPartsView) -> TagView {
    match parts {
        TagPartsView::Simple(name) => {
            let n = normalize_simple_spec(name);
            TagView { raw_token: raw, kind: TagKind::Simple, name: n, value: None, normalized: n }
        },
        TagPartsView::KeyValue(key, value) => {
            let n = normalize_simple_spec(key);
            let v = normalize_simple_spec(value);
            TagView {
                raw_token: raw,
                kind: TagKind::KeyValue,
                name: n,
                value: Some(v),
                normalized: n + seq!['='] + v,
            }
        },
    }
}

/// Tags and invalid tokens, in encounter order.
pub struct ParseView {
    pub tags: Seq<TagView>,
    pub invalid: Seq<Seq<char>>,
}

/// Adds one token to what was parsed before it.
pub open spec fn add_token_spec(acc: ParseView, token: Seq<char>) -> ParseView {
    let raw = trim(token);
    if raw.len() == 0 {
        acc
    } else {
        match classify_spec(raw) {
            Some(parts) => ParseView { tags: acc.tags.push(tag_from_parts(raw, parts)), ..acc },
            None => ParseView { invalid: acc.invalid.push(raw), ..acc },
        }
    }
}

pub open spec fn parse_tokens_spec(tokens: Seq<Seq<char>>) -> ParseView
    decreases tokens.len(),
{
    if tokens.len() == 0 {
        ParseView { tags: seq![], invalid: seq![] }
    } else {
        add_token_spec(parse_tokens_spec(tokens.drop_last()), tokens.last())
    }
}

pub open spec fn is_delimiter(c: char) -> bool {
    c == '_' || c == '+' || is_space(c)
}

/// `s` split at every delimiter, empty pieces included, as `str::split` does.
pub open spec fn split_tokens(s: Seq<char>) -> Seq<Seq<char>>
    decreases s.len(),
{
    if s.len() == 0 {
        seq![Seq::empty()]
    } else {
        let init = split_tokens(s.drop_last());
        if is_delimiter(s.last()) {
            init.push(Seq::empty())
        } else {
            init.update(init.len() - 1, init.last().push(s.last()))
        }
    }
}

/// The part of a filename before its first `.`.
pub open spec fn stem_of(filename: Seq<char>) -> Seq<char> {
    filename.subrange(0, index_of(filename, '.'))
}

/// What parsing `filename` yields.
pub open spec fn parse_spec(filename: Seq<char>) -> ParseView {
    parse_tokens_spec(split_tokens(stem_of(filename)))
}

pub open spec fn tags_view(tags: Seq<Tag>) -> Seq<TagView> {
    tags.map_values(|t: Tag| t@)
}

pub open spec fn strings_view(v: Seq<String>) -> Seq<Seq<char>> {
    v.map_values(|s: String| s@)
}

impl TagParseResult {
    pub open spec fn view_parse(&self) -> ParseView {
        ParseView { tags: tags_view(self.tags@), invalid: strings_view(self.invalid_tokens@) }
    }
}

pub proof fn lemma_split_tokens_nonempty(s: Seq<char>)
    ensures
        split_tokens(s).len() >= 1,
    decreases s.len(),
{
    if s.len() > 0 {
        lemma_split_tokens_nonempty(s.drop_last());
    }
}

/// Parsing is a function of the filename alone, and every tag it yields
/// carries the normalized form of its own kind, name and value: a simple tag
/// has no value, a key/value tag has one.
pub proof fn parse_is_deterministic_and_normalized(a: Seq<char>, b: Seq<char>)
    requires
        a == b,
    ensures
        parse_spec(a) == parse_spec(b),
        forall|i: int|
            0 <= i < parse_spec(a).tags.len() ==> {
                let t = #[trigger] parse_spec(a).tags[i];
                &&& t.normalized == normal_form(t.kind, t.name, t.value)
                &&& (t.kind == TagKind::Simple <==> t.value is None)
            },
{
    lemma_parse_tokens_normalized(split_tokens(stem_of(a)));
}

proof fn lemma_parse_tokens_normalized(tokens: Seq<Seq<char>>)
    ensures
        forall|i: int|
            0 <= i < parse_tokens_spec(tokens).tags.len() ==> {
                let t = #[trigger] parse_tokens_spec(tokens).tags[i];
                &&& t.normalized == normal_form(t.kind, t.name, t.value)
                &&& (t.kind == TagKind::Simple <==> t.value is None)
            },
    decreases tokens.len(),
{
    if tokens.len() > 0 {
        lemma_parse_tokens_normalized(tokens.drop_last());
    }
}

enum TagParts {
    Simple { name: Vec<char> },
    KeyValue { key: Vec<char>, value: Vec<char> },
}

spec fn parts_view(p: Option<TagParts>) -> Option<TagPartsView> {
    match p {
        Some(TagParts::Simple { name }) => Some(TagPartsView::Simple(name@)),
        Some(TagParts::KeyValue { key, value }) => Some(TagPartsView::KeyValue(key@, value@)),
        None => None,
    }
}

/// Parse the tag tokens from a filename (without directories).
///
/// Tokens are separated by `_`, `+` or whitespace, with key/value pairs
/// written `key-value` (or `key:value`). Returns the parsed tags plus the
/// tokens that could not be classified.
pub fn parse_filename_tokens(filename: &str) -> (r: TagParseResult)
    ensures
        r.view_parse() == parse_spec(filename@),
{
    let chars = chars_of(filename);
    let stem_len = find_char(&chars, '.');
    let ghost stem = chars@.subrange(0, stem_len as int);
    let mut result = TagParseResult { tags: Vec::new(), invalid_tokens: Vec::new() };
    let mut current: Vec<char> = Vec::new();
    let ghost mut done: Seq<Seq<char>> = seq![];
    assert(result.view_parse().tags =~= seq![]);
    assert(result.view_parse().invalid =~= seq![]);
    assert(stem.subrange(0, 0) =~= Seq::<char>::empty());
    let mut i: usize = 0;
    while i < stem_len
        invariant
            stem_len <= chars.len(),
            stem == chars@.subrange(0, stem_len as int),
            i <= stem_len,
            split_tokens(stem.subrange(0, i as int)) == done.push(current@),
            result.view_parse() == parse_tokens_spec(done),
        decreases stem_len - i,
    {
        let c = chars[i];
        let ghost prefix = stem.subrange(0, i as int);
        assert(stem.subrange(0, i + 1).drop_last() =~= prefix);
        assert(stem.subrange(0, i + 1).last() == c);
        if c == '_' || c == '+' || is_whitespace(c) {
            push_token(&mut result, &current);
            proof {
                assert(done.push(current@).drop_last() =~= done);
                done = done.push(current@);
            }
            current = Vec::new();
        } else {
            proof {
                lemma_split_tokens_nonempty(prefix);
                assert(done.push(current@).update(done.len() as int, current@.push(c))
                    =~= done.push(current@.push(c)));
            }
            current.push(c);
        }
        i += 1;
    }
    assert(stem.subrange(0, stem_len as int) =~= stem);
    proof {
        assert(chars@ == filename@);
        assert(done.push(current@).drop_last() =~= done);
    }
    push_token(&mut result, &current);
    result
}

/// Appends the classification of one token to `result`.
fn push_token(result: &mut TagParseResult, token: &Vec<char>)
    ensures
        final(result).view_parse() == add_token_spec(old(result).view_parse(), token@),
{
    let raw = trim_chars(token);
    if raw.len() == 0 {
        return ;
    }
    let raw_token = string_from_chars(raw.as_slice());
    match classify_token(&raw) {
        Some(TagParts::Simple { name }) => {
            let normalized = normalize_simple(&name);
            let tag = Tag {
                raw_token,
                kind: TagKind::Simple,
                name: normalized.clone(),
                value: None,
                normalized,
            };
            result.tags.push(tag);
            assert(tags_view(result.tags@) =~= tags_view(old(result).tags@).push(tag@));
        },
        Some(TagParts::KeyValue { key, value }) => {
            let name = normalize_simple(&key);
            let normalized_value = normalize_simple(&value);
            let mut joined = chars_of(name.as_str());
            joined.push('=');
            append_chars(&mut joined, &chars_of(normalized_value.as_str()));
            assert(joined@ =~= name@ + seq!['='] + normalized_value@);
            let normalized = string_from_chars(joined.as_slice());
            let tag = Tag {
                raw_token,
                kind: TagKind::KeyValue,
                name,
                value: Some(normalized_value),
                normalized,
            };
            result.tags.push(tag);
            assert(tags_view(result.tags@) =~= tags_view(old(result).tags@).push(tag@));
        },
        None => {
            result.invalid_tokens.push(raw_token);
            assert(strings_view(result.invalid_tokens@) =~= strings_view(
                old(result).invalid_tokens@,
            ).push(raw@));
        },
    }
}

fn classify_token(token: &Vec<char>) -> (r: Option<TagParts>)
    ensures
        parts_view(r) == classify_spec(token@),
{
    let colon = find_char(token, ':');
    let dash = find_char(token, '-');
    if colon < token.len() || dash < token.len() {
        match split_kv(token, ':') {
            Some((key, value)) => Some(TagParts::KeyValue { key, value }),
            None => match split_kv(token, '-') {
                Some((key, value)) => Some(TagParts::KeyValue { key, value }),
                None => None,
            },
        }
    } else {
        let normalized = trim_chars(token);
        if normalized.len() == 0 {
            None
        } else {
            Some(TagParts::Simple { name: normalized })
        }
    }
}

fn split_kv(token: &Vec<char>, delimiter: char) -> (r: Option<(Vec<char>, Vec<char>)>)
    ensures
        match r {
            Some((k, v)) => split_kv_spec(token@, delimiter) == Some((k@, v@)),
            None => split_kv_spec(token@, delimiter) is None,
        },
{
    let idx = find_char(token, delimiter);
    if idx >= token.len() {
        return None;
    }
    let key = trim_chars(&copy_range(token, 0, idx));
    let value = trim_chars(&copy_range(token, idx + 1, token.len()));
    if key.len() == 0 || value.len() == 0 {
        return None;
    }
    Some((key, value))
}

fn normalize_simple(token: &Vec<char>) -> (r: String)
    ensures
        r@ == normalize_simple_spec(token@),
{
    let trimmed = string_from_chars(trim_chars(token).as_slice());
    to_lowercase(trimmed.as_str())
}

} // verus!
