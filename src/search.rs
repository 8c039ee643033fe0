//! Query engine: normalized queries and their evaluation over a snapshot,
//! with AND/OR filter semantics and deterministic pagination.
use vstd::prelude::*;
use crate::cache::CacheSnapshot;
use crate::indexer::{attr_lookup, media_view, pairs_view, MediaFile, MediaFileView};
use crate::tags::{opt_str_view, strings_view, TagKind, TagView};
use crate::text::{chars_of, lower_of, string_from_chars, to_lowercase, trim, trim_chars};

verus! {

/// Page size used when a query asks for none.
pub const DEFAULT_PAGE_SIZE: usize = 60;

/// Largest page size a query may ask for.
pub const MAX_PAGE_SIZE: usize = 200;

pub open spec fn normalize_page_spec(page: usize) -> usize {
    if page == 0 {
        1
    } else {
        page
    }
}

pub open spec fn normalize_page_size_spec(page_size: usize) -> usize {
    if page_size == 0 {
        DEFAULT_PAGE_SIZE
    } else if page_size > MAX_PAGE_SIZE {
        MAX_PAGE_SIZE
    } else {
        page_size
    }
}

/// Trimmed and lowercased, or nothing when only whitespace is left.
pub open spec fn normalize_token_spec(s: Seq<char>) -> Option<Seq<char>> {
    if trim(s).len() == 0 {
        None
    } else {
        Some(lower_of(trim(s)))
    }
}

/// The normalized tokens of `s`, each once, in order of first appearance.
pub open spec fn distinct_tokens(s: Seq<Seq<char>>) -> Seq<Seq<char>>
    decreases s.len(),
{
    if s.len() == 0 {
        seq![]
    } else {
        let prev = distinct_tokens(s.drop_last());
        match normalize_token_spec(s.last()) {
            Some(n) => if prev.contains(n) {
                prev
            } else {
                prev.push(n)
            },
            None => prev,
        }
    }
}

pub open spec fn has_filter(filters: Seq<(Seq<char>, Seq<Seq<char>>)>, key: Seq<char>) -> bool {
    exists|i: int| 0 <= i < filters.len() && #[trigger] filters[i].0 == key
}

/// Attribute filters from raw name/values pairs: names and values are
/// normalized, a name without any value is dropped, and the first entry for
/// a name wins.
pub open spec fn filters_spec(attrs: Seq<(Seq<char>, Seq<Seq<char>>)>) -> Seq<
    (Seq<char>, Seq<Seq<char>>),
>
    decreases attrs.len(),
{
    if attrs.len() == 0 {
        seq![]
    } else {
        let prev = filters_spec(attrs.drop_last());
        let entry = attrs.last();
        match normalize_token_spec(entry.0) {
            Some(key) => {
                let values = distinct_tokens(entry.1);
                if values.len() == 0 || has_filter(prev, key) {
                    prev
                } else {
                    prev.push((key, values))
                }
            },
            None => prev,
        }
    }
}

/// A normalized search query.
pub struct QueryView {
    pub required: Seq<Seq<char>>,
    pub filters: Seq<(Seq<char>, Seq<Seq<char>>)>,
    pub page: usize,
    pub page_size: usize,
}

pub open spec fn raw_filters_view(v: Seq<(String, Vec<String>)>) -> Seq<
    (Seq<char>, Seq<Seq<char>>),
> {
    v.map_values(|p: (String, Vec<String>)| (p.0@, strings_view(p.1@)))
}

/// Normalized, validated search input.
#[derive(Debug)]
pub struct SearchQuery {
    required_tags: Vec<String>,
    attribute_filters: Vec<(String, Vec<String>)>,
    page: usize,
    page_size: usize,
}

impl View for SearchQuery {
    type V = QueryView;

    closed spec fn view(&self) -> QueryView {
        QueryView {
            required: strings_view(self.required_tags@),
            filters: raw_filters_view(self.attribute_filters@),
            page: self.page,
            page_size: self.page_size,
        }
    }
}

impl SearchQuery {
    #[verifier::type_invariant]
    closed spec fn wf(&self) -> bool {
        1 <= self.page && 1 <= self.page_size <= MAX_PAGE_SIZE
    }

    /// Builds a query: tags are trimmed, lowercased and deduplicated; attribute
    /// names and values likewise, names without values dropped; a zero page
    /// becomes 1, a zero page size the default, and a page size above the
    /// maximum the maximum.
    pub fn new(
        tags: Vec<String>,
        attributes: Vec<(String, Vec<String>)>,
        page: usize,
        page_size: usize,
    ) -> (r: SearchQuery)
        ensures
            r@.required == distinct_tokens(strings_view(tags@)),
            r@.filters == filters_spec(raw_filters_view(attributes@)),
            r@.page == normalize_page_spec(page),
            r@.page_size == normalize_page_size_spec(page_size),
    {
        let required_tags = normalized_distinct(&tags);
        let attribute_filters = normalize_filters(&attributes);
        SearchQuery {
            required_tags,
            attribute_filters,
            page: normalize_page(page),
            page_size: normalize_page_size(page_size),
        }
    }

    /// The tags every match must carry.
    pub fn required_tags(&self) -> (r: &[String])
        ensures
            strings_view(r@) == self@.required,
    {
        self.required_tags.as_slice()
    }

    /// Attribute name to accepted values.
    pub fn attribute_filters(&self) -> (r: &[(String, Vec<String>)])
        ensures
            raw_filters_view(r@) == self@.filters,
    {
        self.attribute_filters.as_slice()
    }

    /// The 1-based page number.
    pub fn page(&self) -> (r: usize)
        ensures
            r == self@.page,
            r >= 1,
    {
        proof {
            use_type_invariant(self);
        }
        self.page
    }

    /// The number of items per page.
    pub fn page_size(&self) -> (r: usize)
        ensures
            r == self@.page_size,
            1 <= r <= MAX_PAGE_SIZE,
    {
        proof {
            use_type_invariant(self);
        }
        self.page_size
    }
}

impl Default for SearchQuery {
    fn default() -> (r: SearchQuery)
        ensures
            r@.required == Seq::<Seq<char>>::empty(),
            r@.filters == Seq::<(Seq<char>, Seq<Seq<char>>)>::empty(),
            r@.page == 1,
            r@.page_size == DEFAULT_PAGE_SIZE,
    {
        let r = SearchQuery {
            required_tags: Vec::new(),
            attribute_filters: Vec::new(),
            page: 1,
            page_size: DEFAULT_PAGE_SIZE,
        };
        assert(r@.required =~= Seq::<Seq<char>>::empty());
        assert(r@.filters =~= Seq::<(Seq<char>, Seq<Seq<char>>)>::empty());
        r
    }
}

/// A zero page number becomes page 1.
pub fn normalize_page(page: usize) -> (r: usize)
    ensures
        r == normalize_page_spec(page),
{
    if page == 0 {
        1
    } else {
        page
    }
}

/// A zero page size becomes the default; larger than the maximum, the maximum.
pub fn normalize_page_size(page_size: usize) -> (r: usize)
    ensures
        r == normalize_page_size_spec(page_size),
{
    if page_size == 0 {
        DEFAULT_PAGE_SIZE
    } else if page_size > MAX_PAGE_SIZE {
        MAX_PAGE_SIZE
    } else {
        page_size
    }
}

/// Normalizing a page number or a page size a second time changes nothing.
pub proof fn normalization_is_idempotent(page: usize, page_size: usize)
    ensures
        normalize_page_spec(normalize_page_spec(page)) == normalize_page_spec(page),
        normalize_page_size_spec(normalize_page_size_spec(page_size)) == normalize_page_size_spec(
            page_size,
        ),
        normalize_page_spec(page) >= 1,
        1 <= normalize_page_size_spec(page_size) <= MAX_PAGE_SIZE,
{
}

/// Trims and lowercases a token, or drops it when nothing is left.
pub fn normalize_token(token: &String) -> (r: Option<String>)
    ensures
        opt_str_view(r) == normalize_token_spec(token@),
{
    let trimmed = trim_chars(&chars_of(token.as_str()));
    if trimmed.len() == 0 {
        None
    } else {
        let s = string_from_chars(trimmed.as_slice());
        Some(to_lowercase(s.as_str()))
    }
}

/// Whether `v` holds a string equal to `s`.
pub fn contains_string(v: &[String], s: &String) -> (r: bool)
    ensures
        r == strings_view(v@).contains(s@),
{
    let mut i: usize = 0;
    while i < v.len()
        invariant
            i <= v.len(),
            forall|j: int| 0 <= j < i ==> v@[j]@ != s@,
        decreases v.len() - i,
    {
        if v[i] == *s {
            assert(strings_view(v@)[i as int] == s@);
            return true;
        }
        i += 1;
    }
    assert forall|j: int| 0 <= j < strings_view(v@).len() implies strings_view(v@)[j] != s@ by {
        assert(strings_view(v@)[j] == v@[j]@);
    }
    false
}

fn normalized_distinct(tokens: &Vec<String>) -> (r: Vec<String>)
    ensures
        strings_view(r@) == distinct_tokens(strings_view(tokens@)),
{
    let ghost tv = strings_view(tokens@);
    let mut out: Vec<String> = Vec::new();
    let mut i: usize = 0;
    assert(tv.subrange(0, 0) =~= Seq::<Seq<char>>::empty());
    assert(strings_view(out@) =~= seq![]);
    while i < tokens.len()
        invariant
            i <= tokens.len(),
            tv == strings_view(tokens@),
            strings_view(out@) == distinct_tokens(tv.subrange(0, i as int)),
        decreases tokens.len() - i,
    {
        assert(tv.subrange(0, i + 1).drop_last() =~= tv.subrange(0, i as int));
        assert(tv.subrange(0, i + 1).last() == tokens@[i as int]@);
        match normalize_token(&tokens[i]) {
            Some(n) => {
                if !contains_string(out.as_slice(), &n) {
                    let ghost before = out@;
                    out.push(n);
                    assert(strings_view(out@) =~= strings_view(before).push(n@));
                }
            },
            None => {},
        }
        i += 1;
    }
    assert(tv.subrange(0, tokens.len() as int) =~= tv);
    out
}

fn filters_contain(filters: &Vec<(String, Vec<String>)>, key: &String) -> (r: bool)
    ensures
        r == has_filter(raw_filters_view(filters@), key@),
{
    let ghost fv = raw_filters_view(filters@);
    let mut i: usize = 0;
    while i < filters.len()
        invariant
            i <= filters.len(),
            fv == raw_filters_view(filters@),
            forall|j: int| 0 <= j < i ==> fv[j].0 != key@,
        decreases filters.len() - i,
    {
        if filters[i].0 == *key {
            assert(fv[i as int].0 == key@);
            return true;
        }
        i += 1;
    }
    false
}

fn normalize_filters(attributes: &Vec<(String, Vec<String>)>) -> (r: Vec<(String, Vec<String>)>)
    ensures
        raw_filters_view(r@) == filters_spec(raw_filters_view(attributes@)),
{
    let ghost av = raw_filters_view(attributes@);
    let mut out: Vec<(String, Vec<String>)> = Vec::new();
    let mut i: usize = 0;
    assert(av.subrange(0, 0) =~= Seq::<(Seq<char>, Seq<Seq<char>>)>::empty());
    assert(raw_filters_view(out@) =~= seq![]);
    while i < attributes.len()
        invariant
            i <= attributes.len(),
            av == raw_filters_view(attributes@),
            raw_filters_view(out@) == filters_spec(av.subrange(0, i as int)),
        decreases attributes.len() - i,
    {
        assert(av.subrange(0, i + 1).drop_last() =~= av.subrange(0, i as int));
        assert(av.subrange(0, i + 1).last() == av[i as int]);
        let (key, values) = &attributes[i];
        match normalize_token(key) {
            Some(k) => {
                let vs = normalized_distinct(values);
                if vs.len() > 0 && !filters_contain(&out, &k) {
                    let ghost before = out@;
                    out.push((k, vs));
                    assert(raw_filters_view(out@) =~= raw_filters_view(before).push(
                        (k@, strings_view(vs@)),
                    ));
                }
            },
            None => {},
        }
        i += 1;
    }
    assert(av.subrange(0, attributes.len() as int) =~= av);
    out
}

/// A required tag is met by a tag whose normalized form or whose name equals
/// it, so `camera` is met by `camera=alpha`.
pub open spec fn tag_meets(t: TagView, required: Seq<char>) -> bool {
    t.normalized == required || t.name == required
}

pub open spec fn has_required_tag(m: MediaFileView, required: Seq<char>) -> bool {
    exists|i: int| 0 <= i < m.tags.len() && tag_meets(#[trigger] m.tags[i], required)
}

pub open spec fn matches_required_tags(m: MediaFileView, required: Seq<Seq<char>>) -> bool {
    forall|j: int| 0 <= j < required.len() ==> has_required_tag(m, #[trigger] required[j])
}

/// `t` is a key/value tag named `key` whose value is accepted.
pub open spec fn tag_accepts(t: TagView, key: Seq<char>, accepted: Seq<Seq<char>>) -> bool {
    t.kind == TagKind::KeyValue && t.name == key && t.value is Some && accepted.contains(
        t.value->0,
    )
}

/// Some key/value tag named `key` carries an accepted value.
pub open spec fn kv_tag_accepts(m: MediaFileView, key: Seq<char>, accepted: Seq<Seq<char>>) -> bool {
    exists|i: int| 0 <= i < m.tags.len() && tag_accepts(#[trigger] m.tags[i], key, accepted)
}

/// The record's value for `key` is accepted: first the attribute map (its
/// value lowercased), then any key/value tag of that name.
pub open spec fn filter_accepts(m: MediaFileView, key: Seq<char>, accepted: Seq<Seq<char>>) -> bool {
    (match attr_lookup(m.attributes, key) {
        Some(v) => accepted.contains(lower_of(v)),
        None => false,
    }) || kv_tag_accepts(m, key, accepted)
}

pub open spec fn matches_attribute_filters(
    m: MediaFileView,
    filters: Seq<(Seq<char>, Seq<Seq<char>>)>,
) -> bool {
    forall|j: int| 0 <= j < filters.len() ==> filter_accepts(m, #[trigger] filters[j].0, filters[j].1)
}

pub open spec fn record_matches(m: MediaFileView, q: QueryView) -> bool {
    matches_required_tags(m, q.required) && matches_attribute_filters(m, q.filters)
}

/// The records that match `q`, in catalog order.
pub open spec fn matching(media: Seq<MediaFileView>, q: QueryView) -> Seq<MediaFileView>
    decreases media.len(),
{
    if media.len() == 0 {
        seq![]
    } else {
        let prev = matching(media.drop_last(), q);
        if record_matches(media.last(), q) {
            prev.push(media.last())
        } else {
            prev
        }
    }
}

pub open spec fn clip(x: int, len: int) -> int {
    if x < 0 {
        0
    } else if x < len {
        x
    } else {
        len
    }
}

/// Page `page` (1-based) of `size` items: `(page-1)*size .. page*size`,
/// clipped to the sequence.
pub open spec fn page_of<T>(items: Seq<T>, page: int, size: int) -> Seq<T> {
    let lo = (page - 1) * size;
    items.subrange(clip(lo, items.len() as int), clip(lo + size, items.len() as int))
}

/// Pages `1..=n` joined in order.
pub open spec fn pages_joined<T>(items: Seq<T>, size: int, n: nat) -> Seq<T>
    decreases n,
{
    if n == 0 {
        seq![]
    } else {
        pages_joined(items, size, (n - 1) as nat) + page_of(items, n as int, size)
    }
}

/// The number of pages that `total` items fill at `size` per page.
pub open spec fn page_count(total: int, size: int) -> nat {
    ((total + size - 1) / size) as nat
}

proof fn lemma_pages_joined<T>(items: Seq<T>, size: int, n: nat)
    requires
        size >= 1,
    ensures
        pages_joined(items, size, n) == items.subrange(0, clip(n * size, items.len() as int)),
    decreases n,
{
    if n == 0 {
        assert(pages_joined(items, size, n) =~= items.subrange(0, 0));
    } else {
        lemma_pages_joined(items, size, (n - 1) as nat);
        assert((n - 1) * size + size == n * size) by (nonlinear_arith);
        assert((n - 1) * size >= 0) by (nonlinear_arith)
            requires
                n >= 1,
                size >= 1,
        ;
        assert(n * size >= (n - 1) * size) by (nonlinear_arith)
            requires
                size >= 1,
        ;
        let a = clip((n - 1) * size, items.len() as int);
        let b = clip(n * size, items.len() as int);
        assert(a <= b);
        assert(page_of(items, n as int, size) == items.subrange(a, b));
        assert(pages_joined(items, size, n) == pages_joined(items, size, (n - 1) as nat)
            + page_of(items, n as int, size));
        assert(pages_joined(items, size, n) =~= items.subrange(0, b));
    }
}

/// Page `p` of size `s` over `total` matches holds
/// `min(s, max(0, total - (p-1)*s))` items, and joining pages
/// `1..=ceil(total/s)` in order gives back every match once, in catalog order.
pub proof fn pagination_law<T>(matches: Seq<T>, page: int, size: int)
    requires
        page >= 1,
        size >= 1,
    ensures
        page_of(matches, page, size).len() == vstd::math::min(
            size,
            vstd::math::max(0, matches.len() - (page - 1) * size),
        ),
        pages_joined(matches, size, page_count(matches.len() as int, size)) == matches,
{
    let total = matches.len() as int;
    assert((page - 1) * size >= 0) by (nonlinear_arith)
        requires
            page >= 1,
            size >= 1,
    ;
    let n = page_count(total, size);
    vstd::arithmetic::div_mod::lemma_fundamental_div_mod(total + size - 1, size);
    vstd::arithmetic::div_mod::lemma_mod_pos_bound(total + size - 1, size);
    assert((total + size - 1) / size >= 0) by (nonlinear_arith)
        requires
            total >= 0,
            size >= 1,
    ;
    assert(n * size >= total) by (nonlinear_arith)
        requires
            n == (total + size - 1) / size,
            total + size - 1 == size * ((total + size - 1) / size) + (total + size - 1) % size,
            (total + size - 1) % size < size,
    ;
    lemma_pages_joined(matches, size, n);
    assert(matches.subrange(0, total) =~= matches);
}

/// The result of a search: one page of matches and the full match count.
#[derive(Debug)]
pub struct SearchResult {
    pub items: Vec<MediaFile>,
    pub total: usize,
    pub page: usize,
    pub page_size: usize,
}

/// Evaluates queries against snapshots.
pub struct SearchService;

impl SearchService {
    /// Counts every record of the snapshot that matches the query, in catalog
    /// order, and returns the requested page of them.
    pub fn execute(snapshot: &CacheSnapshot, query: &SearchQuery) -> (r: SearchResult)
        ensures
            r.total == matching(media_view(snapshot.media@), query@).len(),
            media_view(r.items@) == page_of(
                matching(media_view(snapshot.media@), query@),
                query@.page as int,
                query@.page_size as int,
            ),
            r.page == query@.page,
            r.page_size == query@.page_size,
    {
        let page = query.page();
        let page_size = query.page_size();
        let start = (page - 1).checked_mul(page_size);
        let ghost mv = media_view(snapshot.media@);
        let ghost q = query@;
        let ghost lo = (page - 1) * page_size;
        let mut collected: Vec<MediaFile> = Vec::new();
        let mut matched_total: usize = 0;
        let mut i: usize = 0;
        assert(mv.subrange(0, 0) =~= Seq::<MediaFileView>::empty());
        assert(media_view(collected@) =~= seq![]);
        while i < snapshot.media.len()
            invariant
                i <= snapshot.media.len(),
                mv == media_view(snapshot.media@),
                q == query@,
                page == q.page,
                page_size == q.page_size,
                1 <= page,
                1 <= page_size,
                lo == (page - 1) * page_size,
                lo >= 0,
                start is Some ==> start->0 == lo,
                start is None ==> lo > usize::MAX,
                matched_total == matching(mv.subrange(0, i as int), q).len(),
                matched_total <= i,
                media_view(collected@) == page_of(
                    matching(mv.subrange(0, i as int), q),
                    page as int,
                    page_size as int,
                ),
            decreases snapshot.media.len() - i,
        {
            let media = &snapshot.media[i];
            let ghost prefix = mv.subrange(0, i as int);
            assert(mv.subrange(0, i + 1).drop_last() =~= prefix);
            assert(mv.subrange(0, i + 1).last() == media@);
            let ghost before = matching(prefix, q);
            if matches_required_tags_exec(media, query.required_tags())
                && matches_attributes_exec(media, query.attribute_filters()) {
                let take = match start {
                    Some(st) => matched_total >= st && collected.len() < page_size,
                    None => false,
                };
                if take {
                    let ghost old_items = collected@;
                    collected.push(media.clone());
                    assert(media_view(collected@) =~= media_view(old_items).push(media@));
                }
                let ghost after = before.push(media@);
                assert(page_of(after, page as int, page_size as int) =~= media_view(collected@));
                matched_total += 1;
            }
            i += 1;
        }
        assert(mv.subrange(0, snapshot.media.len() as int) =~= mv);
        SearchResult { items: collected, total: matched_total, page, page_size }
    }
}

fn media_has_tag(media: &MediaFile, required: &String) -> (r: bool)
    ensures
        r == has_required_tag(media@, required@),
{
    let mut i: usize = 0;
    while i < media.tags.len()
        invariant
            i <= media.tags.len(),
            forall|j: int| 0 <= j < i ==> !tag_meets(#[trigger] media@.tags[j], required@),
        decreases media.tags.len() - i,
    {
        let tag = &media.tags[i];
        assert(media@.tags[i as int] == tag@);
        if tag.normalized == *required || tag.name == *required {
            return true;
        }
        i += 1;
    }
    false
}

/// Whether the record carries every required tag.
fn matches_required_tags_exec(media: &MediaFile, required: &[String]) -> (r: bool)
    ensures
        r == matches_required_tags(media@, strings_view(required@)),
{
    let ghost rv = strings_view(required@);
    let mut j: usize = 0;
    while j < required.len()
        invariant
            j <= required.len(),
            rv == strings_view(required@),
            forall|k: int| 0 <= k < j ==> has_required_tag(media@, #[trigger] rv[k]),
        decreases required.len() - j,
    {
        if !media_has_tag(media, &required[j]) {
            assert(rv[j as int] == required@[j as int]@);
            return false;
        }
        assert(rv[j as int] == required@[j as int]@);
        j += 1;
    }
    true
}

fn kv_tag_accepts_exec(media: &MediaFile, key: &String, accepted: &Vec<String>) -> (r: bool)
    ensures
        r == kv_tag_accepts(media@, key@, strings_view(accepted@)),
{
    let mut i: usize = 0;
    while i < media.tags.len()
        invariant
            i <= media.tags.len(),
            forall|j: int|
                0 <= j < i ==> !tag_accepts(#[trigger] media@.tags[j], key@, strings_view(accepted@)),
        decreases media.tags.len() - i,
    {
        let tag = &media.tags[i];
        assert(media@.tags[i as int] == tag@);
        if tag.kind == TagKind::KeyValue && tag.name == *key {
            match &tag.value {
                Some(v) => {
                    if contains_string(accepted.as_slice(), v) {
                        assert(tag_accepts(media@.tags[i as int], key@, strings_view(accepted@)));
                        return true;
                    }
                },
                None => {},
            }
        }
        i += 1;
    }
    false
}

fn find_attribute_value<'a>(media: &'a MediaFile, key: &String) -> (r: Option<&'a String>)
    ensures
        match r {
            Some(v) => attr_lookup(media@.attributes, key@) == Some(v@),
            None => attr_lookup(media@.attributes, key@) is None,
        },
{
    let ghost pv = pairs_view(media.attributes@);
    let mut i: usize = 0;
    assert(pv.subrange(0, pv.len() as int) =~= pv);
    while i < media.attributes.len()
        invariant
            i <= media.attributes.len(),
            pv == pairs_view(media.attributes@),
            pv == media@.attributes,
            attr_lookup(pv, key@) == attr_lookup(pv.subrange(i as int, pv.len() as int), key@),
        decreases media.attributes.len() - i,
    {
        let ghost rest = pv.subrange(i as int, pv.len() as int);
        assert(rest.drop_first() =~= pv.subrange(i + 1, pv.len() as int));
        if media.attributes[i].0 == *key {
            return Some(&media.attributes[i].1);
        }
        i += 1;
    }
    None
}

/// Whether the record meets every attribute filter.
fn matches_attributes_exec(media: &MediaFile, filters: &[(String, Vec<String>)]) -> (r: bool)
    ensures
        r == matches_attribute_filters(media@, raw_filters_view(filters@)),
{
    let ghost fv = raw_filters_view(filters@);
    let mut j: usize = 0;
    while j < filters.len()
        invariant
            j <= filters.len(),
            fv == raw_filters_view(filters@),
            forall|k: int| 0 <= k < j ==> filter_accepts(media@, #[trigger] fv[k].0, fv[k].1),
        decreases filters.len() - j,
    {
        let (key, accepted) = &filters[j];
        assert(fv[j as int] == (key@, strings_view(accepted@)));
        let attribute_ok = match find_attribute_value(media, key) {
            Some(value) => {
                let lowered = to_lowercase(value.as_str());
                contains_string(accepted.as_slice(), &lowered)
            },
            None => false,
        };
        let ok = attribute_ok || kv_tag_accepts_exec(media, key, accepted);
        if !ok {
            assert(!filter_accepts(media@, fv[j as int].0, fv[j as int].1));
            return false;
        }
        j += 1;
    }
    true
}

} // verus!
