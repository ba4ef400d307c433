//! Reading news items out of the game's RSS news feed.
//!
//! The feed's `<item>` fields (`title`, `link`, `pubDate`, `description`, `category`) are flat,
//! non-nested text, so they are read with plain string searches rather than an XML parser.

use vstd::prelude::*;
use crate::text::{
    before_first, chars_of, find, find_from, find_from_exec, lemma_find_from_bounds,
    lemma_find_none_without_first, occurs_at, opt_chars,
    opt_string, push_all, replace_all, replace_all_exec, slice_chars, split_str, split_str_exec,
    string_of_all, trim, trim_exec,
};

verus! {

/// The game's public news feed.
pub const NEWS_FEED_URL: &'static str = "https://secure.runescape.com/m=news/latest_news.rss?oldschool=true";

/// One entry of the news feed.
#[derive(Debug, Clone, PartialEq, Eq)]
pub struct NewsItem {
    pub title: String,
    pub link: String,
    pub pub_date: String,
    pub description: String,
    pub category: String,
    pub image_url: Option<String>,
}

/// The text held by a [`NewsItem`].
pub struct NewsItemView {
    pub title: Seq<char>,
    pub link: Seq<char>,
    pub pub_date: Seq<char>,
    pub description: Seq<char>,
    pub category: Seq<char>,
    pub image_url: Option<Seq<char>>,
}

impl View for NewsItem {
    type V = NewsItemView;

    open spec fn view(&self) -> NewsItemView {
        NewsItemView {
            title: self.title@,
            link: self.link@,
            pub_date: self.pub_date@,
            description: self.description@,
            category: self.category@,
            image_url: match self.image_url {
                Some(u) => Some(u@),
                None => None,
            },
        }
    }
}

/// The views of a sequence of news items.
pub open spec fn news_views(items: Seq<NewsItem>) -> Seq<NewsItemView> {
    Seq::new(items.len(), |i: int| items[i]@)
}

/// `<tag>`
pub open spec fn open_tag(tag: Seq<char>) -> Seq<char> {
    seq!['<'] + tag + seq!['>']
}

/// `</tag>`
pub open spec fn close_tag(tag: Seq<char>) -> Seq<char> {
    seq!['<', '/'] + tag + seq!['>']
}

/// The text between the first `<tag>` of `chunk` and the first `</tag>` after it.
pub open spec fn tag_text(chunk: Seq<char>, tag: Seq<char>) -> Option<Seq<char>> {
    let open = open_tag(tag);
    match find(chunk, open) {
        Some(i) => match find_from(chunk, close_tag(tag), i + open.len()) {
            Some(e) => Some(chunk.subrange(i + open.len(), e)),
            None => None,
        },
        None => None,
    }
}

/// The entities that the feed uses, decoded in this order: `&amp;`, `&lt;`, `&gt;`, `&quot;`,
/// `&#039;`, `&apos;`.
pub open spec fn entities_decoded(s: Seq<char>) -> Seq<char> {
    let s1 = replace_all(s, seq!['&', 'a', 'm', 'p', ';'], seq!['&']);
    let s2 = replace_all(s1, seq!['&', 'l', 't', ';'], seq!['<']);
    let s3 = replace_all(s2, seq!['&', 'g', 't', ';'], seq!['>']);
    let s4 = replace_all(s3, seq!['&', 'q', 'u', 'o', 't', ';'], seq!['"']);
    let s5 = replace_all(s4, seq!['&', '#', '0', '3', '9', ';'], seq!['\'']);
    replace_all(s5, seq!['&', 'a', 'p', 'o', 's', ';'], seq!['\''])
}

/// `<enclosure`
pub open spec fn enclosure_open() -> Seq<char> {
    seq!['<', 'e', 'n', 'c', 'l', 'o', 's', 'u', 'r', 'e']
}

/// `url="`
pub open spec fn url_attr() -> Seq<char> {
    seq!['u', 'r', 'l', '=', '"']
}

/// The decoded `url="..."` attribute of the first `<enclosure ...>` tag of `chunk`: the
/// thumbnail image of a feed item.
pub open spec fn enclosure_url(chunk: Seq<char>) -> Option<Seq<char>> {
    match find(chunk, enclosure_open()) {
        Some(ts) => match find_from(chunk, seq!['>'], ts) {
            Some(te) => {
                let tag = chunk.subrange(ts, te);
                match find(tag, url_attr()) {
                    Some(a) => match find_from(tag, seq!['"'], a + url_attr().len()) {
                        Some(ae) => Some(entities_decoded(tag.subrange(a + url_attr().len(), ae))),
                        None => None,
                    },
                    None => None,
                }
            },
            None => None,
        },
        None => None,
    }
}

/// A tag's text, trimmed and with its entities decoded.
pub open spec fn field_text(t: Seq<char>) -> Seq<char> {
    entities_decoded(trim(t))
}

/// `title`, `link`, `pubDate`, `description`, `category`, `</item>`, `<item>`
pub open spec fn title_tag() -> Seq<char> { seq!['t', 'i', 't', 'l', 'e'] }
pub open spec fn link_tag() -> Seq<char> { seq!['l', 'i', 'n', 'k'] }
pub open spec fn pub_date_tag() -> Seq<char> { seq!['p', 'u', 'b', 'D', 'a', 't', 'e'] }
pub open spec fn description_tag() -> Seq<char> {
    seq!['d', 'e', 's', 'c', 'r', 'i', 'p', 't', 'i', 'o', 'n']
}
pub open spec fn category_tag() -> Seq<char> { seq!['c', 'a', 't', 'e', 'g', 'o', 'r', 'y'] }
pub open spec fn item_open() -> Seq<char> { open_tag(seq!['i', 't', 'e', 'm']) }
pub open spec fn item_close() -> Seq<char> { close_tag(seq!['i', 't', 'e', 'm']) }

/// The item that one chunk of the feed (the text after an `<item>`) describes, if it has a
/// title, a link, a date and a description. Only the text before `</item>` is read.
pub open spec fn item_of_chunk(chunk: Seq<char>) -> Option<NewsItemView> {
    let c = before_first(chunk, item_close());
    match (tag_text(c, title_tag()), tag_text(c, link_tag()), tag_text(c, pub_date_tag()), tag_text(c, description_tag())) {
        (Some(t), Some(l), Some(d), Some(desc)) => Some(NewsItemView {
            title: field_text(t),
            link: field_text(l),
            pub_date: field_text(d),
            description: field_text(desc),
            category: field_text(match tag_text(c, category_tag()) { Some(x) => x, None => Seq::empty() }),
            image_url: enclosure_url(c),
        }),
        _ => None,
    }
}

/// The items of a sequence of chunks, in order, skipping chunks that are not complete items.
pub open spec fn items_of_chunks(chunks: Seq<Seq<char>>) -> Seq<NewsItemView>
    decreases chunks.len(),
{
    if chunks.len() == 0 {
        Seq::empty()
    } else {
        let prev = items_of_chunks(chunks.drop_last());
        match item_of_chunk(chunks.last()) {
            Some(it) => prev.push(it),
            None => prev,
        }
    }
}

/// Items keep the order of their chunks: the items of two runs of chunks, one after the other,
/// are the items of the first run followed by those of the second.
pub proof fn lemma_items_in_chunk_order(c1: Seq<Seq<char>>, c2: Seq<Seq<char>>)
    ensures
        items_of_chunks(c1 + c2) == items_of_chunks(c1) + items_of_chunks(c2),
    decreases c2.len(),
{
    if c2.len() == 0 {
        assert(c1 + c2 =~= c1);
        assert(items_of_chunks(c1) + Seq::<NewsItemView>::empty() =~= items_of_chunks(c1));
    } else {
        lemma_items_in_chunk_order(c1, c2.drop_last());
        assert((c1 + c2).drop_last() =~= c1 + c2.drop_last());
        assert((c1 + c2).last() == c2.last());
        match item_of_chunk(c2.last()) {
            Some(it) => {
                assert((items_of_chunks(c1) + items_of_chunks(c2.drop_last())).push(it)
                    =~= items_of_chunks(c1) + items_of_chunks(c2.drop_last()).push(it));
            },
            None => {},
        }
    }
}

/// One chunk gives its item when it describes a complete one, and nothing otherwise.
pub proof fn lemma_items_of_one_chunk(c: Seq<char>)
    ensures
        items_of_chunks(seq![c]) == match item_of_chunk(c) {
            Some(it) => seq![it],
            None => Seq::<NewsItemView>::empty(),
        },
{
    assert(seq![c].drop_last() =~= Seq::<Seq<char>>::empty());
    assert(seq![c].last() == c);
    assert(items_of_chunks(Seq::<Seq<char>>::empty()) == Seq::<NewsItemView>::empty());
    if let Some(it) = item_of_chunk(c) {
        assert(Seq::<NewsItemView>::empty().push(it) =~= seq![it]);
    }
}

/// The items of a feed: one per `<item>`, in feed order (the text before the first `<item>`
/// is the channel header and describes none).
pub open spec fn feed_items(xml: Seq<char>) -> Seq<NewsItemView> {
    items_of_chunks(split_str(xml, item_open()).drop_first())
}

/// Text without `&` holds no entity: decoding leaves it as it is.
pub proof fn lemma_decode_without_ampersand(s: Seq<char>)
    requires
        !s.contains('&'),
    ensures
        entities_decoded(s) == s,
{
    lemma_find_none_without_first(s, seq!['&', 'a', 'm', 'p', ';']);
    lemma_find_none_without_first(s, seq!['&', 'l', 't', ';']);
    lemma_find_none_without_first(s, seq!['&', 'g', 't', ';']);
    lemma_find_none_without_first(s, seq!['&', 'q', 'u', 'o', 't', ';']);
    lemma_find_none_without_first(s, seq!['&', '#', '0', '3', '9', ';']);
    lemma_find_none_without_first(s, seq!['&', 'a', 'p', 'o', 's', ';']);
}

/// The entities that the feed uses, by number: `&amp;`, `&lt;`, `&gt;`, `&quot;`, `&#039;`,
/// `&apos;`.
pub open spec fn entity_text(k: int) -> Seq<char> {
    if k == 0 {
        seq!['&', 'a', 'm', 'p', ';']
    } else if k == 1 {
        seq!['&', 'l', 't', ';']
    } else if k == 2 {
        seq!['&', 'g', 't', ';']
    } else if k == 3 {
        seq!['&', 'q', 'u', 'o', 't', ';']
    } else if k == 4 {
        seq!['&', '#', '0', '3', '9', ';']
    } else {
        seq!['&', 'a', 'p', 'o', 's', ';']
    }
}

/// The character that entity `k` stands for.
pub open spec fn entity_char(k: int) -> char {
    if k == 0 {
        '&'
    } else if k == 1 {
        '<'
    } else if k == 2 {
        '>'
    } else if k == 3 {
        '"'
    } else {
        '\''
    }
}

/// `&`, a name without `&` or `;`, then `;`.
pub open spec fn entity_shaped(e: Seq<char>) -> bool {
    &&& e.len() >= 2
    &&& e[0] == '&'
    &&& e.last() == ';'
    &&& forall|i: int| 0 < i < e.len() ==> #[trigger] e[i] != '&'
    &&& forall|i: int| 0 <= i < e.len() - 1 ==> #[trigger] e[i] != ';'
}

/// In `x + t`, where the only `&` is the first character of `t`, a pattern that starts with `&`
/// is found at the end of `x` if `t` starts with it, and nowhere otherwise.
#[verifier::spinoff_prover]
proof fn lemma_find_single_amp(x: Seq<char>, t: Seq<char>, p: Seq<char>)
    requires
        !x.contains('&'),
        t.len() > 0,
        t[0] == '&',
        forall|i: int| 0 < i < t.len() ==> #[trigger] t[i] != '&',
        p.len() > 0,
        p[0] == '&',
    ensures
        find(x + t, p) == if p.len() <= t.len() && t.take(p.len() as int) == p {
            Some(x.len() as int)
        } else {
            None::<int>
        },
{
    let s = x + t;
    let xl: int = x.len() as int;
    assert forall|j: int| 0 <= j < s.len() && j != xl implies s[j] != '&' by {
        if j < xl {
            assert(s[j] == x[j]);
        } else {
            assert(s[j] == t[j - xl]);
        }
    }
    assert forall|j: int| 0 <= j && j != xl implies !occurs_at(s, p, j) by {
        if occurs_at(s, p, j) {
            assert(s.subrange(j, j + p.len())[0] == s[j]);
        }
    }
    lemma_find_from_bounds(s, p, 0);
    if p.len() <= t.len() && t.take(p.len() as int) == p {
        assert(s.subrange(xl, xl + p.len()) =~= t.take(p.len() as int));
        crate::text::lemma_find_from_first(s, p, 0, xl);
    } else {
        if occurs_at(s, p, xl) {
            assert(s.subrange(xl, xl + p.len()) =~= t.take(p.len() as int));
        }
    }
}

/// One decoding pass over `x m y`, where `m` is an entity or one character and `x`, `y` hold no
/// `&` and `y` no `;`: the pass of entity `p` replaces `m` when it is `p`, and changes nothing
/// otherwise.
#[verifier::spinoff_prover]
proof fn lemma_decode_pass(x: Seq<char>, m: Seq<char>, y: Seq<char>, p: Seq<char>, rp: Seq<char>)
    requires
        !x.contains('&'),
        !y.contains('&'),
        !y.contains(';'),
        entity_shaped(p),
        entity_shaped(m) || m.len() == 1,
    ensures
        replace_all(x + m + y, p, rp) == if entity_shaped(m) && p == m {
            x + rp + y
        } else {
            x + m + y
        },
{
    let t = m + y;
    let s = x + m + y;
    assert(s =~= x + t);
    if m.len() == 1 && m[0] != '&' {
        assert(!m.contains('&')) by {
            if m.contains('&') {
                let i = choose|i: int| 0 <= i < m.len() && m[i] == '&';
            }
        }
        crate::text::lemma_lacks_joined(x, m, '&');
        crate::text::lemma_lacks_joined(x + m, y, '&');
        lemma_find_none_without_first(s, p);
        assert(replace_all(s, p, rp) == s);
    } else {
        assert(t[0] == '&');
        assert forall|i: int| 0 < i < t.len() implies #[trigger] t[i] != '&' by {
            if i < m.len() {
                assert(t[i] == m[i]);
            } else {
                assert(t[i] == y[i - m.len()]);
                assert(y.contains(y[i - m.len()]));
            }
        }
        lemma_find_single_amp(x, t, p);
        let matched = p.len() <= t.len() && t.take(p.len() as int) == p;
        if matched {
            // The `;` that ends `p` ends `m`, so `p` is `m`.
            let q: int = p.len() - 1;
            assert(t[q] == p[q]) by {
                assert(t.take(p.len() as int)[q] == t[q]);
            }
            if m.len() == 1 {
                assert(t[q] == y[q - 1]);
                assert(y.contains(y[q - 1]));
            } else {
                let ml: int = m.len() - 1;
                if q < ml {
                    assert(t[q] == m[q]);
                } else if q > ml {
                    assert(t[ml] == m[ml]);
                    assert(p[ml] == t[ml]) by {
                        assert(t.take(p.len() as int)[ml] == t[ml]);
                    }
                }
                assert(q == ml);
                assert(t.take(p.len() as int) =~= m);
                assert(s.take(x.len() as int) =~= x);
                assert(s.skip((x.len() + p.len()) as int) =~= y);
                lemma_find_none_without_first(y, p);
                assert(replace_all(y, p, rp) == y);
                assert(find(s, p) == Some(x.len() as int));
                assert(replace_all(s, p, rp) == s.take(x.len() as int) + rp + replace_all(
                    s.skip((x.len() + p.len()) as int),
                    p,
                    rp,
                ));
                assert(p == m);
                assert(replace_all(s, p, rp) =~= x + rp + y);
            }
        } else {
            if entity_shaped(m) && p == m {
                assert(t.take(p.len() as int) =~= m);
            }
            assert(find(s, p) is None);
            assert(replace_all(s, p, rp) == s);
        }
    }
}

/// The six entities are entity-shaped and distinct.
proof fn lemma_entities_shaped()
    ensures
        forall|k: int| 0 <= k < 6 ==> entity_shaped(#[trigger] entity_text(k)),
        forall|j: int, k: int|
            0 <= j < 6 && 0 <= k < 6 && j != k ==> #[trigger] entity_text(j) != #[trigger] entity_text(k),
{
    assert forall|k: int| 0 <= k < 6 implies entity_shaped(#[trigger] entity_text(k)) by {
        let e = entity_text(k);
        assert forall|i: int| 0 < i < e.len() implies #[trigger] e[i] != '&' by {}
        assert forall|i: int| 0 <= i < e.len() - 1 implies #[trigger] e[i] != ';' by {}
    }
    assert forall|j: int, k: int|
        0 <= j < 6 && 0 <= k < 6 && j != k implies #[trigger] entity_text(j) != #[trigger] entity_text(k) by {
        if entity_text(j) == entity_text(k) {
            assert(entity_text(j)[1] == entity_text(k)[1]);
            assert(entity_text(j).len() == entity_text(k).len());
            assert(entity_text(j)[2] == entity_text(k)[2]);
        }
    }
}

/// Each of the six entities is decoded to its character, whatever plain text surrounds it: for
/// `x` and `y` without `&` (and `y` without `;`, so that no new entity forms after `&amp;`),
/// decoding `x`, entity `k`, `y` gives `x`, its character, `y`.
pub proof fn lemma_entity_is_decoded(x: Seq<char>, k: int, y: Seq<char>)
    requires
        0 <= k < 6,
        !x.contains('&'),
        !y.contains('&'),
        !y.contains(';'),
    ensures
        entities_decoded(x + entity_text(k) + y) == x + seq![entity_char(k)] + y,
{
    lemma_entities_shaped();
    let e = entity_text(k);
    let c = seq![entity_char(k)];
    let p0 = entity_text(0);
    let p1 = entity_text(1);
    let p2 = entity_text(2);
    let p3 = entity_text(3);
    let p4 = entity_text(4);
    let p5 = entity_text(5);
    assert(p0 == seq!['&', 'a', 'm', 'p', ';']);
    assert(p1 == seq!['&', 'l', 't', ';']);
    assert(p2 == seq!['&', 'g', 't', ';']);
    assert(p3 == seq!['&', 'q', 'u', 'o', 't', ';']);
    assert(p4 == seq!['&', '#', '0', '3', '9', ';']);
    assert(p5 == seq!['&', 'a', 'p', 'o', 's', ';']);
    assert(!(entity_shaped(c)));
    // The text after each pass: the entity until its own pass, its character from then on.
    let m1 = if k == 0 { c } else { e };
    let m2 = if k <= 1 { c } else { e };
    let m3 = if k <= 2 { c } else { e };
    let m4 = if k <= 3 { c } else { e };
    let m5 = if k <= 4 { c } else { e };
    lemma_decode_pass(x, e, y, p0, seq!['&']);
    if k == 0 { assert(seq!['&'] == c); }
    lemma_decode_pass(x, m1, y, p1, seq!['<']);
    if k == 1 { assert(seq!['<'] == c); }
    lemma_decode_pass(x, m2, y, p2, seq!['>']);
    if k == 2 { assert(seq!['>'] == c); }
    lemma_decode_pass(x, m3, y, p3, seq!['"']);
    if k == 3 { assert(seq!['"'] == c); }
    lemma_decode_pass(x, m4, y, p4, seq!['\'']);
    if k == 4 { assert(seq!['\''] == c); }
    lemma_decode_pass(x, m5, y, p5, seq!['\'']);
    if k == 5 { assert(seq!['\''] == c); }
}

/// The text of a tag is what is written between its first opening tag and the closing tag
/// after it: in `a<tag>raw</tag>b`, where `a` holds no `<tag>` and neither `tag` nor `raw` holds
/// `<`, it is `raw`, whatever `b` holds.
#[verifier::spinoff_prover]
pub proof fn lemma_tag_text_between(a: Seq<char>, tag: Seq<char>, raw: Seq<char>, b: Seq<char>)
    requires
        !tag.contains('<'),
        find(a, open_tag(tag)) is None,
        !raw.contains('<'),
    ensures
        tag_text(a + open_tag(tag) + raw + close_tag(tag) + b, tag) == Some(raw),
{
    let open = open_tag(tag);
    let close = close_tag(tag);
    let c = a + open + raw + close + b;
    let al: int = a.len() as int;
    assert(c.subrange(al, al + open.len()) =~= open);
    lemma_find_from_bounds(a, open, 0);
    assert forall|j: int| 0 <= j < al implies !occurs_at(c, open, j) by {
        if occurs_at(c, open, j) {
            if j + open.len() <= al {
                assert(a.subrange(j, j + open.len()) =~= c.subrange(j, j + open.len()));
                assert(occurs_at(a, open, j));
            } else {
                let k = al - j;
                assert(c[al] == '<');
                assert(c.subrange(j, j + open.len())[k] == c[al]);
                if k <= tag.len() {
                    assert(open[k] == tag[k - 1]);
                    assert(tag[k - 1] == '<');
                } else {
                    assert(open[k] == '>');
                }
            }
        }
    }
    crate::text::lemma_find_from_first(c, open, 0, al);
    let start: int = al + open.len();
    let stop: int = start + raw.len();
    assert(c.subrange(stop, stop + close.len()) =~= close);
    assert forall|j: int| start <= j < stop implies !occurs_at(c, close, j) by {
        if occurs_at(c, close, j) {
            assert(c.subrange(j, j + close.len())[0] == c[j]);
            assert(c[j] == raw[j - start]);
        }
    }
    crate::text::lemma_find_from_first(c, close, start, stop);
    assert(c.subrange(start, stop) =~= raw);
}

/// The thumbnail URL is the entity-decoded value of the `url` attribute of the first
/// `<enclosure` tag: in `a<enclosure m url="u" n> b`, where `a` holds no `<enclosure`, the first
/// `url="` of `m url="` is the one before `u`, `u` holds no `"`, and `m`, `u`, `n` hold no `>`,
/// it is the decoding of `u`.
#[verifier::spinoff_prover]
pub proof fn lemma_enclosure_url_is_decoded(
    a: Seq<char>,
    m: Seq<char>,
    u: Seq<char>,
    n: Seq<char>,
    b: Seq<char>,
)
    requires
        find(a, enclosure_open()) is None,
        find(m + url_attr(), url_attr()) == Some(m.len() as int),
        !m.contains('>'),
        !u.contains('>'),
        !n.contains('>'),
        !u.contains('"'),
    ensures
        enclosure_url(
            a + enclosure_open() + m + url_attr() + u + seq!['"'] + n + seq!['>'] + b,
        ) == Some(entities_decoded(u)),
{
    let eo = enclosure_open();
    let ua = url_attr();
    let tag = eo + m + ua + u + seq!['"'] + n;
    let rest = tag + seq!['>'] + b;
    let c = a + rest;
    assert(c =~= a + eo + m + ua + u + seq!['"'] + n + seq!['>'] + b);
    let al: int = a.len() as int;
    assert(eo.len() == 10 && ua.len() == 5);
    assert forall|k: int| 0 < k < eo.len() implies #[trigger] eo[k] != eo[0] by {}
    assert(rest.take(eo.len() as int) =~= eo);
    crate::text::lemma_find_after_prefix(a, eo, rest);
    lemma_enclosure_tag_end(a, tag, b, m, u, n);
    assert(c =~= a + tag + seq!['>'] + b);
    assert(find(c, eo) == Some(al));
    let te: int = al + tag.len();
    assert(find_from(c, seq!['>'], al) == Some(te));
    assert(c.subrange(al, te) =~= tag);
    lemma_url_value_in_tag(m, u, n);
    let vs: int = 15 + m.len() as int;
    assert(find(tag, ua) == Some(10 + m.len() as int));
    assert(10 + m.len() as int + ua.len() == vs);
    assert(find_from(tag, seq!['"'], vs) == Some(vs + u.len()));
    assert(tag.subrange(vs, vs + u.len()) == u);
    assert(enclosure_url(c) == Some(entities_decoded(tag.subrange(vs, vs + u.len()))));
}

/// The `<enclosure` tag of `a tag > b` ends at the first `>` after `a`, for a tag whose parts
/// hold no `>`.
#[verifier::spinoff_prover]
proof fn lemma_enclosure_tag_end(
    a: Seq<char>,
    tag: Seq<char>,
    b: Seq<char>,
    m: Seq<char>,
    u: Seq<char>,
    n: Seq<char>,
)
    requires
        tag == enclosure_open() + m + url_attr() + u + seq!['"'] + n,
        !m.contains('>'),
        !u.contains('>'),
        !n.contains('>'),
    ensures
        find_from(a + tag + seq!['>'] + b, seq!['>'], a.len() as int) == Some(
            (a.len() + tag.len()) as int,
        ),
{
    assert forall|i: int| 0 <= i < enclosure_open().len() implies enclosure_open()[i] != '>' by {}
    assert forall|i: int| 0 <= i < url_attr().len() implies url_attr()[i] != '>' by {}
    assert forall|i: int| 0 <= i < seq!['"'].len() implies seq!['"'][i] != '>' by {}
    crate::text::lemma_lacks_joined(enclosure_open(), m, '>');
    crate::text::lemma_lacks_joined(enclosure_open() + m, url_attr(), '>');
    crate::text::lemma_lacks_joined(enclosure_open() + m + url_attr(), u, '>');
    crate::text::lemma_lacks_joined(enclosure_open() + m + url_attr() + u, seq!['"'], '>');
    crate::text::lemma_lacks_joined(enclosure_open() + m + url_attr() + u + seq!['"'], n, '>');
    let c = a + tag + seq!['>'] + b;
    let al: int = a.len() as int;
    assert forall|j: int| al <= j < al + tag.len() implies c[j] != '>' by {
        assert(c[j] == tag[j - al]);
    }
    crate::text::lemma_find_char_from(c, '>', al, al + tag.len());
}

/// `url="` does not start inside `<enclosure`: no occurrence of it begins in the first ten
/// characters of a text that starts with `<enclosure`.
#[verifier::spinoff_prover]
proof fn lemma_no_url_in_enclosure_name(tag: Seq<char>, j: int)
    requires
        tag.len() >= 15,
        tag.take(10) == enclosure_open(),
        0 <= j < 10,
    ensures
        !occurs_at(tag, url_attr(), j),
{
    if occurs_at(tag, url_attr(), j) {
        assert(tag.subrange(j, j + 5)[0] == tag[j]);
        assert(tag.take(10)[j] == tag[j]);
        if j + 2 < 10 {
            assert(tag.subrange(j, j + 5)[2] == tag[j + 2]);
            assert(tag.take(10)[j + 2] == tag[j + 2]);
        }
    }
}

/// No `url="` starts inside `m` in `<enclosure m url="rest`, when the first `url="` of `m url="`
/// is its last one.
#[verifier::spinoff_prover]
proof fn lemma_no_url_in_middle(m: Seq<char>, rest: Seq<char>, j: int)
    requires
        find(m + url_attr(), url_attr()) == Some(m.len() as int),
        10 <= j < 10 + m.len(),
    ensures
        !occurs_at(enclosure_open() + m + url_attr() + rest, url_attr(), j),
{
    let tag = enclosure_open() + m + url_attr() + rest;
    let mu = m + url_attr();
    lemma_find_from_bounds(mu, url_attr(), 0);
    if occurs_at(tag, url_attr(), j) {
        assert(mu.subrange(j - 10, j - 5) =~= tag.subrange(j, j + 5));
        assert(occurs_at(mu, url_attr(), j - 10));
    }
}

/// In `<enclosure m url="rest`, the first `url="` is the one after `m`, when that is the first
/// `url="` of `m url="`.
#[verifier::spinoff_prover]
proof fn lemma_url_attr_found(m: Seq<char>, rest: Seq<char>)
    requires
        find(m + url_attr(), url_attr()) == Some(m.len() as int),
    ensures
        find(enclosure_open() + m + url_attr() + rest, url_attr()) == Some(10 + m.len() as int),
{
    let tag = enclosure_open() + m + url_attr() + rest;
    let at: int = 10 + m.len() as int;
    assert(tag.take(10) =~= enclosure_open());
    assert(tag.subrange(at, at + 5) =~= url_attr());
    assert forall|j: int| 0 <= j < at implies !occurs_at(tag, url_attr(), j) by {
        if j < 10 {
            lemma_no_url_in_enclosure_name(tag, j);
        } else {
            lemma_no_url_in_middle(m, rest, j);
        }
    }
    crate::text::lemma_find_from_first(tag, url_attr(), 0, at);
}

/// In `pre u"post`, where `u` holds no `"`, the first `"` after `pre` ends `u`.
#[verifier::spinoff_prover]
proof fn lemma_quoted_value(pre: Seq<char>, u: Seq<char>, post: Seq<char>)
    requires
        !u.contains('"'),
    ensures
        find_from(pre + u + seq!['"'] + post, seq!['"'], pre.len() as int) == Some(
            (pre.len() + u.len()) as int,
        ),
        (pre + u + seq!['"'] + post).subrange(pre.len() as int, (pre.len() + u.len()) as int) == u,
{
    let t = pre + u + seq!['"'] + post;
    let vs: int = pre.len() as int;
    let ve: int = vs + u.len();
    assert forall|j: int| vs <= j < ve implies t[j] != '"' by {
        assert(t[j] == u[j - vs]);
    }
    crate::text::lemma_find_char_from(t, '"', vs, ve);
    assert(t.subrange(vs, ve) =~= u);
}

/// In the tag `<enclosure m url="u" n`, the value of `url` is `u`, when the first `url="` of
/// `m url="` is the one before `u` and `u` holds no `"`.
proof fn lemma_url_value_in_tag(m: Seq<char>, u: Seq<char>, n: Seq<char>)
    requires
        find(m + url_attr(), url_attr()) == Some(m.len() as int),
        !u.contains('"'),
    ensures
        ({
            let tag = enclosure_open() + m + url_attr() + u + seq!['"'] + n;
            let vs: int = 15 + m.len() as int;
            &&& find(tag, url_attr()) == Some(10 + m.len() as int)
            &&& find_from(tag, seq!['"'], vs) == Some(vs + u.len())
            &&& tag.subrange(vs, vs + u.len()) == u
        }),
{
    let pre = enclosure_open() + m + url_attr();
    let tag = pre + u + seq!['"'] + n;
    assert(tag =~= enclosure_open() + m + url_attr() + (u + seq!['"'] + n));
    lemma_url_attr_found(m, u + seq!['"'] + n);
    lemma_quoted_value(pre, u, n);
    assert(pre.len() == 15 + m.len());
}

/// The thumbnail of a parsed item is the entity-decoded `url` of its first `<enclosure` tag, in
/// the shape that `lemma_enclosure_url_is_decoded` describes.
pub proof fn lemma_item_image_is_decoded(
    a: Seq<char>,
    m: Seq<char>,
    u: Seq<char>,
    n: Seq<char>,
    b: Seq<char>,
    item: NewsItemView,
)
    requires
        find(a, enclosure_open()) is None,
        find(m + url_attr(), url_attr()) == Some(m.len() as int),
        !m.contains('>'),
        !u.contains('>'),
        !n.contains('>'),
        !u.contains('"'),
        find(
            a + enclosure_open() + m + url_attr() + u + seq!['"'] + n + seq!['>'] + b,
            item_close(),
        ) is None,
        item_of_chunk(a + enclosure_open() + m + url_attr() + u + seq!['"'] + n + seq!['>'] + b)
            == Some(item),
    ensures
        item.image_url == Some(entities_decoded(u)),
{
    lemma_enclosure_url_is_decoded(a, m, u, n, b);
}

/// The tags of a news item's fields hold no `<`.
proof fn lemma_field_tags_plain()
    ensures
        !title_tag().contains('<'),
        !link_tag().contains('<'),
        !pub_date_tag().contains('<'),
        !description_tag().contains('<'),
        !category_tag().contains('<'),
{
    assert forall|i: int| 0 <= i < title_tag().len() implies title_tag()[i] != '<' by {}
    assert forall|i: int| 0 <= i < link_tag().len() implies link_tag()[i] != '<' by {}
    assert forall|i: int| 0 <= i < pub_date_tag().len() implies pub_date_tag()[i] != '<' by {}
    assert forall|i: int| 0 <= i < description_tag().len() implies description_tag()[i] != '<' by {}
    assert forall|i: int| 0 <= i < category_tag().len() implies category_tag()[i] != '<' by {}
}

/// Each field of a parsed item is the text written in its tag, trimmed and with its entities
/// decoded: for an item's text `a<tag>raw</tag>b` (before its `</item>`), where `a` holds no
/// earlier `<tag>` and `raw` holds no `<`, the field of `tag` is the decoding of `raw` trimmed.
pub proof fn lemma_item_fields_are_decoded(
    a: Seq<char>,
    tag: Seq<char>,
    raw: Seq<char>,
    b: Seq<char>,
    item: NewsItemView,
)
    requires
        find(a, open_tag(tag)) is None,
        !raw.contains('<'),
        find(a + open_tag(tag) + raw + close_tag(tag) + b, item_close()) is None,
        item_of_chunk(a + open_tag(tag) + raw + close_tag(tag) + b) == Some(item),
    ensures
        tag == title_tag() ==> item.title == entities_decoded(trim(raw)),
        tag == link_tag() ==> item.link == entities_decoded(trim(raw)),
        tag == pub_date_tag() ==> item.pub_date == entities_decoded(trim(raw)),
        tag == description_tag() ==> item.description == entities_decoded(trim(raw)),
        tag == category_tag() ==> item.category == entities_decoded(trim(raw)),
{
    lemma_field_tags_plain();
    if tag == title_tag() || tag == link_tag() || tag == pub_date_tag() || tag == description_tag()
        || tag == category_tag() {
        lemma_tag_text_between(a, tag, raw, b);
    }
}

// ---------------------------------------------------------------------------------------------

/// The characters of `s` with the feed's entities decoded.
fn decode_entities_chars(s: &Vec<char>) -> (r: Vec<char>)
    ensures
        r@ == entities_decoded(s@),
{
    let amp = vec!['&', 'a', 'm', 'p', ';'];
    let lt = vec!['&', 'l', 't', ';'];
    let gt = vec!['&', 'g', 't', ';'];
    let quot = vec!['&', 'q', 'u', 'o', 't', ';'];
    let apos_num = vec!['&', '#', '0', '3', '9', ';'];
    let apos = vec!['&', 'a', 'p', 'o', 's', ';'];
    let r_amp = vec!['&'];
    let r_lt = vec!['<'];
    let r_gt = vec!['>'];
    let r_quot = vec!['"'];
    let r_apos = vec!['\''];
    assert(amp@ =~= seq!['&', 'a', 'm', 'p', ';']);
    assert(lt@ =~= seq!['&', 'l', 't', ';']);
    assert(gt@ =~= seq!['&', 'g', 't', ';']);
    assert(quot@ =~= seq!['&', 'q', 'u', 'o', 't', ';']);
    assert(apos_num@ =~= seq!['&', '#', '0', '3', '9', ';']);
    assert(apos@ =~= seq!['&', 'a', 'p', 'o', 's', ';']);
    assert(r_amp@ =~= seq!['&']);
    assert(r_lt@ =~= seq!['<']);
    assert(r_gt@ =~= seq!['>']);
    assert(r_quot@ =~= seq!['"']);
    assert(r_apos@ =~= seq!['\'']);
    let s1 = replace_all_exec(s, &amp, &r_amp);
    let s2 = replace_all_exec(&s1, &lt, &r_lt);
    let s3 = replace_all_exec(&s2, &gt, &r_gt);
    let s4 = replace_all_exec(&s3, &quot, &r_quot);
    let s5 = replace_all_exec(&s4, &apos_num, &r_apos);
    replace_all_exec(&s5, &apos, &r_apos)
}

/// Decodes the small set of XML entities seen in the feed; not a general entity decoder.
pub fn decode_entities(s: &str) -> (r: String)
    ensures
        r@ == entities_decoded(s@),
{
    let v = chars_of(s);
    string_of_all(&decode_entities_chars(&v))
}


/// The text between the first `<tag>` of `chunk` and the first `</tag>` after it.
fn extract_tag(chunk: &Vec<char>, tag: &Vec<char>) -> (r: Option<Vec<char>>)
    ensures
        opt_chars(r) == tag_text(chunk@, tag@),
{
    let mut open = vec!['<'];
    push_all(&mut open, tag);
    open.push('>');
    let mut close = vec!['<', '/'];
    push_all(&mut close, tag);
    close.push('>');
    assert(open@ =~= open_tag(tag@));
    assert(close@ =~= close_tag(tag@));
    proof {
        lemma_find_from_bounds(chunk@, open@, 0);
    }
    match find_from_exec(chunk, &open, 0) {
        None => None,
        Some(i) => {
            let start = i + open.len();
            proof {
                lemma_find_from_bounds(chunk@, close@, start as int);
            }
            match find_from_exec(chunk, &close, start) {
                None => None,
                Some(e) => Some(slice_chars(chunk, start, e)),
            }
        },
    }
}

/// The decoded `url="..."` attribute of the first `<enclosure ...>` tag of `chunk`.
fn extract_enclosure_url(chunk: &Vec<char>) -> (r: Option<Vec<char>>)
    ensures
        opt_chars(r) == enclosure_url(chunk@),
{
    let enc = vec!['<', 'e', 'n', 'c', 'l', 'o', 's', 'u', 'r', 'e'];
    let gt = vec!['>'];
    let attr = vec!['u', 'r', 'l', '=', '"'];
    let quote = vec!['"'];
    assert(enc@ =~= enclosure_open());
    assert(gt@ =~= seq!['>']);
    assert(attr@ =~= url_attr());
    assert(quote@ =~= seq!['"']);
    proof {
        lemma_find_from_bounds(chunk@, enc@, 0);
    }
    let ts = match find_from_exec(chunk, &enc, 0) {
        None => return None,
        Some(ts) => ts,
    };
    proof {
        lemma_find_from_bounds(chunk@, gt@, ts as int);
    }
    let te = match find_from_exec(chunk, &gt, ts) {
        None => return None,
        Some(te) => te,
    };
    let tag = slice_chars(chunk, ts, te);
    proof {
        lemma_find_from_bounds(tag@, attr@, 0);
    }
    let a = match find_from_exec(&tag, &attr, 0) {
        None => return None,
        Some(a) => a,
    };
    let a_start = a + attr.len();
    proof {
        lemma_find_from_bounds(tag@, quote@, a_start as int);
    }
    let ae = match find_from_exec(&tag, &quote, a_start) {
        None => return None,
        Some(ae) => ae,
    };
    let raw = slice_chars(&tag, a_start, ae);
    Some(decode_entities_chars(&raw))
}

/// A tag's text, trimmed and with its entities decoded.
fn field_string(t: &Vec<char>) -> (r: String)
    ensures
        r@ == field_text(t@),
{
    string_of_all(&decode_entities_chars(&trim_exec(t)))
}

/// The item that one chunk of the feed describes, if it is complete.
fn item_of_chunk_exec(chunk: &Vec<char>) -> (r: Option<NewsItem>)
    ensures
        match r {
            Some(it) => item_of_chunk(chunk@) == Some(it@),
            None => item_of_chunk(chunk@) is None,
        },
{
    let close = vec!['<', '/', 'i', 't', 'e', 'm', '>'];
    assert(close@ =~= item_close());
    proof {
        lemma_find_from_bounds(chunk@, close@, 0);
    }
    let c = match find_from_exec(chunk, &close, 0) {
        Some(i) => slice_chars(chunk, 0, i),
        None => slice_chars(chunk, 0, chunk.len()),
    };
    assert(c@ =~= before_first(chunk@, item_close()));
    let title_t = vec!['t', 'i', 't', 'l', 'e'];
    let link_t = vec!['l', 'i', 'n', 'k'];
    let date_t = vec!['p', 'u', 'b', 'D', 'a', 't', 'e'];
    let desc_t = vec!['d', 'e', 's', 'c', 'r', 'i', 'p', 't', 'i', 'o', 'n'];
    let cat_t = vec!['c', 'a', 't', 'e', 'g', 'o', 'r', 'y'];
    assert(title_t@ =~= title_tag());
    assert(link_t@ =~= link_tag());
    assert(date_t@ =~= pub_date_tag());
    assert(desc_t@ =~= description_tag());
    assert(cat_t@ =~= category_tag());
    let title = extract_tag(&c, &title_t);
    let link = extract_tag(&c, &link_t);
    let date = extract_tag(&c, &date_t);
    let desc = extract_tag(&c, &desc_t);
    match (title, link, date, desc) {
        (Some(t), Some(l), Some(d), Some(de)) => {
            let category = match extract_tag(&c, &cat_t) {
                Some(x) => field_string(&x),
                None => field_string(&Vec::new()),
            };
            let image_url = match extract_enclosure_url(&c) {
                Some(u) => Some(string_of_all(&u)),
                None => None,
            };
            let item = NewsItem {
                title: field_string(&t),
                link: field_string(&l),
                pub_date: field_string(&d),
                description: field_string(&de),
                category,
                image_url,
            };
            assert(opt_string(item.image_url) == enclosure_url(c@));
            Some(item)
        },
        _ => None,
    }
}

/// The items of a feed, in feed order (newest first in the game's feed). Items that lack a
/// title, link, date or description are skipped.
pub fn parse_items(xml: &str) -> (r: Vec<NewsItem>)
    ensures
        news_views(r@) == feed_items(xml@),
{
    let v = chars_of(xml);
    let open = vec!['<', 'i', 't', 'e', 'm', '>'];
    assert(open@ =~= item_open());
    let chunks = split_str_exec(&v, &open);
    let ghost rest = chunks.deep_view().drop_first();
    let mut out: Vec<NewsItem> = Vec::new();
    let mut i: usize = 1;
    proof {
        crate::text::lemma_split_str_len(v@, open@);
    }
    assert(rest.take(0) =~= Seq::<Seq<char>>::empty());
    assert(news_views(out@) =~= Seq::<NewsItemView>::empty());
    while i < chunks.len()
        invariant
            1 <= i <= chunks.len(),
            rest == chunks.deep_view().drop_first(),
            news_views(out@) == items_of_chunks(rest.take(i - 1)),
        decreases chunks.len() - i,
    {
        let ghost before = out@;
        assert(chunks@[i as int]@ == chunks.deep_view()[i as int]);
        match item_of_chunk_exec(&chunks[i]) {
            Some(it) => {
                out.push(it);
                assert(news_views(out@) =~= news_views(before).push(it@));
            },
            None => {},
        }
        assert(rest.take(i as int).drop_last() =~= rest.take(i - 1));
        assert(rest.take(i as int).last() == chunks.deep_view()[i as int]);
        i += 1;
    }
    assert(rest.take(i - 1) =~= rest);
    out
}

/// Up to `limit` of the feed's items, from the start of the feed (the newest).
pub fn latest_news(xml: &str, limit: usize) -> (r: Vec<NewsItem>)
    ensures
        news_views(r@) == feed_items(xml@).take(
            if limit <= feed_items(xml@).len() { limit as int } else { feed_items(xml@).len() as int },
        ),
{
    let mut items = parse_items(xml);
    let ghost all = items@;
    items.truncate(limit);
    assert(news_views(items@) =~= news_views(all).take(
        if limit <= news_views(all).len() { limit as int } else { news_views(all).len() as int },
    ));
    items
}

} // verus!
