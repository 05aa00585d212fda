//! The feed of musicforprogramming.net: its channel and episodes, read from
//! RSS text, and the choice of which episode to play.
use vstd::prelude::*;
use crate::text;

verus! {

// ---------------------------------------------------------------------------
// The channel as the RSS parser hands it over
// ---------------------------------------------------------------------------

#[verifier::external_type_specification]
#[verifier::external_body]
pub struct ExRssError(rss::Error);

/// An `<enclosure>` of an RSS item: its URL, its length attribute as written,
/// and its MIME type.
pub struct FeedEnclosure {
    pub url: String,
    pub length: String,
    pub mime_type: String,
}

/// The parts of an RSS `<item>` that the feed reads. `keywords` and
/// `duration` come from the item's iTunes extension.
pub struct FeedItem {
    pub title: Option<String>,
    pub link: Option<String>,
    pub pub_date: Option<String>,
    pub enclosure: Option<FeedEnclosure>,
    pub keywords: Option<String>,
    pub duration: Option<String>,
}

/// The parts of an RSS `<channel>` that the feed reads.
pub struct FeedChannel {
    pub title: String,
    pub link: String,
    pub description: String,
    pub items: Vec<FeedItem>,
}

pub struct FeedEnclosureView {
    pub url: Seq<char>,
    pub length: Seq<char>,
    pub mime_type: Seq<char>,
}

pub struct FeedItemView {
    pub title: Option<Seq<char>>,
    pub link: Option<Seq<char>>,
    pub pub_date: Option<Seq<char>>,
    pub enclosure: Option<FeedEnclosureView>,
    pub keywords: Option<Seq<char>>,
    pub duration: Option<Seq<char>>,
}

pub struct FeedChannelView {
    pub title: Seq<char>,
    pub link: Seq<char>,
    pub description: Seq<char>,
    pub items: Seq<FeedItemView>,
}

pub open spec fn opt_view(o: Option<String>) -> Option<Seq<char>> {
    match o {
        Some(s) => Some(s@),
        None => None,
    }
}

impl View for FeedEnclosure {
    type V = FeedEnclosureView;

    open spec fn view(&self) -> FeedEnclosureView {
        FeedEnclosureView { url: self.url@, length: self.length@, mime_type: self.mime_type@ }
    }
}

impl View for FeedItem {
    type V = FeedItemView;

    open spec fn view(&self) -> FeedItemView {
        FeedItemView {
            title: opt_view(self.title),
            link: opt_view(self.link),
            pub_date: opt_view(self.pub_date),
            enclosure: match self.enclosure {
                Some(e) => Some(e@),
                None => None,
            },
            keywords: opt_view(self.keywords),
            duration: opt_view(self.duration),
        }
    }
}

impl View for FeedChannel {
    type V = FeedChannelView;

    open spec fn view(&self) -> FeedChannelView {
        FeedChannelView {
            title: self.title@,
            link: self.link@,
            description: self.description@,
            items: self.items@.map_values(|i: FeedItem| i@),
        }
    }
}

/// The channel that the `rss` crate reads from a document, or `None` where it
/// reports an error.
pub uninterp spec fn rss_channel(bytes: Seq<u8>) -> Option<FeedChannelView>;

/// Calls `rss::Channel::read_from` on the bytes of a document and copies out,
/// through the verified constructors below, the fields that the feed reads.
/// Claimed: whether it succeeds, and the channel it yields, depend on the
/// bytes alone (the name `rss_channel`). What the parser makes of a given
/// document is not stated.
#[verifier::external_body]
fn read_rss_channel(bytes: &[u8]) -> (r: Result<FeedChannel, rss::Error>)
    ensures
        r is Ok <==> rss_channel(bytes@) is Some,
        r matches Ok(c) ==> rss_channel(bytes@) == Some(c@),
{
    let c = rss::Channel::read_from(bytes)?;
    let items = c.items().iter().map(|i| FeedItem::new(
        i.title(), i.link(), i.pub_date(),
        i.enclosure().map(|e| FeedEnclosure::new(e.url(), e.length(), e.mime_type())),
        i.itunes_ext().and_then(|x| x.keywords()),
        i.itunes_ext().and_then(|x| x.duration()),
    )).collect();
    Ok(FeedChannel::new(c.title(), c.link(), c.description(), items))
}

/// The text of an optional string slice.
pub open spec fn opt_str_view(o: Option<&str>) -> Option<Seq<char>> {
    match o {
        Some(s) => Some(s@),
        None => None,
    }
}

fn owned(o: Option<&str>) -> (r: Option<String>)
    ensures
        opt_view(r) == opt_str_view(o),
{
    match o {
        Some(s) => Some(s.to_owned()),
        None => None,
    }
}

impl FeedEnclosure {
    pub fn new(url: &str, length: &str, mime_type: &str) -> (e: FeedEnclosure)
        ensures
            e@ == (FeedEnclosureView { url: url@, length: length@, mime_type: mime_type@ }),
    {
        FeedEnclosure { url: url.to_owned(), length: length.to_owned(), mime_type: mime_type.to_owned() }
    }
}

impl FeedItem {
    pub fn new(
        title: Option<&str>,
        link: Option<&str>,
        pub_date: Option<&str>,
        enclosure: Option<FeedEnclosure>,
        keywords: Option<&str>,
        duration: Option<&str>,
    ) -> (i: FeedItem)
        ensures
            i@ == (FeedItemView {
                title: opt_str_view(title),
                link: opt_str_view(link),
                pub_date: opt_str_view(pub_date),
                enclosure: match enclosure {
                    Some(e) => Some(e@),
                    None => None,
                },
                keywords: opt_str_view(keywords),
                duration: opt_str_view(duration),
            }),
    {
        FeedItem {
            title: owned(title),
            link: owned(link),
            pub_date: owned(pub_date),
            enclosure,
            keywords: owned(keywords),
            duration: owned(duration),
        }
    }
}

impl FeedChannel {
    pub fn new(title: &str, link: &str, description: &str, items: Vec<FeedItem>) -> (c: FeedChannel)
        ensures
            c@ == (FeedChannelView {
                title: title@,
                link: link@,
                description: description@,
                items: items@.map_values(|i: FeedItem| i@),
            }),
    {
        FeedChannel { title: title.to_owned(), link: link.to_owned(), description: description.to_owned(), items }
    }
}

// ---------------------------------------------------------------------------
// The feed
// ---------------------------------------------------------------------------

/// Why a feed could not be read.
#[derive(Debug)]
pub enum FeedError {
    /// The RSS document was rejected by the parser.
    Rss(rss::Error),
}

/// The audio file of an episode.
#[derive(Debug)]
pub struct Enclosure {
    pub url: String,
    pub length: u64,
    pub mime_type: String,
}

/// One mix of the feed.
#[derive(Debug)]
pub struct Episode {
    pub title: String,
    pub link: String,
    pub pub_date: String,
    pub enclosure: Option<Enclosure>,
    pub duration: String,
    pub keywords: Vec<String>,
}

/// The feed: its title, link and description, and its episodes in feed
/// order (newest first).
pub struct Mfp {
    pub title: String,
    pub link: String,
    pub description: String,
    pub items: Vec<Episode>,
}

pub struct EnclosureView {
    pub url: Seq<char>,
    pub length: u64,
    pub mime_type: Seq<char>,
}

pub struct EpisodeView {
    pub title: Seq<char>,
    pub link: Seq<char>,
    pub pub_date: Seq<char>,
    pub enclosure: Option<EnclosureView>,
    pub duration: Seq<char>,
    pub keywords: Seq<Seq<char>>,
}

pub struct MfpView {
    pub title: Seq<char>,
    pub link: Seq<char>,
    pub description: Seq<char>,
    pub items: Seq<EpisodeView>,
}

impl View for Enclosure {
    type V = EnclosureView;

    open spec fn view(&self) -> EnclosureView {
        EnclosureView { url: self.url@, length: self.length, mime_type: self.mime_type@ }
    }
}

impl View for Episode {
    type V = EpisodeView;

    open spec fn view(&self) -> EpisodeView {
        EpisodeView {
            title: self.title@,
            link: self.link@,
            pub_date: self.pub_date@,
            enclosure: match self.enclosure {
                Some(e) => Some(e@),
                None => None,
            },
            duration: self.duration@,
            keywords: self.keywords@.map_values(|k: String| k@),
        }
    }
}

/// The views of a sequence of episodes.
pub open spec fn episode_views(s: Seq<Episode>) -> Seq<EpisodeView> {
    s.map_values(|e: Episode| e@)
}

impl View for Mfp {
    type V = MfpView;

    open spec fn view(&self) -> MfpView {
        MfpView {
            title: self.title@,
            link: self.link@,
            description: self.description@,
            items: episode_views(self.items@),
        }
    }
}

/// `Option::unwrap_or_default` on text.
pub open spec fn text_or_empty(o: Option<Seq<char>>) -> Seq<char> {
    match o {
        Some(t) => t,
        None => Seq::<char>::empty(),
    }
}

/// The keywords of a comma-separated list, each without surrounding white space.
pub open spec fn keyword_list(k: Seq<char>) -> Seq<Seq<char>> {
    text::split_on(k, ',').map_values(|p: Seq<char>| text::trim(p))
}

/// The enclosure of an episode: the length attribute read as a `u64`, or 0
/// where it does not parse.
pub open spec fn enclosure_from_feed(e: FeedEnclosureView) -> EnclosureView {
    EnclosureView {
        url: e.url,
        length: match text::spec_parse_u64(e.length) {
            Some(v) => v,
            None => 0,
        },
        mime_type: e.mime_type,
    }
}

/// The episode made of an RSS item: missing texts become empty.
pub open spec fn episode_from_item(i: FeedItemView) -> EpisodeView {
    EpisodeView {
        title: text_or_empty(i.title),
        link: text_or_empty(i.link),
        pub_date: text_or_empty(i.pub_date),
        enclosure: match i.enclosure {
            Some(e) => Some(enclosure_from_feed(e)),
            None => None,
        },
        duration: text_or_empty(i.duration),
        keywords: keyword_list(text_or_empty(i.keywords)),
    }
}

/// The feed made of an RSS channel: one episode per item, in the same order.
pub open spec fn feed_from_channel(c: FeedChannelView) -> MfpView {
    MfpView {
        title: c.title,
        link: c.link,
        description: c.description,
        items: c.items.map_values(|i: FeedItemView| episode_from_item(i)),
    }
}

fn clone_or_empty(o: &Option<String>) -> (s: String)
    ensures
        s@ == text_or_empty(opt_view(*o)),
{
    match o {
        Some(t) => t.clone(),
        None => String::new(),
    }
}

/// Splits a comma-separated keyword list and trims each keyword.
pub fn keywords_from_text(k: &str) -> (v: Vec<String>)
    ensures
        v@.map_values(|s: String| s@) == keyword_list(k@),
{
    let chars = text::chars_of(k);
    let parts = text::split_chars(chars.as_slice(), ',');
    let ghost expected = keyword_list(k@);
    let mut out: Vec<String> = Vec::new();
    let mut i: usize = 0;
    while i < parts.len()
        invariant
            i <= parts.len(),
            parts.len() == text::split_on(k@, ',').len(),
            forall|j: int| 0 <= j < parts.len() ==> #[trigger] parts[j]@ == text::split_on(k@, ',')[j],
            expected == keyword_list(k@),
            out@.len() == i,
            forall|j: int| 0 <= j < i ==> #[trigger] out@[j]@ == expected[j],
        decreases parts.len() - i,
    {
        let trimmed = text::trim_chars(parts[i].as_slice());
        out.push(text::string_from_chars(trimmed.as_slice()));
        i = i + 1;
    }
    assert(out@.map_values(|s: String| s@) =~= keyword_list(k@));
    out
}

impl Enclosure {
    /// The enclosure of an episode, made of the enclosure of an RSS item.
    pub fn from_feed(e: &FeedEnclosure) -> (r: Enclosure)
        ensures
            r@ == enclosure_from_feed(e@),
    {
        let chars = text::chars_of(e.length.as_str());
        let length = match text::parse_u64(chars.as_slice()) {
            Some(v) => v,
            None => 0,
        };
        Enclosure { url: e.url.clone(), length, mime_type: e.mime_type.clone() }
    }
}

impl Episode {
    /// An episode with the given fields.
    pub fn new(
        title: String,
        link: String,
        pub_date: String,
        enclosure: Option<Enclosure>,
        duration: String,
        keywords: Vec<String>,
    ) -> (e: Episode)
        ensures
            e.title == title,
            e.link == link,
            e.pub_date == pub_date,
            e.enclosure == enclosure,
            e.duration == duration,
            e.keywords == keywords,
    {
        Episode { title, link, pub_date, enclosure, duration, keywords }
    }

    /// The episode made of an RSS item.
    pub fn from_item(item: &FeedItem) -> (e: Episode)
        ensures
            e@ == episode_from_item(item@),
    {
        let enclosure = match &item.enclosure {
            Some(enc) => Some(Enclosure::from_feed(enc)),
            None => None,
        };
        let keywords_text = clone_or_empty(&item.keywords);
        let keywords = keywords_from_text(keywords_text.as_str());
        let e = Episode::new(
            clone_or_empty(&item.title),
            clone_or_empty(&item.link),
            clone_or_empty(&item.pub_date),
            enclosure,
            clone_or_empty(&item.duration),
            keywords,
        );
        assert(e@.keywords =~= episode_from_item(item@).keywords);
        e
    }
}

impl Mfp {
    /// The feed made of an RSS channel: one episode per item, in order.
    pub fn from_channel(channel: &FeedChannel) -> (m: Mfp)
        ensures
            m@ == feed_from_channel(channel@),
            m.items.len() == channel.items.len(),
            forall|k: int|
                0 <= k < channel.items.len() ==> #[trigger] m.items@[k]@ == episode_from_item(
                    channel.items@[k]@,
                ),
    {
        let mut items: Vec<Episode> = Vec::new();
        let mut i: usize = 0;
        while i < channel.items.len()
            invariant
                i <= channel.items.len(),
                items@.len() == i,
                forall|j: int|
                    0 <= j < i ==> #[trigger] items@[j]@ == episode_from_item(channel.items@[j]@),
            decreases channel.items.len() - i,
        {
            items.push(Episode::from_item(&channel.items[i]));
            i = i + 1;
        }
        let m = Mfp {
            title: channel.title.clone(),
            link: channel.link.clone(),
            description: channel.description.clone(),
            items,
        };
        assert(m@.items =~= feed_from_channel(channel@).items);
        m
    }

    /// Reads the feed from the text of its RSS document. Fails exactly where
    /// the RSS parser rejects the document.
    pub fn new(rss_data: &str) -> (r: Result<Mfp, FeedError>)
        ensures
            r is Ok <==> rss_channel(vstd::utf8::encode_utf8(rss_data@)) is Some,
            r matches Ok(m) ==> m@ == feed_from_channel(rss_channel(vstd::utf8::encode_utf8(rss_data@))->0),
            r matches Ok(m) ==> {
                let c = rss_channel(vstd::utf8::encode_utf8(rss_data@))->0;
                &&& m.items.len() == c.items.len()
                &&& forall|k: int|
                    0 <= k < c.items.len() ==> #[trigger] m.items@[k]@ == episode_from_item(c.items[k])
            },
    {
        match read_rss_channel(rss_data.as_bytes()) {
            Ok(channel) => {
                let m = Mfp::from_channel(&channel);
                assert(channel@.items.len() == channel.items.len());
                assert forall|k: int| 0 <= k < channel.items.len() implies channel@.items[k]
                    == channel.items@[k]@ by {}
                Ok(m)
            },
            Err(e) => Err(FeedError::Rss(e)),
        }
    }
}

// ---------------------------------------------------------------------------
// Choosing episodes
// ---------------------------------------------------------------------------

/// The episodes whose title differs from `title`, in their order.
pub open spec fn without_title(items: Seq<EpisodeView>, title: Seq<char>) -> Seq<EpisodeView>
    decreases items.len(),
{
    if items.len() == 0 {
        items
    } else {
        let rest = without_title(items.drop_last(), title);
        if items.last().title != title {
            rest.push(items.last())
        } else {
            rest
        }
    }
}

/// Removes every episode titled `title`, keeping the others in order.
pub fn remove_played(items: &mut Vec<Episode>, title: &String)
    ensures
        episode_views(final(items)@) == without_title(episode_views(old(items)@), title@),
{
    let ghost orig = episode_views(old(items)@);
    let ghost mut j: int = 0;
    let mut i: usize = 0;
    while i < items.len()
        invariant
            0 <= i <= j <= orig.len(),
            orig == episode_views(old(items)@),
            items@.len() == i + (orig.len() - j),
            episode_views(items@.take(i as int)) == without_title(orig.take(j), title@),
            episode_views(items@.skip(i as int)) == orig.skip(j),
        decreases items@.len() - i,
    {
        let ghost before = items@;
        assert(episode_views(before.skip(i as int))[0] == orig.skip(j)[0]);
        assert(orig.take(j + 1).drop_last() =~= orig.take(j));
        assert(orig.take(j + 1).last() == orig[j]);
        assert(items@[i as int]@ == orig[j]);
        if items[i].title == *title {
            items.remove(i);
            proof {
                assert(items@.take(i as int) =~= before.take(i as int));
                assert(items@.skip(i as int) =~= before.skip(i + 1));
                assert(episode_views(before.skip(i + 1)) =~= episode_views(before.skip(i as int)).drop_first());
                assert(orig.skip(j + 1) =~= orig.skip(j).drop_first());
                j = j + 1;
            }
        } else {
            proof {
                assert(items@.take(i + 1) =~= before.take(i as int).push(before[i as int]));
                assert(episode_views(items@.take(i + 1)) =~= episode_views(before.take(i as int)).push(before[i as int]@));
                assert(items@.skip(i + 1) =~= before.skip(i as int).drop_first());
                assert(episode_views(before.skip(i + 1)) =~= episode_views(before.skip(i as int)).drop_first());
                assert(orig.skip(j + 1) =~= orig.skip(j).drop_first());
                j = j + 1;
            }
            i = i + 1;
        }
    }
    assert(orig.take(j) =~= orig);
    assert(items@.take(i as int) =~= items@);
}

/// `rand::seq::IteratorRandom::choose` over the indices `0..len` with the
/// thread-local generator, which draws the same index as
/// `SliceRandom::choose_mut` on a slice of that length. Claimed: `None`
/// exactly when `len` is 0, else an index below `len`. Which index comes back
/// depends on chance and is not stated.
#[verifier::external_body]
fn choose_index(len: usize) -> (r: Option<usize>)
    ensures
        r is None <==> len == 0,
        r matches Some(i) ==> i < len,
{
    rand::seq::IteratorRandom::choose(0..len, &mut rand::thread_rng())
}

/// Picks an episode at random: `None` exactly when there is none left.
pub fn choose_next_episode(items: &Vec<Episode>) -> (r: Option<usize>)
    ensures
        r is None <==> items.len() == 0,
        r matches Some(i) ==> i < items.len(),
{
    choose_index(items.len())
}

/// The position in the feed of track number `requested`, counting from the
/// oldest episode (the last in the feed) as track 1; `None` when there is no
/// such track.
pub open spec fn spec_track_index(requested: usize, total: usize) -> Option<usize> {
    if 1 <= requested && requested <= total {
        Some((total - requested) as usize)
    } else {
        None
    }
}

/// The position in the feed of track number `requested` (see
/// `spec_track_index`).
pub fn track_index(requested: usize, total: usize) -> (r: Option<usize>)
    ensures
        r == spec_track_index(requested, total),
{
    if requested > total || requested < 1 {
        None
    } else {
        Some(total - requested)
    }
}

// ---------------------------------------------------------------------------
// Laws
// ---------------------------------------------------------------------------

/// Removing the episodes titled `title` leaves none of that title, keeps
/// every other episode, in order, and shrinks the list when an episode of
/// that title was present. Random playback therefore plays each title once and
/// runs out after at most as many rounds as there are episodes.
pub proof fn lemma_without_title(items: Seq<EpisodeView>, title: Seq<char>)
    ensures
        without_title(items, title).len() <= items.len(),
        forall|k: int|
            0 <= k < without_title(items, title).len() ==> (#[trigger] without_title(items, title)[k]).title
                != title,
        forall|k: int|
            0 <= k < without_title(items, title).len() ==> items.contains(
                #[trigger] without_title(items, title)[k],
            ),
        forall|k: int|
            0 <= k < items.len() && (#[trigger] items[k]).title != title ==> without_title(
                items,
                title,
            ).contains(items[k]),
        (exists|k: int| 0 <= k < items.len() && (#[trigger] items[k]).title == title)
            ==> without_title(items, title).len() < items.len(),
    decreases items.len(),
{
    if items.len() > 0 {
        let init = items.drop_last();
        lemma_without_title(init, title);
        let rest = without_title(init, title);
        let r = without_title(items, title);
        assert forall|k: int| 0 <= k < r.len() implies items.contains(#[trigger] r[k]) by {
            if k < rest.len() {
                assert(r[k] == rest[k]);
                let m = choose|m: int| 0 <= m < init.len() && init[m] == rest[k];
                assert(items[m] == init[m]);
            } else {
                assert(r[k] == items.last());
                assert(items[items.len() - 1] == items.last());
            }
        }
        assert forall|k: int| 0 <= k < items.len() && (#[trigger] items[k]).title != title implies r.contains(
            items[k],
        ) by {
            if k < init.len() {
                assert(init[k] == items[k]);
                let m = choose|m: int| 0 <= m < rest.len() && rest[m] == init[k];
                assert(r[m] == rest[m]);
            } else {
                assert(r[r.len() - 1] == items.last());
            }
        }
        if exists|k: int| 0 <= k < items.len() && (#[trigger] items[k]).title == title {
            let k = choose|k: int| 0 <= k < items.len() && (#[trigger] items[k]).title == title;
            if k < init.len() {
                assert(init[k] == items[k]);
            }
        }
    }
}

/// Track numbers 1 to `total` name the episodes from the oldest (the last in
/// the feed) to the newest (the first), each a different one; no other number
/// names an episode.
pub proof fn lemma_track_numbers(total: usize, a: usize, b: usize)
    ensures
        spec_track_index(a, total) is Some <==> 1 <= a <= total,
        spec_track_index(a, total) matches Some(i) ==> i < total,
        total >= 1 ==> spec_track_index(1, total) == Some((total - 1) as usize),
        total >= 1 ==> spec_track_index(total, total) == Some(0usize),
        a != b && spec_track_index(a, total) is Some && spec_track_index(b, total) is Some
            ==> spec_track_index(a, total) != spec_track_index(b, total),
{
}

/// The feed made of a channel has exactly one episode per channel item, the
/// `k`-th episode made of the `k`-th item: none is dropped, added or moved.
pub proof fn lemma_one_episode_per_item(c: FeedChannelView)
    ensures
        feed_from_channel(c).items.len() == c.items.len(),
        forall|k: int|
            0 <= k < c.items.len() ==> #[trigger] feed_from_channel(c).items[k] == episode_from_item(
                c.items[k],
            ),
        feed_from_channel(c).title == c.title,
        feed_from_channel(c).link == c.link,
        feed_from_channel(c).description == c.description,
{
}

/// Consecutive track numbers name consecutive feed positions in reverse:
/// track `n + 1` stands one position before track `n`, track 1 is the last
/// item and track `total` the first; so track `n` is at position `total - n`.
pub proof fn lemma_track_numbers_consecutive(total: usize, n: usize)
    requires
        1 <= n <= total,
    ensures
        spec_track_index(n, total) matches Some(i) && i + n == total,
        n < total ==> (spec_track_index((n + 1) as usize, total) matches Some(j) && spec_track_index(
            n,
            total,
        ) matches Some(i) && j + 1 == i),
{
}

/// The number of occurrences of `c` in `s`.
pub open spec fn count_char(s: Seq<char>, c: char) -> nat
    decreases s.len(),
{
    if s.len() == 0 {
        0
    } else {
        count_char(s.drop_last(), c) + if s.last() == c {
            1nat
        } else {
            0nat
        }
    }
}

proof fn lemma_split_count(s: Seq<char>, sep: char)
    ensures
        text::split_on(s, sep).len() == count_char(s, sep) + 1,
        forall|k: int|
            0 <= k < text::split_on(s, sep).len() ==> !(#[trigger] text::split_on(s, sep)[k]).contains(sep),
    decreases s.len(),
{
    if s.len() > 0 {
        lemma_split_count(s.drop_last(), sep);
        let parts = text::split_on(s.drop_last(), sep);
        let r = text::split_on(s, sep);
        if s.last() != sep {
            assert forall|k: int| 0 <= k < r.len() implies !(#[trigger] r[k]).contains(sep) by {
                if k == r.len() - 1 {
                    let last = parts.last().push(s.last());
                    assert(r[k] == last);
                    if last.contains(sep) {
                        let m = choose|m: int| 0 <= m < last.len() && last[m] == sep;
                        if m < parts.last().len() {
                            assert(parts[parts.len() - 1][m] == sep);
                            assert(parts[parts.len() - 1].contains(sep));
                        }
                    }
                } else {
                    assert(r[k] == parts[k]);
                }
            }
        } else {
            assert forall|k: int| 0 <= k < r.len() implies !(#[trigger] r[k]).contains(sep) by {
                if k < parts.len() {
                    assert(r[k] == parts[k]);
                } else {
                    assert(r[k] =~= Seq::<char>::empty());
                }
            }
        }
    }
}

/// A keyword list has one keyword more than it has commas; no keyword holds
/// a comma, and none begins or ends with white space.
pub proof fn lemma_keyword_list(k: Seq<char>)
    ensures
        keyword_list(k).len() == count_char(k, ',') + 1,
        forall|i: int|
            0 <= i < keyword_list(k).len() ==> {
                let w = #[trigger] keyword_list(k)[i];
                &&& !w.contains(',')
                &&& w.len() > 0 ==> !text::is_white_space(w[0]) && !text::is_white_space(w.last())
            },
{
    lemma_split_count(k, ',');
    assert forall|i: int| 0 <= i < keyword_list(k).len() implies {
        let w = #[trigger] keyword_list(k)[i];
        &&& !w.contains(',')
        &&& w.len() > 0 ==> !text::is_white_space(w[0]) && !text::is_white_space(w.last())
    } by {
        let p = text::split_on(k, ',')[i];
        let w = keyword_list(k)[i];
        assert(w == text::trim(p));
        text::lemma_trim_ends(p);
        text::lemma_trim_sub(p);
        assert(!p.contains(','));
        if w.contains(',') {
            let m = choose|m: int| 0 <= m < w.len() && w[m] == ',';
            let a = text::lead_ws(p) as int;
            assert(w[m] == p[a + m]);
            assert(p.contains(','));
        }
    }
}

} // verus!
