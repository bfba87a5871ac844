use vstd::prelude::*;
use vstd::seq_lib::lemma_concat_associative;

use crate::model::{
    episodes_view, Episode, EpisodeView, PodcastDataView, PodcastEntry, PodcastEntryView, Profile,
    ProfileView,
};
use crate::resources::{
    absolute_media_url, absolute_media_url_of, absolute_url, absolute_url_of, mime_type_for,
    mime_type_of, public_resource_url_from_segments, resource_components, resource_url,
    strings_view, texts_view, url_path_escape, url_path_escaped,
};
use crate::text::{
    blank, chars_of, decimal, decimal_string, fallback_text, fallback_title, is_blank,
    is_white_space, same_text, string_from_range, white_space,
};
use crate::xml::{
    attrs_view, element, element_text, empty_element_attr, empty_element_text, indent_spaces,
    spaces, xml_escape, xml_escaped,
};

verus! {

/// `s` without its leading white space.
pub open spec fn trim_start(s: Seq<char>) -> Seq<char>
    decreases s.len(),
{
    if s.len() > 0 && is_white_space(s[0]) {
        trim_start(s.drop_first())
    } else {
        s
    }
}

/// `s` without its trailing white space.
pub open spec fn trim_end(s: Seq<char>) -> Seq<char>
    decreases s.len(),
{
    if s.len() > 0 && is_white_space(s.last()) {
        trim_end(s.drop_last())
    } else {
        s
    }
}

/// What `str::trim` gives.
pub open spec fn trimmed(s: Seq<char>) -> Seq<char> {
    trim_end(trim_start(s))
}

proof fn lemma_trim_start_at(s: Seq<char>, a: int)
    requires
        0 <= a <= s.len(),
        forall|j: int| 0 <= j < a ==> is_white_space(#[trigger] s[j]),
        a == s.len() || !is_white_space(s[a]),
    ensures
        trim_start(s) == s.subrange(a, s.len() as int),
    decreases a,
{
    if a == 0 {
        assert(s.subrange(0, s.len() as int) =~= s);
    } else {
        assert(is_white_space(s[0]));
        let t = s.drop_first();
        assert forall|j: int| 0 <= j < a - 1 implies is_white_space(#[trigger] t[j]) by {
            assert(t[j] == s[j + 1]);
        }
        lemma_trim_start_at(t, a - 1);
        assert(t.subrange(a - 1, t.len() as int) =~= s.subrange(a, s.len() as int));
    }
}

proof fn lemma_trim_end_at(s: Seq<char>, b: int)
    requires
        0 <= b <= s.len(),
        forall|j: int| b <= j < s.len() ==> is_white_space(#[trigger] s[j]),
        b == 0 || !is_white_space(s[b - 1]),
    ensures
        trim_end(s) == s.subrange(0, b),
    decreases s.len() - b,
{
    if b == s.len() {
        assert(s.subrange(0, b) =~= s);
    } else {
        let t = s.drop_last();
        lemma_trim_end_at(t, b);
        assert(t.subrange(0, b) =~= s.subrange(0, b));
    }
}

/// `chars` trimmed of white space at both ends.
pub fn trim_chars(chars: &Vec<char>) -> (r: Vec<char>)
    ensures
        r@ == trimmed(chars@),
{
    let n = chars.len();
    let mut a: usize = 0;
    while a < n && white_space(chars[a])
        invariant
            n == chars@.len(),
            a <= n,
            forall|j: int| 0 <= j < a ==> is_white_space(#[trigger] chars@[j]),
        decreases n - a,
    {
        a = a + 1;
    }
    proof {
        lemma_trim_start_at(chars@, a as int);
    }
    let ghost front = chars@.subrange(a as int, n as int);
    let mut b: usize = n;
    while b > a && white_space(chars[b - 1])
        invariant
            n == chars@.len(),
            a <= b <= n,
            forall|j: int| b <= j < n ==> is_white_space(#[trigger] chars@[j]),
        decreases b,
    {
        b = b - 1;
    }
    proof {
        assert forall|j: int| b - a <= j < front.len() implies is_white_space(#[trigger] front[j]) by {
            assert(front[j] == chars@[j + a]);
        }
        if b > a {
            assert(front[b - a - 1] == chars@[b - 1]);
        }
        lemma_trim_end_at(front, b - a);
        assert(front.subrange(0, b - a) =~= chars@.subrange(a as int, b as int));
    }
    let mut r: Vec<char> = Vec::new();
    let mut i = a;
    while i < b
        invariant
            a <= i <= b <= n,
            n == chars@.len(),
            r@ == chars@.subrange(a as int, i as int),
        decreases b - i,
    {
        r.push(chars[i]);
        assert(r@ =~= chars@.subrange(a as int, i + 1));
        i = i + 1;
    }
    r
}

/// The pieces of `s` between the occurrences of `sep`, as `str::split` gives them.
pub open spec fn split_on(s: Seq<char>, sep: char) -> Seq<Seq<char>>
    decreases s.len(),
{
    if s.len() == 0 {
        seq![Seq::empty()]
    } else {
        let pieces = split_on(s.drop_last(), sep);
        if s.last() == sep {
            pieces.push(Seq::empty())
        } else {
            pieces.update(pieces.len() - 1, pieces.last().push(s.last()))
        }
    }
}

proof fn lemma_split_on_len(s: Seq<char>, sep: char)
    ensures
        split_on(s, sep).len() >= 1,
    decreases s.len(),
{
    if s.len() > 0 {
        lemma_split_on_len(s.drop_last(), sep);
    }
}

/// The pieces that are not empty, in order.
pub open spec fn non_empty(pieces: Seq<Seq<char>>) -> Seq<Seq<char>>
    decreases pieces.len(),
{
    if pieces.len() == 0 {
        Seq::empty()
    } else if pieces.last().len() == 0 {
        non_empty(pieces.drop_last())
    } else {
        non_empty(pieces.drop_last()).push(pieces.last())
    }
}

/// The levels of a category such as `Arts > Design`: split at `>`, trimmed, empty ones dropped.
pub open spec fn category_parts(category: Seq<char>) -> Seq<Seq<char>> {
    non_empty(split_on(category, '>').map_values(|p: Seq<char>| trimmed(p)))
}

/// The levels of `category`.
fn category_levels(category: &str) -> (r: Vec<Vec<char>>)
    ensures
        r@.len() == category_parts(category@).len(),
        forall|i: int| 0 <= i < r@.len() ==> #[trigger] r@[i]@ == category_parts(category@)[i],
{
    let chars = chars_of(category);
    let mut done: Vec<Vec<char>> = Vec::new();
    let mut current: Vec<char> = Vec::new();
    for i in 0..chars.len()
        invariant
            chars@ == category@,
            split_on(chars@.take(i as int), '>') == done@.map_values(|v: Vec<char>| v@).push(
                current@,
            ),
    {
        let c = chars[i];
        let ghost before = done@.map_values(|v: Vec<char>| v@).push(current@);
        assert(chars@.take(i + 1).drop_last() =~= chars@.take(i as int));
        if c == '>' {
            let mut finished: Vec<char> = Vec::new();
            std::mem::swap(&mut finished, &mut current);
            done.push(finished);
            assert(done@.map_values(|v: Vec<char>| v@).push(current@) =~= before.push(
                Seq::empty(),
            ));
        } else {
            current.push(c);
            assert(done@.map_values(|v: Vec<char>| v@).push(current@) =~= before.update(
                before.len() - 1,
                before.last().push(c),
            ));
        }
    }
    assert(chars@.take(chars.len() as int) =~= chars@);
    let ghost pieces = done@.map_values(|v: Vec<char>| v@).push(current@);
    done.push(current);
    assert(done@.map_values(|v: Vec<char>| v@) =~= pieces);
    let ghost trimmed_pieces = pieces.map_values(|p: Seq<char>| trimmed(p));
    let mut r: Vec<Vec<char>> = Vec::new();
    for i in 0..done.len()
        invariant
            pieces == done@.map_values(|v: Vec<char>| v@),
            trimmed_pieces == pieces.map_values(|p: Seq<char>| trimmed(p)),
            r@.map_values(|v: Vec<char>| v@) == non_empty(trimmed_pieces.take(i as int)),
    {
        let t = trim_chars(&done[i]);
        assert(trimmed_pieces.take(i + 1).drop_last() =~= trimmed_pieces.take(i as int));
        assert(trimmed_pieces[i as int] == t@);
        if t.len() > 0 {
            let ghost prev = r@.map_values(|v: Vec<char>| v@);
            r.push(t);
            assert(r@.map_values(|v: Vec<char>| v@) =~= prev.push(t@));
        }
    }
    assert(trimmed_pieces.take(done.len() as int) =~= trimmed_pieces);
    assert forall|i: int| 0 <= i < r@.len() implies #[trigger] r@[i]@ == category_parts(
        category@,
    )[i] by {
        assert(r@.map_values(|v: Vec<char>| v@)[i] == r@[i]@);
    }
    r
}

/// The lines for one iTunes category: a single level as an empty element, two levels as an
/// element holding the sub-category; further levels are ignored.
pub open spec fn itunes_category_text(indent: nat, category: Seq<char>) -> Seq<char> {
    let parts = category_parts(category);
    if parts.len() == 0 {
        Seq::empty()
    } else if parts.len() == 1 {
        empty_element_text(indent, "itunes:category"@, seq![("text"@, parts[0])])
    } else {
        spaces(indent) + "<itunes:category text=\""@ + xml_escaped(parts[0]) + "\">\n"@
            + empty_element_text(indent + 2, "itunes:category"@, seq![("text"@, parts[1])])
            + spaces(indent) + "</itunes:category>\n"@
    }
}

/// Appends the lines for one iTunes category.
pub fn write_itunes_category(xml: &mut String, indent: usize, category: &str)
    requires
        indent + 2 <= usize::MAX,
    ensures
        final(xml)@ == old(xml)@ + itunes_category_text(indent as nat, category@),
{
    let parts = category_levels(category);
    if parts.len() == 0 {
        assert(old(xml)@ + Seq::<char>::empty() =~= old(xml)@);
        return ;
    }
    let first = string_from_range(&parts[0], 0, parts[0].len());
    assert(parts[0]@.subrange(0, parts[0]@.len() as int) =~= parts[0]@);
    if parts.len() == 1 {
        let attrs = [("text", first.as_str())];
        empty_element_attr(xml, indent, "itunes:category", &attrs);
        assert(crate::xml::attrs_view(attrs@) =~= seq![("text"@, first@)]);
        return ;
    }
    let second = string_from_range(&parts[1], 0, parts[1].len());
    assert(parts[1]@.subrange(0, parts[1]@.len() as int) =~= parts[1]@);
    indent_spaces(xml, indent);
    xml.append("<itunes:category text=\"");
    let escaped = xml_escape(first.as_str());
    xml.append(escaped.as_str());
    xml.append("\">\n");
    let attrs = [("text", second.as_str())];
    empty_element_attr(xml, indent + 2, "itunes:category", &attrs);
    assert(crate::xml::attrs_view(attrs@) =~= seq![("text"@, second@)]);
    indent_spaces(xml, indent);
    xml.append("</itunes:category>\n");
    assert(xml@ =~= old(xml)@ + itunes_category_text(indent as nat, category@));
}

/// The categories to list first: the primary one, where it is not blank.
pub open spec fn category_start(primary: Seq<char>) -> Seq<Seq<char>> {
    if is_blank(primary) {
        Seq::empty()
    } else {
        seq![primary]
    }
}

/// `start` followed by each category of `categories` that is not blank and not listed yet.
pub open spec fn add_categories(start: Seq<Seq<char>>, categories: Seq<Seq<char>>) -> Seq<
    Seq<char>,
>
    decreases categories.len(),
{
    if categories.len() == 0 {
        start
    } else {
        let listed = add_categories(start, categories.drop_last());
        let c = categories.last();
        if !is_blank(c) && !listed.contains(c) {
            listed.push(c)
        } else {
            listed
        }
    }
}

/// The categories that a podcast's feed lists, in order.
pub open spec fn podcast_category_list(data: PodcastDataView) -> Seq<Seq<char>> {
    add_categories(category_start(data.primary_category), data.categories)
}

/// Whether `item` is one of `list`.
fn contains_text(list: &Vec<String>, item: &String) -> (r: bool)
    ensures
        r == strings_view(list@).contains(item@),
{
    for i in 0..list.len()
        invariant
            forall|j: int| 0 <= j < i ==> strings_view(list@)[j] != item@,
    {
        if same_text(list[i].as_str(), item.as_str()) {
            assert(strings_view(list@)[i as int] == item@);
            return true;
        }
    }
    false
}

/// The categories of a podcast: the primary one, then the others, each once and none blank.
pub fn podcast_categories(podcast: &PodcastEntry) -> (r: Vec<String>)
    ensures
        strings_view(r@) == podcast_category_list(podcast@.data),
{
    let mut categories: Vec<String> = Vec::new();
    if !blank(podcast.data.primary_category.as_str()) {
        categories.push(podcast.data.primary_category.clone());
    }
    assert(strings_view(categories@) =~= category_start(podcast@.data.primary_category));
    let ghost start = strings_view(categories@);
    let all = &podcast.data.categories;
    for i in 0..all.len()
        invariant
            all.deep_view() == podcast@.data.categories,
            start == category_start(podcast@.data.primary_category),
            strings_view(categories@) == add_categories(start, all.deep_view().take(i as int)),
    {
        assert(all.deep_view().take(i + 1).drop_last() =~= all.deep_view().take(i as int));
        assert(all.deep_view().take(i + 1).last() == all@[i as int]@);
        let category = &all[i];
        if !blank(category.as_str()) && !contains_text(&categories, category) {
            categories.push(category.clone());
            assert(strings_view(categories@) =~= add_categories(
                start,
                all.deep_view().take(i + 1),
            ));
        }
    }
    assert(all.deep_view().take(all.len() as int) =~= all.deep_view());
    categories
}

/// The lines for a list of categories.
pub open spec fn categories_text(indent: nat, categories: Seq<Seq<char>>) -> Seq<char>
    decreases categories.len(),
{
    if categories.len() == 0 {
        Seq::empty()
    } else {
        categories_text(indent, categories.drop_last()) + itunes_category_text(
            indent,
            categories.last(),
        )
    }
}

/// The cover image of an episode's item: the episode's own cover, else the podcast's, made
/// absolute; none where the chosen one is blank.
pub open spec fn episode_cover_url(
    podcast: PodcastEntryView,
    episode: EpisodeView,
    base: Seq<char>,
) -> Option<Seq<char>> {
    let chosen = match episode.cover {
        Some(c) => Some(c),
        None => podcast.data.cover,
    };
    absolute_media_url_of(chosen, base)
}

/// The absolute URL of an episode's audio file in the resource tree.
pub open spec fn episode_audio_url(
    profile: ProfileView,
    podcast: PodcastEntryView,
    episode: EpisodeView,
    base: Seq<char>,
) -> Seq<char> {
    absolute_url_of(
        resource_url(
            resource_components(
                seq![profile.name, podcast.data.title, episode.title],
                episode.audio_file_name->0,
            ),
        ),
        base,
    )
}

/// An `itunes:image` line where there is an image.
pub open spec fn optional_image_text(indent: nat, url: Option<Seq<char>>) -> Seq<char> {
    match url {
        Some(u) => empty_element_text(indent, "itunes:image"@, seq![("href"@, u)]),
        None => Seq::empty(),
    }
}

/// The lines of an `<item>`, given the texts that go into it.
pub open spec fn item_lines(
    title: Seq<char>,
    notes: Seq<char>,
    guid: Seq<char>,
    number: Seq<char>,
    cover: Option<Seq<char>>,
    url: Seq<char>,
    length: Seq<char>,
    mime: Seq<char>,
) -> Seq<char> {
    "    <item>\n"@ + element_text(6, "title"@, title) + element_text(6, "description"@, notes)
        + element_text(6, "content:encoded"@, notes) + element_text(6, "guid"@, guid)
        + element_text(6, "itunes:episode"@, number) + element_text(
        6,
        "itunes:episodeType"@,
        "full"@,
    ) + optional_image_text(6, cover) + empty_element_text(
        6,
        "enclosure"@,
        seq![("url"@, url), ("length"@, length), ("type"@, mime)],
    ) + "    </item>\n"@
}

/// The `<item>` of an episode that has an audio file.
pub open spec fn episode_item_text(
    profile: ProfileView,
    podcast: PodcastEntryView,
    episode: EpisodeView,
    base: Seq<char>,
) -> Seq<char> {
    let title = fallback_text(episode.title, "Untitled episode"@);
    item_lines(
        title,
        fallback_text(episode.notes, title),
        episode.id,
        decimal(episode.number as nat),
        episode_cover_url(podcast, episode, base),
        episode_audio_url(profile, podcast, episode, base),
        decimal(episode.audio_size as nat),
        mime_type_of(episode.audio_file_name->0),
    )
}

fn write_optional_image(xml: &mut String, indent: usize, url: &Option<String>)
    ensures
        final(xml)@ == old(xml)@ + optional_image_text(indent as nat, url.deep_view()),
{
    match url {
        Some(u) => {
            let attrs = [("href", u.as_str())];
            empty_element_attr(xml, indent, "itunes:image", &attrs);
            assert(attrs_view(attrs@) =~= seq![("href"@, u@)]);
        },
        None => {
            assert(old(xml)@ + Seq::<char>::empty() =~= old(xml)@);
        },
    }
}

fn write_item_lines(
    xml: &mut String,
    title: &str,
    notes: &str,
    guid: &str,
    number: &str,
    cover: &Option<String>,
    url: &str,
    length: &str,
    mime: &str,
)
    ensures
        final(xml)@ == old(xml)@ + item_lines(
            title@,
            notes@,
            guid@,
            number@,
            cover.deep_view(),
            url@,
            length@,
            mime@,
        ),
{
    let ghost start = xml@;
    xml.append("    <item>\n");
    let ghost p1 = "    <item>\n"@;
    element(xml, 6, "title", title);
    let ghost p2 = p1 + element_text(6, "title"@, title@);
    proof {
        lemma_concat_associative(start, p1, element_text(6, "title"@, title@));
    }
    assert(xml@ == start + p2);
    element(xml, 6, "description", notes);
    let ghost p3 = p2 + element_text(6, "description"@, notes@);
    proof {
        lemma_concat_associative(start, p2, element_text(6, "description"@, notes@));
    }
    assert(xml@ == start + p3);
    element(xml, 6, "content:encoded", notes);
    let ghost p4 = p3 + element_text(6, "content:encoded"@, notes@);
    proof {
        lemma_concat_associative(start, p3, element_text(6, "content:encoded"@, notes@));
    }
    assert(xml@ == start + p4);
    element(xml, 6, "guid", guid);
    let ghost p5 = p4 + element_text(6, "guid"@, guid@);
    proof {
        lemma_concat_associative(start, p4, element_text(6, "guid"@, guid@));
    }
    assert(xml@ == start + p5);
    element(xml, 6, "itunes:episode", number);
    let ghost p6 = p5 + element_text(6, "itunes:episode"@, number@);
    proof {
        lemma_concat_associative(start, p5, element_text(6, "itunes:episode"@, number@));
    }
    assert(xml@ == start + p6);
    element(xml, 6, "itunes:episodeType", "full");
    let ghost p7 = p6 + element_text(6, "itunes:episodeType"@, "full"@);
    proof {
        lemma_concat_associative(start, p6, element_text(6, "itunes:episodeType"@, "full"@));
    }
    assert(xml@ == start + p7);
    write_optional_image(xml, 6, cover);
    let ghost p8 = p7 + optional_image_text(6, cover.deep_view());
    proof {
        lemma_concat_associative(start, p7, optional_image_text(6, cover.deep_view()));
    }
    assert(xml@ == start + p8);
    let attrs = [("url", url), ("length", length), ("type", mime)];
    empty_element_attr(xml, 6, "enclosure", &attrs);
    assert(attrs_view(attrs@) =~= seq![("url"@, url@), ("length"@, length@), ("type"@, mime@)]);
    let ghost p9 = p8 + empty_element_text(
        6,
        "enclosure"@,
        seq![("url"@, url@), ("length"@, length@), ("type"@, mime@)],
    );
    proof {
        lemma_concat_associative(start, p8, empty_element_text(
        6,
        "enclosure"@,
        seq![("url"@, url@), ("length"@, length@), ("type"@, mime@)],
    ));
    }
    assert(xml@ == start + p9);
    xml.append("    </item>\n");
    proof {
        lemma_concat_associative(start, p9, "    </item>\n"@);
    }
}

/// Appends the `<item>` of an episode that has an audio file.
pub fn write_episode_item(
    xml: &mut String,
    profile: &Profile,
    podcast: &PodcastEntry,
    episode: &Episode,
    public_base_url: &str,
)
    requires
        episode.audio_file_name is Some,
    ensures
        final(xml)@ == old(xml)@ + episode_item_text(profile@, podcast@, episode@, public_base_url@),
{
    let episode_title = fallback_title(episode.title.as_str(), "Untitled episode");
    let audio_file_name = match &episode.audio_file_name {
        Some(name) => name.as_str(),
        None => "",
    };
    let segments = [profile.name.as_str(), podcast.data.title.as_str(), episode.title.as_str()];
    assert(texts_view(segments@) =~= seq![profile@.name, podcast@.data.title, episode@.title]);
    let resource = public_resource_url_from_segments(&segments, audio_file_name);
    let audio_url = absolute_url(resource.as_str(), public_base_url);
    let enclosure_type = mime_type_for(audio_file_name);
    let chosen: Option<&str> = match &episode.cover {
        Some(c) => Some(c.as_str()),
        None => match &podcast.data.cover {
            Some(c) => Some(c.as_str()),
            None => None,
        },
    };
    assert(chosen.deep_view() == (match episode@.cover {
        Some(c) => Some(c),
        None => podcast@.data.cover,
    }));
    let cover = absolute_media_url(chosen, public_base_url);
    let notes = fallback_title(episode.notes.as_str(), episode_title);
    let number = decimal_string(episode.number as u64);
    let size = decimal_string(episode.audio_size);
    write_item_lines(
        xml,
        episode_title,
        notes,
        episode.id.as_str(),
        number.as_str(),
        &cover,
        audio_url.as_str(),
        size.as_str(),
        enclosure_type,
    );
}

/// The items of the episodes that have an audio file, in order.
pub open spec fn items_text(
    profile: ProfileView,
    podcast: PodcastEntryView,
    episodes: Seq<EpisodeView>,
    base: Seq<char>,
) -> Seq<char>
    decreases episodes.len(),
{
    if episodes.len() == 0 {
        Seq::empty()
    } else {
        let e = episodes.last();
        items_text(profile, podcast, episodes.drop_last(), base) + if e.audio_file_name is Some {
            episode_item_text(profile, podcast, e, base)
        } else {
            Seq::empty()
        }
    }
}

/// The `itunes:author` line, where the profile has a name.
pub open spec fn author_text(profile: ProfileView) -> Seq<char> {
    if !is_blank(profile.name) {
        element_text(4, "itunes:author"@, profile.name)
    } else {
        Seq::empty()
    }
}

/// The `itunes:owner` block, where the profile has a name or an e-mail address.
pub open spec fn owner_text(profile: ProfileView) -> Seq<char> {
    if !is_blank(profile.name) || !is_blank(profile.email) {
        "    <itunes:owner>\n"@ + (if !is_blank(profile.name) {
            element_text(6, "itunes:name"@, profile.name)
        } else {
            Seq::empty()
        }) + (if !is_blank(profile.email) {
            element_text(6, "itunes:email"@, profile.email)
        } else {
            Seq::empty()
        }) + "    </itunes:owner>\n"@
    } else {
        Seq::empty()
    }
}

/// The channel link: the podcast's website, or its feed URL where it has none.
pub open spec fn channel_link(podcast: PodcastEntryView, base: Seq<char>) -> Seq<char> {
    if is_blank(podcast.data.website) {
        base + "/podcast/"@ + url_path_escaped(podcast.data.feed_slug)
    } else {
        podcast.data.website
    }
}

/// The RSS 2.0 feed, with iTunes extensions, of a podcast.
pub open spec fn rss_feed(profile: ProfileView, podcast: PodcastEntryView, base: Seq<char>) -> Seq<
    char,
> {
    let data = podcast.data;
    "<?xml version=\"1.0\" encoding=\"UTF-8\"?>\n"@
        + "<rss version=\"2.0\" xmlns:itunes=\"http://www.itunes.com/dtds/podcast-1.0.dtd\" xmlns:content=\"http://purl.org/rss/1.0/modules/content/\">\n"@
        + "  <channel>\n"@ + element_text(
        4,
        "title"@,
        fallback_text(data.title, "Untitled podcast"@),
    ) + element_text(4, "link"@, channel_link(podcast, base)) + element_text(
        4,
        "description"@,
        fallback_text(data.description, "Podcast feed"@),
    ) + element_text(4, "language"@, fallback_text(data.language, "en"@)) + element_text(
        4,
        "generator"@,
        "podcast_backend"@,
    ) + element_text(4, "itunes:explicit"@, "false"@) + author_text(profile) + owner_text(profile)
        + optional_image_text(4, absolute_media_url_of(data.cover, base)) + categories_text(
        4,
        podcast_category_list(data),
    ) + items_text(profile, podcast, podcast.episodes, base) + "  </channel>\n"@ + "</rss>\n"@
}

fn write_profile(xml: &mut String, profile: &Profile)
    ensures
        final(xml)@ == old(xml)@ + author_text(profile@) + owner_text(profile@),
{
    let has_name = !blank(profile.name.as_str());
    let has_email = !blank(profile.email.as_str());
    if has_name {
        element(xml, 4, "itunes:author", profile.name.as_str());
    }
    let ghost after_author = xml@;
    assert(after_author =~= old(xml)@ + author_text(profile@));
    if has_name || has_email {
        xml.append("    <itunes:owner>\n");
        if has_name {
            element(xml, 6, "itunes:name", profile.name.as_str());
        }
        if has_email {
            element(xml, 6, "itunes:email", profile.email.as_str());
        }
        xml.append("    </itunes:owner>\n");
    }
    assert(xml@ =~= after_author + owner_text(profile@));
}

fn write_categories(xml: &mut String, categories: &Vec<String>)
    ensures
        final(xml)@ == old(xml)@ + categories_text(4, strings_view(categories@)),
{
    for i in 0..categories.len()
        invariant
            xml@ == old(xml)@ + categories_text(4, strings_view(categories@).take(i as int)),
    {
        let ghost before = xml@;
        write_itunes_category(xml, 4, categories[i].as_str());
        assert(strings_view(categories@).take(i + 1).drop_last() =~= strings_view(
            categories@,
        ).take(i as int));
        assert(xml@ =~= old(xml)@ + categories_text(4, strings_view(categories@).take(i + 1)));
    }
    assert(strings_view(categories@).take(categories.len() as int) =~= strings_view(categories@));
}

fn write_items(xml: &mut String, profile: &Profile, podcast: &PodcastEntry, public_base_url: &str)
    ensures
        final(xml)@ == old(xml)@ + items_text(
            profile@,
            podcast@,
            podcast@.episodes,
            public_base_url@,
        ),
{
    let episodes = &podcast.episodes;
    for i in 0..episodes.len()
        invariant
            episodes_view(episodes@) == podcast@.episodes,
            xml@ == old(xml)@ + items_text(
                profile@,
                podcast@,
                podcast@.episodes.take(i as int),
                public_base_url@,
            ),
    {
        assert(podcast@.episodes.take(i + 1).drop_last() =~= podcast@.episodes.take(i as int));
        assert(podcast@.episodes.take(i + 1).last() == episodes@[i as int]@);
        let episode = &episodes[i];
        if episode.audio_file_name.is_some() {
            write_episode_item(xml, profile, podcast, episode, public_base_url);
        }
        assert(xml@ =~= old(xml)@ + items_text(
            profile@,
            podcast@,
            podcast@.episodes.take(i + 1),
            public_base_url@,
        ));
    }
    assert(podcast@.episodes.take(episodes.len() as int) =~= podcast@.episodes);
}

/// The RSS feed of `podcast`, published by `profile`, with media URLs under `public_base_url`.
pub fn build_rss_feed(profile: &Profile, podcast: &PodcastEntry, public_base_url: &str) -> (r:
    String)
    ensures
        r@ == rss_feed(profile@, podcast@, public_base_url@),
{
    let title = fallback_title(podcast.data.title.as_str(), "Untitled podcast");
    let description = fallback_title(podcast.data.description.as_str(), "Podcast feed");
    let link = if blank(podcast.data.website.as_str()) {
        let mut link = String::from_str(public_base_url);
        link.append("/podcast/");
        let slug = url_path_escape(podcast.data.feed_slug.as_str());
        link.append(slug.as_str());
        link
    } else {
        podcast.data.website.clone()
    };
    let language = fallback_title(podcast.data.language.as_str(), "en");
    let cover_source: Option<&str> = match &podcast.data.cover {
        Some(c) => Some(c.as_str()),
        None => None,
    };
    let cover = absolute_media_url(cover_source, public_base_url);
    let categories = podcast_categories(podcast);

    let mut xml = String::new();
    xml.append("<?xml version=\"1.0\" encoding=\"UTF-8\"?>\n");
    xml.append(
        "<rss version=\"2.0\" xmlns:itunes=\"http://www.itunes.com/dtds/podcast-1.0.dtd\" xmlns:content=\"http://purl.org/rss/1.0/modules/content/\">\n",
    );
    xml.append("  <channel>\n");
    element(&mut xml, 4, "title", title);
    element(&mut xml, 4, "link", link.as_str());
    element(&mut xml, 4, "description", description);
    element(&mut xml, 4, "language", language);
    element(&mut xml, 4, "generator", "podcast_backend");
    element(&mut xml, 4, "itunes:explicit", "false");
    write_profile(&mut xml, profile);
    write_optional_image(&mut xml, 4, &cover);
    write_categories(&mut xml, &categories);
    write_items(&mut xml, profile, podcast, public_base_url);
    xml.append("  </channel>\n");
    xml.append("</rss>\n");
    assert(xml@ =~= rss_feed(profile@, podcast@, public_base_url@));
    xml
}

} // verus!
