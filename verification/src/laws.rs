use vstd::prelude::*;

use crate::commands::host_payload;
use crate::episodes::{
    with_number, lemma_renumbered_numbers, lemma_sort_by_number_permutes, renumbered, sort_by_number,
    without_episode,
};
use crate::lookup::{lemma_podcast_position, podcast_position};
use crate::model::{
    empty_episode_view, AppDocumentView, EpisodeView, PodcastDataView, PodcastEntryView, ProfileView,
};
use crate::resources::{
    is_segment_safe, join_slash, keep_file_name_chars, keep_segment_chars, resource_components,
    resource_url, sanitized_file_name, sanitized_segment, url_path_escaped, absolute_url_of,
    mime_type_of,
};
use crate::rewrite::{
    covers_end_in_file_names, ends_in_file_name, moved_cover, rewritten_document,
    rewritten_episode, rewritten_podcast,
};
use crate::rss::{
    add_categories, category_start, episode_item_text, items_text, podcast_category_list, rss_feed,
};
use crate::episode_store::{changed, inserted_episode, with_episodes};
use crate::uploads::{changed_episode, with_episode, with_podcast_cover};
use crate::store::without_podcast;
use crate::xml::{element_text, empty_element_text};
use crate::store::without_trailing_slashes;
use crate::text::{
    after_last, after_last_separator, decimal, is_blank, last_index_of, last_separator_index,
};
use crate::xml::{escape_char, xml_escaped, xml_unescaped};

verus! {

proof fn lemma_keep_segment_chars_safe(s: Seq<char>)
    ensures
        forall|i: int|
            0 <= i < keep_segment_chars(s).len() ==> is_segment_safe(
                #[trigger] keep_segment_chars(s)[i],
            ),
    decreases s.len(),
{
    if s.len() > 0 {
        lemma_keep_segment_chars_safe(s.drop_last());
        let prev = keep_segment_chars(s.drop_last());
        assert forall|i: int| 0 <= i < keep_segment_chars(s).len() implies is_segment_safe(
            #[trigger] keep_segment_chars(s)[i],
        ) by {
            if i < prev.len() {
                assert(keep_segment_chars(s)[i] == prev[i]);
            }
        }
    }
}

proof fn lemma_keep_segment_chars_of_safe(s: Seq<char>)
    requires
        forall|i: int| 0 <= i < s.len() ==> is_segment_safe(#[trigger] s[i]),
    ensures
        keep_segment_chars(s) == s,
    decreases s.len(),
{
    if s.len() > 0 {
        lemma_keep_segment_chars_of_safe(s.drop_last());
        assert(keep_segment_chars(s.drop_last()).push(s.last()) =~= s);
    }
}

proof fn lemma_untitled_safe()
    ensures
        "Untitled"@.len() > 0,
        forall|i: int| 0 <= i < "Untitled"@.len() ==> is_segment_safe(#[trigger] "Untitled"@[i]),
{
    reveal_strlit("Untitled");
}

/// Law: a directory name in the resource tree is never empty and holds only letters, digits,
/// `-` and `_`, so it never holds a path separator or a dot.
pub proof fn law_sanitized_segment_is_safe(value: Seq<char>)
    ensures
        sanitized_segment(value).len() > 0,
        forall|i: int|
            0 <= i < sanitized_segment(value).len() ==> is_segment_safe(
                #[trigger] sanitized_segment(value)[i],
            ),
{
    lemma_keep_segment_chars_safe(value);
    lemma_untitled_safe();
}

/// Law: sanitizing a directory name twice gives what sanitizing it once gives.
pub proof fn law_sanitized_segment_idempotent(value: Seq<char>)
    ensures
        sanitized_segment(sanitized_segment(value)) == sanitized_segment(value),
{
    law_sanitized_segment_is_safe(value);
    lemma_keep_segment_chars_of_safe(sanitized_segment(value));
}

/// The characters a sanitized file name may hold.
pub open spec fn is_file_name_safe(c: char) -> bool {
    is_segment_safe(c) || c == '.'
}

proof fn lemma_keep_file_name_chars_safe(s: Seq<char>)
    ensures
        forall|i: int|
            0 <= i < keep_file_name_chars(s).len() ==> is_file_name_safe(
                #[trigger] keep_file_name_chars(s)[i],
            ),
    decreases s.len(),
{
    if s.len() > 0 {
        lemma_keep_file_name_chars_safe(s.drop_last());
        let prev = keep_file_name_chars(s.drop_last());
        assert forall|i: int| 0 <= i < keep_file_name_chars(s).len() implies is_file_name_safe(
            #[trigger] keep_file_name_chars(s)[i],
        ) by {
            if i < prev.len() {
                assert(keep_file_name_chars(s)[i] == prev[i]);
            }
        }
    }
}

proof fn lemma_keep_file_name_chars_of_safe(s: Seq<char>)
    requires
        forall|i: int| 0 <= i < s.len() ==> is_file_name_safe(#[trigger] s[i]),
    ensures
        keep_file_name_chars(s) == s,
    decreases s.len(),
{
    if s.len() > 0 {
        lemma_keep_file_name_chars_of_safe(s.drop_last());
        assert(keep_file_name_chars(s.drop_last()).push(s.last()) =~= s);
    }
}

proof fn lemma_no_separator(s: Seq<char>)
    requires
        forall|i: int| 0 <= i < s.len() ==> is_file_name_safe(#[trigger] s[i]),
    ensures
        last_separator_index(s) == -1,
        after_last_separator(s) == s,
    decreases s.len(),
{
    if s.len() > 0 {
        lemma_no_separator(s.drop_last());
    }
    assert(s.subrange(0, s.len() as int) =~= s);
}

/// Law: a stored file name is never empty and holds only letters, digits, `-`, `_` and `.`,
/// so it never holds `/` or `\`.
pub proof fn law_sanitized_file_name_is_safe(value: Seq<char>)
    ensures
        sanitized_file_name(value).len() > 0,
        forall|i: int|
            0 <= i < sanitized_file_name(value).len() ==> is_file_name_safe(
                #[trigger] sanitized_file_name(value)[i],
            ),
{
    lemma_keep_file_name_chars_safe(after_last_separator(value));
    reveal_strlit("file");
}

/// Law: sanitizing a file name twice gives what sanitizing it once gives.
pub proof fn law_sanitized_file_name_idempotent(value: Seq<char>)
    ensures
        sanitized_file_name(sanitized_file_name(value)) == sanitized_file_name(value),
{
    law_sanitized_file_name_is_safe(value);
    let once = sanitized_file_name(value);
    lemma_no_separator(once);
    lemma_keep_file_name_chars_of_safe(once);
}

proof fn lemma_escape_char_safe(c: char)
    ensures
        forall|i: int|
            0 <= i < escape_char(c).len() ==> #[trigger] escape_char(c)[i] != '<' && escape_char(
                c,
            )[i] != '>' && escape_char(c)[i] != '"' && escape_char(c)[i] != '\'',
{
    reveal_strlit("&amp;");
    reveal_strlit("&lt;");
    reveal_strlit("&gt;");
    reveal_strlit("&quot;");
    reveal_strlit("&apos;");
}

/// Law: escaped text holds no `<`, `>`, `"` or `'`, so it can stand in element content and in
/// attribute values.
pub proof fn law_xml_escaped_has_no_markup(value: Seq<char>)
    ensures
        forall|i: int|
            0 <= i < xml_escaped(value).len() ==> #[trigger] xml_escaped(value)[i] != '<'
                && xml_escaped(value)[i] != '>' && xml_escaped(value)[i] != '"' && xml_escaped(
                value,
            )[i] != '\'',
    decreases value.len(),
{
    if value.len() > 0 {
        law_xml_escaped_has_no_markup(value.drop_last());
        lemma_escape_char_safe(value.last());
        let head = xml_escaped(value.drop_last());
        let tail = escape_char(value.last());
        assert forall|i: int| 0 <= i < xml_escaped(value).len() implies #[trigger] xml_escaped(
            value,
        )[i] != '<' && xml_escaped(value)[i] != '>' && xml_escaped(value)[i] != '"'
            && xml_escaped(value)[i] != '\'' by {
            if i < head.len() {
                assert(xml_escaped(value)[i] == head[i]);
            } else {
                assert(xml_escaped(value)[i] == tail[i - head.len()]);
            }
        }
    }
}

/// Escaping a text character by character from the left gives what escaping it from the
/// right gives.
proof fn lemma_escaped_first(s: Seq<char>)
    requires
        s.len() > 0,
    ensures
        xml_escaped(s) == escape_char(s[0]) + xml_escaped(s.drop_first()),
    decreases s.len(),
{
    if s.len() == 1 {
        assert(s.drop_last() =~= Seq::<char>::empty());
        assert(s.drop_first() =~= Seq::<char>::empty());
        assert(xml_escaped(s) =~= escape_char(s[0]) + xml_escaped(s.drop_first()));
    } else {
        lemma_escaped_first(s.drop_last());
        assert(s.drop_last().drop_first() =~= s.drop_first().drop_last());
        assert(s.drop_first().last() == s.last());
        let a = escape_char(s[0]);
        let b = xml_escaped(s.drop_first().drop_last());
        let c = escape_char(s.last());
        assert((a + b) + c =~= a + (b + c));
    }
}

/// The escaped form of one character, read back, gives that character; what follows is read on.
proof fn lemma_unescape_escaped_char(c: char, rest: Seq<char>)
    ensures
        xml_unescaped(escape_char(c) + rest) == seq![c] + xml_unescaped(rest),
{
    reveal_strlit("&amp;");
    reveal_strlit("&lt;");
    reveal_strlit("&gt;");
    reveal_strlit("&quot;");
    reveal_strlit("&apos;");
    let t = escape_char(c) + rest;
    let n = escape_char(c).len() as int;
    assert(t.skip(n) =~= rest);
    assert(t.take(n) =~= escape_char(c));
    if c != '&' && c != '<' && c != '>' && c != '"' && c != '\'' {
        assert(t[0] == c);
        assert(t.drop_first() =~= rest);
        if t.len() >= 4 {
            assert(t.take(4)[0] == c);
        }
        if t.len() >= 5 {
            assert(t.take(5)[0] == c);
        }
        if t.len() >= 6 {
            assert(t.take(6)[0] == c);
        }
    } else {
        assert(t[0] == '&');
        if t.len() >= 4 {
            assert(t.take(4)[1] == t[1]);
            assert(t.take(4)[2] == t[2]);
        }
        if t.len() >= 5 {
            assert(t.take(5)[1] == t[1]);
            assert(t.take(5)[2] == t[2]);
        }
        if t.len() >= 6 {
            assert(t.take(6)[1] == t[1]);
            assert(t.take(6)[2] == t[2]);
        }
    }
}

/// Law: escaped text, read back, is the text itself: escaping loses nothing.
pub proof fn law_xml_escape_round_trip(value: Seq<char>)
    ensures
        xml_unescaped(xml_escaped(value)) == value,
    decreases value.len(),
{
    if value.len() == 0 {
        assert(xml_escaped(value) =~= Seq::<char>::empty());
    } else {
        lemma_escaped_first(value);
        law_xml_escape_round_trip(value.drop_first());
        lemma_unescape_escaped_char(value[0], xml_escaped(value.drop_first()));
        assert(seq![value[0]] + value.drop_first() =~= value);
    }
}

/// Law: a feed slug escaped for a URL path holds no space.
pub proof fn law_url_path_escaped_has_no_space(value: Seq<char>)
    ensures
        forall|i: int|
            0 <= i < url_path_escaped(value).len() ==> #[trigger] url_path_escaped(value)[i] != ' ',
    decreases value.len(),
{
    if value.len() > 0 {
        law_url_path_escaped_has_no_space(value.drop_last());
        reveal_strlit("%20");
        let head = url_path_escaped(value.drop_last());
        assert forall|i: int| 0 <= i < url_path_escaped(value).len() implies #[trigger] url_path_escaped(
            value,
        )[i] != ' ' by {
            if i < head.len() {
                assert(url_path_escaped(value)[i] == head[i]);
            }
        }
    }
}

proof fn lemma_add_categories(start: Seq<Seq<char>>, categories: Seq<Seq<char>>)
    requires
        start.no_duplicates(),
        forall|i: int| 0 <= i < start.len() ==> !is_blank(#[trigger] start[i]),
    ensures
        add_categories(start, categories).no_duplicates(),
        forall|i: int|
            0 <= i < add_categories(start, categories).len() ==> !is_blank(
                #[trigger] add_categories(start, categories)[i],
            ),
        start.len() <= add_categories(start, categories).len(),
        forall|i: int| 0 <= i < start.len() ==> #[trigger] add_categories(start, categories)[i] == start[i],
        forall|i: int|
            0 <= i < categories.len() && !is_blank(categories[i]) ==> #[trigger] add_categories(
                start,
                categories,
            ).contains(categories[i]),
    decreases categories.len(),
{
    if categories.len() > 0 {
        let prior = categories.drop_last();
        lemma_add_categories(start, prior);
        let listed = add_categories(start, prior);
        let c = categories.last();
        let result = add_categories(start, categories);
        assert forall|i: int| 0 <= i < categories.len() && !is_blank(categories[i]) implies #[trigger] result.contains(
            categories[i],
        ) by {
            if i < categories.len() - 1 {
                assert(prior[i] == categories[i]);
                assert(listed.contains(prior[i]));
                let t = choose|t: int| 0 <= t < listed.len() && listed[t] == prior[i];
                assert(result[t] == listed[t]);
            } else if !listed.contains(c) {
                assert(result[listed.len() as int] == c);
            } else {
                let t = choose|t: int| 0 <= t < listed.len() && listed[t] == c;
                assert(result[t] == listed[t]);
            }
        }
    }
}

/// Law: the categories of a feed are listed each once, none of them blank; a primary category
/// that is not blank comes first; every category that is not blank is listed.
pub proof fn law_podcast_categories(data: PodcastDataView)
    ensures
        podcast_category_list(data).no_duplicates(),
        forall|i: int|
            0 <= i < podcast_category_list(data).len() ==> !is_blank(
                #[trigger] podcast_category_list(data)[i],
            ),
        !is_blank(data.primary_category) ==> podcast_category_list(data).len() > 0
            && podcast_category_list(data)[0] == data.primary_category,
        forall|i: int|
            0 <= i < data.categories.len() && !is_blank(data.categories[i])
                ==> #[trigger] podcast_category_list(data).contains(data.categories[i]),
{
    lemma_add_categories(category_start(data.primary_category), data.categories);
}

/// Law: after renumbering, the episodes carry the numbers 1, 2, 3, ... in order, and no
/// episode is lost or added: the same episodes, by all but their number, are there as often.
pub proof fn law_renumbered(episodes: Seq<EpisodeView>)
    requires
        episodes.len() <= u32::MAX,
    ensures
        renumbered(episodes).len() == episodes.len(),
        forall|i: int|
            0 <= i < episodes.len() ==> #[trigger] renumbered(episodes)[i].number == i + 1,
        forall|i: int|
            0 <= i < episodes.len() ==> #[trigger] renumbered(episodes)[i] == with_number(
                sort_by_number(episodes)[i],
                (i + 1) as u32,
            ),
        sort_by_number(episodes).to_multiset() == episodes.to_multiset(),
{
    lemma_renumbered_numbers(episodes);
    lemma_sort_by_number_permutes(episodes);
}

/// Law: once an episode is deleted, no episode of the podcast has its identifier, and the rest
/// are numbered 1, 2, 3, ... in order.
pub proof fn law_deleted_episode_is_gone(episodes: Seq<EpisodeView>, id: Seq<char>)
    requires
        episodes.len() <= u32::MAX,
    ensures
        forall|t: int|
            0 <= t < renumbered(without_episode(episodes, id)).len() ==> #[trigger] renumbered(
                without_episode(episodes, id),
            )[t].id != id,
        forall|t: int|
            0 <= t < renumbered(without_episode(episodes, id)).len() ==> #[trigger] renumbered(
                without_episode(episodes, id),
            )[t].number == t + 1,
{
    broadcast use vstd::seq_lib::group_to_multiset_ensures;

    let kept = without_episode(episodes, id);
    crate::episodes::lemma_without_episode(episodes, id);
    lemma_renumbered_numbers(kept);
    lemma_sort_by_number_permutes(kept);
    let sorted = sort_by_number(kept);
    assert forall|t: int| 0 <= t < renumbered(kept).len() implies #[trigger] renumbered(
        kept,
    )[t].id != id by {
        assert(renumbered(kept)[t].id == sorted[t].id);
        assert(sorted.contains(sorted[t]));
        assert(sorted.to_multiset().count(sorted[t]) > 0);
        assert(kept.to_multiset().count(sorted[t]) > 0);
        assert(kept.contains(sorted[t]));
    }
}

/// Law: after a podcast is saved under an identifier, looking that identifier up finds the
/// saved podcast at the same place: a read gives back the data that was written, with the
/// cover URL moved under the new title.
pub proof fn law_saved_podcast_is_found(
    podcasts: Seq<PodcastEntryView>,
    id: Seq<char>,
    profile_name: Seq<char>,
    data: PodcastDataView,
)
    requires
        podcast_position(podcasts, id) >= 0,
    ensures
        ({
            let k = podcast_position(podcasts, id);
            let saved = rewritten_podcast(profile_name, PodcastEntryView { data, ..podcasts[k] });
            let after = podcasts.update(k, saved);
            &&& podcast_position(after, id) == k
            &&& after[k].data.title == data.title
            &&& after[k].data.feed_slug == data.feed_slug
            &&& after[k].data.description == data.description
            &&& after[k].data.categories == data.categories
            &&& after[k].data.website == data.website
            &&& after[k].data.primary_category == data.primary_category
            &&& after[k].data.language == data.language
            &&& (data.cover is None <==> after[k].data.cover is None)
            &&& after[k].episodes.len() == podcasts[k].episodes.len()
        }),
{
    let k = podcast_position(podcasts, id);
    lemma_podcast_position(podcasts, id);
    let saved = rewritten_podcast(profile_name, PodcastEntryView { data, ..podcasts[k] });
    let after = podcasts.update(k, saved);
    lemma_podcast_position(after, id);
    assert(after[k].id == id);
    let m = podcast_position(after, id);
    if m < k {
        assert(after[m] == podcasts[m]);
    }
}

/// Text without the separator after a prefix leaves the last separator where it was.
proof fn lemma_last_index_of_append(x: Seq<char>, s: Seq<char>, sep: char)
    requires
        forall|i: int| 0 <= i < s.len() ==> #[trigger] s[i] != sep,
    ensures
        last_index_of(x + s, sep) == last_index_of(x, sep),
    decreases s.len(),
{
    if s.len() > 0 {
        assert((x + s).drop_last() =~= x + s.drop_last());
        assert((x + s).last() == s[s.len() - 1]);
        lemma_last_index_of_append(x, s.drop_last(), sep);
    } else {
        assert(x + s =~= x);
    }
}

/// The last `/`-part of a resource URL is its last path part, where that holds no `/`.
proof fn lemma_after_last_of_resource_url(components: Seq<Seq<char>>)
    requires
        components.len() > 0,
        forall|i: int| 0 <= i < components.last().len() ==> #[trigger] components.last()[i] != '/',
    ensures
        after_last(resource_url(components), '/') == components.last(),
{
    reveal_strlit("/resources/");
    let last = components.last();
    let x = if components.len() == 1 {
        "/resources/"@
    } else {
        "/resources/"@ + join_slash(components.drop_last()) + seq!['/']
    };
    assert(resource_url(components) =~= x + last);
    assert(x.last() == '/');
    assert(last_index_of(x, '/') == x.len() - 1);
    lemma_last_index_of_append(x, last, '/');
    assert((x + last).subrange(x.len() as int, (x + last).len() as int) =~= last);
}

/// Moving a cover URL a second time under the same directories changes nothing, where it ends
/// in a file name other than `.`.
proof fn lemma_moved_cover_twice(cover: Option<Seq<char>>, dirs: Seq<Seq<char>>)
    requires
        ends_in_file_name(cover),
    ensures
        moved_cover(moved_cover(cover, dirs), dirs) == moved_cover(cover, dirs),
{
    if let Some(c) = cover {
        let v = after_last(c, '/');
        let f = sanitized_file_name(v);
        law_sanitized_file_name_is_safe(v);
        law_sanitized_file_name_idempotent(v);
        let components = resource_components(dirs, f);
        assert(components.last() == f);
        assert forall|i: int| 0 <= i < components.last().len() implies #[trigger] components.last()[i]
            != '/' by {
            assert(is_file_name_safe(f[i]));
        }
        lemma_after_last_of_resource_url(components);
    }
}

/// Moving the cover URLs of a podcast a second time changes nothing, where they end in file
/// names other than `.`.
proof fn lemma_rewritten_podcast_twice(name: Seq<char>, podcast: PodcastEntryView)
    requires
        ends_in_file_name(podcast.data.cover),
        forall|j: int|
            0 <= j < podcast.episodes.len() ==> ends_in_file_name(#[trigger] podcast.episodes[j].cover),
    ensures
        rewritten_podcast(name, rewritten_podcast(name, podcast)) == rewritten_podcast(name, podcast),
{
    let once = rewritten_podcast(name, podcast);
    let twice = rewritten_podcast(name, once);
    let title = podcast.data.title;
    lemma_moved_cover_twice(podcast.data.cover, seq![name, title]);
    assert forall|j: int| 0 <= j < once.episodes.len() implies #[trigger] twice.episodes[j]
        == once.episodes[j] by {
        let e = podcast.episodes[j];
        lemma_moved_cover_twice(e.cover, seq![name, title, e.title]);
    }
    assert(twice.episodes =~= once.episodes);
    assert(twice.data =~= once.data);
}

/// Law: moving every resource URL a second time changes nothing, where every cover URL ends
/// in a file name other than `.`.
pub proof fn law_rewrite_twice_changes_nothing(document: AppDocumentView)
    requires
        covers_end_in_file_names(document),
    ensures
        rewritten_document(rewritten_document(document)) == rewritten_document(document),
{
    let once = rewritten_document(document);
    let twice = rewritten_document(once);
    assert forall|k: int| 0 <= k < once.podcasts.len() implies #[trigger] twice.podcasts[k]
        == once.podcasts[k] by {
        let p = document.podcasts[k];
        assert(ends_in_file_name(document.podcasts[k].data.cover));
        assert forall|j: int| 0 <= j < p.episodes.len() implies ends_in_file_name(
            #[trigger] p.episodes[j].cover,
        ) by {
            assert(ends_in_file_name(document.podcasts[k].episodes[j].cover));
        }
        lemma_rewritten_podcast_twice(document.profile.name, p);
    }
    assert(twice.podcasts =~= once.podcasts);
}

/// Law: a public base URL never ends with `/`.
pub proof fn law_base_url_has_no_trailing_slash(url: Seq<char>)
    ensures
        without_trailing_slashes(url).len() == 0 || without_trailing_slashes(url).last() != '/',
    decreases url.len(),
{
    if url.len() > 0 && url.last() == '/' {
        law_base_url_has_no_trailing_slash(url.drop_last());
    }
}

/// Law: the payload of a console line made of the host prefix and a text is that text.
pub proof fn law_host_payload_round_trip(text: Seq<char>)
    ensures
        host_payload("CEFHOST::"@ + text) == Some(text),
{
    let line = "CEFHOST::"@ + text;
    assert(line.subrange(0, "CEFHOST::"@.len() as int) =~= "CEFHOST::"@);
    assert(line.subrange("CEFHOST::"@.len() as int, line.len() as int) =~= text);
}

/// Whether two episodes agree in everything but their cover URL, and have a cover alike.
pub open spec fn same_but_cover_url(a: EpisodeView, b: EpisodeView) -> bool {
    &&& a.id == b.id
    &&& a.title == b.title
    &&& a.notes == b.notes
    &&& a.audio_file_name == b.audio_file_name
    &&& a.audio_size == b.audio_size
    &&& a.episode_type == b.episode_type
    &&& a.number == b.number
    &&& (a.cover is Some <==> b.cover is Some)
}

/// Law: moving the resource URLs of an episode changes its cover URL and nothing else.
pub proof fn law_rewritten_episode_changes_only_cover(
    profile_name: Seq<char>,
    podcast_title: Seq<char>,
    episode: EpisodeView,
)
    ensures
        same_but_cover_url(rewritten_episode(profile_name, podcast_title, episode), episode),
{
}

/// Law: moving the resource URLs of a podcast changes its cover URL and those of its episodes,
/// and nothing else: the identifier, the other data and every episode but its cover stay.
pub proof fn law_rewritten_podcast_changes_only_covers(profile_name: Seq<char>, podcast: PodcastEntryView)
    ensures
        ({
            let r = rewritten_podcast(profile_name, podcast);
            &&& r.id == podcast.id
            &&& r.data.title == podcast.data.title
            &&& r.data.description == podcast.data.description
            &&& r.data.website == podcast.data.website
            &&& r.data.feed_slug == podcast.data.feed_slug
            &&& r.data.categories == podcast.data.categories
            &&& r.data.primary_category == podcast.data.primary_category
            &&& r.data.language == podcast.data.language
            &&& (r.data.cover is Some <==> podcast.data.cover is Some)
            &&& r.episodes.len() == podcast.episodes.len()
            &&& forall|j: int|
                0 <= j < podcast.episodes.len() ==> same_but_cover_url(
                    #[trigger] r.episodes[j],
                    podcast.episodes[j],
                )
        }),
{
}

/// Law: moving every resource URL of a document changes cover URLs and nothing else.
pub proof fn law_rewritten_document_changes_only_covers(document: AppDocumentView)
    ensures
        ({
            let r = rewritten_document(document);
            &&& r.revision == document.revision
            &&& r.profile == document.profile
            &&& r.podcasts.len() == document.podcasts.len()
            &&& forall|k: int|
                0 <= k < document.podcasts.len() ==> {
                    &&& (#[trigger] r.podcasts[k]).id == document.podcasts[k].id
                    &&& r.podcasts[k].data.title == document.podcasts[k].data.title
                    &&& r.podcasts[k].episodes.len() == document.podcasts[k].episodes.len()
                    &&& forall|j: int|
                        0 <= j < document.podcasts[k].episodes.len() ==> same_but_cover_url(
                            #[trigger] r.podcasts[k].episodes[j],
                            document.podcasts[k].episodes[j],
                        )
                }
        }),
{
    let r = rewritten_document(document);
    assert forall|k: int| 0 <= k < document.podcasts.len() implies {
        &&& (#[trigger] r.podcasts[k]).id == document.podcasts[k].id
        &&& r.podcasts[k].data.title == document.podcasts[k].data.title
        &&& r.podcasts[k].episodes.len() == document.podcasts[k].episodes.len()
        &&& forall|j: int|
            0 <= j < document.podcasts[k].episodes.len() ==> same_but_cover_url(
                #[trigger] r.podcasts[k].episodes[j],
                document.podcasts[k].episodes[j],
            )
    } by {
        law_rewritten_podcast_changes_only_covers(document.profile.name, document.podcasts[k]);
    }
}

/// Whether an episode has another identifier than `id`.
pub open spec fn episode_id_is_not(id: Seq<char>) -> spec_fn(EpisodeView) -> bool {
    |e: EpisodeView| e.id != id
}

/// Whether a podcast has another identifier than `id`.
pub open spec fn podcast_id_is_not(id: Seq<char>) -> spec_fn(PodcastEntryView) -> bool {
    |p: PodcastEntryView| p.id != id
}

/// Law: deleting an episode keeps every episode with another identifier, in order, and only
/// those: the result is the episodes filtered by their identifier.
pub proof fn law_without_episode_keeps_the_others(episodes: Seq<EpisodeView>, id: Seq<char>)
    ensures
        without_episode(episodes, id) == episodes.filter(episode_id_is_not(id)),
    decreases episodes.len(),
{
    reveal(Seq::filter);
    if episodes.len() > 0 {
        law_without_episode_keeps_the_others(episodes.drop_last(), id);
        reveal(Seq::filter);
        assert(episodes.filter(episode_id_is_not(id)) == {
            let kept = episodes.drop_last().filter(episode_id_is_not(id));
            if episode_id_is_not(id)(episodes.last()) {
                kept.push(episodes.last())
            } else {
                kept
            }
        });
    }
}

/// Law: deleting a podcast keeps every podcast with another identifier, in order, and only
/// those: the result is the podcasts filtered by their identifier.
pub proof fn law_without_podcast_keeps_the_others(podcasts: Seq<PodcastEntryView>, id: Seq<char>)
    ensures
        without_podcast(podcasts, id) == podcasts.filter(podcast_id_is_not(id)),
    decreases podcasts.len(),
{
    reveal(Seq::filter);
    if podcasts.len() > 0 {
        law_without_podcast_keeps_the_others(podcasts.drop_last(), id);
        reveal(Seq::filter);
        assert(podcasts.filter(podcast_id_is_not(id)) == {
            let kept = podcasts.drop_last().filter(podcast_id_is_not(id));
            if podcast_id_is_not(id)(podcasts.last()) {
                kept.push(podcasts.last())
            } else {
                kept
            }
        });
    }
}

/// Law: a created episode is the given one as it was, but for a blank identifier, which is
/// replaced by the drawn one, and a number 0, which becomes the next number; without a given
/// episode it is an empty one with the drawn identifier and the next number.
pub proof fn law_created_episode_keeps_what_was_given(
    given: Option<EpisodeView>,
    drawn_id: Seq<char>,
    next: u32,
)
    ensures
        ({
            let a = inserted_episode(given, drawn_id, next);
            match given {
                Some(e) => {
                    &&& a.title == e.title
                    &&& a.notes == e.notes
                    &&& a.audio_file_name == e.audio_file_name
                    &&& a.audio_size == e.audio_size
                    &&& a.episode_type == e.episode_type
                    &&& a.cover == e.cover
                    &&& a.id == (if is_blank(e.id) { drawn_id } else { e.id })
                    &&& a.number == (if e.number == 0 { next } else { e.number })
                },
                None => {
                    &&& a.id == drawn_id
                    &&& a.number == next
                    &&& a.title.len() == 0
                    &&& a.notes.len() == 0
                    &&& a.audio_file_name is None
                    &&& a.audio_size == 0
                    &&& a.cover is None
                },
            }
        }),
{
}

/// Law: the feed item of an episode starts with its title, then its notes as description and
/// as encoded content; a blank title reads `Untitled episode`, and blank notes read as the
/// title.
pub proof fn law_episode_item_carries_the_notes(
    profile: ProfileView,
    podcast: PodcastEntryView,
    episode: EpisodeView,
    base: Seq<char>,
)
    ensures
        ({
            let title = if is_blank(episode.title) { "Untitled episode"@ } else { episode.title };
            let notes = if is_blank(episode.notes) { title } else { episode.notes };
            ("    <item>\n"@ + element_text(6, "title"@, title) + element_text(
                6,
                "description"@,
                notes,
            ) + element_text(6, "content:encoded"@, notes)).is_prefix_of(
                episode_item_text(profile, podcast, episode, base),
            )
        }),
{
    let title = if is_blank(episode.title) { "Untitled episode"@ } else { episode.title };
    let notes = if is_blank(episode.notes) { title } else { episode.notes };
    let head = "    <item>\n"@ + element_text(6, "title"@, title) + element_text(
        6,
        "description"@,
        notes,
    ) + element_text(6, "content:encoded"@, notes);
    let item = episode_item_text(profile, podcast, episode, base);
    let rest = item.subrange(head.len() as int, item.len() as int);
    assert(item.subrange(0, head.len() as int) =~= head);
}

/// Law: the feed item of an episode with an audio file, line by line: its title (`Untitled
/// episode` where blank), its notes as description and as encoded content (the title where
/// they are blank), its identifier as guid, its number, the episode type `full`, the cover
/// image (the episode's own cover, else the podcast's, made absolute, and none where blank),
/// and the enclosure: the audio file's absolute URL in the episode's directory of the resource
/// tree, its size and its media type.
pub proof fn law_episode_item_lines(
    profile: ProfileView,
    podcast: PodcastEntryView,
    episode: EpisodeView,
    base: Seq<char>,
)
    requires
        episode.audio_file_name is Some,
    ensures
        ({
            let title = if is_blank(episode.title) { "Untitled episode"@ } else { episode.title };
            let notes = if is_blank(episode.notes) { title } else { episode.notes };
            let file = episode.audio_file_name->0;
            let cover = if episode.cover is Some { episode.cover } else { podcast.data.cover };
            let image = match cover {
                Some(c) => if is_blank(c) {
                    Seq::empty()
                } else {
                    empty_element_text(
                        6,
                        "itunes:image"@,
                        seq![("href"@, absolute_url_of(c, base))],
                    )
                },
                None => Seq::empty(),
            };
            let url = absolute_url_of(
                resource_url(
                    resource_components(seq![profile.name, podcast.data.title, episode.title], file),
                ),
                base,
            );
            episode_item_text(profile, podcast, episode, base) == "    <item>\n"@ + element_text(
                6,
                "title"@,
                title,
            ) + element_text(6, "description"@, notes) + element_text(
                6,
                "content:encoded"@,
                notes,
            ) + element_text(6, "guid"@, episode.id) + element_text(
                6,
                "itunes:episode"@,
                decimal(episode.number as nat),
            ) + element_text(6, "itunes:episodeType"@, "full"@) + image + empty_element_text(
                6,
                "enclosure"@,
                seq![
                    ("url"@, url),
                    ("length"@, decimal(episode.audio_size as nat)),
                    ("type"@, mime_type_of(file)),
                ],
            ) + "    </item>\n"@
        }),
{
}

/// Whether an episode has an audio file, and so an item in the feed.
pub open spec fn has_audio() -> spec_fn(EpisodeView) -> bool {
    |e: EpisodeView| e.audio_file_name is Some
}

/// The feed item of each episode, for the given profile, podcast and base URL.
pub open spec fn item_of(
    profile: ProfileView,
    podcast: PodcastEntryView,
    base: Seq<char>,
) -> spec_fn(EpisodeView) -> Seq<char> {
    |e: EpisodeView| episode_item_text(profile, podcast, e, base)
}

/// Law: the items of a feed are those of the episodes that have an audio file, one each, in
/// the order of the episodes, and no others.
pub proof fn law_feed_items_are_the_audio_episodes(
    profile: ProfileView,
    podcast: PodcastEntryView,
    episodes: Seq<EpisodeView>,
    base: Seq<char>,
)
    ensures
        items_text(profile, podcast, episodes, base) == episodes.filter(has_audio()).map_values(
            item_of(profile, podcast, base),
        ).flatten(),
    decreases episodes.len(),
{
    reveal(Seq::filter);
    if episodes.len() == 0 {
        assert(episodes.filter(has_audio()).map_values(item_of(profile, podcast, base))
            =~= Seq::<Seq<char>>::empty());
    } else {
        let rest = episodes.drop_last();
        let e = episodes.last();
        law_feed_items_are_the_audio_episodes(profile, podcast, rest, base);
        let kept = rest.filter(has_audio());
        let items = kept.map_values(item_of(profile, podcast, base));
        if e.audio_file_name is Some {
            assert(episodes.filter(has_audio()) == kept.push(e));
            assert(kept.push(e).map_values(item_of(profile, podcast, base)) =~= items.push(
                episode_item_text(profile, podcast, e, base),
            ));
            items.lemma_flatten_push(episode_item_text(profile, podcast, e, base));
        } else {
            assert(episodes.filter(has_audio()) == kept);
            assert(items_text(profile, podcast, episodes, base) =~= items_text(
                profile,
                podcast,
                rest,
                base,
            ));
        }
    }
}

/// Law: a podcast's feed opens with the XML declaration, the `rss` element and the channel
/// with its title (`Untitled podcast` where blank), and closes with the items of the podcast's
/// episodes and the closing tags.
pub proof fn law_feed_frame(profile: ProfileView, podcast: PodcastEntryView, base: Seq<char>)
    ensures
        ({
            let feed = rss_feed(profile, podcast, base);
            let title = if is_blank(podcast.data.title) {
                "Untitled podcast"@
            } else {
                podcast.data.title
            };
            let head = "<?xml version=\"1.0\" encoding=\"UTF-8\"?>\n"@
                + "<rss version=\"2.0\" xmlns:itunes=\"http://www.itunes.com/dtds/podcast-1.0.dtd\" xmlns:content=\"http://purl.org/rss/1.0/modules/content/\">\n"@
                + "  <channel>\n"@ + element_text(4, "title"@, title);
            let tail = items_text(profile, podcast, podcast.episodes, base) + "  </channel>\n"@
                + "</rss>\n"@;
            &&& head.is_prefix_of(feed)
            &&& tail.len() <= feed.len()
            &&& feed.subrange(feed.len() - tail.len(), feed.len() as int) == tail
        }),
{
    let feed = rss_feed(profile, podcast, base);
    let title = if is_blank(podcast.data.title) { "Untitled podcast"@ } else { podcast.data.title };
    let head = "<?xml version=\"1.0\" encoding=\"UTF-8\"?>\n"@
        + "<rss version=\"2.0\" xmlns:itunes=\"http://www.itunes.com/dtds/podcast-1.0.dtd\" xmlns:content=\"http://purl.org/rss/1.0/modules/content/\">\n"@
        + "  <channel>\n"@ + element_text(4, "title"@, title);
    let items = items_text(profile, podcast, podcast.episodes, base);
    let tail = items + "  </channel>\n"@ + "</rss>\n"@;
    assert(feed.subrange(0, head.len() as int) =~= head);
    assert(feed.subrange(feed.len() - tail.len(), feed.len() as int) =~= tail);
}

/// Whether two episodes agree in everything but their number.
pub open spec fn same_but_number(a: EpisodeView, b: EpisodeView) -> bool {
    &&& a.id == b.id
    &&& a.title == b.title
    &&& a.notes == b.notes
    &&& a.audio_file_name == b.audio_file_name
    &&& a.audio_size == b.audio_size
    &&& a.episode_type == b.episode_type
    &&& a.cover == b.cover
}

/// Law: renumbering gives each episode its place's number and changes nothing else of it:
/// the episode at place `i` is, but for its number, one of the episodes given.
pub proof fn law_renumbering_changes_only_numbers(episodes: Seq<EpisodeView>)
    requires
        episodes.len() <= u32::MAX,
    ensures
        forall|i: int|
            0 <= i < episodes.len() ==> {
                &&& (#[trigger] renumbered(episodes)[i]).number == i + 1
                &&& same_but_number(renumbered(episodes)[i], sort_by_number(episodes)[i])
                &&& episodes.to_multiset().count(sort_by_number(episodes)[i]) > 0
            },
{
    broadcast use vstd::seq_lib::group_to_multiset_ensures;

    lemma_renumbered_numbers(episodes);
    lemma_sort_by_number_permutes(episodes);
    let sorted = sort_by_number(episodes);
    assert forall|i: int| 0 <= i < episodes.len() implies {
        &&& (#[trigger] renumbered(episodes)[i]).number == i + 1
        &&& same_but_number(renumbered(episodes)[i], sort_by_number(episodes)[i])
        &&& episodes.to_multiset().count(sort_by_number(episodes)[i]) > 0
    } by {
        assert(renumbered(episodes)[i] == with_number(sorted[i], (i + 1) as u32));
        assert(sorted.contains(sorted[i]));
        assert(sorted.to_multiset().count(sorted[i]) > 0);
    }
}

/// Law: a changed document has its revision counted up, the same profile, and the same
/// podcasts but the one replaced at its place.
pub proof fn law_changed_replaces_one_podcast(
    document: AppDocumentView,
    k: int,
    podcast: PodcastEntryView,
)
    requires
        0 <= k < document.podcasts.len(),
    ensures
        ({
            let d = changed(document, k, podcast);
            &&& document.revision < u64::MAX ==> d.revision == document.revision + 1
            &&& d.profile == document.profile
            &&& d.podcasts.len() == document.podcasts.len()
            &&& d.podcasts[k] == podcast
            &&& forall|t: int|
                0 <= t < document.podcasts.len() && t != k ==> #[trigger] d.podcasts[t]
                    == document.podcasts[t]
        }),
{
}

/// Law: recording a podcast cover changes its cover and nothing else; replacing an episode or
/// the episodes of a podcast changes those and nothing else.
pub proof fn law_podcast_edits_change_only_their_part(
    podcast: PodcastEntryView,
    cover: Seq<char>,
    j: int,
    episode: EpisodeView,
    episodes: Seq<EpisodeView>,
)
    requires
        0 <= j < podcast.episodes.len(),
    ensures
        ({
            let c = with_podcast_cover(podcast, cover);
            &&& c.id == podcast.id
            &&& c.episodes == podcast.episodes
            &&& c.data.cover == Some(cover)
            &&& c.data.title == podcast.data.title
            &&& c.data.description == podcast.data.description
            &&& c.data.website == podcast.data.website
            &&& c.data.feed_slug == podcast.data.feed_slug
            &&& c.data.categories == podcast.data.categories
            &&& c.data.primary_category == podcast.data.primary_category
            &&& c.data.language == podcast.data.language
        }),
        ({
            let e = with_episode(podcast, j, episode);
            &&& e.id == podcast.id
            &&& e.data == podcast.data
            &&& e.episodes.len() == podcast.episodes.len()
            &&& e.episodes[j] == episode
            &&& forall|t: int|
                0 <= t < podcast.episodes.len() && t != j ==> #[trigger] e.episodes[t]
                    == podcast.episodes[t]
        }),
        ({
            let w = with_episodes(podcast, episodes);
            &&& w.id == podcast.id
            &&& w.data == podcast.data
            &&& w.episodes == episodes
        }),
{
}

/// Law: recording an upload on an episode sets its cover URL, or its audio file name and size,
/// where given, and changes nothing else.
pub proof fn law_recorded_upload_changes_only_its_fields(
    episode: EpisodeView,
    cover: Option<String>,
    audio: Option<(String, u64)>,
)
    ensures
        ({
            let r = changed_episode(episode, cover, audio);
            &&& r.id == episode.id
            &&& r.title == episode.title
            &&& r.notes == episode.notes
            &&& r.episode_type == episode.episode_type
            &&& r.number == episode.number
            &&& r.cover == match cover {
                Some(url) => Some(url@),
                None => episode.cover,
            }
            &&& r.audio_file_name == match audio {
                Some(a) => Some(a.0@),
                None => episode.audio_file_name,
            }
            &&& r.audio_size == match audio {
                Some(a) => a.1,
                None => episode.audio_size,
            }
        }),
{
}

} // verus!
