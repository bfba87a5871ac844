use vstd::prelude::*;

use crate::model::{
    episodes_view, podcasts_view, AppDocument, AppDocumentView, Episode, EpisodeView, PodcastDataView,
    PodcastEntry, PodcastEntryView,
};
use crate::resources::{
    public_resource_url_from_segments, resource_components, resource_file_name,
    resource_file_name_of, resource_url, sanitized_file_name, texts_view,
};
use crate::text::after_last;

verus! {

/// Where a stored cover URL points to once it is moved under the given directories: the same
/// file name in the resource tree. A missing cover stays missing.
pub open spec fn moved_cover(cover: Option<Seq<char>>, dirs: Seq<Seq<char>>) -> Option<Seq<char>> {
    match cover {
        Some(c) => match resource_file_name_of(c) {
            Some(file) => Some(resource_url(resource_components(dirs, file))),
            None => cover,
        },
        None => None,
    }
}

/// Whether a stored cover URL, where there is one, ends in a file name other than `.`; a `.`
/// names the directory itself, so the moved URL would end in the directory's name instead.
pub open spec fn ends_in_file_name(cover: Option<Seq<char>>) -> bool {
    match cover {
        Some(c) => sanitized_file_name(after_last(c, '/')) != "."@,
        None => true,
    }
}

/// Whether every cover URL of the document ends in a file name other than `.`.
pub open spec fn covers_end_in_file_names(document: AppDocumentView) -> bool {
    forall|k: int|
        0 <= k < document.podcasts.len() ==> {
            &&& ends_in_file_name(#[trigger] document.podcasts[k].data.cover)
            &&& forall|j: int|
                0 <= j < document.podcasts[k].episodes.len() ==> ends_in_file_name(
                    #[trigger] document.podcasts[k].episodes[j].cover,
                )
        }
}

/// An episode whose cover URL is moved to its place under the profile, podcast and episode.
pub open spec fn rewritten_episode(
    profile_name: Seq<char>,
    podcast_title: Seq<char>,
    episode: EpisodeView,
) -> EpisodeView {
    EpisodeView {
        cover: moved_cover(episode.cover, seq![profile_name, podcast_title, episode.title]),
        ..episode
    }
}

/// A podcast whose cover URL, and those of its episodes, are moved to their places under the
/// profile name and the podcast's title.
pub open spec fn rewritten_podcast(profile_name: Seq<char>, podcast: PodcastEntryView) -> PodcastEntryView {
    PodcastEntryView {
        data: PodcastDataView {
            cover: moved_cover(podcast.data.cover, seq![profile_name, podcast.data.title]),
            ..podcast.data
        },
        episodes: podcast.episodes.map_values(
            |e: EpisodeView| rewritten_episode(profile_name, podcast.data.title, e),
        ),
        ..podcast
    }
}

/// A document whose resource URLs are all moved under its profile name.
pub open spec fn rewritten_document(document: AppDocumentView) -> AppDocumentView {
    AppDocumentView {
        podcasts: document.podcasts.map_values(
            |p: PodcastEntryView| rewritten_podcast(document.profile.name, p),
        ),
        ..document
    }
}

/// The new cover URL for a stored cover, once moved under `dirs`.
fn moved_cover_url(cover: &Option<String>, dirs: &[&str]) -> (r: Option<String>)
    ensures
        r.deep_view() == moved_cover(cover.deep_view(), texts_view(dirs@)),
{
    match cover {
        Some(c) => match resource_file_name(c.as_str()) {
            Some(file) => Some(public_resource_url_from_segments(dirs, file.as_str())),
            None => Some(c.clone()),
        },
        None => None,
    }
}

/// Moves the cover URL of an episode under the profile, podcast and episode.
pub fn rewrite_episode_resource_url(profile_name: &str, podcast_title: &str, episode: &mut Episode)
    ensures
        final(episode)@ == rewritten_episode(profile_name@, podcast_title@, old(episode)@),
{
    let cover = {
        let dirs = [profile_name, podcast_title, episode.title.as_str()];
        assert(texts_view(dirs@) =~= seq![profile_name@, podcast_title@, episode@.title]);
        moved_cover_url(&episode.cover, &dirs)
    };
    episode.cover = cover;
}

/// Moves the cover URLs of a podcast and of its episodes under the profile name and the
/// podcast's title.
pub fn rewrite_podcast_resource_urls(profile_name: &str, podcast: &mut PodcastEntry)
    ensures
        final(podcast)@ == rewritten_podcast(profile_name@, old(podcast)@),
{
    let cover = {
        let dirs = [profile_name, podcast.data.title.as_str()];
        assert(texts_view(dirs@) =~= seq![profile_name@, podcast@.data.title]);
        moved_cover_url(&podcast.data.cover, &dirs)
    };
    podcast.data.cover = cover;
    let mut input: Vec<Episode> = Vec::new();
    std::mem::swap(&mut input, &mut podcast.episodes);
    let ghost orig = episodes_view(input@);
    let ghost title = podcast@.data.title;
    let ghost data_after = podcast@.data;
    assert(orig == old(podcast)@.episodes);
    assert(orig.skip(0) =~= orig);
    let n = input.len();
    let mut i: usize = 0;
    while i < n
        invariant
            n == orig.len(),
            i <= n,
            input@.len() == n - i,
            episodes_view(input@) == orig.skip(i as int),
            title == podcast@.data.title,
            podcast@.data == data_after,
            podcast@.id == old(podcast)@.id,
            podcast.episodes@.len() == i,
            forall|t: int|
                0 <= t < i ==> #[trigger] podcast.episodes@[t]@ == rewritten_episode(
                    profile_name@,
                    title,
                    orig[t],
                ),
        decreases n - i,
    {
        assert(episodes_view(input@)[0] == orig[i as int]);
        let ghost pv = input@;
        let mut e = input.remove(0);
        assert(input@ =~= pv.drop_first());
        assert(episodes_view(input@) =~= episodes_view(pv).drop_first());
        assert(episodes_view(input@) =~= orig.skip(i + 1));
        rewrite_episode_resource_url(profile_name, podcast.data.title.as_str(), &mut e);
        podcast.episodes.push(e);
        i = i + 1;
    }
    assert(episodes_view(podcast.episodes@) =~= orig.map_values(
        |e: EpisodeView| rewritten_episode(profile_name@, title, e),
    ));
}

/// Moves every resource URL of the document under its profile name.
pub fn rewrite_document_resource_urls(document: &mut AppDocument)
    ensures
        final(document)@ == rewritten_document(old(document)@),
{
    let mut input: Vec<PodcastEntry> = Vec::new();
    std::mem::swap(&mut input, &mut document.podcasts);
    let ghost orig = podcasts_view(input@);
    assert(orig.skip(0) =~= orig);
    let n = input.len();
    let mut i: usize = 0;
    while i < n
        invariant
            n == orig.len(),
            i <= n,
            input@.len() == n - i,
            podcasts_view(input@) == orig.skip(i as int),
            document@.profile == old(document)@.profile,
            document@.revision == old(document)@.revision,
            orig == old(document)@.podcasts,
            document.podcasts@.len() == i,
            forall|t: int|
                0 <= t < i ==> #[trigger] document.podcasts@[t]@ == rewritten_podcast(
                    document@.profile.name,
                    orig[t],
                ),
        decreases n - i,
    {
        assert(podcasts_view(input@)[0] == orig[i as int]);
        let ghost pv = input@;
        let mut p = input.remove(0);
        assert(input@ =~= pv.drop_first());
        assert(podcasts_view(input@) =~= podcasts_view(pv).drop_first());
        assert(podcasts_view(input@) =~= orig.skip(i + 1));
        rewrite_podcast_resource_urls(document.profile.name.as_str(), &mut p);
        document.podcasts.push(p);
        i = i + 1;
    }
    assert(podcasts_view(document.podcasts@) =~= orig.map_values(
        |p: PodcastEntryView| rewritten_podcast(old(document)@.profile.name, p),
    ));
}

} // verus!
