use vstd::prelude::*;

use crate::episodes::numbered_in_order;
use crate::error::StoreError;
use crate::lookup::{feed_position, find_feed_index, find_podcast_index, podcast_position};
use crate::model::{
    podcasts_view, AppDocument, AppDocumentView, PodcastData, PodcastEntry, PodcastEntryView,
    Profile,
};
use crate::resources::{sanitize_path_segment, sanitized_segment, strings_view, texts_view};
use crate::rewrite::{
    rewrite_document_resource_urls, rewrite_podcast_resource_urls, rewritten_document,
    rewritten_podcast,
};
use crate::rss::{build_rss_feed, rss_feed};

verus! {

/// The directory names, in the resource tree, for a list of titles.
pub open spec fn resource_dir_of(segments: Seq<Seq<char>>) -> Seq<Seq<char>> {
    segments.map_values(|s: Seq<char>| sanitized_segment(s))
}

/// The directory names for `segments`: where the resources of a profile, a podcast or an
/// episode lie, below the resource root.
pub fn resource_dir(segments: &[&str]) -> (r: Vec<String>)
    ensures
        strings_view(r@) == resource_dir_of(texts_view(segments@)),
{
    let mut parts: Vec<String> = Vec::new();
    for i in 0..segments.len()
        invariant
            parts@.len() == i,
            forall|j: int| 0 <= j < i ==> #[trigger] parts@[j]@ == sanitized_segment(segments@[j]@),
    {
        parts.push(sanitize_path_segment(segments[i]));
    }
    assert(strings_view(parts@) =~= resource_dir_of(texts_view(segments@)));
    parts
}

/// `s` without the `/` characters at its end.
pub open spec fn without_trailing_slashes(s: Seq<char>) -> Seq<char>
    decreases s.len(),
{
    if s.len() > 0 && s.last() == '/' {
        without_trailing_slashes(s.drop_last())
    } else {
        s
    }
}

/// Whether the episodes of the first podcast with the identifier, if any, number fewer than
/// `limit`: their numbers are `u32`s, counted from 1.
pub open spec fn episodes_below(document: AppDocumentView, podcast_id: Seq<char>, limit: int) -> bool {
    let k = podcast_position(document.podcasts, podcast_id);
    k >= 0 ==> document.podcasts[k].episodes.len() < limit
}

/// Whether the revision counter of `document` can still grow.
pub fn revision_has_room(document: &AppDocument) -> (r: bool)
    ensures
        r == (document@.revision < u64::MAX),
{
    document.revision < u64::MAX
}

/// Whether the episodes of the first podcast with the identifier, if any, number fewer than
/// `limit`.
pub fn episode_count_below(document: &AppDocument, podcast_id: &str, limit: usize) -> (r: bool)
    ensures
        r == episodes_below(document@, podcast_id@, limit as int),
{
    proof {
        crate::lookup::lemma_podcast_position(document@.podcasts, podcast_id@);
    }
    match find_podcast_index(&document.podcasts, podcast_id) {
        Some(k) => {
            assert(document@.podcasts[k as int].episodes.len() == document.podcasts@[k as int].episodes@.len());
            document.podcasts[k].episodes.len() < limit
        },
        None => true,
    }
}

/// The podcasts and profile of the application, with the public base URL that feeds point to.
#[derive(Debug)]
pub struct Store {
    pub document: AppDocument,
    pub public_base_url: String,
}

impl Store {
    /// A store over `document`; `public_base_url` loses its trailing `/` characters.
    pub fn new(document: AppDocument, public_base_url: &str) -> (r: Store)
        ensures
            r.document@ == document@,
            r.public_base_url@ == without_trailing_slashes(public_base_url@),
    {
        let chars = crate::text::chars_of(public_base_url);
        let mut end = chars.len();
        assert(chars@.subrange(0, chars@.len() as int) =~= chars@);
        while end > 0 && chars[end - 1] == '/'
            invariant
                end <= chars@.len(),
                without_trailing_slashes(chars@.subrange(0, end as int)) == without_trailing_slashes(
                    chars@,
                ),
            decreases end,
        {
            assert(chars@.subrange(0, end as int).drop_last() =~= chars@.subrange(0, end - 1));
            end = end - 1;
        }
        assert(chars@ == public_base_url@);
        assert(chars@.subrange(0, chars@.len() as int) =~= chars@);
        let base = crate::text::string_from_range(&chars, 0, end);
        Store { document, public_base_url: base }
    }

    /// A copy of the document.
    pub fn state(&self) -> (r: AppDocument)
        ensures
            r@ == self.document@,
    {
        self.document.clone()
    }

    /// The RSS feed of the first podcast whose feed slug is `feed_slug`.
    pub fn rss_by_feed_slug(&self, feed_slug: &str) -> (r: Result<String, StoreError>)
        ensures
            ({
                let k = feed_position(self.document@.podcasts, feed_slug@);
                if k < 0 {
                    r == Err::<String, StoreError>(StoreError::NotFound("podcast feed"))
                } else {
                    r is Ok && r->Ok_0@ == rss_feed(
                        self.document@.profile,
                        self.document@.podcasts[k],
                        self.public_base_url@,
                    )
                }
            }),
    {
        proof {
            crate::lookup::lemma_feed_position(self.document@.podcasts, feed_slug@);
        }
        match find_feed_index(&self.document.podcasts, feed_slug) {
            Some(k) => Ok(
                build_rss_feed(
                    &self.document.profile,
                    &self.document.podcasts[k],
                    self.public_base_url.as_str(),
                ),
            ),
            None => Err(StoreError::NotFound("podcast feed")),
        }
    }

    /// Replaces the profile and moves every resource URL under the new name. Returns the
    /// resource directories of the old and of the new name, for the files to follow.
    pub fn save_profile(&mut self, profile: Profile) -> (r: (Vec<String>, Vec<String>))
        requires
            old(self).document@.revision < u64::MAX,
        ensures
            episodes_in_order(old(self).document@.podcasts) ==> episodes_in_order(
                final(self).document@.podcasts,
            ),
            final(self).document@ == rewritten_document(
                AppDocumentView {
                    revision: (old(self).document@.revision + 1) as u64,
                    profile: profile@,
                    ..old(self).document@
                },
            ),
            final(self).public_base_url == old(self).public_base_url,
            strings_view(r.0@) == resource_dir_of(seq![old(self).document@.profile.name]),
            strings_view(r.1@) == resource_dir_of(seq![profile@.name]),
    {
        let old_segments = [self.document.profile.name.as_str()];
        let old_dir = resource_dir(&old_segments);
        let new_segments = [profile.name.as_str()];
        let new_dir = resource_dir(&new_segments);
        assert(texts_view(old_segments@) =~= seq![old(self).document@.profile.name]);
        assert(texts_view(new_segments@) =~= seq![profile@.name]);
        self.document.profile = profile;
        let ghost renamed = self.document@;
        rewrite_document_resource_urls(&mut self.document);
        self.document.revision = self.document.revision + 1;
        proof {
            if episodes_in_order(old(self).document@.podcasts) {
                lemma_rewritten_document_in_order(renamed);
            }
        }
        (old_dir, new_dir)
    }

    /// Adds a new podcast with the given data, a fresh identifier and one empty episode.
    pub fn create_podcast(&mut self, data: PodcastData) -> (r: PodcastEntry)
        requires
            old(self).document@.revision < u64::MAX,
        ensures
            episodes_in_order(old(self).document@.podcasts) ==> episodes_in_order(
                final(self).document@.podcasts,
            ),
            final(self).document@ == (AppDocumentView {
                revision: (old(self).document@.revision + 1) as u64,
                podcasts: old(self).document@.podcasts.push(r@),
                ..old(self).document@
            }),
            final(self).public_base_url == old(self).public_base_url,
            r@.data == data@,
            crate::model::is_random_id(r@.id),
            r@.episodes.len() == 1,
            r@.episodes[0] == crate::model::empty_episode_view(r@.episodes[0].id, 1),
            crate::model::is_random_id(r@.episodes[0].id),
    {
        let podcast = PodcastEntry::new(data);
        let copy = podcast.clone();
        self.document.podcasts.push(copy);
        assert(podcasts_view(self.document.podcasts@) =~= old(self).document@.podcasts.push(
            podcast@,
        ));
        self.document.revision = self.document.revision + 1;
        podcast
    }

    /// Replaces the data of the first podcast with the identifier and moves its resource URLs
    /// under its new title. Returns the podcast and its old and new resource directories.
    pub fn save_podcast(&mut self, podcast_id: &str, data: PodcastData) -> (r: Result<
        (PodcastEntry, Vec<String>, Vec<String>),
        StoreError,
    >)
        requires
            old(self).document@.revision < u64::MAX,
        ensures
            episodes_in_order(old(self).document@.podcasts) ==> episodes_in_order(
                final(self).document@.podcasts,
            ),
            final(self).public_base_url == old(self).public_base_url,
            ({
                let before = old(self).document@;
                let k = podcast_position(before.podcasts, podcast_id@);
                if k < 0 {
                    &&& r == Err::<(PodcastEntry, Vec<String>, Vec<String>), StoreError>(
                        StoreError::NotFound("podcast"),
                    )
                    &&& final(self).document@ == before
                } else {
                    let name = before.profile.name;
                    let saved = rewritten_podcast(
                        name,
                        PodcastEntryView { data: data@, ..before.podcasts[k] },
                    );
                    &&& r is Ok
                    &&& r->Ok_0.0@ == saved
                    &&& strings_view(r->Ok_0.1@) == resource_dir_of(
                        seq![name, before.podcasts[k].data.title],
                    )
                    &&& strings_view(r->Ok_0.2@) == resource_dir_of(seq![name, data@.title])
                    &&& final(self).document@ == AppDocumentView {
                        revision: (before.revision + 1) as u64,
                        podcasts: before.podcasts.update(k, saved),
                        ..before
                    }
                }
            }),
    {
        proof {
            crate::lookup::lemma_podcast_position(self.document@.podcasts, podcast_id@);
        }
        let k = match find_podcast_index(&self.document.podcasts, podcast_id) {
            Some(k) => k,
            None => return Err(StoreError::NotFound("podcast")),
        };
        let ghost before = podcasts_view(self.document.podcasts@);
        let mut podcast = self.document.podcasts.remove(k);
        let old_dir = {
            let segments = [self.document.profile.name.as_str(), podcast.data.title.as_str()];
            assert(texts_view(segments@) =~= seq![self.document@.profile.name, podcast@.data.title]);
            resource_dir(&segments)
        };
        let new_dir = {
            let segments = [self.document.profile.name.as_str(), data.title.as_str()];
            assert(texts_view(segments@) =~= seq![self.document@.profile.name, data@.title]);
            resource_dir(&segments)
        };
        let ghost data_view = data@;
        podcast.data = data;
        rewrite_podcast_resource_urls(self.document.profile.name.as_str(), &mut podcast);
        let saved = podcast.clone();
        let ghost mid = self.document.podcasts@;
        self.document.podcasts.insert(k, podcast);
        assert(self.document.podcasts@ =~= mid.insert(k as int, podcast));
        assert(podcasts_view(self.document.podcasts@) =~= before.update(k as int, saved@));
        self.document.revision = self.document.revision + 1;
        proof {
            if episodes_in_order(before) {
                let edited = PodcastEntryView { data: data_view, ..before[k as int] };
                lemma_rewritten_in_order(old(self).document@.profile.name, edited);
                lemma_update_in_order(before, k as int, saved@);
            }
        }
        Ok((saved, old_dir, new_dir))
    }

    /// Removes every podcast with the identifier. Returns the resource directory of the first
    /// one, for its files to be removed.
    pub fn delete_podcast(&mut self, podcast_id: &str) -> (r: Result<Vec<String>, StoreError>)
        requires
            old(self).document@.revision < u64::MAX,
        ensures
            episodes_in_order(old(self).document@.podcasts) ==> episodes_in_order(
                final(self).document@.podcasts,
            ),
            final(self).public_base_url == old(self).public_base_url,
            ({
                let before = old(self).document@;
                let k = podcast_position(before.podcasts, podcast_id@);
                if k < 0 {
                    &&& r == Err::<Vec<String>, StoreError>(StoreError::NotFound("podcast"))
                    &&& final(self).document@ == before
                } else {
                    &&& r is Ok
                    &&& strings_view(r->Ok_0@) == resource_dir_of(
                        seq![before.profile.name, before.podcasts[k].data.title],
                    )
                    &&& final(self).document@ == AppDocumentView {
                        revision: (before.revision + 1) as u64,
                        podcasts: without_podcast(before.podcasts, podcast_id@),
                        ..before
                    }
                }
            }),
    {
        proof {
            crate::lookup::lemma_podcast_position(self.document@.podcasts, podcast_id@);
        }
        let k = match find_podcast_index(&self.document.podcasts, podcast_id) {
            Some(k) => k,
            None => return Err(StoreError::NotFound("podcast")),
        };
        let dir = {
            let podcast = &self.document.podcasts[k];
            let segments = [self.document.profile.name.as_str(), podcast.data.title.as_str()];
            assert(texts_view(segments@) =~= seq![
                self.document@.profile.name,
                self.document@.podcasts[k as int].data.title,
            ]);
            resource_dir(&segments)
        };
        remove_podcasts_with_id(&mut self.document.podcasts, podcast_id);
        self.document.revision = self.document.revision + 1;
        proof {
            if episodes_in_order(old(self).document@.podcasts) {
                lemma_without_podcast_in_order(old(self).document@.podcasts, podcast_id@);
            }
        }
        Ok(dir)
    }
}

/// Whether the episodes of every podcast carry the numbers 1, 2, 3, ... in their order.
pub open spec fn episodes_in_order(podcasts: Seq<PodcastEntryView>) -> bool {
    forall|k: int| 0 <= k < podcasts.len() ==> numbered_in_order(#[trigger] podcasts[k].episodes)
}

/// Moving resource URLs leaves the episode numbers as they are.
pub proof fn lemma_rewritten_in_order(name: Seq<char>, podcast: PodcastEntryView)
    requires
        numbered_in_order(podcast.episodes),
    ensures
        numbered_in_order(rewritten_podcast(name, podcast).episodes),
{
    let r = rewritten_podcast(name, podcast).episodes;
    assert forall|i: int| 0 <= i < r.len() implies #[trigger] r[i].number == i + 1 by {
        assert(r[i].number == podcast.episodes[i].number);
    }
}

/// Moving every resource URL of a document leaves the episode numbers as they are.
pub proof fn lemma_rewritten_document_in_order(document: AppDocumentView)
    requires
        episodes_in_order(document.podcasts),
    ensures
        episodes_in_order(rewritten_document(document).podcasts),
{
    let ps = rewritten_document(document).podcasts;
    assert forall|k: int| 0 <= k < ps.len() implies numbered_in_order(#[trigger] ps[k].episodes) by {
        lemma_rewritten_in_order(document.profile.name, document.podcasts[k]);
    }
}

/// Replacing one podcast by one whose episodes are in order keeps every podcast's episodes in
/// order.
pub proof fn lemma_update_in_order(podcasts: Seq<PodcastEntryView>, k: int, podcast: PodcastEntryView)
    requires
        episodes_in_order(podcasts),
        0 <= k < podcasts.len(),
        numbered_in_order(podcast.episodes),
    ensures
        episodes_in_order(podcasts.update(k, podcast)),
{
    let ps = podcasts.update(k, podcast);
    assert forall|t: int| 0 <= t < ps.len() implies numbered_in_order(#[trigger] ps[t].episodes) by {
        if t != k {
            assert(ps[t] == podcasts[t]);
        }
    }
}

/// Removing podcasts keeps the others' episodes in order.
pub proof fn lemma_without_podcast_in_order(podcasts: Seq<PodcastEntryView>, id: Seq<char>)
    requires
        episodes_in_order(podcasts),
    ensures
        episodes_in_order(without_podcast(podcasts, id)),
    decreases podcasts.len(),
{
    if podcasts.len() > 0 {
        let rest = podcasts.drop_last();
        assert forall|k: int| 0 <= k < rest.len() implies numbered_in_order(
            #[trigger] rest[k].episodes,
        ) by {
            assert(rest[k] == podcasts[k]);
        }
        lemma_without_podcast_in_order(rest, id);
        let last = podcasts.last();
        assert(numbered_in_order(podcasts[podcasts.len() - 1].episodes));
        let ps = without_podcast(podcasts, id);
        let kept = without_podcast(rest, id);
        if last.id != id {
            assert forall|k: int| 0 <= k < ps.len() implies numbered_in_order(
                #[trigger] ps[k].episodes,
            ) by {
                if k < kept.len() {
                    assert(ps[k] == kept[k]);
                }
            }
        }
    }
}

/// The podcasts without those that have the given identifier.
pub open spec fn without_podcast(podcasts: Seq<PodcastEntryView>, id: Seq<char>) -> Seq<
    PodcastEntryView,
>
    decreases podcasts.len(),
{
    if podcasts.len() == 0 {
        Seq::empty()
    } else {
        let kept = without_podcast(podcasts.drop_last(), id);
        if podcasts.last().id == id {
            kept
        } else {
            kept.push(podcasts.last())
        }
    }
}

/// Law: no podcast with the identifier is left, and the list does not grow.
pub proof fn lemma_without_podcast(podcasts: Seq<PodcastEntryView>, id: Seq<char>)
    ensures
        without_podcast(podcasts, id).len() <= podcasts.len(),
        forall|t: int|
            0 <= t < without_podcast(podcasts, id).len() ==> #[trigger] without_podcast(
                podcasts,
                id,
            )[t].id != id,
    decreases podcasts.len(),
{
    if podcasts.len() > 0 {
        lemma_without_podcast(podcasts.drop_last(), id);
    }
}

/// Drops every podcast with the given identifier, keeping the order of the others.
pub fn remove_podcasts_with_id(podcasts: &mut Vec<PodcastEntry>, podcast_id: &str)
    ensures
        podcasts_view(final(podcasts)@) == without_podcast(podcasts_view(old(podcasts)@), podcast_id@),
{
    let mut input: Vec<PodcastEntry> = Vec::new();
    std::mem::swap(&mut input, podcasts);
    let ghost orig = podcasts_view(input@);
    assert(orig.skip(0) =~= orig);
    let n = input.len();
    let mut i: usize = 0;
    while i < n
        invariant
            n == orig.len(),
            i <= n,
            input@.len() == n - i,
            podcasts_view(input@) == orig.skip(i as int),
            podcasts_view(podcasts@) == without_podcast(orig.take(i as int), podcast_id@),
        decreases n - i,
    {
        assert(podcasts_view(input@)[0] == orig[i as int]);
        let ghost pv = input@;
        let p = input.remove(0);
        assert(input@ =~= pv.drop_first());
        assert(podcasts_view(input@) =~= podcasts_view(pv).drop_first());
        assert(podcasts_view(input@) =~= orig.skip(i + 1));
        assert(orig.take(i + 1).drop_last() =~= orig.take(i as int));
        let ghost before = podcasts_view(podcasts@);
        if !crate::text::same_text(p.id.as_str(), podcast_id) {
            podcasts.push(p);
            assert(podcasts_view(podcasts@) =~= before.push(orig[i as int]));
        }
        i = i + 1;
    }
    assert(orig.take(n as int) =~= orig);
}

} // verus!
