use vstd::prelude::*;

use crate::episodes::{
    lemma_renumbered_in_order, lemma_renumbered_keeps_id, next_episode_number, remove_episodes_with_id, renumber_episodes,
    renumbered, without_episode,
};
use crate::error::StoreError;
use crate::lookup::{
    episode_position, find_episode_index, find_podcast_index, lemma_episode_position,
    lemma_podcast_position, podcast_position,
};
use crate::model::{
    empty_episode_view, episodes_view, is_random_id, new_id, podcasts_view, AppDocumentView,
    Episode, EpisodeView, PodcastEntry, PodcastEntryView,
};
use crate::resources::{strings_view, texts_view};
use crate::rewrite::{rewrite_episode_resource_url, rewritten_episode};
use crate::store::{episodes_in_order, lemma_update_in_order, episodes_below, resource_dir, resource_dir_of, Store};
use crate::text::{blank, is_blank};

verus! {

/// The view of an optional episode.
pub open spec fn optional_episode_view(episode: Option<Episode>) -> Option<EpisodeView> {
    match episode {
        Some(e) => Some(e@),
        None => None,
    }
}

/// The episode that `create_episode` adds: the given one, or an empty one; a blank identifier
/// is replaced by `drawn_id` and a number 0 by `next`.
pub open spec fn inserted_episode(
    input: Option<EpisodeView>,
    drawn_id: Seq<char>,
    next: u32,
) -> EpisodeView {
    match input {
        Some(e) => EpisodeView {
            id: if is_blank(e.id) {
                drawn_id
            } else {
                e.id
            },
            number: if e.number == 0 {
                next
            } else {
                e.number
            },
            ..e
        },
        None => empty_episode_view(drawn_id, next),
    }
}

/// A podcast with other episodes.
pub open spec fn with_episodes(podcast: PodcastEntryView, episodes: Seq<EpisodeView>) -> PodcastEntryView {
    PodcastEntryView { episodes, ..podcast }
}

/// A document with one podcast replaced and its revision counted up.
pub open spec fn changed(document: AppDocumentView, k: int, podcast: PodcastEntryView) -> AppDocumentView {
    AppDocumentView {
        revision: (document.revision + 1) as u64,
        podcasts: document.podcasts.update(k, podcast),
        ..document
    }
}

impl Store {
    /// Adds an episode to the first podcast with the identifier: the given one, or an empty
    /// one. A blank identifier is replaced by a fresh one and a number 0 by the next number;
    /// then the episodes are renumbered. Returns the first episode with the new episode's
    /// identifier.
    pub fn create_episode(&mut self, podcast_id: &str, episode: Option<Episode>) -> (r: Result<
        Episode,
        StoreError,
    >)
        requires
            old(self).document@.revision < u64::MAX,
            episodes_below(old(self).document@, podcast_id@, u32::MAX as int),
        ensures
            episodes_in_order(old(self).document@.podcasts) ==> episodes_in_order(
                final(self).document@.podcasts,
            ),
            final(self).public_base_url == old(self).public_base_url,
            ({
                let before = old(self).document@;
                let k = podcast_position(before.podcasts, podcast_id@);
                if k < 0 {
                    &&& r == Err::<Episode, StoreError>(StoreError::NotFound("podcast"))
                    &&& final(self).document@ == before
                } else {
                    let p = before.podcasts[k];
                    let input = optional_episode_view(episode);
                    let next = (p.episodes.len() + 1) as u32;
                    &&& r is Ok
                    &&& ({
                        let added = inserted_episode(input, r->Ok_0@.id, next);
                        let episodes = renumbered(p.episodes.push(added));
                        &&& added.id == r->Ok_0@.id
                        &&& r->Ok_0@ == episodes[episode_position(episodes, added.id)]
                        &&& final(self).document@ == changed(before, k, with_episodes(p, episodes))
                    })
                    &&& (input is None || is_blank(input->0.id)) ==> is_random_id(
                        r->Ok_0@.id,
                    )
                }
            }),
    {
        proof {
            lemma_podcast_position(self.document@.podcasts, podcast_id@);
        }
        let k = match find_podcast_index(&self.document.podcasts, podcast_id) {
            Some(k) => k,
            None => return Err(StoreError::NotFound("podcast")),
        };
        let ghost before = self.document@;
        let ghost p = before.podcasts[k as int];
        assert(self.document.podcasts@[k as int]@ == p);
        assert(p.episodes.len() < u32::MAX);
        let next = next_episode_number(&self.document.podcasts[k]);
        let mut added = match episode {
            Some(e) => e,
            None => Episode::empty(next),
        };
        if blank(added.id.as_str()) {
            added.id = new_id();
        }
        if added.number == 0 {
            added.number = next;
        }
        let added_id = added.id.clone();
        let ghost added_view = added@;
        assert(added_view == inserted_episode(optional_episode_view(episode), added_view.id, next));
        let mut podcast = self.document.podcasts.remove(k);
        podcast.episodes.push(added);
        let ghost pushed = episodes_view(podcast.episodes@);
        assert(pushed =~= p.episodes.push(added_view));
        renumber_episodes(&mut podcast.episodes);
        proof {
            lemma_renumbered_keeps_id(pushed, pushed.len() - 1);
            lemma_episode_position(episodes_view(podcast.episodes@), added_view.id);
        }
        let found = find_episode_index(&podcast.episodes, added_id.as_str());
        let t = found.unwrap();
        let result = podcast.episodes[t].clone();
        let ghost saved = podcast@;
        assert(saved == with_episodes(p, renumbered(pushed)));
        let ghost mid = self.document.podcasts@;
        self.document.podcasts.insert(k, podcast);
        assert(self.document.podcasts@ =~= mid.insert(k as int, podcast));
        assert(podcasts_view(self.document.podcasts@) =~= before.podcasts.update(k as int, saved));
        self.document.revision = self.document.revision + 1;
        proof {
            if episodes_in_order(before.podcasts) {
                lemma_renumbered_in_order(pushed);
                lemma_update_in_order(before.podcasts, k as int, saved);
            }
        }
        Ok(result)
    }

    /// Replaces the first episode with `episode_id` in the first podcast with `podcast_id` by
    /// `episode`, which keeps that identifier; moves its cover URL under its new title and
    /// renumbers the episodes. Returns the first episode with the identifier and the episode's
    /// old and new resource directories.
    pub fn save_episode(&mut self, podcast_id: &str, episode_id: &str, episode: Episode) -> (r:
        Result<(Episode, Vec<String>, Vec<String>), StoreError>)
        requires
            old(self).document@.revision < u64::MAX,
            episodes_below(old(self).document@, podcast_id@, u32::MAX as int + 1),
        ensures
            episodes_in_order(old(self).document@.podcasts) ==> episodes_in_order(
                final(self).document@.podcasts,
            ),
            final(self).public_base_url == old(self).public_base_url,
            ({
                let before = old(self).document@;
                let k = podcast_position(before.podcasts, podcast_id@);
                if k < 0 {
                    &&& r == Err::<(Episode, Vec<String>, Vec<String>), StoreError>(
                        StoreError::NotFound("podcast"),
                    )
                    &&& final(self).document@ == before
                } else {
                    let p = before.podcasts[k];
                    let j = episode_position(p.episodes, episode_id@);
                    if j < 0 {
                        &&& r == Err::<(Episode, Vec<String>, Vec<String>), StoreError>(
                            StoreError::NotFound("episode"),
                        )
                        &&& final(self).document@ == before
                    } else {
                        let name = before.profile.name;
                        let replaced = rewritten_episode(
                            name,
                            p.data.title,
                            EpisodeView { id: episode_id@, ..episode@ },
                        );
                        let episodes = renumbered(p.episodes.update(j, replaced));
                        &&& r is Ok
                        &&& r->Ok_0.0@ == episodes[episode_position(episodes, episode_id@)]
                        &&& strings_view(r->Ok_0.1@) == resource_dir_of(
                            seq![name, p.data.title, p.episodes[j].title],
                        )
                        &&& strings_view(r->Ok_0.2@) == resource_dir_of(
                            seq![name, p.data.title, episode@.title],
                        )
                        &&& final(self).document@ == changed(before, k, with_episodes(p, episodes))
                    }
                }
            }),
    {
        proof {
            lemma_podcast_position(self.document@.podcasts, podcast_id@);
        }
        let k = match find_podcast_index(&self.document.podcasts, podcast_id) {
            Some(k) => k,
            None => return Err(StoreError::NotFound("podcast")),
        };
        let ghost before = self.document@;
        let ghost p = before.podcasts[k as int];
        assert(self.document.podcasts@[k as int]@ == p);
        proof {
            lemma_episode_position(p.episodes, episode_id@);
        }
        let j = match find_episode_index(&self.document.podcasts[k].episodes, episode_id) {
            Some(j) => j,
            None => return Err(StoreError::NotFound("episode")),
        };
        let mut podcast = self.document.podcasts.remove(k);
        assert(podcast@ == p);
        let old_dir = {
            let segments = [
                self.document.profile.name.as_str(),
                podcast.data.title.as_str(),
                podcast.episodes[j].title.as_str(),
            ];
            assert(texts_view(segments@) =~= seq![
                before.profile.name,
                p.data.title,
                p.episodes[j as int].title,
            ]);
            resource_dir(&segments)
        };
        let new_dir = {
            let segments = [
                self.document.profile.name.as_str(),
                podcast.data.title.as_str(),
                episode.title.as_str(),
            ];
            assert(texts_view(segments@) =~= seq![before.profile.name, p.data.title, episode@.title]);
            resource_dir(&segments)
        };
        let mut replacement = episode;
        replacement.id = String::from_str(episode_id);
        rewrite_episode_resource_url(
            self.document.profile.name.as_str(),
            podcast.data.title.as_str(),
            &mut replacement,
        );
        let ghost replaced = replacement@;
        let ghost eps_before = episodes_view(podcast.episodes@);
        let _discarded = podcast.episodes.remove(j);
        let ghost mid_eps = podcast.episodes@;
        podcast.episodes.insert(j, replacement);
        assert(podcast.episodes@ =~= mid_eps.insert(j as int, replacement));
        let ghost updated = episodes_view(podcast.episodes@);
        assert(updated =~= eps_before.update(j as int, replaced));
        renumber_episodes(&mut podcast.episodes);
        proof {
            lemma_renumbered_keeps_id(updated, j as int);
            lemma_episode_position(episodes_view(podcast.episodes@), episode_id@);
        }
        let t = find_episode_index(&podcast.episodes, episode_id).unwrap();
        let result = podcast.episodes[t].clone();
        let ghost saved = podcast@;
        assert(saved == with_episodes(p, renumbered(updated)));
        let ghost mid = self.document.podcasts@;
        self.document.podcasts.insert(k, podcast);
        assert(self.document.podcasts@ =~= mid.insert(k as int, podcast));
        assert(podcasts_view(self.document.podcasts@) =~= before.podcasts.update(k as int, saved));
        self.document.revision = self.document.revision + 1;
        proof {
            if episodes_in_order(before.podcasts) {
                lemma_renumbered_in_order(updated);
                lemma_update_in_order(before.podcasts, k as int, saved);
            }
        }
        Ok((result, old_dir, new_dir))
    }

    /// Removes every episode with `episode_id` from the first podcast with `podcast_id` and
    /// renumbers the others. Returns the podcast and the resource directory of the first removed
    /// episode.
    pub fn delete_episode(&mut self, podcast_id: &str, episode_id: &str) -> (r: Result<
        (PodcastEntry, Vec<String>),
        StoreError,
    >)
        requires
            old(self).document@.revision < u64::MAX,
            episodes_below(old(self).document@, podcast_id@, u32::MAX as int + 1),
        ensures
            episodes_in_order(old(self).document@.podcasts) ==> episodes_in_order(
                final(self).document@.podcasts,
            ),
            final(self).public_base_url == old(self).public_base_url,
            ({
                let before = old(self).document@;
                let k = podcast_position(before.podcasts, podcast_id@);
                if k < 0 {
                    &&& r == Err::<(PodcastEntry, Vec<String>), StoreError>(
                        StoreError::NotFound("podcast"),
                    )
                    &&& final(self).document@ == before
                } else {
                    let p = before.podcasts[k];
                    let j = episode_position(p.episodes, episode_id@);
                    if j < 0 {
                        &&& r == Err::<(PodcastEntry, Vec<String>), StoreError>(
                            StoreError::NotFound("episode"),
                        )
                        &&& final(self).document@ == before
                    } else {
                        let saved = with_episodes(
                            p,
                            renumbered(without_episode(p.episodes, episode_id@)),
                        );
                        &&& r is Ok
                        &&& r->Ok_0.0@ == saved
                        &&& strings_view(r->Ok_0.1@) == resource_dir_of(
                            seq![before.profile.name, p.data.title, p.episodes[j].title],
                        )
                        &&& final(self).document@ == changed(before, k, saved)
                    }
                }
            }),
    {
        proof {
            lemma_podcast_position(self.document@.podcasts, podcast_id@);
        }
        let k = match find_podcast_index(&self.document.podcasts, podcast_id) {
            Some(k) => k,
            None => return Err(StoreError::NotFound("podcast")),
        };
        let ghost before = self.document@;
        let ghost p = before.podcasts[k as int];
        assert(self.document.podcasts@[k as int]@ == p);
        proof {
            lemma_episode_position(p.episodes, episode_id@);
        }
        let j = match find_episode_index(&self.document.podcasts[k].episodes, episode_id) {
            Some(j) => j,
            None => return Err(StoreError::NotFound("episode")),
        };
        let mut podcast = self.document.podcasts.remove(k);
        assert(podcast@ == p);
        let dir = {
            let segments = [
                self.document.profile.name.as_str(),
                podcast.data.title.as_str(),
                podcast.episodes[j].title.as_str(),
            ];
            assert(texts_view(segments@) =~= seq![
                before.profile.name,
                p.data.title,
                p.episodes[j as int].title,
            ]);
            resource_dir(&segments)
        };
        remove_episodes_with_id(&mut podcast.episodes, episode_id);
        proof {
            crate::episodes::lemma_without_episode(p.episodes, episode_id@);
        }
        renumber_episodes(&mut podcast.episodes);
        let result = podcast.clone();
        let ghost mid = self.document.podcasts@;
        self.document.podcasts.insert(k, podcast);
        assert(self.document.podcasts@ =~= mid.insert(k as int, podcast));
        assert(podcasts_view(self.document.podcasts@) =~= before.podcasts.update(
            k as int,
            result@,
        ));
        self.document.revision = self.document.revision + 1;
        proof {
            if episodes_in_order(before.podcasts) {
                lemma_renumbered_in_order(without_episode(p.episodes, episode_id@));
                lemma_update_in_order(before.podcasts, k as int, result@);
            }
        }
        Ok((result, dir))
    }
}

} // verus!
