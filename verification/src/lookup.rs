use vstd::prelude::*;

use crate::model::{episodes_view, podcasts_view, Episode, EpisodeView, PodcastEntry, PodcastEntryView};
use crate::text::same_text;

verus! {

/// The position of the first podcast with the given identifier, or -1 where there is none.
pub open spec fn podcast_position(podcasts: Seq<PodcastEntryView>, id: Seq<char>) -> int
    decreases podcasts.len(),
{
    if podcasts.len() == 0 {
        -1
    } else {
        let k = podcast_position(podcasts.drop_last(), id);
        if k >= 0 {
            k
        } else if podcasts.last().id == id {
            podcasts.len() - 1
        } else {
            -1
        }
    }
}

/// The position of the first podcast with the given feed slug, or -1 where there is none.
pub open spec fn feed_position(podcasts: Seq<PodcastEntryView>, slug: Seq<char>) -> int
    decreases podcasts.len(),
{
    if podcasts.len() == 0 {
        -1
    } else {
        let k = feed_position(podcasts.drop_last(), slug);
        if k >= 0 {
            k
        } else if podcasts.last().data.feed_slug == slug {
            podcasts.len() - 1
        } else {
            -1
        }
    }
}

/// The position of the first episode with the given identifier, or -1 where there is none.
pub open spec fn episode_position(episodes: Seq<EpisodeView>, id: Seq<char>) -> int
    decreases episodes.len(),
{
    if episodes.len() == 0 {
        -1
    } else {
        let k = episode_position(episodes.drop_last(), id);
        if k >= 0 {
            k
        } else if episodes.last().id == id {
            episodes.len() - 1
        } else {
            -1
        }
    }
}

/// Law: `podcast_position` is the first position with the identifier, and -1 exactly when no
/// podcast has it.
pub proof fn lemma_podcast_position(podcasts: Seq<PodcastEntryView>, id: Seq<char>)
    ensures
        -1 <= podcast_position(podcasts, id) < podcasts.len(),
        podcast_position(podcasts, id) >= 0 ==> podcasts[podcast_position(podcasts, id)].id == id,
        forall|j: int|
            0 <= j < podcasts.len() && (podcast_position(podcasts, id) < 0 || j < podcast_position(
                podcasts,
                id,
            )) ==> #[trigger] podcasts[j].id != id,
    decreases podcasts.len(),
{
    if podcasts.len() > 0 {
        lemma_podcast_position(podcasts.drop_last(), id);
        assert forall|j: int|
            0 <= j < podcasts.len() && (podcast_position(podcasts, id) < 0 || j < podcast_position(
                podcasts,
                id,
            )) implies #[trigger] podcasts[j].id != id by {
            if j < podcasts.len() - 1 {
                assert(podcasts.drop_last()[j] == podcasts[j]);
            }
        }
    }
}

/// Law: `feed_position` is the first position with the feed slug, and -1 exactly when no
/// podcast has it.
pub proof fn lemma_feed_position(podcasts: Seq<PodcastEntryView>, slug: Seq<char>)
    ensures
        -1 <= feed_position(podcasts, slug) < podcasts.len(),
        feed_position(podcasts, slug) >= 0 ==> podcasts[feed_position(
            podcasts,
            slug,
        )].data.feed_slug == slug,
        forall|j: int|
            0 <= j < podcasts.len() && (feed_position(podcasts, slug) < 0 || j < feed_position(
                podcasts,
                slug,
            )) ==> #[trigger] podcasts[j].data.feed_slug != slug,
    decreases podcasts.len(),
{
    if podcasts.len() > 0 {
        lemma_feed_position(podcasts.drop_last(), slug);
        assert forall|j: int|
            0 <= j < podcasts.len() && (feed_position(podcasts, slug) < 0 || j < feed_position(
                podcasts,
                slug,
            )) implies #[trigger] podcasts[j].data.feed_slug != slug by {
            if j < podcasts.len() - 1 {
                assert(podcasts.drop_last()[j] == podcasts[j]);
            }
        }
    }
}

/// Law: `episode_position` is the first position with the identifier, and -1 exactly when no
/// episode has it.
pub proof fn lemma_episode_position(episodes: Seq<EpisodeView>, id: Seq<char>)
    ensures
        -1 <= episode_position(episodes, id) < episodes.len(),
        episode_position(episodes, id) >= 0 ==> episodes[episode_position(episodes, id)].id == id,
        forall|j: int|
            0 <= j < episodes.len() && (episode_position(episodes, id) < 0 || j < episode_position(
                episodes,
                id,
            )) ==> #[trigger] episodes[j].id != id,
    decreases episodes.len(),
{
    if episodes.len() > 0 {
        lemma_episode_position(episodes.drop_last(), id);
        assert forall|j: int|
            0 <= j < episodes.len() && (episode_position(episodes, id) < 0 || j < episode_position(
                episodes,
                id,
            )) implies #[trigger] episodes[j].id != id by {
            if j < episodes.len() - 1 {
                assert(episodes.drop_last()[j] == episodes[j]);
            }
        }
    }
}

/// The position of the first podcast whose identifier is `podcast_id`.
pub fn find_podcast_index(podcasts: &Vec<PodcastEntry>, podcast_id: &str) -> (r: Option<usize>)
    ensures
        match r {
            Some(k) => k == podcast_position(podcasts_view(podcasts@), podcast_id@),
            None => podcast_position(podcasts_view(podcasts@), podcast_id@) == -1,
        },
{
    let ghost ps = podcasts_view(podcasts@);
    for i in 0..podcasts.len()
        invariant
            ps == podcasts_view(podcasts@),
            forall|j: int| 0 <= j < i ==> #[trigger] ps[j].id != podcast_id@,
    {
        if same_text(podcasts[i].id.as_str(), podcast_id) {
            proof {
                assert(ps[i as int].id == podcast_id@);
                lemma_podcast_position(ps, podcast_id@);
            }
            return Some(i);
        }
    }
    proof {
        lemma_podcast_position(ps, podcast_id@);
        if podcast_position(ps, podcast_id@) >= 0 {
            let k = podcast_position(ps, podcast_id@);
            assert(ps[k].id == podcast_id@);
        }
    }
    None
}

/// The position of the first podcast whose feed slug is `feed_slug`.
pub fn find_feed_index(podcasts: &Vec<PodcastEntry>, feed_slug: &str) -> (r: Option<usize>)
    ensures
        match r {
            Some(k) => k == feed_position(podcasts_view(podcasts@), feed_slug@),
            None => feed_position(podcasts_view(podcasts@), feed_slug@) == -1,
        },
{
    let ghost ps = podcasts_view(podcasts@);
    for i in 0..podcasts.len()
        invariant
            ps == podcasts_view(podcasts@),
            forall|j: int| 0 <= j < i ==> #[trigger] ps[j].data.feed_slug != feed_slug@,
    {
        if same_text(podcasts[i].data.feed_slug.as_str(), feed_slug) {
            proof {
                assert(ps[i as int].data.feed_slug == feed_slug@);
                lemma_feed_position(ps, feed_slug@);
            }
            return Some(i);
        }
    }
    proof {
        lemma_feed_position(ps, feed_slug@);
        if feed_position(ps, feed_slug@) >= 0 {
            let k = feed_position(ps, feed_slug@);
            assert(ps[k].data.feed_slug == feed_slug@);
        }
    }
    None
}

/// The position of the first episode whose identifier is `episode_id`.
pub fn find_episode_index(episodes: &Vec<Episode>, episode_id: &str) -> (r: Option<usize>)
    ensures
        match r {
            Some(k) => k == episode_position(episodes_view(episodes@), episode_id@),
            None => episode_position(episodes_view(episodes@), episode_id@) == -1,
        },
{
    let ghost es = episodes_view(episodes@);
    for i in 0..episodes.len()
        invariant
            es == episodes_view(episodes@),
            forall|j: int| 0 <= j < i ==> #[trigger] es[j].id != episode_id@,
    {
        if same_text(episodes[i].id.as_str(), episode_id) {
            proof {
                assert(es[i as int].id == episode_id@);
                lemma_episode_position(es, episode_id@);
            }
            return Some(i);
        }
    }
    proof {
        lemma_episode_position(es, episode_id@);
        if episode_position(es, episode_id@) >= 0 {
            let k = episode_position(es, episode_id@);
            assert(es[k].id == episode_id@);
        }
    }
    None
}

} // verus!
