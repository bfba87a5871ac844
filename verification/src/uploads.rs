use vstd::prelude::*;

use crate::episode_store::changed;
use crate::error::StoreError;
use crate::lookup::{
    episode_position, find_episode_index, find_podcast_index, lemma_episode_position,
    lemma_podcast_position, podcast_position,
};
use crate::model::{
    podcasts_view, Episode, EpisodeView, PodcastDataView, PodcastEntry, PodcastEntryView, UploadFile,
};
use crate::resources::{
    audio_extensions, extension_check, extension_of, file_extension, image_extensions,
    public_resource_url_from_segments, resource_components, resource_url, sanitize_file_name,
    sanitized_file_name, size_check, strings_view, texts_view, validate_extension, validate_size,
    MAX_AUDIO_BYTES, MAX_IMAGE_BYTES,
};
use crate::store::{episodes_in_order, lemma_update_in_order, resource_dir, resource_dir_of, Store};

verus! {

/// Where an uploaded file goes: its directories below the resource root, its file name, and
/// the URL path under which the server publishes it.
#[derive(Debug)]
pub struct ResourceTarget {
    pub dirs: Vec<String>,
    pub file_name: String,
    pub public_url: String,
}

/// Whether `target` is where the file `file_name` goes under the directories for `segments`.
pub open spec fn is_target(target: ResourceTarget, segments: Seq<Seq<char>>, file_name: Seq<char>) -> bool {
    &&& strings_view(target.dirs@) == resource_dir_of(segments)
    &&& target.file_name@ == sanitized_file_name(file_name)
    &&& target.public_url@ == resource_url(resource_components(segments, file_name))
}

/// Where the file `file_name` goes under the directories for `segments`.
pub fn resource_path(segments: &[&str], file_name: &str) -> (r: ResourceTarget)
    ensures
        is_target(r, texts_view(segments@), file_name@),
{
    ResourceTarget {
        dirs: resource_dir(segments),
        file_name: sanitize_file_name(file_name),
        public_url: public_resource_url_from_segments(segments, file_name),
    }
}

/// What the checks of an uploaded file decide: its extension must be allowed, then its size
/// must not exceed the limit.
pub open spec fn upload_check(
    file_name: Seq<char>,
    size: u64,
    allowed: Seq<Seq<char>>,
    max_size: u64,
) -> Result<(), StoreError> {
    match extension_check(file_name, allowed) {
        Err(e) => Err(e),
        Ok(_) => size_check(size, max_size),
    }
}

/// The name under which a cover with the given extension is stored.
pub open spec fn cover_name(extension: Seq<char>) -> Seq<char> {
    "cover."@ + extension
}

fn check_image(file_name: &str, size: u64) -> (r: Result<(), StoreError>)
    ensures
        r == upload_check(file_name@, size, image_extensions(), MAX_IMAGE_BYTES),
{
    let allowed = ["jpg", "jpeg", "png"];
    assert(texts_view(allowed@) =~= image_extensions());
    validate_extension(file_name, &allowed)?;
    validate_size(size, MAX_IMAGE_BYTES)
}

fn check_audio(file_name: &str, size: u64) -> (r: Result<(), StoreError>)
    ensures
        r == upload_check(file_name@, size, audio_extensions(), MAX_AUDIO_BYTES),
{
    let allowed = ["wav", "mp3", "aac", "aiff", "mp4", "m4a", "flac", "ogg", "mkv"];
    assert(texts_view(allowed@) =~= audio_extensions());
    validate_extension(file_name, &allowed)?;
    validate_size(size, MAX_AUDIO_BYTES)
}

/// `cover.` followed by the extension of `file_name`, which has one.
fn cover_file_name(file_name: &str) -> (r: String)
    requires
        extension_of(file_name@) is Some,
    ensures
        r@ == cover_name(extension_of(file_name@)->0),
{
    let extension = match file_extension(file_name) {
        Ok(e) => e,
        Err(_) => String::new(),
    };
    let mut name = String::from_str("cover.");
    name.append(extension.as_str());
    name
}

/// A podcast with another cover URL.
pub open spec fn with_podcast_cover(podcast: PodcastEntryView, cover: Seq<char>) -> PodcastEntryView {
    PodcastEntryView { data: PodcastDataView { cover: Some(cover), ..podcast.data }, ..podcast }
}

/// A podcast whose episode at `j` is replaced.
pub open spec fn with_episode(podcast: PodcastEntryView, j: int, episode: EpisodeView) -> PodcastEntryView {
    PodcastEntryView { episodes: podcast.episodes.update(j, episode), ..podcast }
}

impl Store {
    /// Checks an uploaded cover for the first podcast with the identifier and says where it goes:
    /// `cover.<extension>` in the podcast's directory.
    pub fn plan_podcast_cover(&self, podcast_id: &str, file_name: &str, size: u64) -> (r: Result<
        ResourceTarget,
        StoreError,
    >)
        ensures
            ({
                let doc = self.document@;
                let check = upload_check(file_name@, size, image_extensions(), MAX_IMAGE_BYTES);
                let k = podcast_position(doc.podcasts, podcast_id@);
                if check is Err {
                    r == Err::<ResourceTarget, StoreError>(check->Err_0)
                } else if k < 0 {
                    r == Err::<ResourceTarget, StoreError>(StoreError::NotFound("podcast"))
                } else {
                    r is Ok && is_target(
                        r->Ok_0,
                        seq![doc.profile.name, doc.podcasts[k].data.title],
                        cover_name(extension_of(file_name@)->0),
                    )
                }
            }),
    {
        check_image(file_name, size)?;
        proof {
            lemma_podcast_position(self.document@.podcasts, podcast_id@);
        }
        let k = match find_podcast_index(&self.document.podcasts, podcast_id) {
            Some(k) => k,
            None => return Err(StoreError::NotFound("podcast")),
        };
        let name = cover_file_name(file_name);
        let podcast = &self.document.podcasts[k];
        let segments = [self.document.profile.name.as_str(), podcast.data.title.as_str()];
        assert(texts_view(segments@) =~= seq![
            self.document@.profile.name,
            self.document@.podcasts[k as int].data.title,
        ]);
        Ok(resource_path(&segments, name.as_str()))
    }

    /// Checks an uploaded cover for the first podcast with the identifier and records, as its
    /// cover, the URL under which `plan_podcast_cover` places the file.
    pub fn save_podcast_cover(&mut self, podcast_id: &str, file: &UploadFile) -> (r: Result<
        PodcastEntry,
        StoreError,
    >)
        requires
            old(self).document@.revision < u64::MAX,
        ensures
            episodes_in_order(old(self).document@.podcasts) ==> episodes_in_order(
                final(self).document@.podcasts,
            ),
            final(self).public_base_url == old(self).public_base_url,
            ({
                let before = old(self).document@;
                let check = upload_check(file.file_name@, file.size, image_extensions(), MAX_IMAGE_BYTES);
                let k = podcast_position(before.podcasts, podcast_id@);
                if check is Err {
                    &&& r == Err::<PodcastEntry, StoreError>(check->Err_0)
                    &&& final(self).document@ == before
                } else if k < 0 {
                    &&& r == Err::<PodcastEntry, StoreError>(StoreError::NotFound("podcast"))
                    &&& final(self).document@ == before
                } else {
                    let url = cover_url(
                        seq![before.profile.name, before.podcasts[k].data.title],
                        file.file_name@,
                    );
                    let saved = with_podcast_cover(before.podcasts[k], url);
                    &&& r is Ok
                    &&& r->Ok_0@ == saved
                    &&& final(self).document@ == changed(before, k, saved)
                }
            }),
    {
        let target = self.plan_podcast_cover(podcast_id, file.file_name.as_str(), file.size)?;
        self.set_podcast_cover(podcast_id, target.public_url)
    }

    /// Records `public_url` as the cover of the first podcast with the identifier.
    fn set_podcast_cover(&mut self, podcast_id: &str, public_url: String) -> (r: Result<
        PodcastEntry,
        StoreError,
    >)
        requires
            old(self).document@.revision < u64::MAX,
        ensures
            episodes_in_order(old(self).document@.podcasts) ==> episodes_in_order(
                final(self).document@.podcasts,
            ),
            final(self).public_base_url == old(self).public_base_url,
            ({
                let before = old(self).document@;
                let k = podcast_position(before.podcasts, podcast_id@);
                if k < 0 {
                    &&& r == Err::<PodcastEntry, StoreError>(StoreError::NotFound("podcast"))
                    &&& final(self).document@ == before
                } else {
                    let saved = with_podcast_cover(before.podcasts[k], public_url@);
                    &&& r is Ok
                    &&& r->Ok_0@ == saved
                    &&& final(self).document@ == changed(before, k, saved)
                }
            }),
    {
        proof {
            lemma_podcast_position(self.document@.podcasts, podcast_id@);
        }
        let k = match find_podcast_index(&self.document.podcasts, podcast_id) {
            Some(k) => k,
            None => return Err(StoreError::NotFound("podcast")),
        };
        let ghost before = self.document@;
        let mut podcast = self.document.podcasts.remove(k);
        podcast.data.cover = Some(public_url);
        let result = podcast.clone();
        let ghost mid = self.document.podcasts@;
        self.document.podcasts.insert(k, podcast);
        assert(self.document.podcasts@ =~= mid.insert(k as int, podcast));
        assert(podcasts_view(self.document.podcasts@) =~= before.podcasts.update(
            k as int,
            result@,
        ));
        self.document.revision = self.document.revision + 1;
        Ok(result)
    }

    /// The profile name, the podcast title and the episode title of an episode.
    pub fn resource_names(&self, podcast_id: &str, episode_id: &str) -> (r: Result<
        (String, String, String),
        StoreError,
    >)
        ensures
            ({
                let doc = self.document@;
                let k = podcast_position(doc.podcasts, podcast_id@);
                if k < 0 {
                    r == Err::<(String, String, String), StoreError>(StoreError::NotFound("podcast"))
                } else {
                    let p = doc.podcasts[k];
                    let j = episode_position(p.episodes, episode_id@);
                    if j < 0 {
                        r == Err::<(String, String, String), StoreError>(
                            StoreError::NotFound("episode"),
                        )
                    } else {
                        &&& r is Ok
                        &&& r->Ok_0.0@ == doc.profile.name
                        &&& r->Ok_0.1@ == p.data.title
                        &&& r->Ok_0.2@ == p.episodes[j].title
                    }
                }
            }),
    {
        proof {
            lemma_podcast_position(self.document@.podcasts, podcast_id@);
        }
        let k = match find_podcast_index(&self.document.podcasts, podcast_id) {
            Some(k) => k,
            None => return Err(StoreError::NotFound("podcast")),
        };
        let podcast = &self.document.podcasts[k];
        proof {
            lemma_episode_position(podcast@.episodes, episode_id@);
        }
        let j = match find_episode_index(&podcast.episodes, episode_id) {
            Some(j) => j,
            None => return Err(StoreError::NotFound("episode")),
        };
        Ok(
            (
                self.document.profile.name.clone(),
                podcast.data.title.clone(),
                podcast.episodes[j].title.clone(),
            ),
        )
    }

    /// Checks an uploaded cover for an episode and says where it goes: `cover.<extension>` in
    /// the episode's directory.
    pub fn plan_episode_cover(
        &self,
        podcast_id: &str,
        episode_id: &str,
        file_name: &str,
        size: u64,
    ) -> (r: Result<ResourceTarget, StoreError>)
        ensures
            ({
                let doc = self.document@;
                let check = upload_check(file_name@, size, image_extensions(), MAX_IMAGE_BYTES);
                let k = podcast_position(doc.podcasts, podcast_id@);
                if check is Err {
                    r == Err::<ResourceTarget, StoreError>(check->Err_0)
                } else if k < 0 {
                    r == Err::<ResourceTarget, StoreError>(StoreError::NotFound("podcast"))
                } else {
                    let p = doc.podcasts[k];
                    let j = episode_position(p.episodes, episode_id@);
                    if j < 0 {
                        r == Err::<ResourceTarget, StoreError>(StoreError::NotFound("episode"))
                    } else {
                        r is Ok && is_target(
                            r->Ok_0,
                            seq![doc.profile.name, p.data.title, p.episodes[j].title],
                            cover_name(extension_of(file_name@)->0),
                        )
                    }
                }
            }),
    {
        check_image(file_name, size)?;
        let (profile_name, podcast_title, episode_title) = self.resource_names(
            podcast_id,
            episode_id,
        )?;
        let name = cover_file_name(file_name);
        let segments = [profile_name.as_str(), podcast_title.as_str(), episode_title.as_str()];
        assert(texts_view(segments@) =~= seq![profile_name@, podcast_title@, episode_title@]);
        Ok(resource_path(&segments, name.as_str()))
    }

    /// Checks an uploaded audio file for an episode and says where it goes: its sanitized name
    /// in the episode's directory.
    pub fn plan_episode_audio(
        &self,
        podcast_id: &str,
        episode_id: &str,
        file_name: &str,
        size: u64,
    ) -> (r: Result<ResourceTarget, StoreError>)
        ensures
            ({
                let doc = self.document@;
                let check = upload_check(file_name@, size, audio_extensions(), MAX_AUDIO_BYTES);
                let k = podcast_position(doc.podcasts, podcast_id@);
                if check is Err {
                    r == Err::<ResourceTarget, StoreError>(check->Err_0)
                } else if k < 0 {
                    r == Err::<ResourceTarget, StoreError>(StoreError::NotFound("podcast"))
                } else {
                    let p = doc.podcasts[k];
                    let j = episode_position(p.episodes, episode_id@);
                    if j < 0 {
                        r == Err::<ResourceTarget, StoreError>(StoreError::NotFound("episode"))
                    } else {
                        r is Ok && is_target(
                            r->Ok_0,
                            seq![doc.profile.name, p.data.title, p.episodes[j].title],
                            sanitized_file_name(file_name@),
                        )
                    }
                }
            }),
    {
        check_audio(file_name, size)?;
        let (profile_name, podcast_title, episode_title) = self.resource_names(
            podcast_id,
            episode_id,
        )?;
        let name = sanitize_file_name(file_name);
        let segments = [profile_name.as_str(), podcast_title.as_str(), episode_title.as_str()];
        assert(texts_view(segments@) =~= seq![profile_name@, podcast_title@, episode_title@]);
        Ok(resource_path(&segments, name.as_str()))
    }

    /// Records a cover URL and an audio file, where given, on the first episode with
    /// `episode_id` in the first podcast with `podcast_id`.
    fn update_episode(
        &mut self,
        podcast_id: &str,
        episode_id: &str,
        cover: Option<String>,
        audio: Option<(String, u64)>,
    ) -> (r: Result<Episode, StoreError>)
        requires
            old(self).document@.revision < u64::MAX,
        ensures
            episodes_in_order(old(self).document@.podcasts) ==> episodes_in_order(
                final(self).document@.podcasts,
            ),
            final(self).public_base_url == old(self).public_base_url,
            ({
                let before = old(self).document@;
                let k = podcast_position(before.podcasts, podcast_id@);
                if k < 0 {
                    &&& r == Err::<Episode, StoreError>(StoreError::NotFound("podcast"))
                    &&& final(self).document@ == before
                } else {
                    let p = before.podcasts[k];
                    let j = episode_position(p.episodes, episode_id@);
                    if j < 0 {
                        &&& r == Err::<Episode, StoreError>(StoreError::NotFound("episode"))
                        &&& final(self).document@ == before
                    } else {
                        let saved = changed_episode(p.episodes[j], cover, audio);
                        &&& r is Ok
                        &&& r->Ok_0@ == saved
                        &&& final(self).document@ == changed(before, k, with_episode(p, j, saved))
                    }
                }
            }),
    {
        proof {
            lemma_podcast_position(self.document@.podcasts, podcast_id@);
        }
        let k = match find_podcast_index(&self.document.podcasts, podcast_id) {
            Some(k) => k,
            None => return Err(StoreError::NotFound("podcast")),
        };
        let ghost before = self.document@;
        let ghost p = before.podcasts[k as int];
        assert(self.document.podcasts@[k as int]@ == p);
        proof {
            lemma_episode_position(p.episodes, episode_id@);
        }
        let j = match find_episode_index(&self.document.podcasts[k].episodes, episode_id) {
            Some(j) => j,
            None => return Err(StoreError::NotFound("episode")),
        };
        let mut podcast = self.document.podcasts.remove(k);
        assert(podcast@ == p);
        let ghost eps_before = podcast.episodes@;
        let mut episode = podcast.episodes.remove(j);
        match cover {
            Some(url) => {
                episode.cover = Some(url);
            },
            None => {},
        }
        match audio {
            Some((name, size)) => {
                episode.audio_file_name = Some(name);
                episode.audio_size = size;
            },
            None => {},
        }
        let result = episode.clone();
        let ghost mid_eps = podcast.episodes@;
        podcast.episodes.insert(j, episode);
        assert(podcast.episodes@ =~= mid_eps.insert(j as int, episode));
        assert(crate::model::episodes_view(podcast.episodes@) =~= p.episodes.update(
            j as int,
            result@,
        ));
        let ghost mid = self.document.podcasts@;
        self.document.podcasts.insert(k, podcast);
        assert(self.document.podcasts@ =~= mid.insert(k as int, podcast));
        assert(podcasts_view(self.document.podcasts@) =~= before.podcasts.update(
            k as int,
            with_episode(p, j as int, result@),
        ));
        self.document.revision = self.document.revision + 1;
        Ok(result)
    }

    /// Checks an uploaded cover for an episode and records, as its cover, the URL under which
    /// `plan_episode_cover` places the file.
    pub fn save_episode_cover(&mut self, podcast_id: &str, episode_id: &str, file: &UploadFile) -> (r:
        Result<Episode, StoreError>)
        requires
            old(self).document@.revision < u64::MAX,
        ensures
            episodes_in_order(old(self).document@.podcasts) ==> episodes_in_order(
                final(self).document@.podcasts,
            ),
            final(self).public_base_url == old(self).public_base_url,
            ({
                let before = old(self).document@;
                let check = upload_check(file.file_name@, file.size, image_extensions(), MAX_IMAGE_BYTES);
                let k = podcast_position(before.podcasts, podcast_id@);
                if check is Err {
                    &&& r == Err::<Episode, StoreError>(check->Err_0)
                    &&& final(self).document@ == before
                } else if k < 0 {
                    &&& r == Err::<Episode, StoreError>(StoreError::NotFound("podcast"))
                    &&& final(self).document@ == before
                } else {
                    let p = before.podcasts[k];
                    let j = episode_position(p.episodes, episode_id@);
                    if j < 0 {
                        &&& r == Err::<Episode, StoreError>(StoreError::NotFound("episode"))
                        &&& final(self).document@ == before
                    } else {
                        let url = cover_url(
                            seq![before.profile.name, p.data.title, p.episodes[j].title],
                            file.file_name@,
                        );
                        let saved = EpisodeView { cover: Some(url), ..p.episodes[j] };
                        &&& r is Ok
                        &&& r->Ok_0@ == saved
                        &&& final(self).document@ == changed(before, k, with_episode(p, j, saved))
                    }
                }
            }),
    {
        let target = self.plan_episode_cover(
            podcast_id,
            episode_id,
            file.file_name.as_str(),
            file.size,
        )?;
        self.update_episode(podcast_id, episode_id, Some(target.public_url), None)
    }

    /// Checks an uploaded audio file for an episode and records its sanitized name and its size.
    pub fn save_episode_audio(&mut self, podcast_id: &str, episode_id: &str, file: &UploadFile) -> (r:
        Result<Episode, StoreError>)
        requires
            old(self).document@.revision < u64::MAX,
        ensures
            episodes_in_order(old(self).document@.podcasts) ==> episodes_in_order(
                final(self).document@.podcasts,
            ),
            final(self).public_base_url == old(self).public_base_url,
            ({
                let before = old(self).document@;
                let check = upload_check(file.file_name@, file.size, audio_extensions(), MAX_AUDIO_BYTES);
                let k = podcast_position(before.podcasts, podcast_id@);
                if check is Err {
                    &&& r == Err::<Episode, StoreError>(check->Err_0)
                    &&& final(self).document@ == before
                } else if k < 0 {
                    &&& r == Err::<Episode, StoreError>(StoreError::NotFound("podcast"))
                    &&& final(self).document@ == before
                } else {
                    let p = before.podcasts[k];
                    let j = episode_position(p.episodes, episode_id@);
                    if j < 0 {
                        &&& r == Err::<Episode, StoreError>(StoreError::NotFound("episode"))
                        &&& final(self).document@ == before
                    } else {
                        let saved = EpisodeView {
                            audio_file_name: Some(sanitized_file_name(file.file_name@)),
                            audio_size: file.size,
                            ..p.episodes[j]
                        };
                        &&& r is Ok
                        &&& r->Ok_0@ == saved
                        &&& final(self).document@ == changed(before, k, with_episode(p, j, saved))
                    }
                }
            }),
    {
        let _target = self.plan_episode_audio(
            podcast_id,
            episode_id,
            file.file_name.as_str(),
            file.size,
        )?;
        let name = sanitize_file_name(file.file_name.as_str());
        self.update_episode(podcast_id, episode_id, None, Some((name, file.size)))
    }
}

/// The URL of a cover stored for an upload named `file_name` under the directories for
/// `segments`: `cover.<extension>` there.
pub open spec fn cover_url(segments: Seq<Seq<char>>, file_name: Seq<char>) -> Seq<char> {
    resource_url(resource_components(segments, cover_name(extension_of(file_name)->0)))
}

/// An episode with the given cover and audio file recorded, where given.
pub open spec fn changed_episode(
    episode: EpisodeView,
    cover: Option<String>,
    audio: Option<(String, u64)>,
) -> EpisodeView {
    let with_cover = match cover {
        Some(url) => EpisodeView { cover: Some(url@), ..episode },
        None => episode,
    };
    match audio {
        Some(a) => EpisodeView { audio_file_name: Some(a.0@), audio_size: a.1, ..with_cover },
        None => with_cover,
    }
}

impl UploadFile {
    /// An upload of the given name with nothing received yet.
    pub fn new(file_name: String) -> (r: Self)
        ensures
            r.file_name == file_name,
            r.bytes@ == Seq::<u8>::empty(),
            r.size == 0,
    {
        UploadFile { file_name, bytes: Vec::new(), size: 0 }
    }

    /// Takes the next chunk of the upload. The size counts every chunk; where it passes
    /// `max_size` the upload is refused as too large and the chunk is not kept.
    pub fn add_chunk(&mut self, chunk: &[u8], max_size: u64) -> (r: Result<(), StoreError>)
        requires
            old(self).size + chunk@.len() <= u64::MAX,
        ensures
            final(self).size == old(self).size + chunk@.len(),
            final(self).file_name == old(self).file_name,
            final(self).size > max_size ==> {
                &&& r == Err::<(), StoreError>(StoreError::FileTooLarge)
                &&& final(self).bytes@ == old(self).bytes@
            },
            final(self).size <= max_size ==> {
                &&& r == Ok::<(), StoreError>(())
                &&& final(self).bytes@ == old(self).bytes@ + chunk@
            },
    {
        self.size = self.size + chunk.len() as u64;
        if self.size > max_size {
            return Err(StoreError::FileTooLarge);
        }
        for i in 0..chunk.len()
            invariant
                self.bytes@ == old(self).bytes@ + chunk@.take(i as int),
                self.size == old(self).size + chunk@.len(),
                self.file_name == old(self).file_name,
                self.size <= max_size,
        {
            self.bytes.push(chunk[i]);
            assert(self.bytes@ =~= old(self).bytes@ + chunk@.take(i + 1));
        }
        assert(chunk@.take(chunk@.len() as int) =~= chunk@);
        Ok(())
    }
}

/// Whether a multipart field is the one that carries the file: its name is `file`.
pub fn is_file_field(name: Option<&str>) -> (r: bool)
    ensures
        r == (name.deep_view() == Some("file"@)),
{
    match name {
        Some(n) => crate::text::same_text(n, "file"),
        None => false,
    }
}

/// The name of an uploaded file; a file field without a name is refused.
pub fn upload_file_name(name: Option<&str>) -> (r: Result<String, StoreError>)
    ensures
        match name {
            Some(n) => r is Ok && r->Ok_0@ == n@,
            None => r == Err::<String, StoreError>(StoreError::InvalidFileName),
        },
{
    match name {
        Some(n) => Ok(String::from_str(n)),
        None => Err(StoreError::InvalidFileName),
    }
}

} // verus!
