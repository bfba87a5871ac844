use vstd::prelude::*;

use crate::error::StoreError;
use crate::text::{
    after_last, after_last_separator, ascii_lowercase, blank, chars_of, find_last, is_blank,
    lemma_last_index_of_bounds, lowercase_chars, push_char, same_chars, split_last,
    start_after_last_separator, starts_with, string_from_chars, string_from_range,
    text_starts_with,
};

verus! {

/// Largest accepted cover image, in bytes.
pub const MAX_IMAGE_BYTES: u64 = 5 * 1024 * 1024;

/// Largest accepted audio file, in bytes.
pub const MAX_AUDIO_BYTES: u64 = 2 * 1024 * 1024 * 1024;

/// The extensions accepted for cover images.
pub open spec fn image_extensions() -> Seq<Seq<char>> {
    seq!["jpg"@, "jpeg"@, "png"@]
}

/// The extensions accepted for audio files.
pub open spec fn audio_extensions() -> Seq<Seq<char>> {
    seq!["wav"@, "mp3"@, "aac"@, "aiff"@, "mp4"@, "m4a"@, "flac"@, "ogg"@, "mkv"@]
}

/// Letters, digits, `-` and `_`: what a directory name in the resource tree may hold.
pub open spec fn is_segment_safe(c: char) -> bool {
    ('a' <= c && c <= 'z') || ('A' <= c && c <= 'Z') || ('0' <= c && c <= '9') || c == '-' || c
        == '_'
}

/// What a character of a title becomes in a directory name: kept if safe, `_` for a space,
/// dropped otherwise.
pub open spec fn segment_char(c: char) -> Option<char> {
    if is_segment_safe(c) {
        Some(c)
    } else if c == ' ' {
        Some('_')
    } else {
        None
    }
}

/// What a character of a file name becomes: as for directories, and `.` is kept too.
pub open spec fn file_name_char(c: char) -> Option<char> {
    if is_segment_safe(c) || c == '.' {
        Some(c)
    } else if c == ' ' {
        Some('_')
    } else {
        None
    }
}

pub open spec fn keep_segment_chars(s: Seq<char>) -> Seq<char>
    decreases s.len(),
{
    if s.len() == 0 {
        Seq::empty()
    } else {
        match segment_char(s.last()) {
            Some(c) => keep_segment_chars(s.drop_last()).push(c),
            None => keep_segment_chars(s.drop_last()),
        }
    }
}

pub open spec fn keep_file_name_chars(s: Seq<char>) -> Seq<char>
    decreases s.len(),
{
    if s.len() == 0 {
        Seq::empty()
    } else {
        match file_name_char(s.last()) {
            Some(c) => keep_file_name_chars(s.drop_last()).push(c),
            None => keep_file_name_chars(s.drop_last()),
        }
    }
}

/// The directory name that a title gets in the resource tree.
pub open spec fn sanitized_segment(value: Seq<char>) -> Seq<char> {
    let kept = keep_segment_chars(value);
    if kept.len() == 0 {
        "Untitled"@
    } else {
        kept
    }
}

/// The file name that an uploaded name gets: its last path part, with unsafe characters dropped.
pub open spec fn sanitized_file_name(value: Seq<char>) -> Seq<char> {
    let kept = keep_file_name_chars(after_last_separator(value));
    if kept.len() == 0 {
        "file"@
    } else {
        kept
    }
}

/// The directory name for a title: letters, digits, `-` and `_` are kept, a space becomes `_`,
/// anything else is dropped; `Untitled` where nothing is left.
pub fn sanitize_path_segment(value: &str) -> (r: String)
    ensures
        r@ == sanitized_segment(value@),
{
    let chars = chars_of(value);
    let mut kept: Vec<char> = Vec::new();
    for i in 0..chars.len()
        invariant
            chars@ == value@,
            kept@ == keep_segment_chars(chars@.take(i as int)),
    {
        let c = chars[i];
        assert(chars@.take(i + 1).drop_last() =~= chars@.take(i as int));
        if ('a' <= c && c <= 'z') || ('A' <= c && c <= 'Z') || ('0' <= c && c <= '9') || c == '-'
            || c == '_' {
            kept.push(c);
        } else if c == ' ' {
            kept.push('_');
        }
    }
    assert(chars@.take(chars.len() as int) =~= chars@);
    if kept.len() == 0 {
        String::from_str("Untitled")
    } else {
        string_from_chars(&kept)
    }
}

/// The file name for an uploaded name: the part after the last `/` or `\`, keeping letters,
/// digits, `-`, `_` and `.`, a space becoming `_`; `file` where nothing is left.
pub fn sanitize_file_name(value: &str) -> (r: String)
    ensures
        r@ == sanitized_file_name(value@),
{
    let chars = chars_of(value);
    let start = start_after_last_separator(&chars);
    let ghost last = chars@.subrange(start as int, chars@.len() as int);
    let mut kept: Vec<char> = Vec::new();
    let mut i = start;
    while i < chars.len()
        invariant
            chars@ == value@,
            start <= i <= chars.len(),
            last == chars@.subrange(start as int, chars@.len() as int),
            kept@ == keep_file_name_chars(last.take(i - start)),
        decreases chars.len() - i,
    {
        let c = chars[i];
        assert(last.take(i + 1 - start).drop_last() =~= last.take(i - start));
        assert(last[i - start] == c);
        if ('a' <= c && c <= 'z') || ('A' <= c && c <= 'Z') || ('0' <= c && c <= '9') || c == '-'
            || c == '_' || c == '.' {
            kept.push(c);
        } else if c == ' ' {
            kept.push('_');
        }
        i = i + 1;
    }
    assert(last.take(chars.len() - start) =~= last);
    if kept.len() == 0 {
        String::from_str("file")
    } else {
        string_from_chars(&kept)
    }
}

/// Joins texts with `/` between them.
pub open spec fn join_slash(parts: Seq<Seq<char>>) -> Seq<char>
    decreases parts.len(),
{
    if parts.len() == 0 {
        Seq::empty()
    } else if parts.len() == 1 {
        parts[0]
    } else {
        join_slash(parts.drop_last()) + seq!['/'] + parts.last()
    }
}

/// The path parts of a resource: the directory names for `segments`, then the file name. A file
/// name `.` names the current directory, so after a directory it adds nothing.
pub open spec fn resource_components(segments: Seq<Seq<char>>, file_name: Seq<char>) -> Seq<
    Seq<char>,
> {
    let dirs = segments.map_values(|s: Seq<char>| sanitized_segment(s));
    let file = sanitized_file_name(file_name);
    if file == "."@ && dirs.len() > 0 {
        dirs
    } else {
        dirs.push(file)
    }
}

/// The URL path under which the server publishes a resource with the given path parts.
pub open spec fn resource_url(components: Seq<Seq<char>>) -> Seq<char> {
    "/resources/"@ + join_slash(components)
}

/// The views of a list of texts.
pub open spec fn texts_view(texts: Seq<&str>) -> Seq<Seq<char>> {
    texts.map_values(|t: &str| t@)
}

/// The views of a list of owned texts.
pub open spec fn strings_view(texts: Seq<String>) -> Seq<Seq<char>> {
    texts.map_values(|t: String| t@)
}

/// The path parts of a resource: the directory names for `segments`, then the file name (see
/// `resource_components`).
pub fn resource_path_parts(segments: &[&str], file_name: &str) -> (r: Vec<String>)
    ensures
        strings_view(r@) == resource_components(texts_view(segments@), file_name@),
{
    let mut parts: Vec<String> = Vec::new();
    for i in 0..segments.len()
        invariant
            parts@.len() == i,
            forall|j: int| 0 <= j < i ==> #[trigger] parts@[j]@ == sanitized_segment(segments@[j]@),
    {
        let part = sanitize_path_segment(segments[i]);
        parts.push(part);
    }
    assert(strings_view(parts@) =~= texts_view(segments@).map_values(
        |s: Seq<char>| sanitized_segment(s),
    ));
    let file = sanitize_file_name(file_name);
    let file_chars = chars_of(file.as_str());
    let dot = chars_of(".");
    if same_chars(&file_chars, &dot) && parts.len() > 0 {
        parts
    } else {
        parts.push(file);
        assert(strings_view(parts@) =~= resource_components(texts_view(segments@), file_name@));
        parts
    }
}

/// `parts` joined with `/`.
pub fn join_with_slash(parts: &Vec<String>) -> (r: String)
    ensures
        r@ == join_slash(strings_view(parts@)),
{
    let mut r = String::new();
    for i in 0..parts.len()
        invariant
            r@ == join_slash(strings_view(parts@).take(i as int)),
    {
        let ghost before = strings_view(parts@).take(i as int);
        assert(strings_view(parts@).take(i + 1).drop_last() =~= before);
        if i > 0 {
            push_char(&mut r, '/');
        }
        r.append(parts[i].as_str());
        assert(strings_view(parts@).take(i + 1).last() == parts@[i as int]@);
        if i == 0 {
            assert(r@ =~= join_slash(strings_view(parts@).take(i + 1)));
        } else {
            assert(r@ =~= join_slash(strings_view(parts@).take(i + 1)));
        }
    }
    assert(strings_view(parts@).take(parts.len() as int) =~= strings_view(parts@));
    r
}

/// The URL path of a resource with the given path parts: `/resources/` and the parts joined
/// with `/`.
pub fn public_resource_url(components: &Vec<String>) -> (r: String)
    ensures
        r@ == resource_url(strings_view(components@)),
{
    let mut r = String::from_str("/resources/");
    let joined = join_with_slash(components);
    r.append(joined.as_str());
    r
}

/// The URL path of the resource `file_name` under the directories for `segments`.
pub fn public_resource_url_from_segments(segments: &[&str], file_name: &str) -> (r: String)
    ensures
        r@ == resource_url(resource_components(texts_view(segments@), file_name@)),
{
    let parts = resource_path_parts(segments, file_name);
    public_resource_url(&parts)
}

/// The file name that a stored URL points at: its part after the last `/`, sanitized.
pub open spec fn resource_file_name_of(value: Seq<char>) -> Option<Seq<char>> {
    let name = sanitized_file_name(after_last(value, '/'));
    if name.len() == 0 {
        None
    } else {
        Some(name)
    }
}

/// The file name that `value` (a URL or path) ends in, sanitized.
pub fn resource_file_name(value: &str) -> (r: Option<String>)
    ensures
        r.deep_view() == resource_file_name_of(value@),
{
    let chars = chars_of(value);
    proof {
        lemma_last_index_of_bounds(chars@, '/');
    }
    let start: usize = match find_last(&chars, '/') {
        Some(k) => k + 1,
        None => 0,
    };
    let tail = string_from_range(&chars, start, chars.len());
    let name = sanitize_file_name(tail.as_str());
    if name.as_str().is_empty() {
        None
    } else {
        Some(name)
    }
}

/// What `absolute_url` makes of a stored URL: kept when it already names a scheme, otherwise
/// placed under the public base URL.
pub open spec fn absolute_url_of(value: Seq<char>, base: Seq<char>) -> Seq<char> {
    if starts_with(value, "http://"@) || starts_with(value, "https://"@) {
        value
    } else if starts_with(value, "/"@) {
        base + value
    } else {
        base + "/"@ + value
    }
}

/// `value` as an absolute URL under `public_base_url`.
pub fn absolute_url(value: &str, public_base_url: &str) -> (r: String)
    ensures
        r@ == absolute_url_of(value@, public_base_url@),
{
    if text_starts_with(value, "http://") || text_starts_with(value, "https://") {
        return String::from_str(value);
    }
    let mut r = String::from_str(public_base_url);
    if text_starts_with(value, "/") {
        r.append(value);
        return r;
    }
    r.append("/");
    r.append(value);
    r
}

/// The absolute URL of an optional stored URL; a missing or blank one gives none.
pub open spec fn absolute_media_url_of(value: Option<Seq<char>>, base: Seq<char>) -> Option<
    Seq<char>,
> {
    match value {
        Some(v) => if is_blank(v) {
            None
        } else {
            Some(absolute_url_of(v, base))
        },
        None => None,
    }
}

pub fn absolute_media_url(value: Option<&str>, public_base_url: &str) -> (r: Option<String>)
    ensures
        r.deep_view() == absolute_media_url_of(value.deep_view(), public_base_url@),
{
    match value {
        Some(v) => if blank(v) {
            None
        } else {
            Some(absolute_url(v, public_base_url))
        },
        None => None,
    }
}

/// A space becomes `%20`; other characters are kept.
pub open spec fn url_path_escaped(value: Seq<char>) -> Seq<char>
    decreases value.len(),
{
    if value.len() == 0 {
        Seq::empty()
    } else if value.last() == ' ' {
        url_path_escaped(value.drop_last()) + "%20"@
    } else {
        url_path_escaped(value.drop_last()).push(value.last())
    }
}

/// Replaces each space of `value` by `%20`.
pub fn url_path_escape(value: &str) -> (r: String)
    ensures
        r@ == url_path_escaped(value@),
{
    let chars = chars_of(value);
    let mut r = String::new();
    for i in 0..chars.len()
        invariant
            chars@ == value@,
            r@ == url_path_escaped(chars@.take(i as int)),
    {
        assert(chars@.take(i + 1).drop_last() =~= chars@.take(i as int));
        if chars[i] == ' ' {
            r.append("%20");
        } else {
            push_char(&mut r, chars[i]);
        }
    }
    assert(chars@.take(chars.len() as int) =~= chars@);
    r
}

/// The lower-case extension of a file name: what follows its last `.`, if anything does.
pub open spec fn extension_of(file_name: Seq<char>) -> Option<Seq<char>> {
    match split_last(file_name, '.') {
        Some((_, ext)) => if ext.len() == 0 {
            None
        } else {
            Some(ascii_lowercase(ext))
        },
        None => None,
    }
}

/// The lower-case characters after the last `.` of `file_name`, which may be none; or `None`
/// where it has no `.`.
fn extension_chars(file_name: &str) -> (r: Option<Vec<char>>)
    ensures
        match split_last(file_name@, '.') {
            Some((_, ext)) => r is Some && r->0@ == ascii_lowercase(ext),
            None => r is None,
        },
{
    let chars = chars_of(file_name);
    proof {
        lemma_last_index_of_bounds(chars@, '.');
    }
    let found = find_last(&chars, '.');
    match found {
        Some(k) => {
            let n = chars.len();
            assert(k < n);
            let mut ext: Vec<char> = Vec::new();
            let mut i: usize = k + 1;
            while i < chars.len()
                invariant
                    k < chars.len(),
                    k + 1 <= i <= chars.len(),
                    ext@ == chars@.subrange(k + 1, i as int),
                decreases chars.len() - i,
            {
                ext.push(chars[i]);
                assert(ext@ =~= chars@.subrange(k + 1, i + 1));
                i = i + 1;
            }
            Some(lowercase_chars(&ext))
        },
        None => None,
    }
}

/// The lower-case extension of `file_name`; `InvalidFileName` where it has none.
pub fn file_extension(file_name: &str) -> (r: Result<String, StoreError>)
    ensures
        match extension_of(file_name@) {
            Some(ext) => r is Ok && r->Ok_0@ == ext,
            None => r == Err::<String, StoreError>(StoreError::InvalidFileName),
        },
{
    match extension_chars(file_name) {
        Some(ext) => if ext.len() == 0 {
            Err(StoreError::InvalidFileName)
        } else {
            Ok(string_from_chars(&ext))
        },
        None => Err(StoreError::InvalidFileName),
    }
}

/// What `validate_extension` decides for a file name and a list of allowed extensions.
pub open spec fn extension_check(file_name: Seq<char>, allowed: Seq<Seq<char>>) -> Result<
    (),
    StoreError,
> {
    match extension_of(file_name) {
        Some(ext) => if allowed.contains(ext) {
            Ok(())
        } else {
            Err(StoreError::UnsupportedFile)
        },
        None => Err(StoreError::InvalidFileName),
    }
}

/// Accepts a file name whose extension is in `allowed`.
pub fn validate_extension(file_name: &str, allowed: &[&str]) -> (r: Result<(), StoreError>)
    ensures
        r == extension_check(file_name@, texts_view(allowed@)),
{
    let extension = file_extension(file_name)?;
    let ext = chars_of(extension.as_str());
    for i in 0..allowed.len()
        invariant
            ext@ == extension@,
            extension_of(file_name@) == Some(ext@),
            forall|j: int| 0 <= j < i ==> texts_view(allowed@)[j] != ext@,
    {
        let candidate = chars_of(allowed[i]);
        if same_chars(&candidate, &ext) {
            assert(texts_view(allowed@)[i as int] == ext@);
            assert(texts_view(allowed@).contains(ext@));
            return Ok(());
        }
    }
    Err(StoreError::UnsupportedFile)
}

/// What `validate_size` decides.
pub open spec fn size_check(size: u64, max_size: u64) -> Result<(), StoreError> {
    if size > max_size {
        Err(StoreError::FileTooLarge)
    } else {
        Ok(())
    }
}

/// Accepts a size up to `max_size`.
pub fn validate_size(size: u64, max_size: u64) -> (r: Result<(), StoreError>)
    ensures
        r == size_check(size, max_size),
{
    if size > max_size {
        return Err(StoreError::FileTooLarge);
    }
    Ok(())
}

/// The MIME type of an extension as the feed announces it.
pub open spec fn mime_for_extension(ext: Seq<char>) -> Seq<char> {
    if ext == "mp3"@ {
        "audio/mpeg"@
    } else if ext == "m4a"@ {
        "audio/mp4"@
    } else if ext == "mp4"@ {
        "video/mp4"@
    } else if ext == "aac"@ {
        "audio/aac"@
    } else if ext == "wav"@ {
        "audio/wav"@
    } else if ext == "aiff"@ {
        "audio/aiff"@
    } else if ext == "flac"@ {
        "audio/flac"@
    } else if ext == "ogg"@ {
        "audio/ogg"@
    } else if ext == "mkv"@ {
        "video/x-matroska"@
    } else {
        "application/octet-stream"@
    }
}

/// The MIME type of a file by its name.
pub open spec fn mime_type_of(file_name: Seq<char>) -> Seq<char> {
    match split_last(file_name, '.') {
        Some((_, ext)) => mime_for_extension(ascii_lowercase(ext)),
        None => "application/octet-stream"@,
    }
}

fn is_text(chars: &Vec<char>, literal: &str) -> (r: bool)
    ensures
        r == (chars@ == literal@),
{
    let lit = chars_of(literal);
    same_chars(chars, &lit)
}

/// The MIME type of an audio file, by the extension of its name.
pub fn mime_type_for(file_name: &str) -> (r: &'static str)
    ensures
        r@ == mime_type_of(file_name@),
{
    match extension_chars(file_name) {
        Some(ext) => {
            if is_text(&ext, "mp3") {
                "audio/mpeg"
            } else if is_text(&ext, "m4a") {
                "audio/mp4"
            } else if is_text(&ext, "mp4") {
                "video/mp4"
            } else if is_text(&ext, "aac") {
                "audio/aac"
            } else if is_text(&ext, "wav") {
                "audio/wav"
            } else if is_text(&ext, "aiff") {
                "audio/aiff"
            } else if is_text(&ext, "flac") {
                "audio/flac"
            } else if is_text(&ext, "ogg") {
                "audio/ogg"
            } else if is_text(&ext, "mkv") {
                "video/x-matroska"
            } else {
                "application/octet-stream"
            }
        },
        None => "application/octet-stream",
    }
}

} // verus!
