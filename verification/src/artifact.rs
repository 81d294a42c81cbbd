//! Naming and addressing of stored artifacts.
//!
//! Frames, contact sheets, videos and reports are written under a
//! per-session directory `<artifacts root>/<session id>/`.  Clients address
//! them with `motionlens://artifacts/<session>/<filename>` URIs; this module
//! builds those names and resolves URIs back to paths, refusing anything
//! that could step outside the artifacts root.

use vstd::prelude::*;
use base64::engine::general_purpose::STANDARD;
use base64::Engine;
use image::ImageReader;
use std::io::Cursor;
use crate::error::Error;
use crate::ids::{is_prefixed_id, ArtifactId, SessionId};
use crate::model::{ImageFormat, VideoFormat};
use crate::paths::{extension, extension_of, file_name, file_name_of, join_path, law_join_names_last_component, path_join, plain_component};
use crate::text::{contains_char, contains_str, find_char, first_index_of, has_prefix, seq_contains_seq, skip_chars, starts_with, take_chars};

verus! {

/// Width in pixels of the inline thumbnails attached to frames.
pub const THUMBNAIL_WIDTH: u32 = 256;

/// URI prefix shared by every artifact.
pub open spec fn uri_prefix() -> Seq<char> {
    "motionlens://artifacts/"@
}

/// Width and height that the header of `bytes`, decoded as `format`,
/// declares; `None` when it does not decode.
pub uninterp spec fn decoded_dimensions(bytes: Seq<u8>, format: ImageFormat) -> Option<(u32, u32)>;

/// Reads an encoded image's dimensions from its header.
///
/// Calls `image::ImageReader::with_format` on the bytes and then
/// `into_dimensions`.  The contract ties the result to
/// `decoded_dimensions` of the arguments; on failure it returns the
/// decoder's error message.
#[verifier::external_body]
fn image_dimensions(bytes: &[u8], format: ImageFormat) -> (r: Result<(u32, u32), String>)
    ensures
        match r {
            Ok(d) => decoded_dimensions(bytes@, format) == Some(d),
            Err(_) => decoded_dimensions(bytes@, format) is None,
        },
{
    let f = match format {
        ImageFormat::Png => image::ImageFormat::Png,
        ImageFormat::Jpeg => image::ImageFormat::Jpeg,
    };
    ImageReader::with_format(Cursor::new(bytes), f).into_dimensions().map_err(|e| e.to_string())
}

/// Standard padded base64 of the picture in `bytes` decoded as `format`,
/// resized to exactly `width` x `height`, and re-encoded as `format`;
/// `None` when decoding or encoding fails.
pub uninterp spec fn resized_thumbnail_text(bytes: Seq<u8>, format: ImageFormat, width: u32, height: u32) -> Option<
    Seq<char>,
>;

/// Standard padded base64 of the picture in `bytes` decoded as `format`
/// and re-encoded as `format` at its own size; `None` when decoding or
/// encoding fails.
pub uninterp spec fn reencoded_thumbnail_text(bytes: Seq<u8>, format: ImageFormat) -> Option<Seq<char>>;

/// Which step of building a thumbnail failed, with the `image` crate's
/// message.
pub enum ThumbnailFailure {
    Decode(String),
    Encode(String),
}

/// Builds a resized thumbnail.
///
/// Decodes with `image::ImageReader::with_format(..).decode()`, resizes
/// with `DynamicImage::thumbnail_exact(width, height)`, encodes with
/// `write_to` in the same format and renders the bytes with base64's
/// `STANDARD` engine.  The contract ties the result to
/// `resized_thumbnail_text` of the arguments; it does not say which step
/// a failure came from.
#[verifier::external_body]
fn thumbnail_resized(bytes: &[u8], format: ImageFormat, width: u32, height: u32) -> (r: Result<String, ThumbnailFailure>)
    ensures
        match r {
            Ok(t) => resized_thumbnail_text(bytes@, format, width, height) == Some(t@),
            Err(_) => resized_thumbnail_text(bytes@, format, width, height) is None,
        },
{
    let f = if let ImageFormat::Png = format { image::ImageFormat::Png } else { image::ImageFormat::Jpeg };
    let img = ImageReader::with_format(Cursor::new(bytes), f).decode();
    let small = img.map_err(|e| ThumbnailFailure::Decode(e.to_string()))?.thumbnail_exact(width, height);
    let mut buf: Vec<u8> = Vec::new();
    small.write_to(&mut Cursor::new(&mut buf), f).map_err(|e| ThumbnailFailure::Encode(e.to_string()))?;
    Ok(STANDARD.encode(&buf))
}

/// Builds a thumbnail at the picture's own size.
///
/// As `thumbnail_resized`, without the `thumbnail_exact` step.  The
/// contract ties the result to `reencoded_thumbnail_text` of the
/// arguments; it does not say which step a failure came from.
#[verifier::external_body]
fn thumbnail_unchanged(bytes: &[u8], format: ImageFormat) -> (r: Result<String, ThumbnailFailure>)
    ensures
        match r {
            Ok(t) => reencoded_thumbnail_text(bytes@, format) == Some(t@),
            Err(_) => reencoded_thumbnail_text(bytes@, format) is None,
        },
{
    let f = if let ImageFormat::Png = format { image::ImageFormat::Png } else { image::ImageFormat::Jpeg };
    let img = ImageReader::with_format(Cursor::new(bytes), f).decode();
    let img = img.map_err(|e| ThumbnailFailure::Decode(e.to_string()))?;
    let mut buf: Vec<u8> = Vec::new();
    img.write_to(&mut Cursor::new(&mut buf), f).map_err(|e| ThumbnailFailure::Encode(e.to_string()))?;
    Ok(STANDARD.encode(&buf))
}

/// The thumbnail text the library promises for `bytes`: resized to
/// `THUMBNAIL_WIDTH` x `target_height` when the picture is wider than
/// `THUMBNAIL_WIDTH`, at its own size otherwise.
pub open spec fn thumbnail_text(bytes: Seq<u8>, format: ImageFormat, width: u32, target_height: u32) -> Option<Seq<char>> {
    if width > THUMBNAIL_WIDTH {
        resized_thumbnail_text(bytes, format, THUMBNAIL_WIDTH, target_height)
    } else {
        reencoded_thumbnail_text(bytes, format)
    }
}

/// Inline base64 thumbnail of the encoded image `bytes`, in the image's
/// own format: pictures wider than `THUMBNAIL_WIDTH` are resized to
/// `THUMBNAIL_WIDTH` x `target_height` (the caller scales the height by
/// the same ratio), narrower ones keep their size.  Fails with an
/// invalid-argument error when the picture does not decode or the
/// thumbnail does not encode.
pub fn thumbnail_base64(bytes: &[u8], format: ImageFormat, target_height: u32) -> (r: Result<String, Error>)
    ensures
        match decoded_dimensions(bytes@, format) {
            None => r matches Err(Error::InvalidArgument(m)) && exists|msg: Seq<char>|
                m@ == "failed to decode image: "@ + msg,
            Some((w, _)) => match thumbnail_text(bytes@, format, w, target_height) {
                Some(t) => r matches Ok(s) && s@ == t,
                None => r matches Err(Error::InvalidArgument(m)) && exists|msg: Seq<char>|
                    m@ == "failed to decode image: "@ + msg || m@ == "failed to encode thumbnail: "@ + msg,
            },
        },
{
    proof {
        reveal_strlit("failed to decode image: ");
        reveal_strlit("failed to encode thumbnail: ");
    }
    let width = match image_dimensions(bytes, format) {
        Ok((w, _)) => w,
        Err(msg) => {
            let mut m = String::from_str("failed to decode image: ");
            m.append(msg.as_str());
            assert(m@ =~= "failed to decode image: "@ + msg@);
            return Err(Error::invalid(m));
        },
    };
    let made = if width > THUMBNAIL_WIDTH {
        thumbnail_resized(bytes, format, THUMBNAIL_WIDTH, target_height)
    } else {
        thumbnail_unchanged(bytes, format)
    };
    match made {
        Ok(t) => Ok(t),
        Err(ThumbnailFailure::Decode(msg)) => {
            let mut m = String::from_str("failed to decode image: ");
            m.append(msg.as_str());
            assert(m@ =~= "failed to decode image: "@ + msg@);
            Err(Error::invalid(m))
        },
        Err(ThumbnailFailure::Encode(msg)) => {
            let mut m = String::from_str("failed to encode thumbnail: ");
            m.append(msg.as_str());
            assert(m@ =~= "failed to encode thumbnail: "@ + msg@);
            Err(Error::invalid(m))
        },
    }
}

/// File extension of an image format.
pub open spec fn image_extension(f: ImageFormat) -> Seq<char> {
    match f {
        ImageFormat::Png => "png"@,
        ImageFormat::Jpeg => "jpg"@,
    }
}

/// File extension of a video container.
pub open spec fn video_extension_of(f: VideoFormat) -> Seq<char> {
    match f {
        VideoFormat::Gif => "gif"@,
        VideoFormat::Apng => "apng"@,
    }
}

pub fn extension_for(format: ImageFormat) -> (s: &'static str)
    ensures
        s@ == image_extension(format),
{
    match format {
        ImageFormat::Png => "png",
        ImageFormat::Jpeg => "jpg",
    }
}

pub fn video_extension(format: VideoFormat) -> (s: &'static str)
    ensures
        s@ == video_extension_of(format),
{
    match format {
        VideoFormat::Gif => "gif",
        VideoFormat::Apng => "apng",
    }
}

/// `<id>.<ext>`
fn dotted_name(id: &ArtifactId, ext: &str) -> (s: String)
    ensures
        s@ == id@ + seq!['.'] + ext@,
{
    let mut s = String::from_str(id.as_str());
    s.append(".");
    s.append(ext);
    proof {
        reveal_strlit(".");
    }
    s
}

/// File name of a stored image: `<artifact id>.<png|jpg>`.
pub fn image_filename(id: &ArtifactId, format: ImageFormat) -> (s: String)
    ensures
        s@ == id@ + seq!['.'] + image_extension(format),
{
    dotted_name(id, extension_for(format))
}

/// File name of a stored video: `<artifact id>.<gif|apng>`.
pub fn video_filename(id: &ArtifactId, format: VideoFormat) -> (s: String)
    ensures
        s@ == id@ + seq!['.'] + video_extension_of(format),
{
    dotted_name(id, video_extension(format))
}

/// An image written to the store.
#[derive(Debug, Clone)]
pub struct StoredArtifact {
    pub artifact_id: ArtifactId,
    pub uri: String,
    pub path: String,
    pub thumbnail_base64: Option<String>,
    pub width: u32,
    pub height: u32,
    pub format: ImageFormat,
}

/// A video container written to the store.
#[derive(Debug, Clone)]
pub struct StoredVideoArtifact {
    pub artifact_id: ArtifactId,
    pub uri: String,
    pub path: String,
    pub format: VideoFormat,
}

/// The artifact directory of one session.
pub struct ArtifactStore {
    root: String,
    session: String,
}

impl ArtifactStore {
    /// Directory that holds this session's artifacts.
    pub closed spec fn root(&self) -> Seq<char> {
        self.root@
    }

    /// Session segment used in this store's URIs.
    pub closed spec fn session(&self) -> Seq<char> {
        self.session@
    }

    /// `motionlens://artifacts/<session>/<filename>` of this store.
    pub open spec fn uri_of(&self, filename: Seq<char>) -> Seq<char> {
        uri_prefix() + self.session() + seq!['/'] + filename
    }

    /// The store of `session_id` under `artifacts_root` (the configured
    /// artifacts directory).  Never fails.
    pub fn for_session(session_id: &SessionId, artifacts_root: &str) -> (r: Result<Self, Error>)
        ensures
            r is Ok,
            r matches Ok(store) ==> store.root() == path_join(artifacts_root@, session_id@)
                && store.session() == session_id@,
    {
        let session = String::from_str(session_id.as_str());
        let root = join_path(artifacts_root, session.as_str());
        Ok(ArtifactStore { root, session })
    }

    pub fn root_path(&self) -> (p: &str)
        ensures
            p@ == self.root(),
    {
        self.root.as_str()
    }

    /// URI under which `filename` of this store is served.
    pub fn artifact_uri(&self, filename: &str) -> (u: String)
        ensures
            u@ == self.uri_of(filename@),
    {
        let mut u = String::from_str("motionlens://artifacts/");
        u.append(self.session.as_str());
        u.append("/");
        u.append(filename);
        proof {
            reveal_strlit("motionlens://artifacts/");
            reveal_strlit("/");
            assert(u@ =~= self.uri_of(filename@));
        }
        u
    }

    /// On-disk path of `filename` in this store.
    pub fn file_path(&self, filename: &str) -> (p: String)
        ensures
            p@ == path_join(self.root(), filename@),
    {
        join_path(self.root.as_str(), filename)
    }

    /// Record of an image saved as `<artifact id>.<ext>` in this store.
    pub fn stored_artifact(
        &self,
        artifact_id: ArtifactId,
        format: ImageFormat,
        width: u32,
        height: u32,
        thumbnail_base64: Option<String>,
    ) -> (a: StoredArtifact)
        ensures
            a.artifact_id@ == artifact_id@,
            a.uri@ == self.uri_of(artifact_id@ + seq!['.'] + image_extension(format)),
            a.path@ == path_join(self.root(), artifact_id@ + seq!['.'] + image_extension(format)),
            a.thumbnail_base64 == thumbnail_base64,
            a.width == width,
            a.height == height,
            a.format == format,
    {
        let filename = image_filename(&artifact_id, format);
        let uri = self.artifact_uri(filename.as_str());
        let path = self.file_path(filename.as_str());
        StoredArtifact { artifact_id, uri, path, thumbnail_base64, width, height, format }
    }

    /// Record of the encoded image `bytes` saved as `<artifact id>.<ext>` in
    /// this store, its width and height read from the image header.
    /// Fails with an invalid-argument error exactly when the header does
    /// not decode.
    pub fn saved_artifact(&self, artifact_id: ArtifactId, bytes: &[u8], format: ImageFormat) -> (r: Result<StoredArtifact, Error>)
        ensures
            match decoded_dimensions(bytes@, format) {
                Some((w, h)) => r matches Ok(a) && {
                    &&& a.artifact_id@ == artifact_id@
                    &&& a.uri@ == self.uri_of(artifact_id@ + seq!['.'] + image_extension(format))
                    &&& a.path@ == path_join(self.root(), artifact_id@ + seq!['.'] + image_extension(format))
                    &&& a.thumbnail_base64 is None
                    &&& a.width == w
                    &&& a.height == h
                    &&& a.format == format
                },
                None => r matches Err(Error::InvalidArgument(m)) && exists|msg: Seq<char>|
                    m@ == "failed to decode image dimensions: "@ + msg,
            },
    {
        match image_dimensions(bytes, format) {
            Ok((w, h)) => Ok(self.stored_artifact(artifact_id, format, w, h, None)),
            Err(msg) => {
                let mut m = String::from_str("failed to decode image dimensions: ");
                m.append(msg.as_str());
                proof {
                    reveal_strlit("failed to decode image dimensions: ");
                    assert(m@ =~= "failed to decode image dimensions: "@ + msg@);
                }
                Err(Error::invalid(m))
            },
        }
    }

    /// Record of a video saved as `<artifact id>.<gif|apng>` in this store.
    pub fn stored_video(&self, artifact_id: ArtifactId, format: VideoFormat) -> (a:
        StoredVideoArtifact)
        ensures
            a.artifact_id@ == artifact_id@,
            a.uri@ == self.uri_of(artifact_id@ + seq!['.'] + video_extension_of(format)),
            a.path@ == path_join(self.root(), artifact_id@ + seq!['.'] + video_extension_of(format)),
            a.format == format,
    {
        let filename = video_filename(&artifact_id, format);
        let uri = self.artifact_uri(filename.as_str());
        let path = self.file_path(filename.as_str());
        StoredVideoArtifact { artifact_id, uri, path, format }
    }

    /// Path of the `motionlens-report.json` written next to the frames.
    pub fn report_path(&self) -> (p: String)
        ensures
            p@ == path_join(self.root(), "motionlens-report.json"@),
    {
        join_path(self.root.as_str(), "motionlens-report.json")
    }

    /// Prefix of the URIs that this store resolves:
    /// `motionlens://artifacts/<name>/`, where `<name>` is the last
    /// component of the store's root (`session` when the root has none).
    pub open spec fn resolvable_prefix(&self) -> Seq<char> {
        let name = match file_name_of(self.root()) {
            Some(n) => n,
            None => "session"@,
        };
        uri_prefix() + name + seq!['/']
    }

    /// Local path of `uri` in this store: the rest of the URI after
    /// `resolvable_prefix` joined onto the root; `None` for a URI without
    /// that prefix.
    pub open spec fn local_path_of(&self, uri: Seq<char>) -> Option<Seq<char>> {
        let prefix = self.resolvable_prefix();
        if has_prefix(uri, prefix) {
            Some(path_join(self.root(), uri.subrange(prefix.len() as int, uri.len() as int)))
        } else {
            None
        }
    }

    /// Local path of an artifact URI issued by this store, if it is one
    /// (see `local_path_of`).
    pub fn local_path_for_uri(&self, artifact_uri: &str) -> (r: Option<String>)
        ensures
            match r {
                Some(p) => self.local_path_of(artifact_uri@) == Some(p@),
                None => self.local_path_of(artifact_uri@) is None,
            },
    {
        let name = match file_name(self.root.as_str()) {
            Some(n) => n,
            None => String::from_str("session"),
        };
        let mut prefix = String::from_str("motionlens://artifacts/");
        prefix.append(name.as_str());
        prefix.append("/");
        proof {
            reveal_strlit("motionlens://artifacts/");
            reveal_strlit("/");
            reveal_strlit("session");
            assert(prefix@ =~= uri_prefix() + name@ + seq!['/']);
        }
        if starts_with(artifact_uri, prefix.as_str()) {
            let tail = skip_chars(artifact_uri, prefix.unicode_len());
            Some(join_path(self.root.as_str(), tail))
        } else {
            None
        }
    }
}

/// The store of a session whose id is a plain path component lives in a
/// directory named after that session, whatever the artifacts root.
pub proof fn law_store_root_is_session_directory(store: ArtifactStore, artifacts_root: Seq<char>, session_id: Seq<char>)
    requires
        store.root() == path_join(artifacts_root, session_id),
        store.session() == session_id,
        plain_component(session_id),
    ensures
        file_name_of(store.root()) == Some(session_id),
{
    law_join_names_last_component(artifacts_root, session_id);
}

/// A freshly generated session id (`ses-<uuid>`) is a plain path
/// component, so the store laws around it hold of every store made for
/// one.
pub proof fn law_fresh_session_id_is_plain(id: Seq<char>)
    requires
        is_prefixed_id("ses"@, id),
    ensures
        plain_component(id),
{
    reveal_strlit("ses");
    let u = id.subrange(4, id.len() as int);
    assert forall|j: int| 0 <= j < id.len() implies id[j] != '/' by {
        if j < 3 {
            assert(id[j] == id.subrange(0, 3)[j]);
        } else if j > 3 {
            assert(id[j] == u[j - 4]);
        }
    }
    assert(id.len() == 40);
}

/// Every URI that such a store issues for one of its files leads back,
/// through `local_path_for_uri`, to that file's path in the store.
pub proof fn law_issued_uri_maps_back(
    store: ArtifactStore,
    artifacts_root: Seq<char>,
    session_id: Seq<char>,
    filename: Seq<char>,
)
    requires
        store.root() == path_join(artifacts_root, session_id),
        store.session() == session_id,
        plain_component(session_id),
    ensures
        store.local_path_of(store.uri_of(filename)) == Some(path_join(store.root(), filename)),
{
    law_join_names_last_component(artifacts_root, session_id);
    let prefix = store.resolvable_prefix();
    let uri = store.uri_of(filename);
    assert(prefix == uri_prefix() + session_id + seq!['/']);
    assert(uri =~= prefix + filename);
    assert(uri.subrange(0, prefix.len() as int) =~= prefix);
    assert(uri.subrange(prefix.len() as int, uri.len() as int) =~= filename);
}

/// Message of the first check that an artifact URI fails, if any.
pub open spec fn uri_session_segment(rest: Seq<char>) -> Seq<char> {
    match first_index_of(rest, '/') {
        Some(i) => rest.subrange(0, i),
        None => rest,
    }
}

pub open spec fn uri_filename_segment(rest: Seq<char>) -> Option<Seq<char>> {
    match first_index_of(rest, '/') {
        Some(i) => Some(rest.subrange(i + 1, rest.len() as int)),
        None => None,
    }
}

/// A segment that could address something outside its directory.
pub open spec fn suspicious_segment(s: Seq<char>) -> bool {
    seq_contains_seq(s, ".."@) || s.contains('/') || s.contains('\\')
}

/// What `resolve_uri` returns for `uri` under `artifacts_root`.
pub open spec fn resolved_uri(uri: Seq<char>, artifacts_root: Seq<char>) -> Result<Seq<char>, Seq<char>> {
    if !has_prefix(uri, uri_prefix()) {
        Err("not a motionlens artifact URI: "@ + uri)
    } else {
        let rest = uri.subrange(uri_prefix().len() as int, uri.len() as int);
        let session = uri_session_segment(rest);
        if session.len() == 0 {
            Err("URI missing session segment: "@ + uri)
        } else {
            match uri_filename_segment(rest) {
                None => Err("URI missing filename segment: "@ + uri),
                Some(filename) => if filename.len() == 0 {
                    Err("URI missing filename segment: "@ + uri)
                } else if suspicious_segment(session) || suspicious_segment(filename) {
                    Err("suspicious motionlens artifact URI: "@ + uri)
                } else {
                    Ok(path_join(path_join(artifacts_root, session), filename))
                },
            }
        }
    }
}

/// The URI a session's store issues for a plain file name resolves back
/// to the path the store writes that file at: `resolve_uri` reads what
/// `artifact_uri` and `file_path` wrote.
pub proof fn law_issued_uri_resolves(store: &ArtifactStore, artifacts_root: Seq<char>, filename: Seq<char>)
    requires
        store.root() == path_join(artifacts_root, store.session()),
        store.session().len() > 0,
        filename.len() > 0,
        !suspicious_segment(store.session()),
        !suspicious_segment(filename),
    ensures
        resolved_uri(store.uri_of(filename), artifacts_root) == Ok::<Seq<char>, Seq<char>>(
            path_join(store.root(), filename),
        ),
{
    let session = store.session();
    let uri = store.uri_of(filename);
    let p = uri_prefix();
    assert(uri.subrange(0, p.len() as int) =~= p);
    let rest = uri.subrange(p.len() as int, uri.len() as int);
    assert(rest =~= session + seq!['/'] + filename);
    crate::text::lemma_first_index_of(rest, '/');
    assert(!session.contains('/'));
    assert(rest[session.len() as int] == '/');
    match first_index_of(rest, '/') {
        Some(i) => {
            if i < session.len() {
                assert(rest[i] == session[i]);
                assert(session.contains(session[i]));
            }
            assert(i == session.len());
        },
        None => {
            assert(false);
        },
    }
    assert(uri_session_segment(rest) =~= session);
    assert(rest.subrange(session.len() as int + 1, rest.len() as int) =~= filename);
}

fn invalid_uri(head: &str, uri: &str) -> (e: Error)
    ensures
        e matches Error::InvalidArgument(m) && m@ == head@ + uri@,
{
    let mut m = String::from_str(head);
    m.append(uri);
    Error::invalid(m)
}

fn suspicious(s: &str) -> (b: bool)
    ensures
        b == suspicious_segment(s@),
{
    let dots = contains_str(s, "..");
    proof {
        reveal_strlit("..");
    }
    dots || contains_char(s, '/') || contains_char(s, '\\')
}

impl ArtifactStore {
    /// Resolves `motionlens://artifacts/<session>/<filename>` to its path under
    /// `artifacts_root`.  Errors with `InvalidArgument` when the URI has another
    /// prefix, lacks a non-empty session or filename segment, or when either
    /// segment contains `..`, `/` or `\` (path traversal).
    pub fn resolve_uri(uri: &str, artifacts_root: &str) -> (r: Result<String, Error>)
        ensures
            match resolved_uri(uri@, artifacts_root@) {
                Ok(p) => r matches Ok(s) && s@ == p,
                Err(m) => r matches Err(Error::InvalidArgument(e)) && e@ == m,
            },
    {
        proof {
            reveal_strlit("motionlens://artifacts/");
            reveal_strlit("not a motionlens artifact URI: ");
            reveal_strlit("URI missing session segment: ");
            reveal_strlit("URI missing filename segment: ");
            reveal_strlit("suspicious motionlens artifact URI: ");
        }
        let prefix = "motionlens://artifacts/";
        if !starts_with(uri, prefix) {
            return Err(invalid_uri("not a motionlens artifact URI: ", uri));
        }
        let rest = skip_chars(uri, prefix.unicode_len());
        let _rest_len = rest.unicode_len();
        let slash = find_char(rest, '/');
        let session = match slash {
            Some(i) => take_chars(rest, i),
            None => rest,
        };
        if session.unicode_len() == 0 {
            return Err(invalid_uri("URI missing session segment: ", uri));
        }
        let filename = match slash {
            Some(i) => skip_chars(rest, i + 1),
            None => {
                return Err(invalid_uri("URI missing filename segment: ", uri));
            },
        };
        if filename.unicode_len() == 0 {
            return Err(invalid_uri("URI missing filename segment: ", uri));
        }
        if suspicious(session) || suspicious(filename) {
            return Err(invalid_uri("suspicious motionlens artifact URI: ", uri));
        }
        let dir = join_path(artifacts_root, session);
        Ok(join_path(dir.as_str(), filename))
    }
}


/// The code of a character with ASCII letters lower-cased.
pub open spec fn ascii_lower_code(c: char) -> u32 {
    if 'A' <= c && c <= 'Z' {
        ((c as u32) + 32) as u32
    } else {
        c as u32
    }
}

/// `e` equals the lower-case `lower` when ASCII case is ignored.
pub open spec fn same_ignoring_ascii_case(e: Seq<char>, lower: Seq<char>) -> bool {
    &&& e.len() == lower.len()
    &&& forall|i: int| 0 <= i < e.len() ==> ascii_lower_code(#[trigger] e[i]) == lower[i] as u32
}

/// The MIME type served for an artifact, by its extension, ASCII case
/// ignored.
pub open spec fn spec_mime_for(ext: Option<Seq<char>>) -> Seq<char> {
    match ext {
        Some(e) => if same_ignoring_ascii_case(e, "png"@) {
            "image/png"@
        } else if same_ignoring_ascii_case(e, "jpg"@) || same_ignoring_ascii_case(e, "jpeg"@) {
            "image/jpeg"@
        } else if same_ignoring_ascii_case(e, "gif"@) {
            "image/gif"@
        } else if same_ignoring_ascii_case(e, "apng"@) {
            "image/apng"@
        } else {
            "application/octet-stream"@
        },
        None => "application/octet-stream"@,
    }
}

fn matches_ignoring_ascii_case(e: &str, lower: &str) -> (b: bool)
    ensures
        b == same_ignoring_ascii_case(e@, lower@),
{
    let n = e.unicode_len();
    if n != lower.unicode_len() {
        return false;
    }
    let mut i: usize = 0;
    while i < n
        invariant
            n == e@.len(),
            n == lower@.len(),
            i <= n,
            forall|j: int| 0 <= j < i ==> ascii_lower_code(#[trigger] e@[j]) == lower@[j] as u32,
        decreases n - i,
    {
        let c = e.get_char(i);
        let code: u32 = if 'A' <= c && c <= 'Z' {
            (c as u32) + 32
        } else {
            c as u32
        };
        if code != lower.get_char(i) as u32 {
            return false;
        }
        i = i + 1;
    }
    true
}

/// The MIME type of the artifact at `path`.
pub fn mime_for_path(path: &str) -> (m: &'static str)
    ensures
        m@ == spec_mime_for(extension_of(path@)),
{
    match extension(path) {
        Some(e) => {
            let x = e.as_str();
            if matches_ignoring_ascii_case(x, "png") {
                "image/png"
            } else if matches_ignoring_ascii_case(x, "jpg") || matches_ignoring_ascii_case(x, "jpeg") {
                "image/jpeg"
            } else if matches_ignoring_ascii_case(x, "gif") {
                "image/gif"
            } else if matches_ignoring_ascii_case(x, "apng") {
                "image/apng"
            } else {
                "application/octet-stream"
            }
        },
        None => "application/octet-stream",
    }
}

} // verus!
