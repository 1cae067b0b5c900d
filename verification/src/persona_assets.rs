//! Images users upload for personas, and the artifacts and images the daemon
//! serves by id: which names are managed files, which paths may be read,
//! how an upload is named, and how an artifact download is labelled.
use crate::path::{
    comp_is_name, components, components_seq, comps_view, first_non_cur, join, join_seq,
    lemma_first_non_cur_skip, render, render_comps, skip_cur, skip_cur_index, Comp, PathComp,
};
use crate::text::{
    any_control, chars_of, extend_str, find_char, has_control, str_eq, string_of, trim_chars,
    trim_seq,
};
use crate::api::{api_error_is, ApiError, CONFLICT, NOT_FOUND, PAYLOAD_TOO_LARGE};
use vstd::prelude::*;

verus! {

/// Uploads larger than this many bytes are refused (8 MiB).
pub const PERSONA_ASSET_LIMIT: usize = 8388608;

/// The directory name, under the resources, of the managed persona images.
pub const AVATAR_NAMESPACE: &'static str = "persona-avatars";

/// Whether a persona image reference points into the managed namespace: its
/// first component other than `.` is `persona-avatars`.
pub open spec fn uses_managed_namespace(value: Seq<char>) -> bool {
    first_non_cur(components_seq(value)) == Some(Comp::Normal(AVATAR_NAMESPACE@))
}

pub fn persona_asset_uses_managed_namespace(value: &str) -> (r: bool)
    ensures
        r == uses_managed_namespace(value@),
{
    let v = chars_of(value);
    let cs = components(&v);
    let i = skip_cur_index(&cs);
    proof {
        lemma_first_non_cur_skip(comps_view(cs@));
    }
    if i < cs.len() {
        assert(skip_cur(comps_view(cs@))[0] == cs@[i as int]@);
        comp_is_name(&cs[i], AVATAR_NAMESPACE)
    } else {
        false
    }
}

/// Whether every component of the list is a name.
pub open spec fn all_normal(cs: Seq<Comp>) -> bool {
    forall|k: int| 0 <= k < cs.len() ==> (#[trigger] cs[k]) is Normal
}

/// Where a managed persona image reference leads: the reference, trimmed, must
/// hold no backslash and no control character; after any leading `.`
/// components it must be `persona-avatars` followed by at least one name and
/// nothing but names; it then stands for those names under the managed
/// directory.
pub open spec fn managed_asset_target(avatars_dir: Seq<char>, value: Seq<char>) -> Option<Seq<char>> {
    let v = trim_seq(value);
    let rest = skip_cur(components_seq(v));
    if v.contains('\\') || has_control(v) {
        None
    } else if rest.len() == 0 || rest[0] != Comp::Normal(AVATAR_NAMESPACE@) {
        None
    } else if rest.len() < 2 || !all_normal(rest.skip(1)) {
        None
    } else {
        Some(join_seq(avatars_dir, render_comps(rest.skip(1))))
    }
}

#[verifier::loop_isolation(false)]
pub fn managed_persona_asset_path(avatars_dir: &str, value: &str) -> (r: Option<String>)
    ensures
        match r {
            Some(p) => managed_asset_target(avatars_dir@, value@) == Some(p@),
            None => managed_asset_target(avatars_dir@, value@) is None,
        },
{
    let v = trim_chars(&chars_of(value));
    if find_char(&v, '\\', 0).is_some() || any_control(&v) {
        return None;
    }
    assert(!v@.contains('\\')) by {
        if v@.contains('\\') {
            let k = choose|k: int| 0 <= k < v@.len() && v@[k] == '\\';
            assert(v@[k] == '\\');
        }
    }
    let cs = components(&v);
    let i = skip_cur_index(&cs);
    let ghost rest = skip_cur(comps_view(cs@));
    if i >= cs.len() {
        return None;
    }
    assert(rest[0] == cs@[i as int]@);
    if !comp_is_name(&cs[i], AVATAR_NAMESPACE) {
        return None;
    }
    if i + 1 >= cs.len() {
        return None;
    }
    let mut names: Vec<PathComp> = Vec::new();
    let mut k: usize = i + 1;
    while k < cs.len()
        invariant
            i + 1 <= k <= cs.len(),
            rest == comps_view(cs@).subrange(i as int, cs.len() as int),
            comps_view(names@) == rest.subrange(1, k - i),
            all_normal(comps_view(names@)),
        decreases cs.len() - k,
    {
        assert(rest[k - i] == cs@[k as int]@);
        match &cs[k] {
            PathComp::Normal(n) => {
                let ghost before = comps_view(names@);
                let mut copy: Vec<char> = Vec::new();
                crate::text::extend_chars(&mut copy, n.as_slice());
                assert(copy@ =~= n@);
                names.push(PathComp::Normal(copy));
                assert(comps_view(names@) =~= before.push(Comp::Normal(n@)));
                assert(rest.subrange(1, k + 1 - i) =~= rest.subrange(1, k - i).push(rest[k - i]));
            },
            _ => {
                assert(!(rest.skip(1)[k - i - 1] is Normal));
                return None;
            },
        }
        k += 1;
    }
    assert(rest.skip(1) =~= comps_view(names@));
    let normalized = render(&names);
    let base = chars_of(avatars_dir);
    Some(string_of(&join(&base, &normalized)))
}

/// Where a persona image reference leads: a managed reference to the managed
/// directory; otherwise the location the resource migration moved it to, if
/// any; otherwise the path itself, relative paths taken from the
/// configuration directory.
pub open spec fn persona_asset_target(
    config_dir: Seq<char>,
    avatars_dir: Seq<char>,
    value: Seq<char>,
    migrated: Option<Seq<char>>,
) -> Option<Seq<char>> {
    let v = trim_seq(value);
    if uses_managed_namespace(v) {
        managed_asset_target(avatars_dir, v)
    } else {
        match migrated {
            Some(m) => Some(m),
            None => Some(join_seq(config_dir, v)),
        }
    }
}

/// Resolves a persona image reference. `migrated` is where the resource
/// migration relocated the (trimmed) reference, if it did.
pub fn resolve_persona_asset_path(
    config_dir: &str,
    avatars_dir: &str,
    value: &str,
    migrated: Option<&str>,
) -> (r: Option<String>)
    ensures
        match r {
            Some(p) => persona_asset_target(
                config_dir@,
                avatars_dir@,
                value@,
                match migrated {
                    Some(m) => Some(m@),
                    None => None,
                },
            ) == Some(p@),
            None => persona_asset_target(
                config_dir@,
                avatars_dir@,
                value@,
                match migrated {
                    Some(m) => Some(m@),
                    None => None,
                },
            ) is None,
        },
{
    let v = string_of(&trim_chars(&chars_of(value)));
    if persona_asset_uses_managed_namespace(v.as_str()) {
        return managed_persona_asset_path(avatars_dir, v.as_str());
    }
    match migrated {
        Some(m) => Some(m.to_owned()),
        None => {
            let base = chars_of(config_dir);
            let rel = chars_of(v.as_str());
            Some(string_of(&join(&base, &rel)))
        },
    }
}

/// `u8::is_ascii_hexdigit` read on a character.
pub open spec fn is_hex_char(c: char) -> bool {
    ('0' <= c && c <= '9') || ('a' <= c && c <= 'f') || ('A' <= c && c <= 'F')
}

/// The extensions of managed persona images.
pub open spec fn is_managed_extension(e: Seq<char>) -> bool {
    e == "png"@ || e == "jpg"@ || e == "gif"@ || e == "webp"@ || e == "bmp"@
}

/// The name of a managed persona image: 64 hexadecimal digits, a `.`, and
/// one of the image extensions.
pub open spec fn is_managed_asset_name(name: Seq<char>) -> bool {
    &&& name.len() >= 68
    &&& name[64] == '.'
    &&& forall|i: int| 0 <= i < 64 ==> is_hex_char(#[trigger] name[i])
    &&& is_managed_extension(name.skip(65))
}

#[verifier::loop_isolation(false)]
pub fn managed_asset_name(name: &str) -> (r: bool)
    ensures
        r == is_managed_asset_name(name@),
{
    let v = chars_of(name);
    if v.len() < 68 || v[64] != '.' {
        return false;
    }
    let mut i: usize = 0;
    while i < 64
        invariant
            i <= 64 <= v.len(),
            forall|k: int| 0 <= k < i ==> is_hex_char(#[trigger] v@[k]),
        decreases 64 - i,
    {
        let c = v[i];
        if !(('0' <= c && c <= '9') || ('a' <= c && c <= 'f') || ('A' <= c && c <= 'F')) {
            assert(!is_hex_char(v@[i as int]));
            return false;
        }
        i += 1;
    }
    let ext = crate::text::slice_chars(&v, 65, v.len());
    assert(ext@ =~= name@.skip(65));
    crate::text::eq_str(&ext, "png") || crate::text::eq_str(&ext, "jpg") || crate::text::eq_str(
        &ext,
        "gif",
    ) || crate::text::eq_str(&ext, "webp") || crate::text::eq_str(&ext, "bmp")
}

/// A character an image or artifact id may hold.
pub open spec fn asset_id_char(c: char) -> bool {
    crate::text::is_ascii_alnum_char(c) || c == '_' || c == '-'
}

/// An image or artifact id: 1 to 96 letters, digits, `_` or `-`.
pub open spec fn is_valid_asset_id(id: Seq<char>) -> bool {
    0 < id.len() <= 96 && forall|i: int| 0 <= i < id.len() ==> asset_id_char(#[trigger] id[i])
}

#[verifier::loop_isolation(false)]
pub fn valid_asset_id(id: &str) -> (r: bool)
    ensures
        r == is_valid_asset_id(id@),
{
    let v = chars_of(id);
    if v.len() == 0 || v.len() > 96 {
        return false;
    }
    let mut i: usize = 0;
    while i < v.len()
        invariant
            i <= v.len(),
            forall|k: int| 0 <= k < i ==> asset_id_char(#[trigger] v@[k]),
        decreases v.len() - i,
    {
        let c = v[i];
        if !(crate::text::is_ascii_alnum(c) || c == '_' || c == '-') {
            assert(!asset_id_char(v@[i as int]));
            return false;
        }
        i += 1;
    }
    true
}

/// Whether an artifact is shown in place: not when a download was asked for
/// (`?download=1`), and only for the kinds that cannot run in the WebUI's own
/// origin (svg is deliberately not one of them).
pub open spec fn shows_inline(kind: Seq<char>, download: Option<Seq<char>>) -> bool {
    download != Some("1"@) && (kind == "markdown"@ || kind == "text"@ || kind == "code"@ || kind
        == "json"@ || kind == "csv"@ || kind == "pdf"@ || kind == "html"@)
}

pub fn artifact_inline(kind: &str, download: Option<&str>) -> (r: bool)
    ensures
        r == shows_inline(
            kind@,
            match download {
                Some(d) => Some(d@),
                None => None,
            },
        ),
{
    let forced = match download {
        Some(d) => str_eq(d, "1"),
        None => false,
    };
    !forced && (str_eq(kind, "markdown") || str_eq(kind, "text") || str_eq(kind, "code")
        || str_eq(kind, "json") || str_eq(kind, "csv") || str_eq(kind, "pdf") || str_eq(
        kind,
        "html",
    ))
}

/// The bytes `urlencoding::encode` keeps as they are: ASCII letters and
/// digits, `-`, `.`, `_` and `~`.
pub open spec fn url_safe_byte(b: u8) -> bool {
    (48 <= b <= 57) || (65 <= b <= 90) || (97 <= b <= 122) || b == 45 || b == 46 || b == 95 || b == 126
}

/// An upper-case hexadecimal digit.
pub open spec fn upper_hex_digit(d: u8) -> char {
    if d < 10 {
        (48 + d) as char
    } else {
        (55 + d) as char
    }
}

/// Percent-encoding of bytes: a safe byte stays, every other one becomes
/// `%` and its two upper-case hexadecimal digits.
pub open spec fn url_encode_bytes(bytes: Seq<u8>) -> Seq<char>
    decreases bytes.len(),
{
    if bytes.len() == 0 {
        Seq::empty()
    } else {
        let b = bytes.last();
        url_encode_bytes(bytes.drop_last()) + if url_safe_byte(b) {
            seq![b as char]
        } else {
            seq!['%', upper_hex_digit(b / 16), upper_hex_digit(b % 16)]
        }
    }
}

/// What `urlencoding::encode` gives for a string: its UTF-8 bytes,
/// percent-encoded.
pub open spec fn url_encoded(s: Seq<char>) -> Seq<char> {
    url_encode_bytes(vstd::utf8::encode_utf8(s))
}

/// Percent-encodes a string with `urlencoding::encode`. Trusted: the crate
/// keeps ASCII letters, digits and `-._~` and writes every other UTF-8 byte
/// as `%XX` with upper-case digits, which is [`url_encoded`].
#[verifier::external_body]
fn url_encode(s: &str) -> (r: String)
    ensures
        r@ == url_encoded(s@),
{
    urlencoding::encode(s).into_owned()
}

/// The `Content-Disposition` of an artifact download.
pub open spec fn disposition_of(inline: bool, file_name: Seq<char>) -> Seq<char> {
    (if inline {
        "inline"@
    } else {
        "attachment"@
    }) + "; filename*=UTF-8''"@ + url_encoded(file_name)
}

pub fn artifact_disposition(kind: &str, download: Option<&str>, file_name: &str) -> (r: String)
    ensures
        r@ == disposition_of(
            shows_inline(
                kind@,
                match download {
                    Some(d) => Some(d@),
                    None => None,
                },
            ),
            file_name@,
        ),
{
    let inline = artifact_inline(kind, download);
    let mut v: Vec<char> = Vec::new();
    if inline {
        extend_str(&mut v, "inline");
    } else {
        extend_str(&mut v, "attachment");
    }
    extend_str(&mut v, "; filename*=UTF-8''");
    let encoded = url_encode(file_name);
    extend_str(&mut v, encoded.as_str());
    string_of(&v)
}

/// The image formats an upload is told apart by.
pub enum ImageKind {
    Png,
    Jpeg,
    Gif,
    WebP,
    Bmp,
    Other,
}

/// The format `image::guess_format` reads from the leading bytes, or `None`
/// when it recognises none.
pub uninterp spec fn guessed_image_kind(data: Seq<u8>) -> Option<ImageKind>;

/// Guesses an image format from its magic bytes with `image::guess_format`.
/// Trusted: the result is the crate's guess, named [`guessed_image_kind`];
/// formats other than the five the uploads take are `Other`.
#[verifier::external_body]
fn guess_image_kind(data: &[u8]) -> (r: Option<ImageKind>)
    ensures
        r == guessed_image_kind(data@),
{
    match image::guess_format(data) {
        Ok(image::ImageFormat::Png) => Some(ImageKind::Png),
        Ok(image::ImageFormat::Jpeg) => Some(ImageKind::Jpeg),
        Ok(image::ImageFormat::Gif) => Some(ImageKind::Gif),
        Ok(image::ImageFormat::WebP) => Some(ImageKind::WebP),
        Ok(image::ImageFormat::Bmp) => Some(ImageKind::Bmp),
        Ok(_) => Some(ImageKind::Other),
        Err(_) => None,
    }
}

/// The content type an image is served with: PNG, JPEG, GIF and WebP, and
/// BMP where `with_bmp`; none for any other format or for bytes that are no
/// image.
pub open spec fn image_mime(kind: Option<ImageKind>, with_bmp: bool) -> Option<Seq<char>> {
    match kind {
        Some(ImageKind::Png) => Some("image/png"@),
        Some(ImageKind::Jpeg) => Some("image/jpeg"@),
        Some(ImageKind::Gif) => Some("image/gif"@),
        Some(ImageKind::WebP) => Some("image/webp"@),
        Some(ImageKind::Bmp) => if with_bmp {
            Some("image/bmp"@)
        } else {
            None
        },
        _ => None,
    }
}

pub fn image_mime_for(kind: &Option<ImageKind>, with_bmp: bool) -> (r: Option<&'static str>)
    ensures
        match r {
            Some(m) => image_mime(*kind, with_bmp) == Some(m@),
            None => image_mime(*kind, with_bmp) is None,
        },
{
    match kind {
        Some(ImageKind::Png) => Some("image/png"),
        Some(ImageKind::Jpeg) => Some("image/jpeg"),
        Some(ImageKind::Gif) => Some("image/gif"),
        Some(ImageKind::WebP) => Some("image/webp"),
        Some(ImageKind::Bmp) => if with_bmp {
            Some("image/bmp")
        } else {
            None
        },
        _ => None,
    }
}

/// What a persona image of `len` bytes whose format guess is `kind` is
/// served with: refused with 413 above 8 MiB, with 404 when it is no image
/// or of a format other than PNG, JPEG, GIF, WebP and BMP.
pub open spec fn persona_image_answer(len: nat, kind: Option<ImageKind>) -> Result<Seq<char>, (u16, Seq<char>)> {
    if len > PERSONA_ASSET_LIMIT {
        Err((PAYLOAD_TOO_LARGE, "persona avatar is too large"@))
    } else if kind is None {
        Err((NOT_FOUND, "persona avatar is not an image"@))
    } else if image_mime(kind, true) is None {
        Err((NOT_FOUND, "persona avatar format is unsupported"@))
    } else {
        Ok(image_mime(kind, true).unwrap())
    }
}

/// Decides how a persona image is served from its size and format guess.
pub fn persona_image_type(len: usize, kind: &Option<ImageKind>) -> (r: Result<&'static str, ApiError>)
    ensures
        match (r, persona_image_answer(len as nat, *kind)) {
            (Ok(m), Ok(n)) => m@ == n,
            (Err(e), Err((status, message))) => api_error_is(e, status, message),
            _ => false,
        },
{
    if len > PERSONA_ASSET_LIMIT {
        return Err(ApiError::new(PAYLOAD_TOO_LARGE, "persona avatar is too large"));
    }
    if kind.is_none() {
        return Err(ApiError::new(NOT_FOUND, "persona avatar is not an image"));
    }
    match image_mime_for(kind, true) {
        Some(m) => Ok(m),
        None => Err(ApiError::new(NOT_FOUND, "persona avatar format is unsupported")),
    }
}

/// The content type a persona image is served with, its format guessed with
/// `image`; see [`persona_image_type`].
pub fn persona_image_content_type(body: &[u8]) -> (r: Result<&'static str, ApiError>)
    ensures
        match (r, persona_image_answer(body@.len(), guessed_image_kind(body@))) {
            (Ok(m), Ok(n)) => m@ == n,
            (Err(e), Err((status, message))) => api_error_is(e, status, message),
            _ => false,
        },
{
    if body.len() > PERSONA_ASSET_LIMIT {
        return persona_image_type(body.len(), &None);
    }
    let kind = guess_image_kind(body);
    persona_image_type(body.len(), &kind)
}

/// The content type an account avatar is served with, its format guessed
/// with `image`: PNG, JPEG, GIF or WebP, else 404.
pub fn account_avatar_content_type(body: &[u8]) -> (r: Result<&'static str, ApiError>)
    ensures
        match r {
            Ok(m) => image_mime(guessed_image_kind(body@), false) == Some(m@),
            Err(e) => image_mime(guessed_image_kind(body@), false) is None && api_error_is(
                e,
                NOT_FOUND,
                "account avatar format is unsupported"@,
            ),
        },
{
    let kind = guess_image_kind(body);
    match image_mime_for(&kind, false) {
        Some(m) => Ok(m),
        None => Err(ApiError::new(NOT_FOUND, "account avatar format is unsupported")),
    }
}

/// Which image `GET /api/persona/avatar` serves.
pub enum AvatarSource {
    /// The avatar, or with `board` the board image, of the caller's own
    /// private persona with this scope.
    MemberPersona { scope: String, board: bool },
    /// A managed persona image named by its path.
    ManagedPath(String),
    /// The board image of the active persona.
    ActiveBoard,
    /// The avatar of the active persona.
    ActiveAvatar,
}

/// Picks the image a persona-avatar request asks for: a non-empty `scope`
/// names a private persona (which only its member may read: an admin gets
/// 404), else a non-empty `path` a managed image, else `board` the active
/// persona's board image, else its avatar.
pub fn avatar_source(
    scope: &Option<String>,
    path: &Option<String>,
    board: bool,
    admin: bool,
) -> (r: Result<AvatarSource, ApiError>)
    ensures
        scope matches Some(s) && s@.len() > 0 ==> if admin {
            r matches Err(e) && api_error_is(e, NOT_FOUND, "persona not found"@)
        } else {
            r matches Ok(AvatarSource::MemberPersona { scope: t, board: b }) && t@ == scope.unwrap()@ && b == board
        },
        !(scope matches Some(s) && s@.len() > 0) ==> {
            if path matches Some(p) && p@.len() > 0 {
                r matches Ok(AvatarSource::ManagedPath(q)) && q@ == path.unwrap()@
            } else if board {
                r matches Ok(AvatarSource::ActiveBoard)
            } else {
                r matches Ok(AvatarSource::ActiveAvatar)
            }
        },
{
    if let Some(s) = scope {
        if chars_of(s.as_str()).len() > 0 {
            if admin {
                return Err(ApiError::new(NOT_FOUND, "persona not found"));
            }
            return Ok(AvatarSource::MemberPersona { scope: s.clone(), board });
        }
    }
    if let Some(p) = path {
        if chars_of(p.as_str()).len() > 0 {
            return Ok(AvatarSource::ManagedPath(p.clone()));
        }
    }
    if board {
        Ok(AvatarSource::ActiveBoard)
    } else {
        Ok(AvatarSource::ActiveAvatar)
    }
}

/// The SHA-256 digest of a byte string.
pub uninterp spec fn sha256_of(data: Seq<u8>) -> Seq<u8>;

/// Hashes bytes with `sha2::Sha256::digest`. Trusted: the result is the
/// digest, named [`sha256_of`], and is 32 bytes long.
#[verifier::external_body]
pub(crate) fn sha256_digest(data: &[u8]) -> (r: Vec<u8>)
    ensures
        r@ == sha256_of(data@),
        r@.len() == 32,
{
    <sha2::Sha256 as sha2::Digest>::digest(data).to_vec()
}

/// One lowercase hexadecimal digit.
pub open spec fn hex_digit(n: u8) -> char {
    if n < 10 {
        ((n + 48) as u8) as char
    } else {
        ((n + 87) as u8) as char
    }
}

/// Bytes written as lowercase hexadecimal, two digits a byte (`{:x}`).
pub open spec fn lower_hex(b: Seq<u8>) -> Seq<char>
    decreases b.len(),
{
    if b.len() == 0 {
        Seq::empty()
    } else {
        lower_hex(b.drop_last()) + seq![hex_digit(b.last() / 16), hex_digit(b.last() % 16)]
    }
}

fn hex_char(n: u8) -> (c: char)
    requires
        n < 16,
    ensures
        c == hex_digit(n),
{
    if n < 10 {
        (n + 48) as char
    } else {
        (n + 87) as char
    }
}

pub fn hex_lower(b: &[u8]) -> (out: String)
    ensures
        out@ == lower_hex(b@),
{
    let mut v: Vec<char> = Vec::new();
    let mut i: usize = 0;
    while i < b.len()
        invariant
            i <= b.len(),
            v@ == lower_hex(b@.take(i as int)),
        decreases b.len() - i,
    {
        let x = b[i];
        v.push(hex_char(x / 16));
        v.push(hex_char(x % 16));
        assert(b@.take(i + 1).drop_last() =~= b@.take(i as int));
        assert(v@ =~= lower_hex(b@.take(i + 1)));
        i += 1;
    }
    assert(b@.take(b.len() as int) =~= b@);
    string_of(&v)
}

/// Why an upload is refused.
pub enum UploadError {
    /// The body is empty.
    Empty,
    /// The body is larger than [`PERSONA_ASSET_LIMIT`].
    TooLarge,
    /// The body is not a PNG, JPEG, GIF, WebP or BMP image.
    UnsupportedFormat,
}

/// Where an accepted upload goes.
pub struct PersonaUpload {
    /// The lowercase hex SHA-256 of the body.
    pub hash: String,
    /// The file extension of the detected format.
    pub extension: String,
    /// The file name in the managed directory: `<hash>.<extension>`.
    pub file_name: String,
    /// The reference stored in the persona: `persona-avatars/<file_name>`.
    pub relative: String,
    /// The URL the WebUI previews it from.
    pub preview_url: String,
}

/// The extension a managed image of the given format gets.
pub open spec fn kind_extension(k: ImageKind) -> Option<Seq<char>> {
    match k {
        ImageKind::Png => Some("png"@),
        ImageKind::Jpeg => Some("jpg"@),
        ImageKind::Gif => Some("gif"@),
        ImageKind::WebP => Some("webp"@),
        ImageKind::Bmp => Some("bmp"@),
        ImageKind::Other => None,
    }
}

/// How an upload is decided, given what the format guess and the hash of the
/// body gave.
pub open spec fn upload_outcome(
    body: Seq<u8>,
    kind: Option<ImageKind>,
    digest: Seq<u8>,
) -> Result<(Seq<char>, Seq<char>), UploadError> {
    if body.len() == 0 {
        Err(UploadError::Empty)
    } else if body.len() > PERSONA_ASSET_LIMIT {
        Err(UploadError::TooLarge)
    } else {
        match kind {
            None => Err(UploadError::UnsupportedFormat),
            Some(k) => match kind_extension(k) {
                None => Err(UploadError::UnsupportedFormat),
                Some(e) => Ok((lower_hex(digest), e)),
            },
        }
    }
}

/// The names an accepted upload is stored and referenced under.
pub open spec fn upload_names_ok(u: PersonaUpload, hash: Seq<char>, ext: Seq<char>) -> bool {
    &&& u.hash@ == hash
    &&& u.extension@ == ext
    &&& u.file_name@ == hash + seq!['.'] + ext
    &&& u.relative@ == AVATAR_NAMESPACE@ + seq!['/'] + hash + seq!['.'] + ext
    &&& u.preview_url@ == "/api/persona/avatar?path="@ + AVATAR_NAMESPACE@ + seq!['/'] + hash
        + seq!['.'] + ext
}

fn kind_ext(k: &ImageKind) -> (r: Option<String>)
    ensures
        match r {
            Some(e) => kind_extension(*k) == Some(e@),
            None => kind_extension(*k) is None,
        },
{
    match k {
        ImageKind::Png => Some("png".to_owned()),
        ImageKind::Jpeg => Some("jpg".to_owned()),
        ImageKind::Gif => Some("gif".to_owned()),
        ImageKind::WebP => Some("webp".to_owned()),
        ImageKind::Bmp => Some("bmp".to_owned()),
        ImageKind::Other => None,
    }
}

fn upload_names(hash: String, ext: String) -> (u: PersonaUpload)
    ensures
        upload_names_ok(u, hash@, ext@),
{
    let mut file: Vec<char> = chars_of(hash.as_str());
    file.push('.');
    extend_str(&mut file, ext.as_str());
    let mut rel: Vec<char> = chars_of(AVATAR_NAMESPACE);
    rel.push('/');
    crate::text::extend_chars(&mut rel, &file);
    let mut url: Vec<char> = chars_of("/api/persona/avatar?path=");
    crate::text::extend_chars(&mut url, &rel);
    assert(file@ =~= hash@ + seq!['.'] + ext@);
    assert(rel@ =~= AVATAR_NAMESPACE@ + seq!['/'] + hash@ + seq!['.'] + ext@);
    assert(url@ =~= "/api/persona/avatar?path="@ + AVATAR_NAMESPACE@ + seq!['/'] + hash@ + seq![
        '.',
    ] + ext@);
    PersonaUpload {
        hash,
        extension: ext,
        file_name: string_of(&file),
        relative: string_of(&rel),
        preview_url: string_of(&url),
    }
}

/// Whether a cached persona image is still the one its name promises: at
/// most [`PERSONA_ASSET_LIMIT`] bytes, hashing to the hex digest it is named
/// by. A corrupted entry is refused with 409.
pub open spec fn asset_hash_holds(data: Seq<u8>, digest: Seq<u8>, expected: Seq<char>) -> bool {
    data.len() <= PERSONA_ASSET_LIMIT && lower_hex(digest) == expected
}

/// Checks a cached persona image against its expected hash, given the
/// SHA-256 digest of its bytes.
pub fn check_asset_digest(data: &[u8], digest: &[u8], expected: &str) -> (r: Result<(), ApiError>)
    ensures
        r is Ok <==> asset_hash_holds(data@, digest@, expected@),
        r matches Err(e) ==> api_error_is(e, CONFLICT, "persona asset cache entry is corrupted"@),
{
    if data.len() > PERSONA_ASSET_LIMIT || !str_eq(hex_lower(digest).as_str(), expected) {
        return Err(ApiError::new(CONFLICT, "persona asset cache entry is corrupted"));
    }
    Ok(())
}

/// Checks a cached persona image against its expected hash, hashing it with
/// SHA-256.
pub fn verify_persona_asset_hash(data: &[u8], expected: &str) -> (r: Result<(), ApiError>)
    ensures
        r is Ok <==> asset_hash_holds(data@, sha256_of(data@), expected@),
        r matches Err(e) ==> api_error_is(e, CONFLICT, "persona asset cache entry is corrupted"@),
{
    if data.len() > PERSONA_ASSET_LIMIT {
        return Err(ApiError::new(CONFLICT, "persona asset cache entry is corrupted"));
    }
    let digest = sha256_digest(data);
    check_asset_digest(data, &digest, expected)
}

/// Decides an upload from its body and the results of the format guess and
/// the hash: refused when empty, too large or of another format; otherwise
/// named by the hex digest and the format's extension.
pub fn plan_persona_upload(body: &[u8], kind: Option<ImageKind>, digest: &[u8]) -> (r: Result<PersonaUpload, UploadError>)
    ensures
        match (r, upload_outcome(body@, kind, digest@)) {
            (Ok(u), Ok((h, e))) => upload_names_ok(u, h, e),
            (Err(a), Err(b)) => a == b,
            _ => false,
        },
{
    if body.len() == 0 {
        return Err(UploadError::Empty);
    }
    if body.len() > PERSONA_ASSET_LIMIT {
        return Err(UploadError::TooLarge);
    }
    let k = match kind {
        Some(k) => k,
        None => return Err(UploadError::UnsupportedFormat),
    };
    let ext = match kind_ext(&k) {
        Some(e) => e,
        None => return Err(UploadError::UnsupportedFormat),
    };
    let hash = hex_lower(digest);
    Ok(upload_names(hash, ext))
}

/// Decides an upload: the format is guessed with `image` and the body hashed
/// with SHA-256, then [`plan_persona_upload`] decides.
pub fn persona_upload(body: &[u8]) -> (r: Result<PersonaUpload, UploadError>)
    ensures
        match (r, upload_outcome(body@, guessed_image_kind(body@), sha256_of(body@))) {
            (Ok(u), Ok((h, e))) => upload_names_ok(u, h, e),
            (Err(a), Err(b)) => a == b,
            _ => false,
        },
{
    if body.len() == 0 || body.len() > PERSONA_ASSET_LIMIT {
        return plan_persona_upload(body, None, &[]);
    }
    let kind = guess_image_kind(body);
    let digest = sha256_digest(body);
    plan_persona_upload(body, kind, &digest)
}

} // verus!
