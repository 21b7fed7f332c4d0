//! Checks on uploaded attachments and avatars: size, allowed content
//! types, the type recognized from the bytes, the malware test marker,
//! and the stored file name.
use vstd::prelude::*;
use vstd::utf8::{decode_utf8, valid_utf8};

use crate::board::{find_first, first_occ, opt_str_view};
use crate::crypto::utf8_string;
use crate::entities::str_is;
use crate::error::{is_validation, AppError, AppResult};
use crate::num::{decimal, decimal_chars};
use crate::text::{
    char_width, char_width_of, chars_of, concat_chars, lemma_utf8_len_push,
    lemma_utf8_len_take_strict, owned, string_of, take_chars, utf8_len,
};

verus! {

/// The EICAR anti-virus test string.
pub const EICAR_MARKER: &'static str =
    "X5O!P%@AP[4\\PZX54(P^)7CC)7}$EICAR-STANDARD-ANTIVIRUS-TEST-FILE!$H+H*";

/// Longest stored file name, in bytes.
pub const MAX_FILENAME_BYTES: usize = 200;

/// Content types accepted for attachments.
pub open spec fn attachment_mime_allowed(m: Seq<char>) -> bool {
    ||| m == "image/jpeg"@
    ||| m == "image/png"@
    ||| m == "image/gif"@
    ||| m == "image/webp"@
    ||| m == "application/pdf"@
}

/// Content types accepted for avatars.
pub open spec fn avatar_mime_allowed(m: Seq<char>) -> bool {
    ||| m == "image/jpeg"@
    ||| m == "image/png"@
    ||| m == "image/gif"@
    ||| m == "image/webp"@
}

/// The avatar types are the image types among the attachment types: a type
/// is accepted for an avatar exactly when it is accepted for an attachment
/// and starts with `image/`; JPEG, PNG, GIF and WebP are all accepted.
pub proof fn law_avatar_types_are_the_image_attachments(m: Seq<char>)
    ensures
        avatar_mime_allowed(m) <==> attachment_mime_allowed(m) && crate::text::has_prefix(m, "image/"@),
        avatar_mime_allowed("image/jpeg"@),
        avatar_mime_allowed("image/png"@),
        avatar_mime_allowed("image/gif"@),
        avatar_mime_allowed("image/webp"@),
        !avatar_mime_allowed("application/pdf"@),
{
    reveal_strlit("image/");
    reveal_strlit("image/jpeg");
    reveal_strlit("image/png");
    reveal_strlit("image/gif");
    reveal_strlit("image/webp");
    reveal_strlit("application/pdf");
    let pre = "image/"@;
    assert("image/jpeg"@.take(6) =~= pre);
    assert("image/png"@.take(6) =~= pre);
    assert("image/gif"@.take(6) =~= pre);
    assert("image/webp"@.take(6) =~= pre);
    assert("application/pdf"@.take(6)[0] != pre[0]);
    assert("application/pdf"@ != "image/jpeg"@ && "application/pdf"@ != "image/png"@);
    assert("application/pdf"@ != "image/gif"@ && "application/pdf"@ != "image/webp"@);
}

/// The content type `infer` recognizes from some bytes, if any.
pub uninterp spec fn infer_mime_spec(data: Seq<u8>) -> Option<Seq<char>>;

/// The content type recognized from the leading bytes (`infer`'s
/// `Infer::new().get(..)` and `Type::mime_type`).
/// Claimed: the result is `infer_mime_spec` of the bytes; the matcher
/// table itself is not restated.
#[verifier::external_body]
fn detect_mime(data: &[u8]) -> (r: Option<String>)
    ensures
        match infer_mime_spec(data@) {
            Some(m) => r is Some && r->0@ == m,
            None => r is None,
        },
{
    match infer::Infer::new().get(data) {
        Some(kind) => Some(kind.mime_type().to_string()),
        None => None,
    }
}

/// Whether the bytes are UTF-8 text containing the EICAR test string.
pub open spec fn carries_eicar(data: Seq<u8>) -> bool {
    valid_utf8(data) && first_occ(decode_utf8(data), EICAR_MARKER@) is Some
}

/// Whether an upload is the malware test file (UTF-8 text containing the
/// EICAR string).
pub fn is_eicar(data: &[u8]) -> (r: bool)
    ensures
        r == carries_eicar(data@),
{
    match utf8_string(vstd::slice::slice_to_vec(data)) {
        None => false,
        Some(text) => {
            let v = chars_of(text.as_str());
            let marker = chars_of(EICAR_MARKER);
            find_first(&v, &marker).is_some()
        },
    }
}

/// `what exceeds max size of {max} bytes`.
pub open spec fn too_large_msg(what: Seq<char>, max: nat) -> Seq<char> {
    what + " exceeds max size of "@ + decimal(max) + " bytes"@
}

/// `what content type mismatch: declared={declared} detected={detected}`.
pub open spec fn mismatch_msg(what: Seq<char>, declared: Seq<char>, detected: Seq<char>) -> Seq<char> {
    what + " content type mismatch: declared="@ + declared + " detected="@ + detected
}

/// Why an attachment upload is refused, if it is: too large, a declared
/// type not allowed, a type not recognized from the bytes, or a declared
/// type other than the recognized one (checked in that order).
pub open spec fn attachment_refusal(
    size: nat,
    max: nat,
    declared: Seq<char>,
    detected: Option<Seq<char>>,
) -> Option<Seq<char>> {
    if size > max {
        Some(too_large_msg("attachment"@, max))
    } else if !attachment_mime_allowed(declared) {
        Some("mime type not allowed: "@ + declared)
    } else {
        match detected {
            None => Some("attachment type not recognized"@),
            Some(d) => if d != declared {
                Some(mismatch_msg("attachment"@, declared, d))
            } else {
                None
            },
        }
    }
}

/// Why an avatar upload is refused, if it is: empty, too large, not an
/// allowed image type, not recognized, or of another type than declared.
pub open spec fn avatar_refusal(
    size: nat,
    max: nat,
    declared: Seq<char>,
    detected: Option<Seq<char>>,
) -> Option<Seq<char>> {
    if size == 0 {
        Some("avatar is empty"@)
    } else if size > max {
        Some(too_large_msg("avatar"@, max))
    } else if !avatar_mime_allowed(declared) {
        Some("avatar must be an image (got "@ + declared + ")"@)
    } else {
        match detected {
            None => Some("avatar type not recognized"@),
            Some(d) => if d != declared {
                Some(mismatch_msg("avatar"@, declared, d))
            } else {
                None
            },
        }
    }
}

fn text_of(parts: &Vec<Vec<char>>) -> (r: String)
    ensures
        r@ == parts@.fold_left(Seq::<char>::empty(), |acc: Seq<char>, p: Vec<char>| acc + p@),
{
    let mut out: Vec<char> = Vec::new();
    let mut i: usize = 0;
    while i < parts.len()
        invariant
            i <= parts.len(),
            out@ == parts@.take(i as int).fold_left(
                Seq::<char>::empty(),
                |acc: Seq<char>, p: Vec<char>| acc + p@,
            ),
        decreases parts.len() - i,
    {
        out = concat_chars(&out, &parts[i]);
        assert(parts@.take(i + 1).drop_last() =~= parts@.take(i as int));
        i = i + 1;
    }
    assert(parts@.take(parts.len() as int) =~= parts@);
    string_of(&out)
}

fn too_large_error(what: &str, max: u64) -> (r: AppError)
    ensures
        is_validation(r, too_large_msg(what@, max as nat)),
{
    let parts = vec![chars_of(what), chars_of(" exceeds max size of "), decimal_chars(max), chars_of(" bytes")];
    proof {
        reveal_with_fuel(Seq::fold_left, 5);
        assert(parts@.drop_last().drop_last().drop_last().drop_last() =~= Seq::<Vec<char>>::empty());
    }
    AppError::Validation(text_of(&parts))
}

fn mismatch_error(what: &str, declared: &str, detected: &str) -> (r: AppError)
    ensures
        is_validation(r, mismatch_msg(what@, declared@, detected@)),
{
    let parts = vec![
        chars_of(what),
        chars_of(" content type mismatch: declared="),
        chars_of(declared),
        chars_of(" detected="),
        chars_of(detected),
    ];
    proof {
        reveal_with_fuel(Seq::fold_left, 6);
        assert(parts@.drop_last().drop_last().drop_last().drop_last().drop_last()
            =~= Seq::<Vec<char>>::empty());
    }
    AppError::Validation(text_of(&parts))
}

fn concat_str(a: &str, b: &str) -> (r: String)
    ensures
        r@ == a@ + b@,
{
    string_of(&concat_chars(&chars_of(a), &chars_of(b)))
}

/// Checks a declared attachment type against the allowed types.
pub fn validate_attachment_mime(mime: &str) -> (r: AppResult<()>)
    ensures
        r is Ok <==> attachment_mime_allowed(mime@),
        r is Err ==> is_validation(r->Err_0, "mime type not allowed: "@ + mime@),
{
    if str_is(mime, "image/jpeg") || str_is(mime, "image/png") || str_is(mime, "image/gif")
        || str_is(mime, "image/webp") || str_is(mime, "application/pdf") {
        Ok(())
    } else {
        Err(AppError::Validation(concat_str("mime type not allowed: ", mime)))
    }
}

/// Checks a declared avatar type: it must be an allowed image type.
pub fn validate_avatar_mime(mime: &str) -> (r: AppResult<()>)
    ensures
        r is Ok <==> avatar_mime_allowed(mime@),
        r is Err ==> is_validation(r->Err_0, "avatar must be an image (got "@ + mime@ + ")"@),
{
    if str_is(mime, "image/jpeg") || str_is(mime, "image/png") || str_is(mime, "image/gif")
        || str_is(mime, "image/webp") {
        Ok(())
    } else {
        let t = concat_str("avatar must be an image (got ", mime);
        let msg = concat_str(t.as_str(), ")");
        Err(AppError::Validation(msg))
    }
}

/// Checks an attachment upload of `size` bytes declared as `declared`,
/// given the type recognized from its bytes.
pub fn check_attachment(size: u64, max_bytes: u64, declared: &str, detected: Option<&str>) -> (r:
    AppResult<()>)
    ensures
        match attachment_refusal(size as nat, max_bytes as nat, declared@, opt_str_view(detected)) {
            Some(msg) => r is Err && is_validation(r->Err_0, msg),
            None => r is Ok,
        },
{
    if size > max_bytes {
        return Err(too_large_error("attachment", max_bytes));
    }
    match validate_attachment_mime(declared) {
        Ok(()) => {},
        Err(e) => {
            return Err(e);
        },
    }
    match detected {
        None => Err(AppError::Validation(owned("attachment type not recognized"))),
        Some(d) => if !str_is(declared, d) {
            Err(mismatch_error("attachment", declared, d))
        } else {
            Ok(())
        },
    }
}

/// Checks an avatar upload of `size` bytes declared as `declared`, given
/// the type recognized from its bytes.
pub fn check_avatar(size: u64, max_bytes: u64, declared: &str, detected: Option<&str>) -> (r:
    AppResult<()>)
    ensures
        match avatar_refusal(size as nat, max_bytes as nat, declared@, opt_str_view(detected)) {
            Some(msg) => r is Err && is_validation(r->Err_0, msg),
            None => r is Ok,
        },
{
    if size == 0 {
        return Err(AppError::Validation(owned("avatar is empty")));
    }
    if size > max_bytes {
        return Err(too_large_error("avatar", max_bytes));
    }
    match validate_avatar_mime(declared) {
        Ok(()) => {},
        Err(e) => {
            return Err(e);
        },
    }
    match detected {
        None => Err(AppError::Validation(owned("avatar type not recognized"))),
        Some(d) => if !str_is(declared, d) {
            Err(mismatch_error("avatar", declared, d))
        } else {
            Ok(())
        },
    }
}

/// Where an accepted attachment goes.
#[derive(Clone, Copy, Debug, PartialEq, Eq, Structural)]
pub enum AttachmentDisposition {
    /// Stored with the attachments.
    Store,
    /// Set aside (encrypted) and the upload refused as flagged.
    Quarantine,
}

/// Decides an attachment upload from its bytes: refused as
/// `attachment_refusal` says for the type recognized from them;
/// otherwise quarantined when quarantining is on and the bytes carry the
/// test marker, else stored.
pub fn attachment_disposition(
    data: &[u8],
    declared: &str,
    max_bytes: u64,
    quarantine_suspicious: bool,
) -> (r: AppResult<AttachmentDisposition>)
    ensures
        match attachment_refusal(data@.len(), max_bytes as nat, declared@, infer_mime_spec(data@)) {
            Some(msg) => r is Err && is_validation(r->Err_0, msg),
            None => r is Ok && (r->Ok_0 is Quarantine <==> quarantine_suspicious && carries_eicar(
                data@,
            )),
        },
{
    let size = data.len() as u64;
    let detected = detect_mime(data);
    let checked = match &detected {
        Some(d) => check_attachment(size, max_bytes, declared, Some(d.as_str())),
        None => check_attachment(size, max_bytes, declared, None),
    };
    match checked {
        Err(e) => Err(e),
        Ok(()) => if quarantine_suspicious && is_eicar(data) {
            Ok(AttachmentDisposition::Quarantine)
        } else {
            Ok(AttachmentDisposition::Store)
        },
    }
}

/// Checks an avatar upload from its bytes, as `avatar_refusal` says for
/// the type recognized from them.
pub fn avatar_upload_check(data: &[u8], declared: &str, max_bytes: u64) -> (r: AppResult<()>)
    ensures
        match avatar_refusal(data@.len(), max_bytes as nat, declared@, infer_mime_spec(data@)) {
            Some(msg) => r is Err && is_validation(r->Err_0, msg),
            None => r is Ok,
        },
{
    let size = data.len() as u64;
    let detected = detect_mime(data);
    match &detected {
        Some(d) => check_avatar(size, max_bytes, declared, Some(d.as_str())),
        None => check_avatar(size, max_bytes, declared, None),
    }
}

/// The answer to an upload that was quarantined.
pub fn flagged_error() -> (r: AppError)
    ensures
        is_validation(r, "attachment flagged by malware detector"@),
{
    AppError::Validation(owned("attachment flagged by malware detector"))
}

/// A file-name character made safe: path separators and NUL become `_`.
pub open spec fn safe_char(c: char) -> char {
    if c == '/' || c == '\\' || c == '\0' {
        '_'
    } else {
        c
    }
}

/// The file name with unsafe characters replaced, or `upload.bin` when empty.
pub open spec fn sanitized_name(name: Seq<char>) -> Seq<char> {
    if name.len() == 0 {
        "upload.bin"@
    } else {
        Seq::new(name.len(), |i: int| safe_char(name[i]))
    }
}

fn sanitize(name: &str) -> (r: Vec<char>)
    ensures
        r@ == sanitized_name(name@),
{
    let v = chars_of(name);
    if v.len() == 0 {
        return chars_of("upload.bin");
    }
    let mut out: Vec<char> = Vec::new();
    let mut i: usize = 0;
    while i < v.len()
        invariant
            i <= v.len(),
            out@ =~= Seq::new(i as nat, |j: int| safe_char(v@[j])),
        decreases v.len() - i,
    {
        let c = v[i];
        let d = if c == '/' || c == '\\' || c == '\0' {
            '_'
        } else {
            c
        };
        out.push(d);
        i = i + 1;
    }
    out
}

/// How many leading characters of `s` fit in `max` bytes, and their bytes.
fn fit_prefix(s: &Vec<char>, max: usize) -> (r: (usize, usize))
    ensures
        r.0 <= s.len(),
        r.1 == utf8_len(s@.take(r.0 as int)),
        r.1 <= max,
        r.0 < s.len() ==> utf8_len(s@.take(r.0 + 1)) > max,
{
    let mut i: usize = 0;
    let mut bytes: usize = 0;
    assert(s@.take(0) =~= Seq::<char>::empty());
    while i < s.len()
        invariant
            i <= s.len(),
            bytes == utf8_len(s@.take(i as int)),
            bytes <= max,
        decreases s.len() - i,
    {
        let w = char_width_of(s[i]);
        proof {
            assert(s@.take(i + 1) =~= s@.take(i as int).push(s@[i as int]));
            lemma_utf8_len_push(s@.take(i as int), s@[i as int]);
        }
        if w > max - bytes {
            return (i, bytes);
        }
        bytes = bytes + w;
        i = i + 1;
    }
    (i, bytes)
}

proof fn lemma_cut_whole(s: Seq<char>, k: int, max: nat)
    requires
        0 <= k < s.len(),
        utf8_len(s.take(k + 1)) > max,
    ensures
        utf8_len(s) > max,
{
    assert(s.take(s.len() as int) =~= s);
    if k + 1 < s.len() {
        lemma_utf8_len_take_strict(s, k + 1, s.len() as int);
    }
}

/// The stored file name: unsafe characters replaced by `_`, `upload.bin`
/// for an empty name, cut to the longest run of whole characters that fits
/// in 200 bytes.
pub fn normalize_filename(name: &str) -> (r: String)
    ensures
        utf8_len(sanitized_name(name@)) <= 200 ==> r@ == sanitized_name(name@),
        utf8_len(sanitized_name(name@)) > 200 ==> r@.len() < sanitized_name(name@).len() && r@
            == sanitized_name(name@).take(r@.len() as int) && utf8_len(
            sanitized_name(name@).take(r@.len() + 1int),
        ) > 200,
        r@.len() > 0,
        utf8_len(r@) <= 200,
        forall|i: int|
            0 <= i < r@.len() ==> #[trigger] r@[i] != '/' && r@[i] != '\\' && r@[i] != '\0',
{
    let s = sanitize(name);
    proof {
        reveal_strlit("upload.bin");
    }
    assert(forall|i: int| 0 <= i < s@.len() ==> #[trigger] s@[i] != '/' && s@[i] != '\\' && s@[i] != '\0');
    let (k, bytes) = fit_prefix(&s, MAX_FILENAME_BYTES);
    let out = take_chars(&s, k);
    proof {
        if k == 0 {
            assert(s@.take(1) =~= seq![s@[0]]);
            crate::text::lemma_utf8_len_char(s@[0]);
        }
    }
    if k == s.len() {
        assert(s@.take(k as int) =~= s@);
    } else {
        proof {
            lemma_cut_whole(s@, k as int, 200);
        }
    }
    string_of(&out)
}

/// The file part of an upload form as read so far: its name, declared
/// type and bytes.
#[derive(Clone, Debug)]
pub struct UploadForm {
    pub filename: String,
    pub mime_type: String,
    pub data: Option<Vec<u8>>,
}

/// Whether a form field carries the uploaded file.
pub fn is_file_field(name: &str) -> (r: bool)
    ensures
        r == (name@ == "file"@),
{
    str_is(name, "file")
}

impl UploadForm {
    /// An empty form: name `upload`, type `application/octet-stream`, no bytes.
    pub fn new() -> (f: UploadForm)
        ensures
            f.filename@ == "upload"@,
            f.mime_type@ == "application/octet-stream"@,
            f.data is None,
    {
        UploadForm {
            filename: owned("upload"),
            mime_type: owned("application/octet-stream"),
            data: None,
        }
    }

    /// Takes a `file` field: its bytes replace earlier ones, and its name
    /// and type replace the earlier ones when it has them.
    pub fn accept_file(&mut self, file_name: Option<String>, content_type: Option<String>, data: Vec<u8>)
        ensures
            final(self).filename == match file_name {
                Some(n) => n,
                None => old(self).filename,
            },
            final(self).mime_type == match content_type {
                Some(t) => t,
                None => old(self).mime_type,
            },
            final(self).data == Some(data),
    {
        if let Some(n) = file_name {
            self.filename = n;
        }
        if let Some(t) = content_type {
            self.mime_type = t;
        }
        self.data = Some(data);
    }

    /// The file name, declared type and bytes; a form without a file is refused.
    pub fn finish(self) -> (r: AppResult<(String, String, Vec<u8>)>)
        ensures
            self.data is None ==> r is Err && is_validation(r->Err_0, "file is required"@),
            match self.data {
                Some(d) => r == Ok::<(String, String, Vec<u8>), AppError>((self.filename, self.mime_type, d)),
                None => true,
            },
    {
        match self.data {
            Some(d) => Ok((self.filename, self.mime_type, d)),
            None => Err(AppError::Validation(owned("file is required"))),
        }
    }
}

} // verus!
