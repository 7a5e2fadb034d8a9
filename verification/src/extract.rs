//! The attachment extraction pass, and its wiring for each remote operation
//! with file-bearing fields.
//!
//! A pass walks the operation's file fields in a fixed order, moves every
//! pending file out into an ordered list of named binary parts, and leaves an
//! `attach://<name>` reference in each visited field.  Flat operations give
//! each field a fixed name; batch operations allocate `file<k>` names by
//! index.

use vstd::prelude::*;
use vstd::string::StringExecFns;

use crate::input_file::{FileUpload, FileUploadView, InputFile, InputFileView};
use crate::names::{attach_token, indexed_name};

verus! {

/// The value of a field after a pass that would call its pending file `name`:
/// a reference is untouched, a pending file becomes `attach://<name>`.
pub open spec fn rewritten(u: FileUpload, name: Seq<char>) -> FileUploadView {
    match u {
        FileUpload::String(reference) => FileUploadView::Reference(reference@),
        FileUpload::InputFile(_) => FileUploadView::Reference(attach_token(name)),
    }
}

/// [`rewritten`] on an optional field: an absent field stays absent.
pub open spec fn rewritten_opt(o: Option<FileUpload>, name: Seq<char>) -> Option<FileUploadView> {
    match o {
        Some(u) => Some(rewritten(u, name)),
        None => None,
    }
}

/// The value of an optional field, field by field.
pub open spec fn field_view_opt(o: Option<FileUpload>) -> Option<FileUploadView> {
    match o {
        Some(u) => Some(u@),
        None => None,
    }
}

/// The binary parts one field contributes under the name `name`: none for a
/// reference, one named part for a pending file.
pub open spec fn parts_of(u: FileUpload, name: Seq<char>) -> Seq<(Seq<char>, InputFileView)> {
    match u {
        FileUpload::String(_) => Seq::empty(),
        FileUpload::InputFile(file) => seq![(name, file@)],
    }
}

/// [`parts_of`] on an optional field: an absent field contributes nothing.
pub open spec fn parts_of_opt(o: Option<FileUpload>, name: Seq<char>) -> Seq<
    (Seq<char>, InputFileView),
> {
    match o {
        Some(u) => parts_of(u, name),
        None => Seq::empty(),
    }
}

/// The produced part list carries exactly the expected names and files, in
/// the expected order.
pub open spec fn parts_match(
    files: Seq<(String, InputFile)>,
    expected: Seq<(Seq<char>, InputFileView)>,
) -> bool {
    &&& files.len() == expected.len()
    &&& forall|k: int|
        0 <= k < files.len() ==> (#[trigger] files[k]).0@ == expected[k].0 && files[k].1@
            == expected[k].1
}

/// `files1` is `files0` with exactly the parts `expected` appended.
pub open spec fn extends_with(
    files0: Seq<(String, InputFile)>,
    files1: Seq<(String, InputFile)>,
    expected: Seq<(Seq<char>, InputFileView)>,
) -> bool {
    &&& files1.len() == files0.len() + expected.len()
    &&& forall|k: int| 0 <= k < files0.len() ==> files1[k] == files0[k]
    &&& parts_match(files1.skip(files0.len() as int), expected)
}

/// Two extension steps compose into one with the expected parts concatenated.
proof fn lemma_extends_concat(
    files0: Seq<(String, InputFile)>,
    files1: Seq<(String, InputFile)>,
    files2: Seq<(String, InputFile)>,
    expected1: Seq<(Seq<char>, InputFileView)>,
    expected2: Seq<(Seq<char>, InputFileView)>,
)
    requires
        extends_with(files0, files1, expected1),
        extends_with(files1, files2, expected2),
    ensures
        extends_with(files0, files2, expected1 + expected2),
{
    let n0 = files0.len() as int;
    let n1 = files1.len() as int;
    assert forall|k: int| 0 <= k < (expected1 + expected2).len() implies {
        &&& (#[trigger] files2.skip(n0)[k]).0@ == (expected1 + expected2)[k].0
        &&& files2.skip(n0)[k].1@ == (expected1 + expected2)[k].1
    } by {
        if k < expected1.len() {
            assert(files2[n0 + k] == files1[n0 + k]);
            assert(files1.skip(n0)[k] == files1[n0 + k]);
        } else {
            assert(files2.skip(n1)[k - expected1.len()] == files2[n0 + k]);
        }
    }
}

/// An extension of the empty list is the expected list itself.
proof fn lemma_extends_from_empty(
    files: Seq<(String, InputFile)>,
    expected: Seq<(Seq<char>, InputFileView)>,
)
    requires
        extends_with(Seq::empty(), files, expected),
    ensures
        parts_match(files, expected),
{
    assert(files.skip(0) =~= files);
}

/// Visit one field under a fixed name: a pending file moves into `files`
/// under `name`, a reference field is untouched.
pub fn visit_field(field: &mut FileUpload, name: &str, files: &mut Vec<(String, InputFile)>)
    ensures
        final(field)@ == rewritten(*old(field), name@),
        extends_with(old(files)@, final(files)@, parts_of(*old(field), name@)),
{
    match field.replace_attach(name) {
        Some(file) => {
            let part_name = String::from_str(name);
            files.push((part_name, file));
            proof {
                assert(final(files)@.skip(old(files)@.len() as int) =~= seq![
                    (part_name, file),
                ]);
            }
        },
        None => {
            proof {
                assert(final(files)@.skip(old(files)@.len() as int) =~= Seq::<
                    (String, InputFile),
                >::empty());
            }
        },
    }
}

/// Wiring of "send a photo": the one field `photo`, under its own name.
pub fn extract_send_photo(photo: &mut FileUpload) -> (files: Vec<(String, InputFile)>)
    ensures
        final(photo)@ == rewritten(*old(photo), "photo"@),
        parts_match(files@, parts_of(*old(photo), "photo"@)),
{
    let mut files: Vec<(String, InputFile)> = Vec::new();
    visit_field(photo, "photo", &mut files);
    proof {
        lemma_extends_from_empty(files@, parts_of(*old(photo), "photo"@));
    }
    files
}

/// Wiring of "send an audio file": `audio`, then the optional `thumbnail`,
/// each under its own fixed name; both fields are always visited.
pub fn extract_send_audio(audio: &mut FileUpload, thumbnail: &mut Option<FileUpload>) -> (files:
    Vec<(String, InputFile)>)
    ensures
        final(audio)@ == rewritten(*old(audio), "audio"@),
        field_view_opt(*final(thumbnail)) == rewritten_opt(*old(thumbnail), "thumbnail"@),
        parts_match(
            files@,
            parts_of(*old(audio), "audio"@) + parts_of_opt(*old(thumbnail), "thumbnail"@),
        ),
{
    let mut files: Vec<(String, InputFile)> = Vec::new();
    visit_field(audio, "audio", &mut files);
    let ghost mid = files@;
    visit_field_opt(thumbnail, "thumbnail", &mut files);
    proof {
        lemma_extends_concat(
            Seq::empty(),
            mid,
            files@,
            parts_of(*old(audio), "audio"@),
            parts_of_opt(*old(thumbnail), "thumbnail"@),
        );
        lemma_extends_from_empty(
            files@,
            parts_of(*old(audio), "audio"@) + parts_of_opt(*old(thumbnail), "thumbnail"@),
        );
    }
    files
}

/// Wiring of "send a document": `document`, then the optional `thumbnail`.
pub fn extract_send_document(document: &mut FileUpload, thumbnail: &mut Option<FileUpload>) -> (files:
    Vec<(String, InputFile)>)
    ensures
        final(document)@ == rewritten(*old(document), "document"@),
        field_view_opt(*final(thumbnail)) == rewritten_opt(*old(thumbnail), "thumbnail"@),
        parts_match(
            files@,
            parts_of(*old(document), "document"@) + parts_of_opt(*old(thumbnail), "thumbnail"@),
        ),
{
    let mut files: Vec<(String, InputFile)> = Vec::new();
    visit_field(document, "document", &mut files);
    let ghost mid = files@;
    visit_field_opt(thumbnail, "thumbnail", &mut files);
    proof {
        lemma_extends_concat(
            Seq::empty(),
            mid,
            files@,
            parts_of(*old(document), "document"@),
            parts_of_opt(*old(thumbnail), "thumbnail"@),
        );
        lemma_extends_from_empty(
            files@,
            parts_of(*old(document), "document"@) + parts_of_opt(*old(thumbnail), "thumbnail"@),
        );
    }
    files
}

/// Wiring of "send a video": `video`, then the optional `cover` and
/// `thumbnail`, each under its own fixed name; all three fields are visited
/// even when an earlier one yields nothing.
pub fn extract_send_video(
    video: &mut FileUpload,
    cover: &mut Option<FileUpload>,
    thumbnail: &mut Option<FileUpload>,
) -> (files: Vec<(String, InputFile)>)
    ensures
        final(video)@ == rewritten(*old(video), "video"@),
        field_view_opt(*final(cover)) == rewritten_opt(*old(cover), "cover"@),
        field_view_opt(*final(thumbnail)) == rewritten_opt(*old(thumbnail), "thumbnail"@),
        parts_match(
            files@,
            parts_of(*old(video), "video"@) + parts_of_opt(*old(cover), "cover"@) + parts_of_opt(
                *old(thumbnail),
                "thumbnail"@,
            ),
        ),
{
    let mut files: Vec<(String, InputFile)> = Vec::new();
    visit_field(video, "video", &mut files);
    let ghost first = files@;
    visit_field_opt(cover, "cover", &mut files);
    let ghost second = files@;
    visit_field_opt(thumbnail, "thumbnail", &mut files);
    proof {
        lemma_extends_concat(
            Seq::empty(),
            first,
            second,
            parts_of(*old(video), "video"@),
            parts_of_opt(*old(cover), "cover"@),
        );
        lemma_extends_concat(
            Seq::empty(),
            second,
            files@,
            parts_of(*old(video), "video"@) + parts_of_opt(*old(cover), "cover"@),
            parts_of_opt(*old(thumbnail), "thumbnail"@),
        );
        lemma_extends_from_empty(
            files@,
            parts_of(*old(video), "video"@) + parts_of_opt(*old(cover), "cover"@) + parts_of_opt(
                *old(thumbnail),
                "thumbnail"@,
            ),
        );
    }
    files
}

/// Wiring of "send an animation": `animation`, then the optional `thumbnail`.
pub fn extract_send_animation(
    animation: &mut FileUpload,
    thumbnail: &mut Option<FileUpload>,
) -> (files: Vec<(String, InputFile)>)
    ensures
        final(animation)@ == rewritten(*old(animation), "animation"@),
        field_view_opt(*final(thumbnail)) == rewritten_opt(*old(thumbnail), "thumbnail"@),
        parts_match(
            files@,
            parts_of(*old(animation), "animation"@) + parts_of_opt(*old(thumbnail), "thumbnail"@),
        ),
{
    let mut files: Vec<(String, InputFile)> = Vec::new();
    visit_field(animation, "animation", &mut files);
    let ghost mid = files@;
    visit_field_opt(thumbnail, "thumbnail", &mut files);
    proof {
        lemma_extends_concat(
            Seq::empty(),
            mid,
            files@,
            parts_of(*old(animation), "animation"@),
            parts_of_opt(*old(thumbnail), "thumbnail"@),
        );
        lemma_extends_from_empty(
            files@,
            parts_of(*old(animation), "animation"@) + parts_of_opt(*old(thumbnail), "thumbnail"@),
        );
    }
    files
}

/// Wiring of "send a voice message": the one field `voice`.
pub fn extract_send_voice(voice: &mut FileUpload) -> (files: Vec<(String, InputFile)>)
    ensures
        final(voice)@ == rewritten(*old(voice), "voice"@),
        parts_match(files@, parts_of(*old(voice), "voice"@)),
{
    let mut files: Vec<(String, InputFile)> = Vec::new();
    visit_field(voice, "voice", &mut files);
    proof {
        lemma_extends_from_empty(files@, parts_of(*old(voice), "voice"@));
    }
    files
}

/// Wiring of "send a video note": `video_note`, then the optional `thumbnail`.
pub fn extract_send_video_note(
    video_note: &mut FileUpload,
    thumbnail: &mut Option<FileUpload>,
) -> (files: Vec<(String, InputFile)>)
    ensures
        final(video_note)@ == rewritten(*old(video_note), "video_note"@),
        field_view_opt(*final(thumbnail)) == rewritten_opt(*old(thumbnail), "thumbnail"@),
        parts_match(
            files@,
            parts_of(*old(video_note), "video_note"@) + parts_of_opt(
                *old(thumbnail),
                "thumbnail"@,
            ),
        ),
{
    let mut files: Vec<(String, InputFile)> = Vec::new();
    visit_field(video_note, "video_note", &mut files);
    let ghost mid = files@;
    visit_field_opt(thumbnail, "thumbnail", &mut files);
    proof {
        lemma_extends_concat(
            Seq::empty(),
            mid,
            files@,
            parts_of(*old(video_note), "video_note"@),
            parts_of_opt(*old(thumbnail), "thumbnail"@),
        );
        lemma_extends_from_empty(
            files@,
            parts_of(*old(video_note), "video_note"@) + parts_of_opt(
                *old(thumbnail),
                "thumbnail"@,
            ),
        );
    }
    files
}

/// Wiring of "send a sticker": the one field `sticker`.
pub fn extract_send_sticker(sticker: &mut FileUpload) -> (files: Vec<(String, InputFile)>)
    ensures
        final(sticker)@ == rewritten(*old(sticker), "sticker"@),
        parts_match(files@, parts_of(*old(sticker), "sticker"@)),
{
    let mut files: Vec<(String, InputFile)> = Vec::new();
    visit_field(sticker, "sticker", &mut files);
    proof {
        lemma_extends_from_empty(files@, parts_of(*old(sticker), "sticker"@));
    }
    files
}

/// Wiring of "set a sticker set's thumbnail": the one optional `thumbnail`.
pub fn extract_set_sticker_set_thumbnail(thumbnail: &mut Option<FileUpload>) -> (files: Vec<
    (String, InputFile),
>)
    ensures
        field_view_opt(*final(thumbnail)) == rewritten_opt(*old(thumbnail), "thumbnail"@),
        parts_match(files@, parts_of_opt(*old(thumbnail), "thumbnail"@)),
{
    let mut files: Vec<(String, InputFile)> = Vec::new();
    visit_field_opt(thumbnail, "thumbnail", &mut files);
    proof {
        lemma_extends_from_empty(files@, parts_of_opt(*old(thumbnail), "thumbnail"@));
    }
    files
}

/// Wiring of "add a sticker to a set": the nested `sticker` field, under the
/// fixed name `sticker_upload`.
pub fn extract_add_sticker_to_set(sticker: &mut FileUpload) -> (files: Vec<(String, InputFile)>)
    ensures
        final(sticker)@ == rewritten(*old(sticker), "sticker_upload"@),
        parts_match(files@, parts_of(*old(sticker), "sticker_upload"@)),
{
    let mut files: Vec<(String, InputFile)> = Vec::new();
    visit_field(sticker, "sticker_upload", &mut files);
    proof {
        lemma_extends_from_empty(files@, parts_of(*old(sticker), "sticker_upload"@));
    }
    files
}

/// [`visit_field`] on an optional field.
pub fn visit_field_opt(
    field: &mut Option<FileUpload>,
    name: &str,
    files: &mut Vec<(String, InputFile)>,
)
    ensures
        field_view_opt(*final(field)) == rewritten_opt(*old(field), name@),
        extends_with(old(files)@, final(files)@, parts_of_opt(*old(field), name@)),
{
    match field {
        Some(upload) => {
            visit_field(upload, name, files);
        },
        None => {
            proof {
                assert(final(files)@.skip(old(files)@.len() as int) =~= Seq::<
                    (String, InputFile),
                >::empty());
            }
        },
    }
}

} // verus!

verus! {

/// The media kinds an existing message's media can be replaced with, with
/// their file-bearing fields.  Exactly one branch is active per call.
pub enum InputMedia {
    Animation { media: FileUpload, thumbnail: Option<FileUpload> },
    Document { media: FileUpload, thumbnail: Option<FileUpload> },
    Audio { media: FileUpload, thumbnail: Option<FileUpload> },
    Photo { media: FileUpload },
    Video { media: FileUpload, cover: Option<FileUpload>, thumbnail: Option<FileUpload> },
}

/// The mathematical value of an [`InputMedia`].
pub enum InputMediaView {
    Animation { media: FileUploadView, thumbnail: Option<FileUploadView> },
    Document { media: FileUploadView, thumbnail: Option<FileUploadView> },
    Audio { media: FileUploadView, thumbnail: Option<FileUploadView> },
    Photo { media: FileUploadView },
    Video {
        media: FileUploadView,
        cover: Option<FileUploadView>,
        thumbnail: Option<FileUploadView>,
    },
}

impl View for InputMedia {
    type V = InputMediaView;

    open spec fn view(&self) -> InputMediaView {
        match self {
            InputMedia::Animation { media, thumbnail } => InputMediaView::Animation {
                media: media@,
                thumbnail: field_view_opt(*thumbnail),
            },
            InputMedia::Document { media, thumbnail } => InputMediaView::Document {
                media: media@,
                thumbnail: field_view_opt(*thumbnail),
            },
            InputMedia::Audio { media, thumbnail } => InputMediaView::Audio {
                media: media@,
                thumbnail: field_view_opt(*thumbnail),
            },
            InputMedia::Photo { media } => InputMediaView::Photo { media: media@ },
            InputMedia::Video { media, cover, thumbnail } => InputMediaView::Video {
                media: media@,
                cover: field_view_opt(*cover),
                thumbnail: field_view_opt(*thumbnail),
            },
        }
    }
}

/// The media value after the "edit message media" pass: only the active
/// branch's fields are visited, each under its fixed branch-specific name.
pub open spec fn edit_media_rewritten(m: InputMedia) -> InputMediaView {
    match m {
        InputMedia::Animation { media, thumbnail } => InputMediaView::Animation {
            media: rewritten(media, "animation_media"@),
            thumbnail: rewritten_opt(thumbnail, "animation_thumbnail"@),
        },
        InputMedia::Document { media, thumbnail } => InputMediaView::Document {
            media: rewritten(media, "document_media"@),
            thumbnail: rewritten_opt(thumbnail, "document_thumbnail"@),
        },
        InputMedia::Audio { media, thumbnail } => InputMediaView::Audio {
            media: rewritten(media, "audio_media"@),
            thumbnail: rewritten_opt(thumbnail, "audio_thumbnail"@),
        },
        InputMedia::Photo { media } => InputMediaView::Photo {
            media: rewritten(media, "photo_media"@),
        },
        InputMedia::Video { media, cover, thumbnail } => InputMediaView::Video {
            media: rewritten(media, "video_media"@),
            cover: rewritten_opt(cover, "video_cover"@),
            thumbnail: rewritten_opt(thumbnail, "video_thumbnail"@),
        },
    }
}

/// The binary parts the "edit message media" pass produces: the active
/// branch's pending files, primary field first.
pub open spec fn edit_media_parts(m: InputMedia) -> Seq<(Seq<char>, InputFileView)> {
    match m {
        InputMedia::Animation { media, thumbnail } => parts_of(media, "animation_media"@)
            + parts_of_opt(thumbnail, "animation_thumbnail"@),
        InputMedia::Document { media, thumbnail } => parts_of(media, "document_media"@)
            + parts_of_opt(thumbnail, "document_thumbnail"@),
        InputMedia::Audio { media, thumbnail } => parts_of(media, "audio_media"@) + parts_of_opt(
            thumbnail,
            "audio_thumbnail"@,
        ),
        InputMedia::Photo { media } => parts_of(media, "photo_media"@),
        InputMedia::Video { media, cover, thumbnail } => parts_of(media, "video_media"@)
            + parts_of_opt(cover, "video_cover"@) + parts_of_opt(thumbnail, "video_thumbnail"@),
    }
}

/// Wiring of "edit a message's media": dispatch on the active media kind and
/// visit that branch's fields under fixed names.
pub fn extract_edit_message_media(media: &mut InputMedia) -> (files: Vec<(String, InputFile)>)
    ensures
        final(media)@ == edit_media_rewritten(*old(media)),
        parts_match(files@, edit_media_parts(*old(media))),
{
    let mut files: Vec<(String, InputFile)> = Vec::new();
    match media {
        InputMedia::Animation { media: primary, thumbnail } => {
            visit_field(primary, "animation_media", &mut files);
            let ghost mid = files@;
            visit_field_opt(thumbnail, "animation_thumbnail", &mut files);
            proof {
                lemma_extends_concat(
                    Seq::empty(),
                    mid,
                    files@,
                    parts_of(old(media)->Animation_media, "animation_media"@),
                    parts_of_opt(old(media)->Animation_thumbnail, "animation_thumbnail"@),
                );
            }
        },
        InputMedia::Document { media: primary, thumbnail } => {
            visit_field(primary, "document_media", &mut files);
            let ghost mid = files@;
            visit_field_opt(thumbnail, "document_thumbnail", &mut files);
            proof {
                lemma_extends_concat(
                    Seq::empty(),
                    mid,
                    files@,
                    parts_of(old(media)->Document_media, "document_media"@),
                    parts_of_opt(old(media)->Document_thumbnail, "document_thumbnail"@),
                );
            }
        },
        InputMedia::Audio { media: primary, thumbnail } => {
            visit_field(primary, "audio_media", &mut files);
            let ghost mid = files@;
            visit_field_opt(thumbnail, "audio_thumbnail", &mut files);
            proof {
                lemma_extends_concat(
                    Seq::empty(),
                    mid,
                    files@,
                    parts_of(old(media)->Audio_media, "audio_media"@),
                    parts_of_opt(old(media)->Audio_thumbnail, "audio_thumbnail"@),
                );
            }
        },
        InputMedia::Photo { media: primary } => {
            visit_field(primary, "photo_media", &mut files);
        },
        InputMedia::Video { media: primary, cover, thumbnail } => {
            visit_field(primary, "video_media", &mut files);
            let ghost first = files@;
            visit_field_opt(cover, "video_cover", &mut files);
            let ghost second = files@;
            visit_field_opt(thumbnail, "video_thumbnail", &mut files);
            proof {
                lemma_extends_concat(
                    Seq::empty(),
                    first,
                    second,
                    parts_of(old(media)->Video_media, "video_media"@),
                    parts_of_opt(old(media)->Video_cover, "video_cover"@),
                );
                lemma_extends_concat(
                    Seq::empty(),
                    second,
                    files@,
                    parts_of(old(media)->Video_media, "video_media"@) + parts_of_opt(
                        old(media)->Video_cover,
                        "video_cover"@,
                    ),
                    parts_of_opt(old(media)->Video_thumbnail, "video_thumbnail"@),
                );
            }
        },
    }
    proof {
        lemma_extends_from_empty(files@, edit_media_parts(*old(media)));
    }
    files
}

/// The two shapes of a profile photo, each with one mandatory file field.
pub enum InputProfilePhoto {
    Static { photo: FileUpload },
    Animated { animation: FileUpload },
}

/// The mathematical value of an [`InputProfilePhoto`].
pub enum InputProfilePhotoView {
    Static { photo: FileUploadView },
    Animated { animation: FileUploadView },
}

impl View for InputProfilePhoto {
    type V = InputProfilePhotoView;

    open spec fn view(&self) -> InputProfilePhotoView {
        match self {
            InputProfilePhoto::Static { photo } => InputProfilePhotoView::Static { photo: photo@ },
            InputProfilePhoto::Animated { animation } => InputProfilePhotoView::Animated {
                animation: animation@,
            },
        }
    }
}

/// The profile photo after the "set business account profile photo" pass.
pub open spec fn profile_photo_rewritten(p: InputProfilePhoto) -> InputProfilePhotoView {
    match p {
        InputProfilePhoto::Static { photo } => InputProfilePhotoView::Static {
            photo: rewritten(photo, "photo_static"@),
        },
        InputProfilePhoto::Animated { animation } => InputProfilePhotoView::Animated {
            animation: rewritten(animation, "photo_animated"@),
        },
    }
}

/// The binary parts the profile-photo pass produces.
pub open spec fn profile_photo_parts(p: InputProfilePhoto) -> Seq<(Seq<char>, InputFileView)> {
    match p {
        InputProfilePhoto::Static { photo } => parts_of(photo, "photo_static"@),
        InputProfilePhoto::Animated { animation } => parts_of(animation, "photo_animated"@),
    }
}

/// Wiring of "set a business account's profile photo": dispatch on the active
/// shape and visit its one field under a fixed branch-specific name.
pub fn extract_profile_photo(photo: &mut InputProfilePhoto) -> (files: Vec<(String, InputFile)>)
    ensures
        final(photo)@ == profile_photo_rewritten(*old(photo)),
        parts_match(files@, profile_photo_parts(*old(photo))),
{
    let mut files: Vec<(String, InputFile)> = Vec::new();
    match photo {
        InputProfilePhoto::Static { photo: inner } => {
            visit_field(inner, "photo_static", &mut files);
        },
        InputProfilePhoto::Animated { animation } => {
            visit_field(animation, "photo_animated", &mut files);
        },
    }
    proof {
        lemma_extends_from_empty(files@, profile_photo_parts(*old(photo)));
    }
    files
}

/// The two kinds of story content, each with one mandatory file field.
pub enum InputStoryContent {
    Photo { photo: FileUpload },
    Video { video: FileUpload },
}

/// The mathematical value of an [`InputStoryContent`].
pub enum InputStoryContentView {
    Photo { photo: FileUploadView },
    Video { video: FileUploadView },
}

impl View for InputStoryContent {
    type V = InputStoryContentView;

    open spec fn view(&self) -> InputStoryContentView {
        match self {
            InputStoryContent::Photo { photo } => InputStoryContentView::Photo { photo: photo@ },
            InputStoryContent::Video { video } => InputStoryContentView::Video { video: video@ },
        }
    }
}

/// The story content after a "post a story" or "edit a story" pass.
pub open spec fn story_content_rewritten(c: InputStoryContent) -> InputStoryContentView {
    match c {
        InputStoryContent::Photo { photo } => InputStoryContentView::Photo {
            photo: rewritten(photo, "photo_content"@),
        },
        InputStoryContent::Video { video } => InputStoryContentView::Video {
            video: rewritten(video, "video_content"@),
        },
    }
}

/// The binary parts a story pass produces.
pub open spec fn story_content_parts(c: InputStoryContent) -> Seq<(Seq<char>, InputFileView)> {
    match c {
        InputStoryContent::Photo { photo } => parts_of(photo, "photo_content"@),
        InputStoryContent::Video { video } => parts_of(video, "video_content"@),
    }
}

/// Wiring of "post a story" and "edit a story": dispatch on the active
/// content kind and visit its one field under a fixed branch-specific name.
pub fn extract_story_content(content: &mut InputStoryContent) -> (files: Vec<(String, InputFile)>)
    ensures
        final(content)@ == story_content_rewritten(*old(content)),
        parts_match(files@, story_content_parts(*old(content))),
{
    let mut files: Vec<(String, InputFile)> = Vec::new();
    match content {
        InputStoryContent::Photo { photo } => {
            visit_field(photo, "photo_content", &mut files);
        },
        InputStoryContent::Video { video } => {
            visit_field(video, "video_content", &mut files);
        },
    }
    proof {
        lemma_extends_from_empty(files@, story_content_parts(*old(content)));
    }
    files
}

/// Wiring of "set a chat photo": the photo is mandatory and is not wrapped in
/// an upload case, so the single binary part is always produced and the
/// request always takes the multipart path.
pub fn set_chat_photo_parts(photo: &InputFile) -> (files: Vec<(String, InputFile)>)
    ensures
        parts_match(files@, seq![("photo"@, photo@)]),
{
    let mut files: Vec<(String, InputFile)> = Vec::new();
    files.push((String::from_str("photo"), photo.clone()));
    files
}

/// Wiring of "upload a sticker file": like "set a chat photo", the file is
/// mandatory and the multipart path is always taken.
pub fn upload_sticker_file_parts(sticker: &InputFile) -> (files: Vec<(String, InputFile)>)
    ensures
        parts_match(files@, seq![("sticker"@, sticker@)]),
{
    let mut files: Vec<(String, InputFile)> = Vec::new();
    files.push((String::from_str("sticker"), sticker.clone()));
    files
}

/// Which transport path a prepared request takes.
#[derive(Clone, Copy, Debug, PartialEq, Eq, Structural)]
pub enum BodyKind {
    Plain,
    Multipart,
}

/// The dispatch rule for operations with optional files: a request whose pass
/// produced no binary parts is sent as a plain JSON body, any other as a
/// multipart body.
pub fn choose_body_kind(files: &Vec<(String, InputFile)>) -> (k: BodyKind)
    ensures
        k == (if files@.len() == 0 {
            BodyKind::Plain
        } else {
            BodyKind::Multipart
        }),
{
    if files.is_empty() {
        BodyKind::Plain
    } else {
        BodyKind::Multipart
    }
}

} // verus!

verus! {

/// Visit one field under the index-allocated name `file<at>`: a pending file
/// moves into `files` under that name, a reference field is untouched and the
/// index-producing closure handed to the extraction step is never invoked.
pub fn visit_field_at(field: &mut FileUpload, at: usize, files: &mut Vec<(String, InputFile)>)
    ensures
        final(field)@ == rewritten(*old(field), indexed_name(at as nat)),
        extends_with(old(files)@, final(files)@, parts_of(*old(field), indexed_name(at as nat))),
{
    let index = || -> (i: usize)
        ensures
            i == at,
        { at };
    let r = field.replace_attach_dyn(index);
    match r {
        Some(part) => {
            files.push(part);
            proof {
                assert(final(files)@.skip(old(files)@.len() as int) =~= seq![part]);
            }
        },
        None => {
            proof {
                assert(final(files)@.skip(old(files)@.len() as int) =~= Seq::<
                    (String, InputFile),
                >::empty());
            }
        },
    }
}

/// [`visit_field_at`] on an optional field.
pub fn visit_field_at_opt(
    field: &mut Option<FileUpload>,
    at: usize,
    files: &mut Vec<(String, InputFile)>,
)
    ensures
        field_view_opt(*final(field)) == rewritten_opt(*old(field), indexed_name(at as nat)),
        extends_with(
            old(files)@,
            final(files)@,
            parts_of_opt(*old(field), indexed_name(at as nat)),
        ),
{
    match field {
        Some(upload) => {
            visit_field_at(upload, at, files);
        },
        None => {
            proof {
                assert(final(files)@.skip(old(files)@.len() as int) =~= Seq::<
                    (String, InputFile),
                >::empty());
            }
        },
    }
}

/// One item of a media-group batch, with its file-bearing fields.  The
/// primary `media` field is visited first; audio and video items also carry
/// secondary fields.
pub enum MediaGroupInputMedia {
    Audio { media: FileUpload, thumbnail: Option<FileUpload> },
    Document { media: FileUpload },
    Photo { media: FileUpload },
    Video { media: FileUpload, cover: Option<FileUpload>, thumbnail: Option<FileUpload> },
}

/// The mathematical value of a [`MediaGroupInputMedia`].
pub enum MediaGroupItemView {
    Audio { media: FileUploadView, thumbnail: Option<FileUploadView> },
    Document { media: FileUploadView },
    Photo { media: FileUploadView },
    Video {
        media: FileUploadView,
        cover: Option<FileUploadView>,
        thumbnail: Option<FileUploadView>,
    },
}

impl View for MediaGroupInputMedia {
    type V = MediaGroupItemView;

    open spec fn view(&self) -> MediaGroupItemView {
        match self {
            MediaGroupInputMedia::Audio { media, thumbnail } => MediaGroupItemView::Audio {
                media: media@,
                thumbnail: field_view_opt(*thumbnail),
            },
            MediaGroupInputMedia::Document { media } => MediaGroupItemView::Document {
                media: media@,
            },
            MediaGroupInputMedia::Photo { media } => MediaGroupItemView::Photo { media: media@ },
            MediaGroupInputMedia::Video { media, cover, thumbnail } => MediaGroupItemView::Video {
                media: media@,
                cover: field_view_opt(*cover),
                thumbnail: field_view_opt(*thumbnail),
            },
        }
    }
}

/// 1 for a pending field, 0 for a reference.
pub open spec fn pending_count(u: FileUpload) -> nat {
    match u {
        FileUpload::String(_) => 0,
        FileUpload::InputFile(_) => 1,
    }
}

/// [`pending_count`] on an optional field.
pub open spec fn pending_count_opt(o: Option<FileUpload>) -> nat {
    match o {
        Some(u) => pending_count(u),
        None => 0,
    }
}

/// How many binary parts one batch item contributes.
pub open spec fn item_pending_count(m: MediaGroupInputMedia) -> nat {
    match m {
        MediaGroupInputMedia::Audio { media, thumbnail } => pending_count(media)
            + pending_count_opt(thumbnail),
        MediaGroupInputMedia::Document { media } => pending_count(media),
        MediaGroupInputMedia::Photo { media } => pending_count(media),
        MediaGroupInputMedia::Video { media, cover, thumbnail } => pending_count(media)
            + pending_count_opt(cover) + pending_count_opt(thumbnail),
    }
}

/// The parts one batch item contributes when `start` parts were produced
/// before it: the shared `file<k>` numbering counts only extracted files.
pub open spec fn item_parts(m: MediaGroupInputMedia, start: nat) -> Seq<
    (Seq<char>, InputFileView),
> {
    match m {
        MediaGroupInputMedia::Audio { media, thumbnail } => parts_of(media, indexed_name(start))
            + parts_of_opt(thumbnail, indexed_name(start + pending_count(media))),
        MediaGroupInputMedia::Document { media } => parts_of(media, indexed_name(start)),
        MediaGroupInputMedia::Photo { media } => parts_of(media, indexed_name(start)),
        MediaGroupInputMedia::Video { media, cover, thumbnail } => parts_of(
            media,
            indexed_name(start),
        ) + parts_of_opt(cover, indexed_name(start + pending_count(media))) + parts_of_opt(
            thumbnail,
            indexed_name(start + pending_count(media) + pending_count_opt(cover)),
        ),
    }
}

/// The item value after its fields were visited with numbering from `start`.
pub open spec fn item_rewritten(m: MediaGroupInputMedia, start: nat) -> MediaGroupItemView {
    match m {
        MediaGroupInputMedia::Audio { media, thumbnail } => MediaGroupItemView::Audio {
            media: rewritten(media, indexed_name(start)),
            thumbnail: rewritten_opt(thumbnail, indexed_name(start + pending_count(media))),
        },
        MediaGroupInputMedia::Document { media } => MediaGroupItemView::Document {
            media: rewritten(media, indexed_name(start)),
        },
        MediaGroupInputMedia::Photo { media } => MediaGroupItemView::Photo {
            media: rewritten(media, indexed_name(start)),
        },
        MediaGroupInputMedia::Video { media, cover, thumbnail } => MediaGroupItemView::Video {
            media: rewritten(media, indexed_name(start)),
            cover: rewritten_opt(cover, indexed_name(start + pending_count(media))),
            thumbnail: rewritten_opt(
                thumbnail,
                indexed_name(start + pending_count(media) + pending_count_opt(cover)),
            ),
        },
    }
}

/// The parts of a whole batch, items in sequence order, numbering from
/// `start`.
pub open spec fn group_parts(items: Seq<MediaGroupInputMedia>, start: nat) -> Seq<
    (Seq<char>, InputFileView),
>
    decreases items.len(),
{
    if items.len() == 0 {
        Seq::empty()
    } else {
        item_parts(items[0], start) + group_parts(
            items.drop_first(),
            start + item_pending_count(items[0]),
        )
    }
}

/// The total number of pending files in a batch.
pub open spec fn group_pending_count(items: Seq<MediaGroupInputMedia>) -> nat
    decreases items.len(),
{
    if items.len() == 0 {
        0
    } else {
        item_pending_count(items[0]) + group_pending_count(items.drop_first())
    }
}

proof fn lemma_group_snoc(items: Seq<MediaGroupInputMedia>, m: MediaGroupInputMedia, start: nat)
    ensures
        group_pending_count(items.push(m)) == group_pending_count(items) + item_pending_count(m),
        group_parts(items.push(m), start) == group_parts(items, start) + item_parts(
            m,
            start + group_pending_count(items),
        ),
    decreases items.len(),
{
    let grown = items.push(m);
    if items.len() == 0 {
        assert(grown[0] == m);
        assert(grown.drop_first() =~= Seq::<MediaGroupInputMedia>::empty());
        assert(group_pending_count(grown.drop_first()) == 0);
        assert(group_parts(grown.drop_first(), start + item_pending_count(m)) =~= Seq::<
            (Seq<char>, InputFileView),
        >::empty());
        assert(group_pending_count(items) == 0);
        assert(group_parts(items, start) =~= Seq::<(Seq<char>, InputFileView)>::empty());
        assert(group_parts(grown, start) =~= group_parts(items, start) + item_parts(
            m,
            start + group_pending_count(items),
        ));
    } else {
        assert(grown[0] == items[0]);
        assert(grown.drop_first() =~= items.drop_first().push(m));
        lemma_group_snoc(items.drop_first(), m, start + item_pending_count(items[0]));
        assert(group_pending_count(grown) == item_pending_count(grown[0]) + group_pending_count(
            grown.drop_first(),
        ));
        assert(group_parts(grown, start) == item_parts(grown[0], start) + group_parts(
            grown.drop_first(),
            start + item_pending_count(grown[0]),
        ));
        assert(group_parts(grown, start) =~= group_parts(items, start) + item_parts(
            m,
            start + group_pending_count(items),
        ));
    }
}

/// Visit one batch item: its fields in order, primary first, each pending one
/// taking the next shared index.
fn visit_item(item: &mut MediaGroupInputMedia, files: &mut Vec<(String, InputFile)>)
    ensures
        final(item)@ == item_rewritten(*old(item), old(files)@.len()),
        extends_with(old(files)@, final(files)@, item_parts(*old(item), old(files)@.len())),
{
    match item {
        MediaGroupInputMedia::Audio { media, thumbnail } => {
            let at = files.len();
            visit_field_at(media, at, files);
            let ghost mid = files@;
            let at2 = files.len();
            visit_field_at_opt(thumbnail, at2, files);
            proof {
                lemma_extends_concat(
                    old(files)@,
                    mid,
                    files@,
                    parts_of(old(item)->Audio_media, indexed_name(old(files)@.len())),
                    parts_of_opt(
                        old(item)->Audio_thumbnail,
                        indexed_name(old(files)@.len() + pending_count(old(item)->Audio_media)),
                    ),
                );
            }
        },
        MediaGroupInputMedia::Document { media } => {
            let at = files.len();
            visit_field_at(media, at, files);
        },
        MediaGroupInputMedia::Photo { media } => {
            let at = files.len();
            visit_field_at(media, at, files);
        },
        MediaGroupInputMedia::Video { media, cover, thumbnail } => {
            let at = files.len();
            visit_field_at(media, at, files);
            let ghost first = files@;
            let at2 = files.len();
            visit_field_at_opt(cover, at2, files);
            let ghost second = files@;
            let at3 = files.len();
            visit_field_at_opt(thumbnail, at3, files);
            proof {
                lemma_extends_concat(
                    old(files)@,
                    first,
                    second,
                    parts_of(old(item)->Video_media, indexed_name(old(files)@.len())),
                    parts_of_opt(
                        old(item)->Video_cover,
                        indexed_name(old(files)@.len() + pending_count(old(item)->Video_media)),
                    ),
                );
                lemma_extends_concat(
                    old(files)@,
                    second,
                    files@,
                    parts_of(old(item)->Video_media, indexed_name(old(files)@.len()))
                        + parts_of_opt(
                        old(item)->Video_cover,
                        indexed_name(old(files)@.len() + pending_count(old(item)->Video_media)),
                    ),
                    parts_of_opt(
                        old(item)->Video_thumbnail,
                        indexed_name(
                            old(files)@.len() + pending_count(old(item)->Video_media)
                                + pending_count_opt(old(item)->Video_cover),
                        ),
                    ),
                );
            }
        },
    }
}

/// Wiring of "send a media group": visit the items in sequence order, within
/// an item the primary field before the secondary ones; the `file<k>` indices
/// are shared across the whole batch, counting only extracted files, so the
/// names are unique within the call.
pub fn extract_media_group(items: &mut Vec<MediaGroupInputMedia>) -> (files: Vec<
    (String, InputFile),
>)
    ensures
        final(items)@.len() == old(items)@.len(),
        forall|i: int|
            0 <= i < old(items)@.len() ==> (#[trigger] final(items)@[i])@ == item_rewritten(
                old(items)@[i],
                group_pending_count(old(items)@.take(i)),
            ),
        parts_match(files@, group_parts(old(items)@, 0)),
        files@.len() == group_pending_count(old(items)@),
{
    let ghost items0 = items@;
    let mut files: Vec<(String, InputFile)> = Vec::new();
    let n = items.len();
    let mut idx: usize = 0;
    while idx < n
        invariant
            n == items@.len(),
            items@.len() == items0.len(),
            idx <= n,
            forall|i: int| idx <= i < n ==> items@[i] == items0[i],
            forall|i: int|
                0 <= i < idx ==> (#[trigger] items@[i])@ == item_rewritten(
                    items0[i],
                    group_pending_count(items0.take(i)),
                ),
            files@.len() == group_pending_count(items0.take(idx as int)),
            extends_with(Seq::empty(), files@, group_parts(items0.take(idx as int), 0)),
        decreases n - idx,
    {
        let ghost pre_files = files@;
        let item = &mut items[idx];
        visit_item(item, &mut files);
        proof {
            assert(items0.take(idx as int).push(items0[idx as int]) =~= items0.take(
                idx + 1 as int,
            ));
            lemma_group_snoc(items0.take(idx as int), items0[idx as int], 0);
            lemma_extends_concat(
                Seq::empty(),
                pre_files,
                files@,
                group_parts(items0.take(idx as int), 0),
                item_parts(items0[idx as int], group_pending_count(items0.take(idx as int))),
            );
        }
        idx += 1;
    }
    proof {
        assert(items0.take(n as int) =~= items0);
        lemma_extends_from_empty(files@, group_parts(items0, 0));
    }
    files
}

} // verus!

verus! {

/// The parts of "create a new sticker set": the sticker at position `i` is
/// named `file<at+i>` by its position, whether or not earlier stickers were
/// pending, so a reference sticker still consumes its index.
pub open spec fn sticker_set_parts(stickers: Seq<FileUpload>, at: nat) -> Seq<
    (Seq<char>, InputFileView),
>
    decreases stickers.len(),
{
    if stickers.len() == 0 {
        Seq::empty()
    } else {
        parts_of(stickers[0], indexed_name(at)) + sticker_set_parts(stickers.drop_first(), at + 1)
    }
}

proof fn lemma_sticker_set_snoc(stickers: Seq<FileUpload>, u: FileUpload, at: nat)
    ensures
        sticker_set_parts(stickers.push(u), at) == sticker_set_parts(stickers, at) + parts_of(
            u,
            indexed_name(at + stickers.len()),
        ),
    decreases stickers.len(),
{
    let grown = stickers.push(u);
    if stickers.len() == 0 {
        assert(grown[0] == u);
        assert(grown.drop_first() =~= Seq::<FileUpload>::empty());
        assert(sticker_set_parts(grown.drop_first(), at + 1) =~= Seq::<
            (Seq<char>, InputFileView),
        >::empty());
        assert(sticker_set_parts(stickers, at) =~= Seq::<(Seq<char>, InputFileView)>::empty());
        assert(sticker_set_parts(grown, at) =~= sticker_set_parts(stickers, at) + parts_of(
            u,
            indexed_name(at + stickers.len()),
        ));
    } else {
        assert(grown[0] == stickers[0]);
        assert(grown.drop_first() =~= stickers.drop_first().push(u));
        lemma_sticker_set_snoc(stickers.drop_first(), u, at + 1);
        assert(sticker_set_parts(grown, at) == parts_of(grown[0], indexed_name(at))
            + sticker_set_parts(grown.drop_first(), at + 1));
        assert(sticker_set_parts(grown, at) =~= sticker_set_parts(stickers, at) + parts_of(
            u,
            indexed_name(at + stickers.len()),
        ));
    }
}

/// Wiring of "create a new sticker set": visit the sticker files in sequence
/// order, numbering by item position.
pub fn extract_new_sticker_set(stickers: &mut Vec<FileUpload>) -> (files: Vec<
    (String, InputFile),
>)
    ensures
        final(stickers)@.len() == old(stickers)@.len(),
        forall|i: int|
            0 <= i < old(stickers)@.len() ==> (#[trigger] final(stickers)@[i])@ == rewritten(
                old(stickers)@[i],
                indexed_name(i as nat),
            ),
        parts_match(files@, sticker_set_parts(old(stickers)@, 0)),
{
    let ghost stickers0 = stickers@;
    let mut files: Vec<(String, InputFile)> = Vec::new();
    let n = stickers.len();
    let mut idx: usize = 0;
    while idx < n
        invariant
            n == stickers@.len(),
            stickers@.len() == stickers0.len(),
            idx <= n,
            forall|i: int| idx <= i < n ==> stickers@[i] == stickers0[i],
            forall|i: int|
                0 <= i < idx ==> (#[trigger] stickers@[i])@ == rewritten(
                    stickers0[i],
                    indexed_name(i as nat),
                ),
            extends_with(Seq::empty(), files@, sticker_set_parts(stickers0.take(idx as int), 0)),
        decreases n - idx,
    {
        let ghost pre_files = files@;
        let sticker = &mut stickers[idx];
        visit_field_at(sticker, idx, &mut files);
        proof {
            assert(stickers0.take(idx as int).push(stickers0[idx as int]) =~= stickers0.take(
                idx + 1 as int,
            ));
            lemma_sticker_set_snoc(stickers0.take(idx as int), stickers0[idx as int], 0);
            lemma_extends_concat(
                Seq::empty(),
                pre_files,
                files@,
                sticker_set_parts(stickers0.take(idx as int), 0),
                parts_of(stickers0[idx as int], indexed_name(idx as nat)),
            );
        }
        idx += 1;
    }
    proof {
        assert(stickers0.take(n as int) =~= stickers0);
        lemma_extends_from_empty(files@, sticker_set_parts(stickers0, 0));
    }
    files
}

/// One batch item produces one part per pending field, and the part at
/// offset `j` within the item is named `file<start+j>`.
proof fn lemma_item_part_names(m: MediaGroupInputMedia, start: nat)
    ensures
        item_parts(m, start).len() == item_pending_count(m),
        forall|j: int|
            0 <= j < item_parts(m, start).len() ==> (#[trigger] item_parts(m, start)[j]).0
                == indexed_name(start + j as nat),
{
    let parts = item_parts(m, start);
    assert forall|j: int| 0 <= j < parts.len() implies (#[trigger] parts[j]).0 == indexed_name(
        start + j as nat,
    ) by {
        match m {
            MediaGroupInputMedia::Audio { media, thumbnail } => {
                assert(parts == parts_of(media, indexed_name(start)) + parts_of_opt(
                    thumbnail,
                    indexed_name(start + pending_count(media)),
                ));
            },
            MediaGroupInputMedia::Document { media } => {
                assert(parts == parts_of(media, indexed_name(start)));
            },
            MediaGroupInputMedia::Photo { media } => {
                assert(parts == parts_of(media, indexed_name(start)));
            },
            MediaGroupInputMedia::Video { media, cover, thumbnail } => {
                assert(parts == parts_of(media, indexed_name(start)) + parts_of_opt(
                    cover,
                    indexed_name(start + pending_count(media)),
                ) + parts_of_opt(
                    thumbnail,
                    indexed_name(start + pending_count(media) + pending_count_opt(cover)),
                ));
            },
        }
    }
}

/// Law: a batch pass with shared numbering from `start` produces exactly one
/// part per pending field, and the `k`-th part of the list is named
/// `file<start+k>`, in visitation order.
pub proof fn lemma_group_part_names(items: Seq<MediaGroupInputMedia>, start: nat)
    ensures
        group_parts(items, start).len() == group_pending_count(items),
        forall|k: int|
            0 <= k < group_parts(items, start).len() ==> (#[trigger] group_parts(items, start)[k]).0
                == indexed_name(start + k as nat),
    decreases items.len(),
{
    if items.len() > 0 {
        let head_parts = item_parts(items[0], start);
        let tail_start = start + item_pending_count(items[0]);
        let tail_parts = group_parts(items.drop_first(), tail_start);
        lemma_item_part_names(items[0], start);
        lemma_group_part_names(items.drop_first(), tail_start);
        assert forall|k: int| 0 <= k < group_parts(items, start).len() implies (#[trigger] group_parts(
            items,
            start,
        )[k]).0 == indexed_name(start + k as nat) by {
            if k < head_parts.len() {
                assert(group_parts(items, start)[k] == head_parts[k]);
            } else {
                assert(group_parts(items, start)[k] == tail_parts[k - head_parts.len()]);
            }
        }
    }
}

/// Law: a media-group part list has one entry per pending field, and its
/// names are pairwise distinct.
pub proof fn lemma_media_group_names_unique(
    files: Seq<(String, InputFile)>,
    items: Seq<MediaGroupInputMedia>,
)
    requires
        parts_match(files, group_parts(items, 0)),
    ensures
        files.len() == group_pending_count(items),
        forall|k1: int, k2: int|
            0 <= k1 < k2 < files.len() ==> (#[trigger] files[k1]).0@ != (#[trigger] files[k2]).0@,
{
    lemma_group_part_names(items, 0);
    lemma_group_part_names_distinct(items, 0);
    assert forall|k1: int, k2: int| 0 <= k1 < k2 < files.len() implies (#[trigger] files[k1]).0@
        != (#[trigger] files[k2]).0@ by {
        assert(files[k1].0@ == group_parts(items, 0)[k1].0);
        assert(files[k2].0@ == group_parts(items, 0)[k2].0);
    }
}

/// Law: the part names of one batch pass are pairwise distinct.
pub proof fn lemma_group_part_names_distinct(items: Seq<MediaGroupInputMedia>, start: nat)
    ensures
        forall|k1: int, k2: int|
            0 <= k1 < k2 < group_parts(items, start).len() ==> (#[trigger] group_parts(
                items,
                start,
            )[k1]).0 != (#[trigger] group_parts(items, start)[k2]).0,
{
    lemma_group_part_names(items, start);
    assert forall|k1: int, k2: int|
        0 <= k1 < k2 < group_parts(items, start).len() implies (#[trigger] group_parts(
        items,
        start,
    )[k1]).0 != (#[trigger] group_parts(items, start)[k2]).0 by {
        if group_parts(items, start)[k1].0 == group_parts(items, start)[k2].0 {
            crate::names::lemma_indexed_name_injective(start + k1 as nat, start + k2 as nat);
        }
    }
}

} // verus!
