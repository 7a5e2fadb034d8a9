use file_attach::extract::{
    choose_body_kind, extract_add_sticker_to_set, extract_edit_message_media, extract_media_group,
    extract_new_sticker_set, extract_profile_photo, extract_send_animation, extract_send_audio,
    extract_send_document, extract_send_photo, extract_send_sticker, extract_send_video,
    extract_send_video_note, extract_send_voice, extract_set_sticker_set_thumbnail,
    extract_story_content, set_chat_photo_parts, upload_sticker_file_parts, BodyKind, InputMedia,
    InputProfilePhoto, InputStoryContent, MediaGroupInputMedia,
};
use file_attach::input_file::{replace_attach_opt, FileUpload, InputFile};

#[test]
fn replace_attach_preserves_memory_bytes() {
    let data = vec![1_u8, 2, 3];
    let mut upload = FileUpload::from(InputFile::memory("demo.bin", data.clone()));

    let file = upload.replace_attach("payload").expect("should have bytes");

    match upload {
        FileUpload::String(ref value) => assert_eq!(value, "attach://payload"),
        FileUpload::InputFile(_) => panic!("file upload should be converted to attach"),
    }

    match file {
        InputFile::Memory {
            file_name,
            data: bytes,
        } => {
            assert_eq!(file_name, "demo.bin");
            assert_eq!(bytes.as_slice(), data.as_slice());
        }
        InputFile::Path(_) => panic!("expected memory variant"),
    }
}

#[test]
fn replace_attach_leaves_reference_untouched() {
    let mut upload = FileUpload::String(String::from("existing_file_id"));
    let taken = upload.replace_attach("demo");
    assert!(taken.is_none());
    assert_eq!(upload, FileUpload::String(String::from("existing_file_id")));
}

#[test]
fn replace_attach_demo_scenario() {
    let mut field = FileUpload::from(InputFile::memory("demo.bin", vec![1u8, 2, 3]));
    let taken = field.replace_attach("demo");
    assert_eq!(taken, Some(InputFile::memory("demo.bin", vec![1u8, 2, 3])));
    assert_eq!(field, FileUpload::String(String::from("attach://demo")));
}

#[test]
fn replace_attach_dyn_skips_index_for_reference() {
    let mut upload = FileUpload::String(String::from("file_id"));
    let taken = upload.replace_attach_dyn(|| panic!("the index must not be drawn"));
    assert!(taken.is_none());
    assert_eq!(upload, FileUpload::String(String::from("file_id")));
}

#[test]
fn replace_attach_dyn_names_by_index() {
    let mut upload = FileUpload::from(InputFile::from_path("a/b.bin"));
    let taken = upload.replace_attach_dyn(|| 7usize);
    let (name, file) = taken.expect("pending upload must yield a part");
    assert_eq!(name, "file7");
    assert_eq!(file, InputFile::from_path("a/b.bin"));
    assert_eq!(upload, FileUpload::String(String::from("attach://file7")));
}

#[test]
fn replace_attach_opt_on_absent_field() {
    let mut field: Option<FileUpload> = None;
    let taken = replace_attach_opt(&mut field, "thumbnail");
    assert!(taken.is_none());
    assert!(field.is_none());
}

#[test]
fn send_video_end_to_end() {
    let clip = vec![10u8, 20, 30, 40];
    let thumb = vec![5u8, 6];
    let mut video = FileUpload::from(InputFile::memory("clip.mp4", clip.clone()));
    let mut cover = Some(FileUpload::String(String::from("file_id_123")));
    let mut thumbnail = Some(FileUpload::from(InputFile::memory("thumb.jpg", thumb.clone())));

    let files = extract_send_video(&mut video, &mut cover, &mut thumbnail);

    assert_eq!(video, FileUpload::String(String::from("attach://video")));
    assert_eq!(cover, Some(FileUpload::String(String::from("file_id_123"))));
    assert_eq!(
        thumbnail,
        Some(FileUpload::String(String::from("attach://thumbnail")))
    );
    assert_eq!(files.len(), 2);
    assert_eq!(files[0].0, "video");
    assert_eq!(files[0].1, InputFile::memory("clip.mp4", clip));
    assert_eq!(files[1].0, "thumbnail");
    assert_eq!(files[1].1, InputFile::memory("thumb.jpg", thumb));
    assert_eq!(choose_body_kind(&files), BodyKind::Multipart);
}

#[test]
fn send_photo_with_reference_goes_plain() {
    let mut photo = FileUpload::String(String::from("photo_id"));
    let files = extract_send_photo(&mut photo);
    assert!(files.is_empty());
    assert_eq!(photo, FileUpload::String(String::from("photo_id")));
    assert_eq!(choose_body_kind(&files), BodyKind::Plain);
}

#[test]
fn media_group_names_are_shared_and_ordered() {
    let mut items = vec![
        MediaGroupInputMedia::Video {
            media: FileUpload::from(InputFile::memory("v.mp4", vec![1u8])),
            cover: Some(FileUpload::String(String::from("cover_id"))),
            thumbnail: Some(FileUpload::from(InputFile::memory("t.jpg", vec![2u8]))),
        },
        MediaGroupInputMedia::Photo {
            media: FileUpload::String(String::from("photo_id")),
        },
        MediaGroupInputMedia::Audio {
            media: FileUpload::from(InputFile::from_path("song.mp3")),
            thumbnail: None,
        },
    ];

    let files = extract_media_group(&mut items);

    assert_eq!(files.len(), 3);
    assert_eq!(files[0].0, "file0");
    assert_eq!(files[0].1, InputFile::memory("v.mp4", vec![1u8]));
    assert_eq!(files[1].0, "file1");
    assert_eq!(files[1].1, InputFile::memory("t.jpg", vec![2u8]));
    assert_eq!(files[2].0, "file2");
    assert_eq!(files[2].1, InputFile::from_path("song.mp3"));

    for i in 0..files.len() {
        for j in 0..files.len() {
            if i != j {
                assert_ne!(files[i].0, files[j].0);
            }
        }
    }

    match &items[0] {
        MediaGroupInputMedia::Video {
            media,
            cover,
            thumbnail,
        } => {
            assert_eq!(*media, FileUpload::String(String::from("attach://file0")));
            assert_eq!(*cover, Some(FileUpload::String(String::from("cover_id"))));
            assert_eq!(
                *thumbnail,
                Some(FileUpload::String(String::from("attach://file1")))
            );
        }
        _ => panic!("expected the video item"),
    }
    match &items[1] {
        MediaGroupInputMedia::Photo { media } => {
            assert_eq!(*media, FileUpload::String(String::from("photo_id")));
        }
        _ => panic!("expected the photo item"),
    }
    match &items[2] {
        MediaGroupInputMedia::Audio { media, thumbnail } => {
            assert_eq!(*media, FileUpload::String(String::from("attach://file2")));
            assert!(thumbnail.is_none());
        }
        _ => panic!("expected the audio item"),
    }
}

#[test]
fn empty_media_group_yields_no_parts() {
    let mut items: Vec<MediaGroupInputMedia> = Vec::new();
    let files = extract_media_group(&mut items);
    assert!(files.is_empty());
    assert_eq!(choose_body_kind(&files), BodyKind::Plain);
}

#[test]
fn sticker_set_indices_follow_positions() {
    let mut stickers = vec![
        FileUpload::from(InputFile::memory("a.png", vec![1u8])),
        FileUpload::String(String::from("sticker_id")),
        FileUpload::from(InputFile::memory("b.png", vec![2u8])),
    ];

    let files = extract_new_sticker_set(&mut stickers);

    assert_eq!(files.len(), 2);
    assert_eq!(files[0].0, "file0");
    assert_eq!(files[0].1, InputFile::memory("a.png", vec![1u8]));
    assert_eq!(files[1].0, "file2");
    assert_eq!(files[1].1, InputFile::memory("b.png", vec![2u8]));
    assert_eq!(
        stickers[0],
        FileUpload::String(String::from("attach://file0"))
    );
    assert_eq!(stickers[1], FileUpload::String(String::from("sticker_id")));
    assert_eq!(
        stickers[2],
        FileUpload::String(String::from("attach://file2"))
    );
}

#[test]
fn edit_message_media_uses_branch_names() {
    let mut media = InputMedia::Video {
        media: FileUpload::from(InputFile::memory("v.mp4", vec![1u8])),
        cover: Some(FileUpload::from(InputFile::memory("c.jpg", vec![2u8]))),
        thumbnail: Some(FileUpload::String(String::from("thumb_id"))),
    };

    let files = extract_edit_message_media(&mut media);

    assert_eq!(files.len(), 2);
    assert_eq!(files[0].0, "video_media");
    assert_eq!(files[1].0, "video_cover");
    match media {
        InputMedia::Video {
            media,
            cover,
            thumbnail,
        } => {
            assert_eq!(media, FileUpload::String(String::from("attach://video_media")));
            assert_eq!(
                cover,
                Some(FileUpload::String(String::from("attach://video_cover")))
            );
            assert_eq!(thumbnail, Some(FileUpload::String(String::from("thumb_id"))));
        }
        _ => panic!("expected the video branch"),
    }
}

#[test]
fn edit_message_media_photo_branch() {
    let mut media = InputMedia::Photo {
        media: FileUpload::from(InputFile::from_path("p.png")),
    };
    let files = extract_edit_message_media(&mut media);
    assert_eq!(files.len(), 1);
    assert_eq!(files[0].0, "photo_media");
    assert_eq!(files[0].1, InputFile::from_path("p.png"));
}

#[test]
fn profile_photo_branch_names() {
    let mut photo = InputProfilePhoto::Static {
        photo: FileUpload::from(InputFile::memory("me.png", vec![7u8])),
    };
    let files = extract_profile_photo(&mut photo);
    assert_eq!(files.len(), 1);
    assert_eq!(files[0].0, "photo_static");

    let mut animated = InputProfilePhoto::Animated {
        animation: FileUpload::String(String::from("anim_id")),
    };
    let files = extract_profile_photo(&mut animated);
    assert!(files.is_empty());
}

#[test]
fn story_content_branch_names() {
    let mut content = InputStoryContent::Video {
        video: FileUpload::from(InputFile::memory("story.mp4", vec![3u8])),
    };
    let files = extract_story_content(&mut content);
    assert_eq!(files.len(), 1);
    assert_eq!(files[0].0, "video_content");
    match content {
        InputStoryContent::Video { video } => {
            assert_eq!(
                video,
                FileUpload::String(String::from("attach://video_content"))
            );
        }
        _ => panic!("expected the video branch"),
    }
}

#[test]
fn add_sticker_to_set_uses_fixed_name() {
    let mut sticker = FileUpload::from(InputFile::memory("s.webp", vec![1u8, 2]));
    let files = extract_add_sticker_to_set(&mut sticker);
    assert_eq!(files.len(), 1);
    assert_eq!(files[0].0, "sticker_upload");
    assert_eq!(
        sticker,
        FileUpload::String(String::from("attach://sticker_upload"))
    );
}

#[test]
fn mandatory_file_operations_always_have_a_part() {
    let photo = InputFile::memory("chat.png", vec![1u8]);
    let files = set_chat_photo_parts(&photo);
    assert_eq!(files.len(), 1);
    assert_eq!(files[0].0, "photo");
    assert_eq!(files[0].1, photo);
    assert_eq!(choose_body_kind(&files), BodyKind::Multipart);

    let sticker = InputFile::from_path("s.png");
    let files = upload_sticker_file_parts(&sticker);
    assert_eq!(files.len(), 1);
    assert_eq!(files[0].0, "sticker");
    assert_eq!(files[0].1, sticker);
}

#[test]
fn remaining_flat_operations_use_their_field_names() {
    let mut audio = FileUpload::from(InputFile::from_path("a.mp3"));
    let mut thumbnail = Some(FileUpload::from(InputFile::from_path("t.jpg")));
    let files = extract_send_audio(&mut audio, &mut thumbnail);
    assert_eq!(files.len(), 2);
    assert_eq!(files[0].0, "audio");
    assert_eq!(files[1].0, "thumbnail");
    assert_eq!(audio, FileUpload::String(String::from("attach://audio")));

    let mut document = FileUpload::from(InputFile::from_path("d.pdf"));
    let mut thumbnail: Option<FileUpload> = None;
    let files = extract_send_document(&mut document, &mut thumbnail);
    assert_eq!(files.len(), 1);
    assert_eq!(files[0].0, "document");
    assert!(thumbnail.is_none());

    let mut animation = FileUpload::String(String::from("anim_id"));
    let mut thumbnail = Some(FileUpload::from(InputFile::from_path("t.png")));
    let files = extract_send_animation(&mut animation, &mut thumbnail);
    assert_eq!(files.len(), 1);
    assert_eq!(files[0].0, "thumbnail");
    assert_eq!(animation, FileUpload::String(String::from("anim_id")));

    let mut voice = FileUpload::from(InputFile::from_path("v.ogg"));
    let files = extract_send_voice(&mut voice);
    assert_eq!(files.len(), 1);
    assert_eq!(files[0].0, "voice");

    let mut video_note = FileUpload::from(InputFile::from_path("n.mp4"));
    let mut thumbnail: Option<FileUpload> = None;
    let files = extract_send_video_note(&mut video_note, &mut thumbnail);
    assert_eq!(files.len(), 1);
    assert_eq!(files[0].0, "video_note");

    let mut thumbnail = Some(FileUpload::from(InputFile::from_path("s.png")));
    let files = extract_set_sticker_set_thumbnail(&mut thumbnail);
    assert_eq!(files.len(), 1);
    assert_eq!(files[0].0, "thumbnail");

    let mut sticker = FileUpload::from(InputFile::from_path("st.webp"));
    let files = extract_send_sticker(&mut sticker);
    assert_eq!(files.len(), 1);
    assert_eq!(files[0].0, "sticker");
}

#[test]
fn empty_data_buffer_is_preserved() {
    let mut upload = FileUpload::from(InputFile::memory("empty.bin", Vec::new()));
    let file = upload.replace_attach("part").expect("pending upload");
    assert_eq!(file, InputFile::memory("empty.bin", Vec::new()));
    assert_eq!(upload, FileUpload::String(String::from("attach://part")));
}
