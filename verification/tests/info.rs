use bevy_mod_aseprite::{
    asset_path, slice_constants, tag_constants, AnimationDirection, AsepriteInfo,
    AsepriteLoaderError, Color, DecodeError, PackError, Palette, Slice, SliceKey, SpriteData, Tag,
};

fn tag(name: &str, start: u16, end: u16) -> Tag {
    Tag { name: name.to_string(), start, end, direction: AnimationDirection::Forward, repeat: None }
}

fn data(dimensions: (u16, u16), durations: Vec<u16>, tags: Vec<Tag>) -> SpriteData {
    SpriteData {
        dimensions,
        frame_durations: durations,
        tags,
        slices: Vec::new(),
        palette: None,
        transparent_palette: 0,
    }
}

#[test]
fn info_keeps_sound_data() {
    let key = SliceKey {
        frame_number: 0,
        x: 1,
        y: 2,
        width: 3,
        height: 4,
        nine_patch: None,
        pivot: None,
    };
    let info = AsepriteInfo::new(SpriteData {
        dimensions: (16, 8),
        frame_durations: vec![100, 1, 65535],
        tags: vec![tag("a", 0, 2), tag("b", 2, 2)],
        slices: vec![Slice { name: "s".to_string(), keys: vec![key] }],
        palette: Some(Palette { colors: vec![Color { red: 1, green: 2, blue: 3, alpha: 4 }] }),
        transparent_palette: 9,
    })
    .unwrap();
    assert_eq!(info.dimensions(), (16, 8));
    assert_eq!(info.frame_count(), 3);
    assert_eq!(info.frame_durations(), &vec![100, 1, 65535]);
    assert_eq!(info.frame_duration(2), Some(65535));
    assert_eq!(info.frame_duration(3), None);
    assert_eq!(info.tags().len(), 2);
    assert_eq!(info.tag(&"b".to_string()).unwrap().start, 2);
    assert!(info.tag(&"c".to_string()).is_none());
    assert_eq!(info.slices()[0].keys, vec![key]);
    assert_eq!(info.slice(&"s".to_string()), Some(&vec![key]));
    assert_eq!(info.slice(&"a".to_string()), None);
    assert_eq!(info.palette().as_ref().unwrap().colors[0].blue, 3);
    assert_eq!(info.transparent_palette(), 9);
}

#[test]
fn info_refuses_data_that_playback_cannot_use() {
    let refused = |d: SpriteData| AsepriteInfo::new(d).unwrap_err() == DecodeError::Malformed;
    assert!(AsepriteInfo::new(data((1, 1), vec![1], Vec::new())).is_ok());
    // no frame
    assert!(refused(data((1, 1), Vec::new(), Vec::new())));
    // no pixel
    assert!(refused(data((0, 1), vec![1], Vec::new())));
    assert!(refused(data((1, 0), vec![1], Vec::new())));
    // a frame that is shown for no time
    assert!(refused(data((1, 1), vec![5, 0, 5], Vec::new())));
    // a tag that ends after the last frame
    assert!(refused(data((1, 1), vec![5, 5], vec![tag("t", 1, 2)])));
    // a tag that runs backwards
    assert!(refused(data((1, 1), vec![5, 5], vec![tag("t", 1, 0)])));
    assert!(AsepriteInfo::new(data((1, 1), vec![5, 5], vec![tag("t", 0, 1), tag("u", 1, 1)])).is_ok());
}

#[test]
fn constants_are_named_in_shouty_snake_case() {
    let mut d = data((1, 1), vec![5], vec![tag("walk cycle", 0, 0), tag("idle", 0, 0), tag("jumpUp", 0, 0)]);
    d.slices = vec![Slice { name: "hit-box".to_string(), keys: Vec::new() }];
    let info = AsepriteInfo::new(d).unwrap();
    let tags: Vec<(String, String)> =
        tag_constants(&info).into_iter().map(|c| (c.ident, c.value)).collect();
    assert_eq!(
        tags,
        vec![
            ("WALK_CYCLE".to_string(), "walk cycle".to_string()),
            ("IDLE".to_string(), "idle".to_string()),
            ("JUMP_UP".to_string(), "jumpUp".to_string()),
        ]
    );
    let slices: Vec<(String, String)> =
        slice_constants(&info).into_iter().map(|c| (c.ident, c.value)).collect();
    assert_eq!(slices, vec![("HIT_BOX".to_string(), "hit-box".to_string())]);
    assert_eq!(asset_path("player.ase"), "assets/player.ase");
}

#[test]
fn errors_have_a_sentence_each() {
    assert_eq!(DecodeError::Malformed.message(), "the file is malformed");
    assert_eq!(DecodeError::Unsupported.message(), "the file uses an unsupported feature");
    assert_eq!(PackError::EmptyInput.message(), "there are no frames to pack");
    assert_eq!(PackError::CapacityExceeded.message(), "the frames do not fit into one atlas");
    assert_eq!(PackError::Rejected.message(), "the frames could not be packed into an atlas");
    assert_eq!(
        AsepriteLoaderError::Decode(DecodeError::Malformed).message(),
        DecodeError::Malformed.message()
    );
    assert_eq!(
        AsepriteLoaderError::Pack(PackError::EmptyInput).message(),
        PackError::EmptyInput.message()
    );
}

#[test]
fn of_slices_with_one_name_the_last_counts() {
    let key = |x: i32| SliceKey {
        frame_number: 0,
        x,
        y: 0,
        width: 1,
        height: 1,
        nine_patch: None,
        pivot: None,
    };
    let mut d = data((1, 1), vec![5], vec![tag("t", 0, 0), tag("u", 0, 0), tag("t", 0, 0)]);
    d.tags[2].repeat = Some(4);
    d.slices = vec![
        Slice { name: "a".to_string(), keys: vec![key(1)] },
        Slice { name: "b".to_string(), keys: vec![key(2), key(3)] },
        Slice { name: "a".to_string(), keys: Vec::new() },
    ];
    let info = AsepriteInfo::new(d).unwrap();
    assert_eq!(info.slice(&"a".to_string()), Some(&Vec::new()));
    assert_eq!(info.slice(&"b".to_string()), Some(&vec![key(2), key(3)]));
    assert_eq!(info.slice(&"c".to_string()), None);
    assert_eq!(info.slices().len(), 3);
    assert_eq!(info.tag(&"t".to_string()).unwrap().repeat, Some(4));
    assert_eq!(info.tag(&"u".to_string()).unwrap().repeat, None);
    assert_eq!(info.tags().len(), 3);
}
