use raqm::{Direction, FontRef, Glyph, Phase, Position, Raqm, RaqmError};

fn glyph(cluster: u32, x_advance: i32) -> Glyph {
    Glyph {
        index: cluster + 100,
        x_advance,
        y_advance: 0,
        x_offset: 0,
        y_offset: 0,
        cluster,
        face: FontRef { id: 1 },
    }
}

fn configured(text: &str) -> Raqm {
    let mut session = Raqm::new(true).unwrap();
    session.set_text(text).unwrap();
    session
        .set_freetype_face(FontRef { id: 1 })
        .unwrap();
    session
}

fn laid_out(text: &str, glyphs: Vec<Glyph>) -> Raqm {
    let mut session = configured(text);
    session.layout(true).unwrap();
    let got = session.glyphs(Some(glyphs.clone())).unwrap();
    assert_eq!(got, glyphs);
    session
}

#[test]
fn create_failure_is_create_failed() {
    match Raqm::new(false) {
        Err(RaqmError::CreateFailed) => {}
        _ => panic!("creation without an engine must fail with CreateFailed"),
    }
}

#[test]
fn create_starts_in_created_phase() {
    let session = Raqm::new(true).unwrap();
    assert_eq!(session.phase(), Phase::Created);
    assert_eq!(session.text_len(), None);
}

#[test]
fn set_text_is_allowed_exactly_once() {
    let mut session = Raqm::new(true).unwrap();
    assert_eq!(session.set_text("Hello"), Ok(()));
    assert_eq!(session.phase(), Phase::TextSet);
    assert_eq!(session.set_text("again"), Err(RaqmError::Failed));
    assert_eq!(session.set_text_utf32(&[0x41]), Err(RaqmError::Failed));
    assert_eq!(session.phase(), Phase::TextSet);
}

#[test]
fn utf8_text_is_byte_indexed() {
    let mut session = Raqm::new(true).unwrap();
    session.set_text("h\u{e9}llo").unwrap();
    assert_eq!(session.text_len(), Some(6));
    assert_eq!(session.text_unit(0), Some(0x68));
    assert_eq!(session.text_unit(1), Some(0xC3));
    assert_eq!(session.text_unit(2), Some(0xA9));
    assert_eq!(session.text_unit(6), None);
}

#[test]
fn utf32_invalid_scalars_become_replacement() {
    let mut session = Raqm::new(true).unwrap();
    session
        .set_text_utf32(&[0x48, 0xD800, 0xDFFF, 0x110000, 0x10FFFF])
        .unwrap();
    assert_eq!(session.text_len(), Some(5));
    assert_eq!(session.text_unit(0), Some(0x48));
    assert_eq!(session.text_unit(1), Some(0xFFFD));
    assert_eq!(session.text_unit(2), Some(0xFFFD));
    assert_eq!(session.text_unit(3), Some(0xFFFD));
    assert_eq!(session.text_unit(4), Some(0x10FFFF));
}

#[test]
fn configuration_needs_text_first() {
    let mut session = Raqm::new(true).unwrap();
    assert_eq!(
        session.set_par_direction(Direction::RightToLeft),
        Err(RaqmError::Failed)
    );
    assert_eq!(session.set_language("en", 0, 0), Err(RaqmError::Failed));
    assert_eq!(
        session.set_freetype_face(FontRef { id: 1 }),
        Err(RaqmError::Failed)
    );
    assert_eq!(
        session.set_freetype_face_range(FontRef { id: 1 }, 0, 0),
        Err(RaqmError::Failed)
    );
    assert_eq!(session.set_freetype_load_flags(0), Err(RaqmError::Failed));
    assert_eq!(session.add_font_feature("dlig", 4), Err(RaqmError::Failed));
    assert_eq!(session.layout(true), Err(RaqmError::Failed));
}

#[test]
fn language_range_must_lie_within_text() {
    let mut session = Raqm::new(true).unwrap();
    session.set_text("0123456789").unwrap();
    assert_eq!(session.set_language("en", 0, 11), Err(RaqmError::Failed));
    assert_eq!(session.set_language("en", 7, 3), Err(RaqmError::Failed));
    assert_eq!(session.set_language("en", 0, 10), Ok(()));
}

#[test]
fn overlapping_languages_last_write_wins() {
    let mut session = Raqm::new(true).unwrap();
    session.set_text("0123456789").unwrap();
    session.set_language("en", 0, 5).unwrap();
    session.set_language("fr", 3, 8).unwrap();

    let mut only_fr = Raqm::new(true).unwrap();
    only_fr.set_text("0123456789").unwrap();
    only_fr.set_language("fr", 3, 8).unwrap();

    for i in 3..5 {
        assert_eq!(session.effective_language(i), Some(String::from("fr")));
        assert_eq!(session.effective_language(i), only_fr.effective_language(i));
    }
    assert_eq!(session.effective_language(0), Some(String::from("en")));
    assert_eq!(session.effective_language(2), Some(String::from("en")));
    assert_eq!(session.effective_language(5), Some(String::from("fr")));
    assert_eq!(session.effective_language(7), Some(String::from("fr")));
    assert_eq!(session.effective_language(8), None);
    assert_eq!(session.effective_language(9), None);
}

#[test]
fn overlapping_fonts_last_write_wins() {
    let mut session = Raqm::new(true).unwrap();
    session.set_text("abcdef").unwrap();
    session.set_freetype_face(FontRef { id: 1 }).unwrap();
    session
        .set_freetype_face_range(FontRef { id: 2 }, 2, 4)
        .unwrap();
    assert_eq!(session.effective_font(0), Some(FontRef { id: 1 }));
    assert_eq!(session.effective_font(2), Some(FontRef { id: 2 }));
    assert_eq!(session.effective_font(3), Some(FontRef { id: 2 }));
    assert_eq!(session.effective_font(4), Some(FontRef { id: 1 }));
    assert_eq!(session.effective_font(5), Some(FontRef { id: 1 }));
}

#[test]
fn font_feature_length_must_match() {
    let mut session = Raqm::new(true).unwrap();
    session.set_text("abc").unwrap();
    assert_eq!(session.add_font_feature("dlig", 3), Err(RaqmError::Failed));
    assert_eq!(session.add_font_feature("dlig", 4), Ok(()));
    assert_eq!(session.add_font_feature("ss01", 4), Ok(()));
}

#[test]
fn configuration_is_refused_after_layout() {
    let mut session = laid_out("Hello", vec![glyph(0, 10)]);
    assert_eq!(
        session.set_par_direction(Direction::LeftToRight),
        Err(RaqmError::Failed)
    );
    assert_eq!(session.set_language("en", 0, 5), Err(RaqmError::Failed));
    assert_eq!(
        session.set_freetype_face_range(FontRef { id: 1 }, 0, 5),
        Err(RaqmError::Failed)
    );
    assert_eq!(session.set_freetype_load_flags(0), Err(RaqmError::Failed));
    assert_eq!(session.add_font_feature("dlig", 4), Err(RaqmError::Failed));
}

#[test]
fn layout_is_single_shot() {
    let mut session = configured("Hello");
    assert_eq!(session.layout(true), Ok(()));
    assert_eq!(session.phase(), Phase::LaidOut);
    assert_eq!(session.layout(true), Err(RaqmError::Failed));
}

#[test]
fn failed_layout_refuses_a_retry() {
    let mut session = configured("Hello");
    assert_eq!(session.layout(false), Err(RaqmError::Failed));
    assert_eq!(session.phase(), Phase::TextSet);
    assert_eq!(session.layout(true), Err(RaqmError::Failed));
    assert_eq!(session.phase(), Phase::TextSet);
}

#[test]
fn uncovered_font_layout_failure_is_expected() {
    // Text "Hello" with no font range set: the engine reports the layout
    // run as failed, and the session surfaces exactly Failed.
    let mut session = Raqm::new(true).unwrap();
    session.set_text("Hello").unwrap();
    assert_eq!(session.text_len(), Some(5));
    assert_eq!(session.effective_font(0), None);
    assert_eq!(session.layout(false), Err(RaqmError::Failed));
    assert_eq!(session.index_to_position(0), Err(RaqmError::Failed));
}

#[test]
fn queries_before_layout_fail_with_failed() {
    let mut session = Raqm::new(true).unwrap();
    assert_eq!(session.glyphs(None), Err(RaqmError::Failed));
    assert_eq!(session.index_to_position(0), Err(RaqmError::Failed));
    assert_eq!(session.position_to_index(0, 0), Err(RaqmError::Failed));
    session.set_text("Hello").unwrap();
    assert_eq!(
        session.glyphs(Some(vec![glyph(0, 10)])),
        Err(RaqmError::Failed)
    );
    assert_eq!(session.index_to_position(3), Err(RaqmError::Failed));
    assert_eq!(session.position_to_index(7, 0), Err(RaqmError::Failed));
}

#[test]
fn glyph_retrieval_without_data_is_get_glyphs_failed() {
    let mut session = configured("Hello");
    session.layout(true).unwrap();
    assert_eq!(session.glyphs(None), Err(RaqmError::GetGlyphsFailed));
    // the failure caches nothing: a later hand-over still works
    let glyphs = vec![glyph(0, 10)];
    assert_eq!(session.glyphs(Some(glyphs.clone())), Ok(glyphs));
}

#[test]
fn malformed_glyph_arrays_are_refused() {
    let cases: Vec<Vec<Glyph>> = vec![
        // cluster outside the five-unit text
        vec![glyph(5, 10)],
        // negative advance
        vec![glyph(0, -1)],
        // no cluster at the text start
        vec![glyph(1, 10)],
        // a cluster torn in two
        vec![glyph(0, 10), glyph(1, 5), glyph(0, 7)],
    ];
    for bad in cases {
        let mut session = configured("Hello");
        session.layout(true).unwrap();
        assert_eq!(session.glyphs(Some(bad)), Err(RaqmError::Failed));
        // the refusal caches nothing
        let good = vec![glyph(0, 10)];
        assert_eq!(session.glyphs(Some(good.clone())), Ok(good));
    }
}

#[test]
fn glyphs_are_cached_after_hand_over() {
    let glyphs = vec![glyph(0, 10), glyph(1, 5)];
    let mut session = laid_out("Hello", glyphs.clone());
    // later calls return the cache, whatever is passed
    assert_eq!(session.glyphs(None), Ok(glyphs.clone()));
    assert_eq!(session.glyphs(Some(vec![glyph(0, 1)])), Ok(glyphs));
}

#[test]
fn index_to_position_ltr_exact() {
    let glyphs = vec![glyph(0, 10), glyph(1, 5), glyph(2, 7)];
    let mut session = laid_out("Hello", glyphs);
    assert_eq!(
        session.index_to_position(0),
        Ok(Position { index: 0, x: 10, y: 0 })
    );
    assert_eq!(
        session.index_to_position(1),
        Ok(Position { index: 1, x: 15, y: 0 })
    );
    assert_eq!(
        session.index_to_position(2),
        Ok(Position { index: 2, x: 22, y: 0 })
    );
    // an index between clusters snaps down to the nearest boundary
    assert_eq!(
        session.index_to_position(4),
        Ok(Position { index: 2, x: 22, y: 0 })
    );
}

#[test]
fn index_to_position_snaps_inside_a_wide_cluster() {
    // one cluster of two characters, shaped to two glyphs
    let glyphs = vec![glyph(0, 10), glyph(0, 4), glyph(2, 5)];
    let mut session = laid_out("abc", glyphs);
    assert_eq!(
        session.index_to_position(1),
        Ok(Position { index: 0, x: 14, y: 0 })
    );
    assert_eq!(
        session.index_to_position(2),
        Ok(Position { index: 2, x: 19, y: 0 })
    );
}

#[test]
fn index_to_position_rtl_uses_left_edges() {
    // visual order right-to-left: the last character comes first
    let glyphs = vec![glyph(2, 7), glyph(1, 5), glyph(0, 10)];
    let mut session = Raqm::new(true).unwrap();
    session.set_text("abc").unwrap();
    session.set_par_direction(Direction::RightToLeft).unwrap();
    session.set_freetype_face(FontRef { id: 1 }).unwrap();
    session.layout(true).unwrap();
    session.glyphs(Some(glyphs)).unwrap();
    assert_eq!(
        session.index_to_position(0),
        Ok(Position { index: 0, x: 12, y: 0 })
    );
    assert_eq!(
        session.index_to_position(1),
        Ok(Position { index: 1, x: 7, y: 0 })
    );
    assert_eq!(
        session.index_to_position(2),
        Ok(Position { index: 2, x: 0, y: 0 })
    );
}

#[test]
fn position_to_index_ltr_exact() {
    let glyphs = vec![glyph(0, 10), glyph(1, 5), glyph(2, 7)];
    let mut session = laid_out("Hello", glyphs);
    assert_eq!(session.position_to_index(-5, 0), Ok(0));
    assert_eq!(session.position_to_index(0, 0), Ok(0));
    assert_eq!(session.position_to_index(9, 0), Ok(0));
    assert_eq!(session.position_to_index(10, 0), Ok(1));
    assert_eq!(session.position_to_index(14, 0), Ok(1));
    assert_eq!(session.position_to_index(15, 0), Ok(2));
    assert_eq!(session.position_to_index(21, 0), Ok(2));
    // at or past the total extent: the visually last character
    assert_eq!(session.position_to_index(22, 0), Ok(2));
    assert_eq!(session.position_to_index(1000, 0), Ok(2));
}

#[test]
fn position_round_trip_stays_within_one_cluster() {
    let glyphs = vec![glyph(0, 10), glyph(1, 5), glyph(2, 7)];
    let mut session = laid_out("Hello", glyphs);
    for i in 0..3 {
        let p = session.index_to_position(i).unwrap();
        let back = session.position_to_index(p.x, p.y).unwrap();
        assert!(back == p.index || back == p.index + 1);
    }
}

#[test]
fn index_to_position_is_monotonic_ltr() {
    let glyphs = vec![glyph(0, 10), glyph(1, 5), glyph(2, 7), glyph(4, 3)];
    let mut session = laid_out("Hello", glyphs);
    let mut last_x = i32::MIN;
    let mut last_index = 0;
    for i in 0..5 {
        let p = session.index_to_position(i).unwrap();
        assert!(p.x >= last_x);
        assert!(p.index >= last_index);
        last_x = p.x;
        last_index = p.index;
    }
}

#[test]
fn position_round_trip_rtl_is_exact() {
    let glyphs = vec![glyph(2, 7), glyph(1, 5), glyph(0, 10)];
    let mut session = Raqm::new(true).unwrap();
    session.set_text("abc").unwrap();
    session.set_par_direction(Direction::RightToLeft).unwrap();
    session.set_freetype_face(FontRef { id: 1 }).unwrap();
    session.layout(true).unwrap();
    session.glyphs(Some(glyphs)).unwrap();
    for i in 0..3 {
        let p = session.index_to_position(i).unwrap();
        assert_eq!(session.position_to_index(p.x, p.y), Ok(p.index));
    }
}

#[test]
fn vertical_layout_uses_the_y_axis() {
    let mut glyphs = vec![glyph(0, 0), glyph(1, 0)];
    glyphs[0].y_advance = 4;
    glyphs[1].y_advance = 6;
    let mut session = Raqm::new(true).unwrap();
    session.set_text("ab").unwrap();
    session.set_par_direction(Direction::TopToBottom).unwrap();
    session.set_freetype_face(FontRef { id: 1 }).unwrap();
    session.layout(true).unwrap();
    session.glyphs(Some(glyphs)).unwrap();
    assert_eq!(session.position_to_index(0, 3), Ok(0));
    assert_eq!(session.position_to_index(0, 5), Ok(1));
    assert_eq!(
        session.index_to_position(0),
        Ok(Position { index: 0, x: 0, y: 4 })
    );
}

#[test]
fn empty_glyph_sequence_queries_are_total() {
    let mut session = laid_out("Hello", Vec::new());
    assert_eq!(
        session.index_to_position(3),
        Ok(Position { index: 0, x: 0, y: 0 })
    );
    assert_eq!(session.position_to_index(10, 0), Ok(0));
}

#[test]
fn can_layout_tracks_the_single_shot_window() {
    let mut session = Raqm::new(true).unwrap();
    assert!(!session.can_layout());
    session.set_text("Hello").unwrap();
    assert!(session.can_layout());
    session.layout(false).unwrap_err();
    assert!(!session.can_layout());
}

#[test]
fn empty_text_accepts_only_an_empty_glyph_sequence() {
    let mut session = Raqm::new(true).unwrap();
    session.set_text("").unwrap();
    assert_eq!(session.text_len(), Some(0));
    session.layout(true).unwrap();
    // any cluster would point outside a zero-length text
    assert_eq!(
        session.glyphs(Some(vec![glyph(0, 1)])),
        Err(RaqmError::Failed)
    );
    assert_eq!(session.glyphs(Some(Vec::new())), Ok(Vec::new()));
    assert_eq!(session.position_to_index(3, 0), Ok(0));
}

#[test]
fn destroy_releases_at_any_phase() {
    let created = Raqm::new(true).unwrap();
    created.destroy();

    let mut text_set = Raqm::new(true).unwrap();
    text_set.set_text("Hello").unwrap();
    text_set.destroy();

    let mut alive = laid_out("Hello", vec![glyph(0, 10)]);
    let dying = laid_out("World", vec![glyph(0, 3)]);
    dying.destroy();
    // a destroyed session leaves other live sessions untouched
    assert_eq!(
        alive.index_to_position(0),
        Ok(Position { index: 0, x: 10, y: 0 })
    );
}

#[test]
fn error_messages_name_the_failure() {
    assert_eq!(
        RaqmError::CreateFailed.message(),
        "engine create returned no session"
    );
    assert_eq!(
        RaqmError::GetGlyphsFailed.message(),
        "engine returned no glyph array"
    );
    assert_eq!(RaqmError::Failed.message(), "engine failure");
}

#[test]
fn direction_vertical_flag() {
    assert!(Direction::TopToBottom.is_vertical());
    assert!(!Direction::Default.is_vertical());
    assert!(!Direction::LeftToRight.is_vertical());
    assert!(!Direction::RightToLeft.is_vertical());
}
