use mpd_info_screen::unicode_support::{
    any_glyph, font_file_result, font_has_char, get_matching_font_from_char, get_matching_font_from_str,
    FcConfigWr, FTLibrary,
};

#[test]
fn test_ascii_verify() {
    let fetched_path =
        get_matching_font_from_char('a').expect("Should be able to find match for 'a'");
    if !font_has_char('a', &fetched_path).expect("Should be able to check font for 'a'") {
        panic!("fetched font does not have 'a'");
    }
    let fetched_path =
        get_matching_font_from_str("text").expect("Should be able to find match for 'text'");
    if !font_has_char('t', &fetched_path).expect("Shouuld be able to check font for 't'") {
        panic!("fetched font does not have 't'");
    }
    if !font_has_char('e', &fetched_path).expect("Shouuld be able to check font for 'e'") {
        panic!("fetched font does not have 'e'");
    }
    if !font_has_char('x', &fetched_path).expect("Shouuld be able to check font for 'x'") {
        panic!("fetched font does not have 'x'");
    }
}

#[test]
fn test_ascii_fetching() {
    let fetched_path =
        get_matching_font_from_char('a').expect("Should be able to find match for 'a'");
    println!("{:?}", fetched_path);
}

#[test]
fn glyph_search_needs_one_hit() {
    assert!(!any_glyph(&vec![]));
    assert!(!any_glyph(&vec![None, None]));
    assert!(any_glyph(&vec![None, Some(36)]));
}

#[test]
fn missing_font_file_is_an_error() {
    let path = std::path::PathBuf::from("/nonexistent/font.ttf");
    assert!(font_has_char('a', &path).is_err());
}

#[test]
fn library_opens_every_face_of_a_font() {
    let path = get_matching_font_from_char('a').expect("a font for 'a'");
    let mut library = FTLibrary::new().expect("FreeType initialises");
    assert_eq!(library.face_count(), 0);
    library.init_faces(&path).expect("the font opens");
    assert!(library.face_count() >= 1);
    assert!(library.has_char('a'));
    library.drop_faces();
    assert_eq!(library.face_count(), 0);
    assert!(!library.has_char('a'));
    assert!(FcConfigWr::new().is_ok());
}

#[test]
fn font_without_file_is_an_error() {
    assert_eq!(
        font_file_result(None, "Empty result_vec for get_matching_font_from_char"),
        Err(String::from("Empty result_vec for get_matching_font_from_char"))
    );
    assert_eq!(
        font_file_result(Some(String::from("/f.ttf")), "none"),
        Ok(String::from("/f.ttf"))
    );
}

#[test]
fn glyph_indices_cover_every_face() {
    let path = get_matching_font_from_char('a').expect("a font for 'a'");
    let mut library = FTLibrary::new().expect("FreeType initialises");
    library.init_faces(&path).expect("the font opens");
    let indices = library.glyph_indices('a');
    assert_eq!(indices.len(), library.face_count());
    assert!(indices.iter().any(|i| i.is_some()));
}
