use neelix::artwork::{attach_artwork, with_thumbnail};
use neelix::config::{names_from_entries, watched_processes, ConfigError};
use neelix::names::{add_watched, unique_names};
use neelix::event::MediaInfo;

fn info() -> MediaInfo {
    MediaInfo {
        title: Some("t".to_string()),
        artist: Some("a".to_string()),
        album: None,
        is_shuffle: Some(true),
        artwork: None,
    }
}

fn png(width: u32, height: u32) -> Vec<u8> {
    let img = image::RgbaImage::from_pixel(width, height, image::Rgba([1, 2, 3, 4]));
    let mut out = std::io::Cursor::new(Vec::new());
    img.write_to(&mut out, image::ImageFormat::Png).unwrap();
    out.into_inner()
}

#[test]
fn artwork_is_scaled_to_thumbnail_pixels() {
    let m = attach_artwork(info(), Some(png(100, 20))).unwrap();
    let art = m.artwork.unwrap();
    assert_eq!(art.len(), 4 * 50 * 10);
    assert_eq!(&art[0..4], &[1, 2, 3, 4]);
    assert_eq!(m.title, Some("t".to_string()));
    assert_eq!(m.is_shuffle, Some(true));
}

#[test]
fn small_artwork_is_not_enlarged_past_the_box() {
    let m = attach_artwork(info(), Some(png(10, 10))).unwrap();
    assert!(m.artwork.unwrap().len() <= 4 * 50 * 50);
}

#[test]
fn undecodable_artwork_drops_the_update() {
    assert!(attach_artwork(info(), Some(vec![1, 2, 3, 4, 5])).is_none());
}

#[test]
fn no_artwork_keeps_the_update() {
    let m = attach_artwork(info(), None).unwrap();
    assert_eq!(m.artwork, None);
    assert_eq!(m.artist, Some("a".to_string()));
}

#[test]
fn config_lists_each_name_once() {
    let text = "recognised_processes = [\"chrome.exe\", \"code\", \"chrome.exe\"]\n";
    assert_eq!(
        watched_processes(text),
        Ok(vec!["chrome.exe".to_string(), "code".to_string()])
    );
}

#[test]
fn config_without_key_watches_nothing() {
    assert_eq!(watched_processes("other = 1\n"), Ok(vec![]));
    assert_eq!(watched_processes(""), Ok(vec![]));
}

#[test]
fn config_errors() {
    assert_eq!(watched_processes("recognised_processes = 3"), Err(ConfigError::NotAList));
    assert_eq!(watched_processes("recognised_processes = [\"a\", 2]"), Err(ConfigError::NotText));
    assert_eq!(watched_processes("= = ="), Err(ConfigError::Parse));
}

#[test]
fn add_watched_skips_duplicates() {
    let mut names = vec!["a".to_string()];
    add_watched(&mut names, "a".to_string());
    add_watched(&mut names, "b".to_string());
    assert_eq!(names, vec!["a".to_string(), "b".to_string()]);
}

#[test]
fn thumbnail_becomes_the_artwork() {
    let m = with_thumbnail(info(), Some(vec![7, 7, 7, 7])).unwrap();
    assert_eq!(m.artwork, Some(vec![7, 7, 7, 7]));
    assert_eq!(m.title, Some("t".to_string()));
    assert!(with_thumbnail(info(), None).is_none());
}

#[test]
fn entries_become_unique_names() {
    let e = vec![Some("x".to_string()), Some("y".to_string()), Some("x".to_string())];
    assert_eq!(names_from_entries(&e), Ok(vec!["x".to_string(), "y".to_string()]));
    let bad = vec![Some("x".to_string()), None];
    assert_eq!(names_from_entries(&bad), Err(ConfigError::NotText));
    assert_eq!(names_from_entries(&vec![]), Ok(vec![]));
}

#[test]
fn unique_names_keeps_first_mentions() {
    let v = vec!["b".to_string(), "a".to_string(), "b".to_string(), "c".to_string(), "a".to_string()];
    assert_eq!(unique_names(&v), vec!["b".to_string(), "a".to_string(), "c".to_string()]);
}
